use feed_poster::feed::{Category, Entry};
use feed_poster::schema::TagConfig;
use feed_poster::status::{
    dedup_case_insensitive, drop_containing, drop_numeric, format_tag, scraped_tags_of,
    select_tags, PageTags, TagPatterns,
};

fn strings(v: &[&str]) -> Vec<String> {
    v.iter().map(|s| s.to_string()).collect()
}

fn entry(title: &str, links: &[&str], cats: &[(&str, Option<&str>)]) -> Entry {
    Entry {
        title: Some(title.to_string()),
        links: strings(links),
        categories: cats
            .iter()
            .map(|(t, l)| Category { term: t.to_string(), label: l.map(|x| x.to_string()) })
            .collect(),
        published: Some(1_700_000_000),
        updated: None,
    }
}

#[test]
fn dedup_is_case_insensitive_and_keeps_first() {
    let tags = strings(&["Foo", "foo", "BAR"]);
    assert_eq!(dedup_case_insensitive(&tags), strings(&["Foo", "BAR"]));
    let tags = strings(&["x", "Y", "X", "y", "z"]);
    assert_eq!(dedup_case_insensitive(&tags), strings(&["x", "Y", "z"]));
}

#[test]
fn status_tags_dedup_case_insensitively() {
    let pats = TagPatterns::new().unwrap();
    let mut config = TagConfig::new();
    config.always = strings(&["foo", "BAR"]);
    let e = entry("Title", &[], &[]);
    let status = e.to_status(&"Foo".to_string(), &config, &vec![], &pats);
    assert_eq!(status, "Title\n\n#Foo #BAR");
}

#[test]
fn status_layout() {
    let pats = TagPatterns::new().unwrap();
    let config = TagConfig::new();
    let e = entry(
        "Release # notes",
        &["https://example.com/a", "https://example.com/b"],
        &[("rust", None), ("lang", Some("Rust Lang"))],
    );
    let status = e.to_status(&"blog".to_string(), &config, &vec![], &pats);
    assert_eq!(
        status,
        "Release #notes\nhttps://example.com/a\nhttps://example.com/b\n\n#blog #rust #Rust_Lang"
    );
}

#[test]
fn status_without_tags_has_no_tag_line() {
    let pats = TagPatterns::new().unwrap();
    let config = TagConfig::new();
    let e = entry("123 news", &["https://x.test/"], &[]);
    let status = e.to_status(&"123".to_string(), &config, &vec![], &pats);
    assert_eq!(status, "123 news\nhttps://x.test/\n");
}

#[test]
fn tag_formatting_joins_and_trims() {
    let pats = TagPatterns::new().unwrap();
    assert_eq!(format_tag(&pats, &"foo bar!".to_string()), "#foo_bar");
    assert_eq!(format_tag(&pats, &"--C++--".to_string()), "#C");
    assert_eq!(format_tag(&pats, &"日本語".to_string()), "#日本語");
}

#[test]
fn replace_and_ignore_patterns_apply() {
    let mut config = TagConfig::new();
    config.always = strings(&["tag-one", "skip-me", "2024", "keep"]);
    config.replace = strings(&["-one$", "("]);
    config.ignore = strings(&["^skip"]);
    let e = entry("Story", &[], &[]);
    let tags = select_tags(&"feed".to_string(), &e, &config, &vec![]);
    assert_eq!(tags, strings(&["feed", "tag", "keep"]));
}

#[test]
fn tags_containing_the_title_are_dropped() {
    let tags = strings(&["big news today", "news", "other"]);
    assert_eq!(drop_containing(&"news".to_string(), &tags), strings(&["other"]));
}

#[test]
fn empty_and_numeric_tags_are_dropped() {
    let tags = strings(&["", "42", "٣", "a1", "x"]);
    assert_eq!(drop_numeric(&tags), strings(&["a1", "x"]));
}

#[test]
fn scraped_keywords_are_split_and_trimmed() {
    let pages = vec![PageTags {
        keywords: strings(&[" alpha, beta ,gamma"]),
        nodes: strings(&["  node  "]),
    }];
    assert_eq!(scraped_tags_of(&pages, true), strings(&["alpha", "beta", "gamma", "node"]));
    assert_eq!(scraped_tags_of(&pages, false), strings(&["node"]));
    let wide = vec![PageTags { keywords: vec![], nodes: strings(&["\u{3000}全角\u{a0}\n"]) }];
    assert_eq!(scraped_tags_of(&wide, true), strings(&["全角"]));
}

#[test]
fn keywords_can_be_switched_off() {
    let mut config = TagConfig::new();
    config.keywords = Some(false);
    let pages = vec![PageTags { keywords: strings(&["kw"]), nodes: strings(&["nd"]) }];
    let e = entry("T", &[], &[]);
    assert_eq!(select_tags(&"f".to_string(), &e, &config, &pages), strings(&["f", "nd"]));
    config.keywords = None;
    assert_eq!(select_tags(&"f".to_string(), &e, &config, &pages), strings(&["f", "kw", "nd"]));
}

#[test]
fn merged_rules_put_global_first() {
    let mut global = TagConfig::new();
    global.always = strings(&["g"]);
    global.ignore = strings(&["gi"]);
    global.xpath = Some("//g".to_string());
    let mut own = TagConfig::new();
    own.always = strings(&["o"]);
    own.replace = strings(&["or"]);
    let merged = TagConfig::merge(&Some(global.clone()), &Some(own));
    assert_eq!(merged.always, strings(&["g", "o"]));
    assert_eq!(merged.ignore, strings(&["gi"]));
    assert_eq!(merged.replace, strings(&["or"]));
    assert_eq!(merged.xpath, None);
    assert_eq!(merged.keywords, None);
    let mut quiet = global.clone();
    quiet.keywords = Some(false);
    let mut own_quiet = TagConfig::new();
    own_quiet.keywords = Some(false);
    assert_eq!(TagConfig::merge(&Some(quiet), &Some(own_quiet)).keywords, None);
    let only_global = TagConfig::merge(&Some(global), &None);
    assert_eq!(only_global.xpath, Some("//g".to_string()));
    let none = TagConfig::merge(&None, &None);
    assert!(none.always.is_empty() && none.xpath.is_none());
}
