use feed_poster::feed::{Category, Entry};
use feed_poster::fresh::{determine_new, fresh_in_order, newest_postable, NewEntries};
use feed_poster::post_item::Model as Record;

const T0: i64 = 1_700_000_000;

fn entry(title: Option<&str>, link: Option<&str>, published: Option<i64>, updated: Option<i64>) -> Entry {
    Entry {
        title: title.map(|t| t.to_string()),
        links: link.map(|l| vec![l.to_string()]).unwrap_or_default(),
        categories: vec![Category { term: "c".to_string(), label: None }],
        published,
        updated,
    }
}

fn record(title: &str, link: &str, pub_date: i64) -> Record {
    Record {
        id: 1,
        source: "feed".to_string(),
        title: title.to_string(),
        link: link.to_string(),
        post_id: Some("9".to_string()),
        pub_date,
    }
}

#[test]
fn first_sight_records_newest_only() {
    let es = vec![
        entry(Some("a"), Some("l/a"), Some(T0), None),
        entry(Some("b"), Some("l/b"), Some(T0 + 50), None),
        entry(Some("c"), Some("l/c"), Some(T0 + 20), None),
    ];
    match determine_new(&es, &None, T0 + 100) {
        NewEntries::RecordOnly(i) => assert_eq!(i, 1),
        _ => panic!("first sight must record exactly one entry and post nothing"),
    }
}

#[test]
fn newest_skips_entries_without_title_or_link() {
    let es = vec![
        entry(Some("a"), Some("l/a"), Some(T0), None),
        entry(None, Some("l/b"), Some(T0 + 50), None),
        entry(Some("c"), None, Some(T0 + 60), None),
    ];
    assert_eq!(newest_postable(&es, T0), Some(0));
    let none = vec![entry(None, None, Some(T0), None)];
    assert_eq!(newest_postable(&none, T0), None);
    assert!(matches!(determine_new(&none, &None, T0), NewEntries::Nothing));
}

#[test]
fn newest_prefers_the_last_of_equals() {
    let es = vec![
        entry(Some("a"), Some("l/a"), Some(T0), None),
        entry(Some("b"), Some("l/b"), Some(T0), None),
    ];
    assert_eq!(newest_postable(&es, T0), Some(1));
}

#[test]
fn posts_only_later_entries_oldest_first() {
    let es = vec![
        entry(Some("d"), Some("l/d"), Some(T0 + 300), None),
        entry(Some("a"), Some("l/a"), Some(T0 - 100), None),
        entry(Some("b"), Some("l/b"), Some(T0), None),
        entry(Some("c"), Some("l/c"), Some(T0 + 100), None),
        entry(Some("e"), Some("l/e"), None, Some(T0 + 200)),
        entry(Some("f"), Some("l/f"), Some(T0 + 100), None),
    ];
    let last = Some(record("b", "l/b", T0));
    match determine_new(&es, &last, T0 + 400) {
        NewEntries::Post(idx) => assert_eq!(idx, vec![3, 5, 4, 0]),
        _ => panic!("expected entries to post"),
    }
}

#[test]
fn nothing_new_posts_nothing() {
    let es = vec![entry(Some("a"), Some("l/a"), Some(T0), None)];
    let last = Some(record("a", "l/a", T0));
    match determine_new(&es, &last, T0 + 400) {
        NewEntries::Post(idx) => assert!(idx.is_empty()),
        _ => panic!("expected an empty list"),
    }
}

#[test]
fn undated_feed_compares_identity() {
    let es = vec![
        entry(Some("new"), Some("l/new"), None, None),
        entry(Some("old"), Some("l/old"), None, None),
    ];
    let same = Some(record("new", "l/new", T0));
    assert!(matches!(determine_new(&es, &same, T0), NewEntries::Nothing));
    let other = Some(record("old", "l/old", T0));
    match determine_new(&es, &other, T0) {
        NewEntries::Post(idx) => assert_eq!(idx, vec![0]),
        _ => panic!("expected the first entry"),
    }
    let moved = Some(record("new", "l/elsewhere", T0));
    assert!(matches!(determine_new(&es, &moved, T0), NewEntries::Post(_)));
}

#[test]
fn ordering_breaks_ties_by_document_order() {
    let es = vec![
        entry(Some("x"), Some("l/x"), Some(T0 + 5), None),
        entry(Some("y"), Some("l/y"), Some(T0 + 5), None),
        entry(Some("z"), Some("l/z"), Some(T0 + 1), None),
    ];
    assert_eq!(fresh_in_order(&es, T0), vec![2, 0, 1]);
}

#[test]
fn record_captures_entry() {
    let e = entry(Some("title"), Some("l/1"), None, Some(T0 + 9));
    let r = Record::new_record(4, &"feed".to_string(), &e, T0);
    assert_eq!(r.id, 4);
    assert_eq!(r.source, "feed");
    assert_eq!(r.title, "title");
    assert_eq!(r.link, "l/1");
    assert_eq!(r.pub_date, T0 + 9);
    assert_eq!(r.post_id, None);
    let bare = entry(None, None, None, None);
    let r = Record::new_record(5, &"feed".to_string(), &bare, T0);
    assert_eq!(r.title, "");
    assert_eq!(r.link, "");
    assert_eq!(r.pub_date, T0);
    let posted = r.with_post_id("abc".to_string());
    assert_eq!(posted.post_id, Some("abc".to_string()));
    assert_eq!(posted.id, 5);
}

#[test]
fn publication_time_falls_back_to_updated() {
    let e = entry(Some("t"), Some("l"), None, Some(T0));
    assert_eq!(e.pub_date_utc(), Some(T0));
    assert_eq!(e.pub_date_utc_or(1), T0);
    let p = entry(Some("t"), Some("l"), Some(T0 + 1), Some(T0));
    assert_eq!(p.pub_date_utc(), Some(T0 + 1));
    let none = entry(Some("t"), Some("l"), None, None);
    assert_eq!(none.pub_date_utc(), None);
    assert_eq!(none.pub_date_utc_or(7), 7);
}
