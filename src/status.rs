use vstd::prelude::*;

use crate::chars::{
    all_numeric, comma_pieces, contains_text, is_all_numeric, occurs_in, push_char, split_commas,
    StringBuilderExt,
    strip_underscores, to_string, to_upper, trim, trim_underscores, trimmed, upper_of,
};
use crate::feed::{Category, Entry};
use crate::pattern::{
    compile_all, compiling, regex_compiles, regex_found, regex_replaced, sources, Pattern,
};
use crate::schema::{extend_strings, texts, TagConfig};

verus! {

/// What was read off one linked page: the `content` of each meta keywords tag, and the
/// text of each node that the configured XPath selected.
pub struct PageTags {
    pub keywords: Vec<String>,
    pub nodes: Vec<String>,
}

/// The tag a category gives: its label, else its term.
pub open spec fn category_tag(c: Category) -> Seq<char> {
    match c.label {
        Some(l) => l@,
        None => c.term@,
    }
}

/// The tags an entry gives before any page is read: the feed id, the entry's categories,
/// then the tags always added.
pub open spec fn base_tags(id: Seq<char>, e: Entry, always: Seq<String>) -> Seq<Seq<char>> {
    seq![id] + e.categories@.map_values(|c: Category| category_tag(c)) + texts(always)
}

/// Each text trimmed.
pub open spec fn all_trimmed(s: Seq<Seq<char>>) -> Seq<Seq<char>> {
    s.map_values(|t: Seq<char>| trimmed(t))
}

/// The comma-separated keywords of meta keyword contents, each trimmed.
pub open spec fn keyword_tags(contents: Seq<String>) -> Seq<Seq<char>>
    decreases contents.len(),
{
    if contents.len() == 0 {
        Seq::empty()
    } else {
        keyword_tags(contents.drop_last()) + all_trimmed(comma_pieces(contents.last()@))
    }
}

/// The tags that one page gives: its keywords where they are read, then its nodes' texts,
/// trimmed.
pub open spec fn page_tags(p: PageTags, read_keywords: bool) -> Seq<Seq<char>> {
    (if read_keywords {
        keyword_tags(p.keywords@)
    } else {
        Seq::empty()
    }) + all_trimmed(texts(p.nodes@))
}

/// The tags that the pages give, page by page.
pub open spec fn scraped_tags(pages: Seq<PageTags>, read_keywords: bool) -> Seq<Seq<char>>
    decreases pages.len(),
{
    if pages.len() == 0 {
        Seq::empty()
    } else {
        scraped_tags(pages.drop_last(), read_keywords) + page_tags(pages.last(), read_keywords)
    }
}

/// `t` with every match of each pattern, in turn, cut out.
pub open spec fn cut(ps: Seq<Seq<char>>, t: Seq<char>) -> Seq<char>
    decreases ps.len(),
{
    if ps.len() == 0 {
        t
    } else {
        regex_replaced(ps.last(), cut(ps.drop_last(), t), Seq::empty())
    }
}

/// Some pattern of `ps` matches `t`.
pub open spec fn matched_by_any(ps: Seq<Seq<char>>, t: Seq<char>) -> bool {
    exists|i: int| 0 <= i < ps.len() && regex_found(#[trigger] ps[i], t)
}

/// The tags that no pattern of `ps` matches, in order.
pub open spec fn unmatched(ps: Seq<Seq<char>>, tags: Seq<Seq<char>>) -> Seq<Seq<char>>
    decreases tags.len(),
{
    if tags.len() == 0 {
        Seq::empty()
    } else if matched_by_any(ps, tags.last()) {
        unmatched(ps, tags.drop_last())
    } else {
        unmatched(ps, tags.drop_last()).push(tags.last())
    }
}

/// The first tag of each group of tags equal up to case, in order.
pub open spec fn dedup_upper(tags: Seq<Seq<char>>) -> Seq<Seq<char>>
    decreases tags.len(),
{
    if tags.len() == 0 {
        Seq::empty()
    } else if exists|j: int| 0 <= j < tags.len() - 1 && upper_of(#[trigger] tags[j]) == upper_of(tags.last()) {
        dedup_upper(tags.drop_last())
    } else {
        dedup_upper(tags.drop_last()).push(tags.last())
    }
}

/// The tags that do not contain `title`, in order.
pub open spec fn without_title(title: Seq<char>, tags: Seq<Seq<char>>) -> Seq<Seq<char>>
    decreases tags.len(),
{
    if tags.len() == 0 {
        Seq::empty()
    } else if occurs_in(title, tags.last()) {
        without_title(title, tags.drop_last())
    } else {
        without_title(title, tags.drop_last()).push(tags.last())
    }
}

/// The tags that are not empty and not made of numerals alone, in order.
pub open spec fn wordy(tags: Seq<Seq<char>>) -> Seq<Seq<char>>
    decreases tags.len(),
{
    if tags.len() == 0 {
        Seq::empty()
    } else if tags.last().len() == 0 || all_numeric(tags.last()) {
        wordy(tags.drop_last())
    } else {
        wordy(tags.drop_last()).push(tags.last())
    }
}

/// The tags of an entry of feed `id` under rules `config`, with what the linked pages gave:
/// all candidates; patterns of `replace` cut out; those matching a pattern of `ignore`
/// dropped; repeats up to case dropped; those containing the title dropped; empty and
/// numeric ones dropped.
pub open spec fn chosen_tags(id: Seq<char>, e: Entry, config: TagConfig, pages: Seq<PageTags>) -> Seq<Seq<char>> {
    let read_keywords = match config.keywords {
        Some(b) => b,
        None => true,
    };
    let all = base_tags(id, e, config.always@) + scraped_tags(pages, read_keywords);
    let replaced = all.map_values(|t: Seq<char>| cut(compiling(texts(config.replace@)), t));
    let kept = unmatched(compiling(texts(config.ignore@)), replaced);
    let distinct = dedup_upper(kept);
    let titled = match e.title {
        Some(t) => without_title(t@, distinct),
        None => distinct,
    };
    wordy(titled)
}

/// The tag a category gives: its label, else its term.
pub fn category_tag_of(c: &Category) -> (r: String)
    ensures
        r@ == category_tag(*c),
{
    match &c.label {
        Some(l) => l.clone(),
        None => c.term.clone(),
    }
}

/// The feed id, the entry's categories, then the tags always added.
pub fn base_tags_of(id: &String, e: &Entry, always: &Vec<String>) -> (r: Vec<String>)
    ensures
        texts(r@) == base_tags(id@, *e, always@),
{
    let mut out: Vec<String> = Vec::new();
    out.push(id.clone());
    let mut i: usize = 0;
    proof {
        assert(texts(out@) =~= seq![id@] + e.categories@.take(0).map_values(|c: Category| category_tag(c)));
    }
    while i < e.categories.len()
        invariant
            i <= e.categories.len(),
            texts(out@) == seq![id@] + e.categories@.take(i as int).map_values(|c: Category| category_tag(c)),
        decreases e.categories.len() - i,
    {
        let ghost prev = out@;
        out.push(category_tag_of(&e.categories[i]));
        proof {
            assert(texts(out@) =~= texts(prev).push(category_tag(e.categories@[i as int])));
            assert(e.categories@.take(i + 1).map_values(|c: Category| category_tag(c)) =~= e.categories@.take(
                i as int,
            ).map_values(|c: Category| category_tag(c)).push(category_tag(e.categories@[i as int])));
        }
        i = i + 1;
    }
    proof {
        assert(e.categories@.take(e.categories.len() as int) =~= e.categories@);
    }
    let mut j: usize = 0;
    let ghost head = texts(out@);
    while j < always.len()
        invariant
            j <= always.len(),
            texts(out@) == head + texts(always@.take(j as int)),
        decreases always.len() - j,
    {
        let ghost prev = out@;
        out.push(always[j].clone());
        proof {
            assert(texts(out@) =~= texts(prev).push(always@[j as int]@));
            assert(texts(always@.take(j + 1)) =~= texts(always@.take(j as int)).push(always@[j as int]@));
        }
        j = j + 1;
    }
    proof {
        assert(always@.take(always.len() as int) =~= always@);
    }
    out
}

/// Appends each text of `src`, trimmed, to `dst`.
pub fn push_trimmed(dst: &mut Vec<String>, src: &Vec<String>)
    ensures
        texts(final(dst)@) == texts(old(dst)@) + all_trimmed(texts(src@)),
{
    let ghost start = texts(dst@);
    let mut i: usize = 0;
    while i < src.len()
        invariant
            i <= src.len(),
            texts(dst@) == start + all_trimmed(texts(src@.take(i as int))),
        decreases src.len() - i,
    {
        let ghost prev = dst@;
        let t = trim(src[i].as_str());
        dst.push(t);
        proof {
            assert(texts(dst@) =~= texts(prev).push(trimmed(src@[i as int]@)));
            assert(all_trimmed(texts(src@.take(i + 1))) =~= all_trimmed(texts(src@.take(i as int))).push(
                trimmed(src@[i as int]@),
            ));
        }
        i = i + 1;
    }
    proof {
        assert(src@.take(src.len() as int) =~= src@);
    }
}

/// The tags the pages give: per page, the comma-separated meta keywords where they are
/// read, then the nodes' texts, all trimmed.
pub fn scraped_tags_of(pages: &Vec<PageTags>, read_keywords: bool) -> (r: Vec<String>)
    ensures
        texts(r@) == scraped_tags(pages@, read_keywords),
{
    let mut out: Vec<String> = Vec::new();
    let mut i: usize = 0;
    proof {
        assert(pages@.take(0) =~= Seq::<PageTags>::empty());
        assert(texts(out@) =~= Seq::<Seq<char>>::empty());
    }
    while i < pages.len()
        invariant
            i <= pages.len(),
            texts(out@) == scraped_tags(pages@.take(i as int), read_keywords),
        decreases pages.len() - i,
    {
        let page = &pages[i];
        let ghost before = texts(out@);
        if read_keywords {
            let mut k: usize = 0;
            proof {
                assert(page.keywords@.take(0) =~= Seq::<String>::empty());
                assert(texts(out@) =~= before + keyword_tags(page.keywords@.take(0)));
            }
            while k < page.keywords.len()
                invariant
                    k <= page.keywords.len(),
                    texts(out@) == before + keyword_tags(page.keywords@.take(k as int)),
                decreases page.keywords.len() - k,
            {
                let pieces = split_commas(page.keywords[k].as_str());
                push_trimmed(&mut out, &pieces);
                proof {
                    assert(page.keywords@.take(k + 1).drop_last() =~= page.keywords@.take(k as int));
                    assert(page.keywords@.take(k + 1).last() == page.keywords@[k as int]);
                    assert(texts(pieces@) == pieces@.map_values(|p: String| p@));
                }
                k = k + 1;
            }
            proof {
                assert(page.keywords@.take(page.keywords.len() as int) =~= page.keywords@);
            }
        } else {
            proof {
                assert(texts(out@) =~= before + Seq::<Seq<char>>::empty());
            }
        }
        push_trimmed(&mut out, &page.nodes);
        proof {
            assert(pages@.take(i + 1).drop_last() =~= pages@.take(i as int));
            assert(pages@.take(i + 1).last() == pages@[i as int]);
            assert(texts(out@) =~= before + page_tags(pages@[i as int], read_keywords));
        }
        i = i + 1;
    }
    proof {
        assert(pages@.take(pages.len() as int) =~= pages@);
    }
    out
}

/// `t` with every match of each pattern, in turn, cut out.
pub fn cut_text(ps: &Vec<Pattern>, t: &String) -> (r: String)
    ensures
        r@ == cut(sources(ps@), t@),
{
    let mut cur = t.clone();
    let mut i: usize = 0;
    proof {
        assert(sources(ps@).take(0) =~= Seq::<Seq<char>>::empty());
    }
    while i < ps.len()
        invariant
            i <= ps.len(),
            cur@ == cut(sources(ps@).take(i as int), t@),
        decreases ps.len() - i,
    {
        cur = ps[i].replace_all(cur.as_str(), "");
        proof {
            assert(sources(ps@).take(i + 1).drop_last() =~= sources(ps@).take(i as int));
            assert(sources(ps@).take(i + 1).last() == ps@[i as int].source());
            reveal_strlit("");
            assert(""@ =~= Seq::<char>::empty());
        }
        i = i + 1;
    }
    proof {
        assert(sources(ps@).take(ps.len() as int) =~= sources(ps@));
    }
    cur
}

/// Each tag with every match of each pattern, in turn, cut out.
pub fn cut_tags(ps: &Vec<Pattern>, tags: &Vec<String>) -> (r: Vec<String>)
    ensures
        texts(r@) == texts(tags@).map_values(|t: Seq<char>| cut(sources(ps@), t)),
{
    let mut out: Vec<String> = Vec::new();
    let mut i: usize = 0;
    while i < tags.len()
        invariant
            i <= tags.len(),
            texts(out@) == texts(tags@.take(i as int)).map_values(|t: Seq<char>| cut(sources(ps@), t)),
        decreases tags.len() - i,
    {
        let ghost prev = out@;
        out.push(cut_text(ps, &tags[i]));
        proof {
            assert(texts(out@) =~= texts(prev).push(cut(sources(ps@), tags@[i as int]@)));
            assert(texts(tags@.take(i + 1)).map_values(|t: Seq<char>| cut(sources(ps@), t)) =~= texts(
                tags@.take(i as int),
            ).map_values(|t: Seq<char>| cut(sources(ps@), t)).push(cut(sources(ps@), tags@[i as int]@)));
        }
        i = i + 1;
    }
    proof {
        assert(tags@.take(tags.len() as int) =~= tags@);
    }
    out
}

/// Whether some pattern matches `t`.
pub fn any_match(ps: &Vec<Pattern>, t: &String) -> (r: bool)
    ensures
        r == matched_by_any(sources(ps@), t@),
{
    let mut i: usize = 0;
    while i < ps.len()
        invariant
            i <= ps.len(),
            forall|k: int| 0 <= k < i ==> !regex_found(#[trigger] sources(ps@)[k], t@),
        decreases ps.len() - i,
    {
        if ps[i].is_match(t.as_str()) {
            proof {
                assert(regex_found(sources(ps@)[i as int], t@));
            }
            return true;
        }
        i = i + 1;
    }
    false
}

/// The tags that no pattern matches, in order.
pub fn drop_matching(ps: &Vec<Pattern>, tags: &Vec<String>) -> (r: Vec<String>)
    ensures
        texts(r@) == unmatched(sources(ps@), texts(tags@)),
{
    let mut out: Vec<String> = Vec::new();
    let mut i: usize = 0;
    proof {
        assert(texts(tags@.take(0)) =~= Seq::<Seq<char>>::empty());
        assert(texts(out@) =~= Seq::<Seq<char>>::empty());
    }
    while i < tags.len()
        invariant
            i <= tags.len(),
            texts(out@) == unmatched(sources(ps@), texts(tags@.take(i as int))),
        decreases tags.len() - i,
    {
        proof {
            assert(texts(tags@.take(i + 1)).drop_last() =~= texts(tags@.take(i as int)));
            assert(texts(tags@.take(i + 1)).last() == tags@[i as int]@);
        }
        if !any_match(ps, &tags[i]) {
            let ghost prev = out@;
            out.push(tags[i].clone());
            proof {
                assert(texts(out@) =~= texts(prev).push(tags@[i as int]@));
            }
        }
        i = i + 1;
    }
    proof {
        assert(tags@.take(tags.len() as int) =~= tags@);
    }
    out
}

/// The first tag of each group of tags equal up to case, in order of first occurrence.
pub fn dedup_case_insensitive(tags: &Vec<String>) -> (r: Vec<String>)
    ensures
        texts(r@) == dedup_upper(texts(tags@)),
{
    let mut out: Vec<String> = Vec::new();
    let mut seen: Vec<String> = Vec::new();
    let mut i: usize = 0;
    proof {
        assert(texts(tags@.take(0)) =~= Seq::<Seq<char>>::empty());
        assert(texts(out@) =~= Seq::<Seq<char>>::empty());
    }
    while i < tags.len()
        invariant
            i <= tags.len(),
            texts(out@) == dedup_upper(texts(tags@.take(i as int))),
            seen@.len() == i,
            forall|k: int| 0 <= k < i ==> (#[trigger] seen@[k])@ == upper_of(tags@[k]@),
        decreases tags.len() - i,
    {
        let up = to_upper(tags[i].as_str());
        let mut j: usize = 0;
        let mut dup = false;
        while j < i
            invariant
                i < tags.len(),
                j <= i,
                seen@.len() == i,
                dup == exists|k: int| 0 <= k < j && upper_of(#[trigger] tags@[k]@) == up@,
                forall|k: int| 0 <= k < i ==> (#[trigger] seen@[k])@ == upper_of(tags@[k]@),
            decreases i - j,
        {
            if seen[j] == up {
                dup = true;
                proof {
                    assert(upper_of(tags@[j as int]@) == up@);
                }
            }
            j = j + 1;
        }
        proof {
            let ts = texts(tags@.take(i + 1));
            assert(ts.drop_last() =~= texts(tags@.take(i as int)));
            assert(ts.last() == tags@[i as int]@);
            assert((exists|k: int| 0 <= k < ts.len() - 1 && upper_of(#[trigger] ts[k]) == upper_of(ts.last()))
                == dup) by {
                if dup {
                    let k = choose|k: int| 0 <= k < i && upper_of(#[trigger] tags@[k]@) == up@;
                    assert(ts[k] == tags@[k]@);
                }
                if exists|k: int| 0 <= k < ts.len() - 1 && upper_of(#[trigger] ts[k]) == upper_of(ts.last()) {
                    let k = choose|k: int| 0 <= k < ts.len() - 1 && upper_of(#[trigger] ts[k]) == upper_of(ts.last());
                    assert(ts[k] == tags@[k]@);
                    assert(upper_of(tags@[k]@) == up@);
                }
            }
        }
        if !dup {
            let ghost prev = out@;
            out.push(tags[i].clone());
            proof {
                assert(texts(out@) =~= texts(prev).push(tags@[i as int]@));
            }
        }
        seen.push(up);
        i = i + 1;
    }
    proof {
        assert(tags@.take(tags.len() as int) =~= tags@);
    }
    out
}

/// The tags that do not contain `title`, in order.
pub fn drop_containing(title: &String, tags: &Vec<String>) -> (r: Vec<String>)
    ensures
        texts(r@) == without_title(title@, texts(tags@)),
{
    let mut out: Vec<String> = Vec::new();
    let mut i: usize = 0;
    proof {
        assert(texts(tags@.take(0)) =~= Seq::<Seq<char>>::empty());
        assert(texts(out@) =~= Seq::<Seq<char>>::empty());
    }
    while i < tags.len()
        invariant
            i <= tags.len(),
            texts(out@) == without_title(title@, texts(tags@.take(i as int))),
        decreases tags.len() - i,
    {
        proof {
            assert(texts(tags@.take(i + 1)).drop_last() =~= texts(tags@.take(i as int)));
            assert(texts(tags@.take(i + 1)).last() == tags@[i as int]@);
        }
        if !contains_text(tags[i].as_str(), title.as_str()) {
            let ghost prev = out@;
            out.push(tags[i].clone());
            proof {
                assert(texts(out@) =~= texts(prev).push(tags@[i as int]@));
            }
        }
        i = i + 1;
    }
    proof {
        assert(tags@.take(tags.len() as int) =~= tags@);
    }
    out
}

/// The tags that are not empty and not made of numerals alone, in order.
pub fn drop_numeric(tags: &Vec<String>) -> (r: Vec<String>)
    ensures
        texts(r@) == wordy(texts(tags@)),
{
    let mut out: Vec<String> = Vec::new();
    let mut i: usize = 0;
    proof {
        assert(texts(tags@.take(0)) =~= Seq::<Seq<char>>::empty());
        assert(texts(out@) =~= Seq::<Seq<char>>::empty());
    }
    while i < tags.len()
        invariant
            i <= tags.len(),
            texts(out@) == wordy(texts(tags@.take(i as int))),
        decreases tags.len() - i,
    {
        proof {
            assert(texts(tags@.take(i + 1)).drop_last() =~= texts(tags@.take(i as int)));
            assert(texts(tags@.take(i + 1)).last() == tags@[i as int]@);
        }
        let t = tags[i].as_str();
        if t.unicode_len() > 0 && !is_all_numeric(t) {
            let ghost prev = out@;
            out.push(tags[i].clone());
            proof {
                assert(texts(out@) =~= texts(prev).push(tags@[i as int]@));
            }
        }
        i = i + 1;
    }
    proof {
        assert(tags@.take(tags.len() as int) =~= tags@);
    }
    out
}

/// The tags of an entry of feed `id` under rules `config`, with what the linked pages gave.
pub fn select_tags(id: &String, e: &Entry, config: &TagConfig, pages: &Vec<PageTags>) -> (r: Vec<String>)
    ensures
        texts(r@) == chosen_tags(id@, *e, *config, pages@),
        unique_up_to_case(texts(r@)),
{
    proof {
        lemma_chosen_tags_unique(id@, *e, *config, pages@);
    }
    let read_keywords = match config.keywords {
        Some(b) => b,
        None => true,
    };
    let mut all = base_tags_of(id, e, &config.always);
    let scraped = scraped_tags_of(pages, read_keywords);
    extend_strings(&mut all, &scraped);
    let replace = compile_all(&config.replace);
    let replaced = cut_tags(&replace, &all);
    let ignore = compile_all(&config.ignore);
    let kept = drop_matching(&ignore, &replaced);
    let distinct = dedup_case_insensitive(&kept);
    let titled = match &e.title {
        Some(t) => drop_containing(t, &distinct),
        None => distinct,
    };
    drop_numeric(&titled)
}

/// The two fixed patterns of status formatting: runs of characters other than word
/// characters, which become one underscore in a tag; and a `#` parted from a word by one
/// white-space character, which is joined to it in a title.
pub struct TagPatterns {
    pub separators: Pattern,
    pub spaced_hash: Pattern,
}

impl TagPatterns {
    /// Both patterns are the fixed ones.
    pub open spec fn wf(&self) -> bool {
        &&& self.separators.source() == "[^\\w]+"@
        &&& self.spaced_hash.source() == "#\\s(\\w)"@
    }

    /// Compiles both patterns once, for every status to come.
    pub fn new() -> (r: Option<TagPatterns>)
        ensures
            r matches Some(p) ==> p.wf(),
            r is Some <==> regex_compiles("[^\\w]+"@) && regex_compiles("#\\s(\\w)"@),
    {
        let separators = match Pattern::compile("[^\\w]+") {
            Some(p) => p,
            None => {
                return None;
            },
        };
        let spaced_hash = match Pattern::compile("#\\s(\\w)") {
            Some(p) => p,
            None => {
                return None;
            },
        };
        Some(TagPatterns { separators, spaced_hash })
    }
}

/// A tag as posted: `#`, then the tag with each run of non-word characters made one
/// underscore, and leading and trailing underscores removed.
pub open spec fn hashtag(t: Seq<char>) -> Seq<char> {
    seq!['#'] + strip_underscores(regex_replaced("[^\\w]+"@, t, "_"@))
}

/// The tags as posted, parted by single spaces.
pub open spec fn tag_line(tags: Seq<Seq<char>>) -> Seq<char>
    decreases tags.len(),
{
    if tags.len() == 0 {
        Seq::empty()
    } else if tags.len() == 1 {
        hashtag(tags[0])
    } else {
        tag_line(tags.drop_last()) + seq![' '] + hashtag(tags.last())
    }
}

/// Each link on a line of its own.
pub open spec fn link_lines(links: Seq<String>) -> Seq<char>
    decreases links.len(),
{
    if links.len() == 0 {
        Seq::empty()
    } else {
        link_lines(links.drop_last()) + links.last()@ + seq!['\n']
    }
}

/// The body of the post for an entry of feed `id`: the title, with a `#` parted from a
/// word joined to it, on a line of its own; each link on a line of its own; then, where
/// any tag is left, an empty line and the tags.
pub open spec fn status_text(id: Seq<char>, e: Entry, config: TagConfig, pages: Seq<PageTags>) -> Seq<char> {
    let head = match e.title {
        Some(t) => regex_replaced("#\\s(\\w)"@, t@, "#$1"@).push('\n'),
        None => Seq::empty(),
    };
    let tags = chosen_tags(id, e, config, pages);
    head + link_lines(e.links@) + if tags.len() > 0 {
        seq!['\n'] + tag_line(tags)
    } else {
        Seq::empty()
    }
}

/// A tag as posted.
pub fn format_tag(pats: &TagPatterns, t: &String) -> (r: String)
    requires
        pats.wf(),
    ensures
        r@ == hashtag(t@),
{
    let joined = pats.separators.replace_all(t.as_str(), "_");
    let bare = trim_underscores(joined.as_str());
    let mut r = String::new();
    push_char(&mut r, '#');
    r.append(bare.as_str());
    proof {
        assert(r@ =~= hashtag(t@));
    }
    r
}

/// The tags as posted, parted by single spaces.
pub fn format_tags(pats: &TagPatterns, tags: &Vec<String>) -> (r: String)
    requires
        pats.wf(),
    ensures
        r@ == tag_line(texts(tags@)),
{
    let mut r = String::new();
    let mut i: usize = 0;
    proof {
        assert(texts(tags@.take(0)) =~= Seq::<Seq<char>>::empty());
    }
    while i < tags.len()
        invariant
            pats.wf(),
            i <= tags.len(),
            r@ == tag_line(texts(tags@.take(i as int))),
        decreases tags.len() - i,
    {
        proof {
            assert(texts(tags@.take(i + 1)).drop_last() =~= texts(tags@.take(i as int)));
            assert(texts(tags@.take(i + 1)).last() == tags@[i as int]@);
            assert(texts(tags@.take(i + 1))[0] == tags@[0]@);
        }
        if i > 0 {
            push_char(&mut r, ' ');
        }
        let h = format_tag(pats, &tags[i]);
        r.append(h.as_str());
        i = i + 1;
    }
    proof {
        assert(tags@.take(tags.len() as int) =~= tags@);
    }
    r
}

impl Entry {
    /// The body of the post for this entry of feed `id` under tag rules `config`, with
    /// what its linked pages gave.
    pub fn to_status(&self, id: &String, config: &TagConfig, pages: &Vec<PageTags>, pats: &TagPatterns) -> (r: String)
        requires
            pats.wf(),
        ensures
            r@ == status_text(id@, *self, *config, pages@),
    {
        let mut b = String::new();
        match &self.title {
            Some(t) => {
                let head = pats.spaced_hash.replace_all(t.as_str(), "#$1");
                b.append_with_line(head.as_str());
            },
            None => {},
        }
        let ghost head = b@;
        let mut i: usize = 0;
        proof {
            assert(self.links@.take(0) =~= Seq::<String>::empty());
            assert(b@ =~= head + link_lines(self.links@.take(0)));
        }
        while i < self.links.len()
            invariant
                i <= self.links.len(),
                b@ == head + link_lines(self.links@.take(i as int)),
            decreases self.links.len() - i,
        {
            proof {
                assert(self.links@.take(i + 1).drop_last() =~= self.links@.take(i as int));
                assert(self.links@.take(i + 1).last() == self.links@[i as int]);
            }
            b.append_with_line(self.links[i].as_str());
            proof {
                assert(b@ =~= head + link_lines(self.links@.take(i + 1)));
            }
            i = i + 1;
        }
        proof {
            assert(self.links@.take(self.links.len() as int) =~= self.links@);
        }
        let tags = select_tags(id, self, config, pages);
        if tags.len() > 0 {
            b.append_line();
            let line = format_tags(pats, &tags);
            b.append(line.as_str());
        }
        proof {
            assert(b@ =~= status_text(id@, *self, *config, pages@));
        }
        b
    }
}

/// No two tags are equal up to case.
pub open spec fn unique_up_to_case(tags: Seq<Seq<char>>) -> bool {
    forall|i: int, j: int|
        0 <= i < j < tags.len() ==> upper_of(#[trigger] tags[i]) != upper_of(#[trigger] tags[j])
}

/// Every tag that removing repeats up to case keeps is one of the tags.
pub proof fn lemma_dedup_upper_from(tags: Seq<Seq<char>>)
    ensures
        forall|i: int| 0 <= i < dedup_upper(tags).len() ==> exists|k: int| 0 <= k < tags.len()
            && #[trigger] dedup_upper(tags)[i] == tags[k],
    decreases tags.len(),
{
    if tags.len() > 0 {
        lemma_dedup_upper_from(tags.drop_last());
        let prev = dedup_upper(tags.drop_last());
        assert forall|i: int| 0 <= i < dedup_upper(tags).len() implies exists|k: int| 0 <= k < tags.len()
            && #[trigger] dedup_upper(tags)[i] == tags[k] by {
            if i < prev.len() {
                let k = choose|k: int| 0 <= k < tags.drop_last().len() && prev[i] == tags.drop_last()[k];
                assert(dedup_upper(tags)[i] == tags[k]);
            } else {
                assert(dedup_upper(tags)[i] == tags[tags.len() - 1]);
            }
        }
    }
}

/// Removing repeats up to case leaves no two tags equal up to case.
pub proof fn lemma_dedup_upper_unique(tags: Seq<Seq<char>>)
    ensures
        unique_up_to_case(dedup_upper(tags)),
    decreases tags.len(),
{
    if tags.len() > 0 {
        lemma_dedup_upper_unique(tags.drop_last());
        lemma_dedup_upper_from(tags.drop_last());
        let prev = dedup_upper(tags.drop_last());
        let d = dedup_upper(tags);
        if !(exists|j: int| 0 <= j < tags.len() - 1 && upper_of(#[trigger] tags[j]) == upper_of(tags.last())) {
            assert forall|i: int, j: int| 0 <= i < j < d.len() implies upper_of(#[trigger] d[i]) != upper_of(
                #[trigger] d[j],
            ) by {
                if j == d.len() - 1 {
                    let k = choose|k: int| 0 <= k < tags.drop_last().len() && prev[i] == tags.drop_last()[k];
                    assert(d[i] == tags[k]);
                    assert(d[j] == tags.last());
                } else {
                    assert(d[i] == prev[i] && d[j] == prev[j]);
                }
            }
        }
    }
}

/// Dropping the tags that contain the title keeps tags of the list, in order.
pub proof fn lemma_without_title_unique(title: Seq<char>, tags: Seq<Seq<char>>)
    requires
        unique_up_to_case(tags),
    ensures
        unique_up_to_case(without_title(title, tags)),
        forall|i: int| 0 <= i < without_title(title, tags).len() ==> exists|k: int| 0 <= k < tags.len()
            && #[trigger] without_title(title, tags)[i] == tags[k],
    decreases tags.len(),
{
    if tags.len() > 0 {
        lemma_without_title_unique(title, tags.drop_last());
        let prev = without_title(title, tags.drop_last());
        let d = without_title(title, tags);
        assert forall|i: int| 0 <= i < d.len() implies exists|k: int| 0 <= k < tags.len()
            && #[trigger] d[i] == tags[k] by {
            if i < prev.len() {
                let k = choose|k: int| 0 <= k < tags.drop_last().len() && prev[i] == tags.drop_last()[k];
                assert(d[i] == tags[k]);
            } else {
                assert(d[i] == tags[tags.len() - 1]);
            }
        }
        assert forall|i: int, j: int| 0 <= i < j < d.len() implies upper_of(#[trigger] d[i]) != upper_of(
            #[trigger] d[j],
        ) by {
            if j == prev.len() {
                let k = choose|k: int| 0 <= k < tags.drop_last().len() && prev[i] == tags.drop_last()[k];
                assert(d[i] == tags[k]);
                assert(d[j] == tags[tags.len() - 1]);
            } else {
                assert(d[i] == prev[i] && d[j] == prev[j]);
            }
        }
    }
}

/// Dropping empty and numeric tags keeps tags of the list, in order.
pub proof fn lemma_wordy_unique(tags: Seq<Seq<char>>)
    requires
        unique_up_to_case(tags),
    ensures
        unique_up_to_case(wordy(tags)),
        forall|i: int| 0 <= i < wordy(tags).len() ==> exists|k: int| 0 <= k < tags.len()
            && #[trigger] wordy(tags)[i] == tags[k],
    decreases tags.len(),
{
    if tags.len() > 0 {
        lemma_wordy_unique(tags.drop_last());
        let prev = wordy(tags.drop_last());
        let d = wordy(tags);
        assert forall|i: int| 0 <= i < d.len() implies exists|k: int| 0 <= k < tags.len()
            && #[trigger] d[i] == tags[k] by {
            if i < prev.len() {
                let k = choose|k: int| 0 <= k < tags.drop_last().len() && prev[i] == tags.drop_last()[k];
                assert(d[i] == tags[k]);
            } else {
                assert(d[i] == tags[tags.len() - 1]);
            }
        }
        assert forall|i: int, j: int| 0 <= i < j < d.len() implies upper_of(#[trigger] d[i]) != upper_of(
            #[trigger] d[j],
        ) by {
            if j == prev.len() {
                let k = choose|k: int| 0 <= k < tags.drop_last().len() && prev[i] == tags.drop_last()[k];
                assert(d[i] == tags[k]);
                assert(d[j] == tags[tags.len() - 1]);
            } else {
                assert(d[i] == prev[i] && d[j] == prev[j]);
            }
        }
    }
}

/// The tags of a post are free of repeats up to case.
pub proof fn lemma_chosen_tags_unique(id: Seq<char>, e: Entry, config: TagConfig, pages: Seq<PageTags>)
    ensures
        unique_up_to_case(chosen_tags(id, e, config, pages)),
{
    let read_keywords = match config.keywords {
        Some(b) => b,
        None => true,
    };
    let all = base_tags(id, e, config.always@) + scraped_tags(pages, read_keywords);
    let replaced = all.map_values(|t: Seq<char>| cut(compiling(texts(config.replace@)), t));
    let kept = unmatched(compiling(texts(config.ignore@)), replaced);
    lemma_dedup_upper_unique(kept);
    let distinct = dedup_upper(kept);
    match e.title {
        Some(t) => {
            lemma_without_title_unique(t@, distinct);
            lemma_wordy_unique(without_title(t@, distinct));
        },
        None => {
            lemma_wordy_unique(distinct);
        },
    }
}

} // verus!
