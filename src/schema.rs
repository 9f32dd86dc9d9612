use vstd::prelude::*;

verus! {

/// The whole configuration: the posting endpoint's base URL, tag rules for every feed,
/// and the feeds.
pub struct Config {
    pub base_url: String,
    pub tag: Option<TagConfig>,
    pub feeds: Vec<FeedConfig>,
}

/// One feed: a stable id, its URL, the posting token, and tag rules of its own.
#[derive(Clone)]
pub struct FeedConfig {
    pub id: String,
    pub url: String,
    pub token: String,
    pub tag: Option<TagConfig>,
}

/// Tag rules: tags always added, patterns of tags to drop, patterns to cut out of tags,
/// an XPath that selects extra tags on a linked page, and whether to read the page's
/// meta keywords.
#[derive(Clone)]
pub struct TagConfig {
    pub always: Vec<String>,
    pub ignore: Vec<String>,
    pub replace: Vec<String>,
    pub xpath: Option<String>,
    pub keywords: Option<bool>,
}

/// The texts of a list of strings.
pub open spec fn texts(v: Seq<String>) -> Seq<Seq<char>> {
    v.map_values(|s: String| s@)
}

/// Appends copies of `src` to `dst`.
pub fn extend_strings(dst: &mut Vec<String>, src: &Vec<String>)
    ensures
        texts(final(dst)@) == texts(old(dst)@) + texts(src@),
{
    let ghost start = texts(dst@);
    let mut i: usize = 0;
    while i < src.len()
        invariant
            i <= src.len(),
            texts(dst@) == start + texts(src@.take(i as int)),
        decreases src.len() - i,
    {
        let s = src[i].clone();
        let ghost prev = dst@;
        dst.push(s);
        proof {
            assert(dst@ == prev.push(src@[i as int]));
            assert(texts(dst@) =~= texts(prev).push(src@[i as int]@));
            assert(texts(src@.take(i + 1)) =~= texts(src@.take(i as int)).push(src@[i as int]@));
            assert(texts(dst@) =~= start + texts(src@.take(i + 1)));
        }
        i = i + 1;
    }
    proof {
        assert(src@.take(src.len() as int) == src@);
    }
}

/// A copy of an optional string.
pub fn copy_text(s: &Option<String>) -> (r: Option<String>)
    ensures
        r matches Some(t) ==> s matches Some(u) && t@ == u@,
        r is None <==> s is None,
{
    match s {
        Some(t) => Some(t.clone()),
        None => None,
    }
}

/// The tag rules of a feed: the global rules followed by the feed's own.
pub open spec fn merged_lists(g: Option<TagConfig>, f: Option<TagConfig>, pick: spec_fn(TagConfig) -> Seq<String>) -> Seq<Seq<char>> {
    let a = match g {
        Some(t) => texts(pick(t)),
        None => Seq::empty(),
    };
    let b = match f {
        Some(t) => texts(pick(t)),
        None => Seq::empty(),
    };
    a + b
}

impl TagConfig {
    /// Rules that add, drop and cut nothing.
    pub fn new() -> (r: Self)
        ensures
            r.always@.len() == 0,
            r.ignore@.len() == 0,
            r.replace@.len() == 0,
            r.xpath is None,
            r.keywords is None,
    {
        TagConfig { always: Vec::new(), ignore: Vec::new(), replace: Vec::new(), xpath: None, keywords: None }
    }

    /// The rules that apply to a feed: the lists of the global rules followed by those of
    /// the feed's own; the XPath of the feed's rules where it has rules, else the global one.
    /// Whether to read meta keywords is left unset, which reads them.
    pub fn merge(global: &Option<TagConfig>, feed: &Option<TagConfig>) -> (r: TagConfig)
        ensures
            texts(r.always@) == merged_lists(*global, *feed, |t: TagConfig| t.always@),
            texts(r.ignore@) == merged_lists(*global, *feed, |t: TagConfig| t.ignore@),
            texts(r.replace@) == merged_lists(*global, *feed, |t: TagConfig| t.replace@),
            match feed {
                Some(f) => (r.xpath matches Some(x) ==> f.xpath matches Some(y) && x@ == y@)
                    && (r.xpath is None <==> f.xpath is None),
                None => match global {
                    Some(g) => (r.xpath matches Some(x) ==> g.xpath matches Some(y) && x@ == y@)
                        && (r.xpath is None <==> g.xpath is None),
                    None => r.xpath is None,
                },
            },
            r.keywords is None,
    {
        let mut merged = TagConfig::new();
        proof {
            assert(texts(merged.always@) =~= Seq::<Seq<char>>::empty());
            assert(texts(merged.ignore@) =~= Seq::<Seq<char>>::empty());
            assert(texts(merged.replace@) =~= Seq::<Seq<char>>::empty());
        }
        match global {
            Some(tag) => {
                extend_strings(&mut merged.always, &tag.always);
                extend_strings(&mut merged.ignore, &tag.ignore);
                extend_strings(&mut merged.replace, &tag.replace);
                merged.xpath = copy_text(&tag.xpath);
            },
            None => {},
        }
        match feed {
            Some(tag) => {
                extend_strings(&mut merged.always, &tag.always);
                extend_strings(&mut merged.ignore, &tag.ignore);
                extend_strings(&mut merged.replace, &tag.replace);
                merged.xpath = copy_text(&tag.xpath);
            },
            None => {},
        }
        proof {
            assert(texts(merged.always@) =~= merged_lists(*global, *feed, |t: TagConfig| t.always@));
            assert(texts(merged.ignore@) =~= merged_lists(*global, *feed, |t: TagConfig| t.ignore@));
            assert(texts(merged.replace@) =~= merged_lists(*global, *feed, |t: TagConfig| t.replace@));
        }
        merged
    }
}

} // verus!
