use vstd::prelude::*;

use crate::schema::texts;

verus! {

#[verifier::external_type_specification]
#[verifier::external_body]
pub struct ExRegex(regex::Regex);

/// Whether `regex::Regex::new` accepts a pattern.
pub uninterp spec fn regex_compiles(pattern: Seq<char>) -> bool;

/// What `regex::Regex::replace_all` makes of `text` for a pattern and a replacement.
pub uninterp spec fn regex_replaced(pattern: Seq<char>, text: Seq<char>, rep: Seq<char>) -> Seq<char>;

/// Whether `regex::Regex::is_match` finds a pattern in `text`.
pub uninterp spec fn regex_found(pattern: Seq<char>, text: Seq<char>) -> bool;

/// A compiled regular expression, with the pattern it was compiled from.
pub struct Pattern {
    source: String,
    re: regex::Regex,
}

impl Pattern {
    /// The pattern this was compiled from.
    pub closed spec fn source(&self) -> Seq<char> {
        self.source@
    }

    /// Relies on `regex::Regex::new`: compiles `pattern`, or fails on a pattern it refuses.
    #[verifier::external_body]
    pub(crate) fn compile(pattern: &str) -> (r: Option<Pattern>)
        ensures
            r is Some <==> regex_compiles(pattern@),
            r matches Some(p) ==> p.source() == pattern@,
    {
        regex::Regex::new(pattern).ok().map(|re| Pattern { source: pattern.to_string(), re })
    }

    /// Relies on `regex::Regex::replace_all`: every match in `text` replaced by `rep`.
    #[verifier::external_body]
    pub(crate) fn replace_all(&self, text: &str, rep: &str) -> (r: String)
        ensures
            r@ == regex_replaced(self.source(), text@, rep@),
    {
        self.re.replace_all(text, rep).into_owned()
    }

    /// Relies on `regex::Regex::is_match`: whether the pattern matches somewhere in `text`.
    #[verifier::external_body]
    pub(crate) fn is_match(&self, text: &str) -> (r: bool)
        ensures
            r == regex_found(self.source(), text@),
    {
        self.re.is_match(text)
    }
}

/// The patterns of `ps` that compile, in order.
pub open spec fn compiling(ps: Seq<Seq<char>>) -> Seq<Seq<char>>
    decreases ps.len(),
{
    if ps.len() == 0 {
        Seq::empty()
    } else if regex_compiles(ps.last()) {
        compiling(ps.drop_last()).push(ps.last())
    } else {
        compiling(ps.drop_last())
    }
}

/// The sources of compiled patterns.
pub open spec fn sources(ps: Seq<Pattern>) -> Seq<Seq<char>> {
    ps.map_values(|p: Pattern| p.source())
}

/// Compiles each pattern, leaving out those that do not compile.
pub fn compile_all(ps: &Vec<String>) -> (r: Vec<Pattern>)
    ensures
        sources(r@) == compiling(texts(ps@)),
{
    let ghost names = texts(ps@);
    let mut out: Vec<Pattern> = Vec::new();
    let mut i: usize = 0;
    proof {
        assert(names.take(0) =~= Seq::<Seq<char>>::empty());
        assert(sources(out@) =~= Seq::<Seq<char>>::empty());
    }
    while i < ps.len()
        invariant
            i <= ps.len(),
            names == texts(ps@),
            sources(out@) == compiling(names.take(i as int)),
        decreases ps.len() - i,
    {
        proof {
            assert(names.take(i + 1).drop_last() =~= names.take(i as int));
            assert(names.take(i + 1).last() == ps@[i as int]@);
        }
        let ghost prev = out@;
        match Pattern::compile(ps[i].as_str()) {
            Some(p) => {
                out.push(p);
                proof {
                    assert(sources(out@) =~= sources(prev).push(ps@[i as int]@));
                }
            },
            None => {},
        }
        i = i + 1;
    }
    proof {
        assert(names.take(ps.len() as int) =~= names);
    }
    out
}

} // verus!
