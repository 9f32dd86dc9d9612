use vstd::prelude::*;

verus! {

/// What `str::to_uppercase` makes of a string.
pub uninterp spec fn upper_of(s: Seq<char>) -> Seq<char>;

/// A character of the Unicode White_Space property.
pub open spec fn white_space(c: char) -> bool {
    ||| ('\u{9}' <= c && c <= '\u{d}')
    ||| c == ' '
    ||| c == '\u{85}'
    ||| c == '\u{a0}'
    ||| c == '\u{1680}'
    ||| ('\u{2000}' <= c && c <= '\u{200a}')
    ||| c == '\u{2028}'
    ||| c == '\u{2029}'
    ||| c == '\u{202f}'
    ||| c == '\u{205f}'
    ||| c == '\u{3000}'
}

/// The index of the first character at or after `i` that is not white space.
pub open spec fn lead_white(s: Seq<char>, i: int) -> int
    decreases s.len() - i,
{
    if i >= s.len() || i < 0 {
        if i < 0 { 0 } else { s.len() as int }
    } else if white_space(s[i]) {
        lead_white(s, i + 1)
    } else {
        i
    }
}

/// The end, no lower than `lo`, of `s[..j]` without trailing white space.
pub open spec fn trail_white(s: Seq<char>, j: int, lo: int) -> int
    decreases j - lo,
{
    if j <= lo {
        lo
    } else if white_space(s[j - 1]) {
        trail_white(s, j - 1, lo)
    } else {
        j
    }
}

/// `s` without leading and trailing white space.
pub open spec fn trimmed(s: Seq<char>) -> Seq<char> {
    let lo = lead_white(s, 0);
    s.subrange(lo, trail_white(s, s.len() as int, lo))
}

/// Whether `char::is_numeric` holds of a character.
pub uninterp spec fn numeric_char(c: char) -> bool;

/// Relies on `str::to_uppercase`: the upper-case form, which depends on the text alone.
#[verifier::external_body]
pub(crate) fn to_upper(s: &str) -> (r: String)
    ensures
        r@ == upper_of(s@),
{
    s.to_uppercase()
}

/// Whether a character has the Unicode White_Space property.
pub fn is_white_space(c: char) -> (r: bool)
    ensures
        r == white_space(c),
{
    ('\u{9}' <= c && c <= '\u{d}') || c == ' ' || c == '\u{85}' || c == '\u{a0}' || c == '\u{1680}'
        || ('\u{2000}' <= c && c <= '\u{200a}') || c == '\u{2028}' || c == '\u{2029}' || c
        == '\u{202f}' || c == '\u{205f}' || c == '\u{3000}'
}

/// The text without leading and trailing white space, as `str::trim` gives it.
pub fn trim(s: &str) -> (r: String)
    ensures
        r@ == trimmed(s@),
{
    let sc = chars_of(s);
    let n = sc.len();
    let mut lo: usize = 0;
    while lo < n && is_white_space(sc[lo])
        invariant
            sc@ == s@,
            n == sc.len(),
            lo <= n,
            lead_white(s@, lo as int) == lead_white(s@, 0),
        decreases n - lo,
    {
        lo = lo + 1;
    }
    let mut hi: usize = n;
    while hi > lo && is_white_space(sc[hi - 1])
        invariant
            sc@ == s@,
            n == sc.len(),
            lo <= hi <= n,
            lo == lead_white(s@, 0),
            trail_white(s@, hi as int, lo as int) == trail_white(s@, n as int, lo as int),
        decreases hi - lo,
    {
        hi = hi - 1;
    }
    let mut r = String::new();
    let mut k: usize = lo;
    while k < hi
        invariant
            sc@ == s@,
            lo <= k <= hi <= n,
            n == sc.len(),
            r@ == s@.subrange(lo as int, k as int),
        decreases hi - k,
    {
        push_char(&mut r, sc[k]);
        proof {
            assert(r@ =~= s@.subrange(lo as int, k + 1));
        }
        k = k + 1;
    }
    r
}

/// Relies on `char::is_numeric`: whether the character has a numeric general category.
#[verifier::external_body]
pub(crate) fn is_numeric(c: char) -> (r: bool)
    ensures
        r == numeric_char(c),
{
    c.is_numeric()
}

/// Relies on `String::push`: appends one character.
#[verifier::external_body]
pub(crate) fn push_char(s: &mut String, c: char)
    ensures
        final(s)@ == old(s)@.push(c),
{
    s.push(c)
}

/// A copy of a text.
pub fn to_string(s: &str) -> (r: String)
    ensures
        r@ == s@,
{
    let mut r = String::new();
    r.append(s);
    proof {
        assert(r@ =~= s@);
    }
    r
}

/// `t` occurs in `s` as a contiguous piece.
pub open spec fn occurs_in(t: Seq<char>, s: Seq<char>) -> bool {
    exists|i: int| 0 <= i && i + t.len() <= s.len() && #[trigger] s.subrange(i, i + t.len()) == t
}

/// The characters of a text, one by one.
pub fn chars_of(s: &str) -> (r: Vec<char>)
    ensures
        r@ == s@,
{
    let n = s.unicode_len();
    let mut out: Vec<char> = Vec::new();
    let mut i: usize = 0;
    while i < n
        invariant
            n == s@.len(),
            i <= n,
            out@ == s@.take(i as int),
        decreases n - i,
    {
        out.push(s.get_char(i));
        proof {
            assert(out@ =~= s@.take(i + 1));
        }
        i = i + 1;
    }
    proof {
        assert(out@ =~= s@);
    }
    out
}

/// Whether `t` occurs in `s` as a contiguous piece.
pub fn contains_text(s: &str, t: &str) -> (r: bool)
    ensures
        r == occurs_in(t@, s@),
{
    let sc = chars_of(s);
    let tc = chars_of(t);
    if tc.len() > sc.len() {
        proof {
            assert forall|i: int| 0 <= i && i + t@.len() <= s@.len() implies #[trigger] s@.subrange(
                i,
                i + t@.len(),
            ) != t@ by {}
        }
        return false;
    }
    let mut i: usize = 0;
    while i <= sc.len() - tc.len()
        invariant
            sc@ == s@,
            tc@ == t@,
            tc.len() <= sc.len(),
            i <= sc.len() - tc.len() + 1,
            forall|k: int| 0 <= k < i ==> #[trigger] s@.subrange(k, k + t@.len()) != t@,
        decreases sc.len() - i,
    {
        let mut j: usize = 0;
        let mut same = true;
        while j < tc.len()
            invariant
                sc@ == s@,
                tc@ == t@,
                i + tc.len() <= sc.len(),
                j <= tc.len(),
                same == (forall|m: int| 0 <= m < j ==> sc@[i + m] == tc@[m]),
            decreases tc.len() - j,
        {
            if sc[i + j] != tc[j] {
                same = false;
            }
            j = j + 1;
        }
        if same {
            proof {
                assert(s@.subrange(i as int, i + t@.len()) =~= t@);
            }
            return true;
        }
        proof {
            let m = choose|m: int| 0 <= m < tc.len() && sc@[i + m] != tc@[m];
            assert(s@.subrange(i as int, i + t@.len())[m] != t@[m]);
        }
        i = i + 1;
    }
    false
}

/// Every character of `s` is numeric.
pub open spec fn all_numeric(s: Seq<char>) -> bool {
    forall|i: int| 0 <= i < s.len() ==> numeric_char(#[trigger] s[i])
}

/// Whether every character of the text is numeric (true of the empty text).
pub fn is_all_numeric(s: &str) -> (r: bool)
    ensures
        r == all_numeric(s@),
{
    let sc = chars_of(s);
    let mut i: usize = 0;
    while i < sc.len()
        invariant
            sc@ == s@,
            i <= sc.len(),
            forall|k: int| 0 <= k < i ==> numeric_char(#[trigger] s@[k]),
        decreases sc.len() - i,
    {
        if !is_numeric(sc[i]) {
            return false;
        }
        i = i + 1;
    }
    true
}

/// The pieces of `s` between commas, empty ones included: one piece for a text without
/// commas.
pub open spec fn comma_pieces(s: Seq<char>) -> Seq<Seq<char>>
    decreases s.len(),
{
    if s.len() == 0 {
        seq![Seq::empty()]
    } else {
        let prev = comma_pieces(s.drop_last());
        if s.last() == ',' {
            prev.push(Seq::empty())
        } else {
            prev.update(prev.len() - 1, prev.last().push(s.last()))
        }
    }
}

/// Splitting at commas always gives at least one piece.
pub proof fn lemma_comma_pieces_nonempty(s: Seq<char>)
    ensures
        comma_pieces(s).len() >= 1,
    decreases s.len(),
{
    if s.len() > 0 {
        lemma_comma_pieces_nonempty(s.drop_last());
    }
}

/// The pieces of a text between commas, empty ones included.
pub fn split_commas(s: &str) -> (r: Vec<String>)
    ensures
        r@.map_values(|p: String| p@) == comma_pieces(s@),
{
    let sc = chars_of(s);
    let mut done: Vec<String> = Vec::new();
    let mut cur = String::new();
    let mut i: usize = 0;
    proof {
        assert(s@.take(0) =~= Seq::<char>::empty());
        assert(done@.map_values(|p: String| p@).push(cur@) =~= comma_pieces(s@.take(0)));
    }
    while i < sc.len()
        invariant
            sc@ == s@,
            i <= sc.len(),
            done@.map_values(|p: String| p@).push(cur@) == comma_pieces(s@.take(i as int)),
        decreases sc.len() - i,
    {
        let c = sc[i];
        let ghost before = done@.map_values(|p: String| p@);
        let ghost cur_before = cur@;
        proof {
            assert(s@.take(i + 1).drop_last() =~= s@.take(i as int));
            assert(s@.take(i + 1).last() == c);
            lemma_comma_pieces_nonempty(s@.take(i as int));
        }
        if c == ',' {
            let piece = cur;
            cur = String::new();
            done.push(piece);
            proof {
                assert(done@.map_values(|p: String| p@) =~= before.push(cur_before));
                assert(done@.map_values(|p: String| p@).push(cur@) =~= comma_pieces(s@.take(i + 1)));
            }
        } else {
            push_char(&mut cur, c);
            proof {
                assert(done@.map_values(|p: String| p@) =~= before);
                assert(done@.map_values(|p: String| p@).push(cur@) =~= comma_pieces(s@.take(i + 1)));
            }
        }
        i = i + 1;
    }
    done.push(cur);
    proof {
        assert(s@.take(sc.len() as int) =~= s@);
    }
    done
}

/// `s` without leading and trailing underscores.
pub open spec fn strip_underscores(s: Seq<char>) -> Seq<char> {
    let lo = lead_underscores(s, 0);
    let hi = trail_end(s, s.len() as int, lo);
    s.subrange(lo, hi)
}

/// The index of the first character at or after `i` that is not an underscore.
pub open spec fn lead_underscores(s: Seq<char>, i: int) -> int
    decreases s.len() - i,
{
    if i >= s.len() || i < 0 {
        if i < 0 { 0 } else { s.len() as int }
    } else if s[i] == '_' {
        lead_underscores(s, i + 1)
    } else {
        i
    }
}

/// The end, no lower than `lo`, of `s[..j]` without trailing underscores.
pub open spec fn trail_end(s: Seq<char>, j: int, lo: int) -> int
    decreases j - lo,
{
    if j <= lo {
        lo
    } else if s[j - 1] == '_' {
        trail_end(s, j - 1, lo)
    } else {
        j
    }
}

/// The text without leading and trailing underscores.
pub fn trim_underscores(s: &str) -> (r: String)
    ensures
        r@ == strip_underscores(s@),
{
    let sc = chars_of(s);
    let n = sc.len();
    let mut lo: usize = 0;
    while lo < n && sc[lo] == '_'
        invariant
            sc@ == s@,
            n == sc.len(),
            lo <= n,
            lead_underscores(s@, lo as int) == lead_underscores(s@, 0),
        decreases n - lo,
    {
        lo = lo + 1;
    }
    let mut hi: usize = n;
    while hi > lo && sc[hi - 1] == '_'
        invariant
            sc@ == s@,
            n == sc.len(),
            lo <= hi <= n,
            lo == lead_underscores(s@, 0),
            trail_end(s@, hi as int, lo as int) == trail_end(s@, n as int, lo as int),
        decreases hi - lo,
    {
        hi = hi - 1;
    }
    let mut r = String::new();
    let mut k: usize = lo;
    while k < hi
        invariant
            sc@ == s@,
            lo <= k <= hi <= n,
            n == sc.len(),
            r@ == s@.subrange(lo as int, k as int),
        decreases hi - k,
    {
        push_char(&mut r, sc[k]);
        proof {
            assert(r@ =~= s@.subrange(lo as int, k + 1));
        }
        k = k + 1;
    }
    r
}

/// Line-by-line building of a text.
pub trait StringBuilderExt {
    spec fn text(&self) -> Seq<char>;

    /// Appends `buf`, then a line break.
    fn append_with_line(&mut self, buf: &str)
        ensures
            final(self).text() == old(self).text() + buf@ + seq!['\n'],
    ;

    /// Appends a line break.
    fn append_line(&mut self)
        ensures
            final(self).text() == old(self).text().push('\n'),
    ;
}

impl StringBuilderExt for String {
    open spec fn text(&self) -> Seq<char> {
        self@
    }

    fn append_with_line(&mut self, buf: &str) {
        self.append(buf);
        push_char(self, '\n');
        proof {
            assert(final(self)@ =~= old(self)@ + buf@ + seq!['\n']);
        }
    }

    fn append_line(&mut self) {
        push_char(self, '\n');
    }
}

} // verus!
