use vstd::prelude::*;

use crate::schema::{texts, FeedConfig};

verus! {

/// The feed ids known after going through the first `n` feeds: each id not known yet is
/// added, in order.
pub open spec fn seen_after(seen: Seq<Seq<char>>, feeds: Seq<FeedConfig>, n: int) -> Seq<Seq<char>>
    decreases n,
{
    if n <= 0 {
        seen
    } else {
        let s = seen_after(seen, feeds, n - 1);
        if s.contains(feeds[n - 1].id@) {
            s
        } else {
            s.push(feeds[n - 1].id@)
        }
    }
}

/// The indices, among the first `n` feeds, of those whose id was not known yet.
pub open spec fn started_upto(seen: Seq<Seq<char>>, feeds: Seq<FeedConfig>, n: int) -> Seq<usize>
    decreases n,
{
    if n <= 0 {
        Seq::empty()
    } else if seen_after(seen, feeds, n - 1).contains(feeds[n - 1].id@) {
        started_upto(seen, feeds, n - 1)
    } else {
        started_upto(seen, feeds, n - 1).push((n - 1) as usize)
    }
}

/// `v` holds `s`.
pub fn contains_text(v: &Vec<String>, s: &String) -> (r: bool)
    ensures
        r == texts(v@).contains(s@),
{
    let mut i: usize = 0;
    while i < v.len()
        invariant
            i <= v.len(),
            forall|k: int| 0 <= k < i ==> v@[k]@ != s@,
        decreases v.len() - i,
    {
        if v[i] == *s {
            proof {
                assert(texts(v@)[i as int] == s@);
            }
            return true;
        }
        i = i + 1;
    }
    proof {
        if texts(v@).contains(s@) {
            let k = choose|k: int| 0 <= k < texts(v@).len() && texts(v@)[k] == s@;
            assert(v@[k]@ == s@);
        }
    }
    false
}

/// Picks, from a freshly loaded list of feeds, those whose id is not in `seen`, each id
/// once, and adds their ids to `seen`. Returns their indices in the list.
pub fn new_feeds(seen: &mut Vec<String>, feeds: &Vec<FeedConfig>) -> (r: Vec<usize>)
    ensures
        texts(final(seen)@) == seen_after(texts(old(seen)@), feeds@, feeds@.len() as int),
        r@ == started_upto(texts(old(seen)@), feeds@, feeds@.len() as int),
{
    let ghost start = texts(seen@);
    let mut out: Vec<usize> = Vec::new();
    let mut i: usize = 0;
    while i < feeds.len()
        invariant
            i <= feeds.len(),
            texts(seen@) == seen_after(start, feeds@, i as int),
            out@ == started_upto(start, feeds@, i as int),
        decreases feeds.len() - i,
    {
        let id = &feeds[i].id;
        if !contains_text(seen, id) {
            let ghost prev = seen@;
            seen.push(id.clone());
            proof {
                assert(texts(seen@) =~= texts(prev).push(id@));
            }
            out.push(i);
        }
        i = i + 1;
    }
    out
}

/// Going through feeds keeps the known ids first and free of repeats, and appends the id
/// of each feed started, in order.
pub proof fn lemma_seen_after(seen: Seq<Seq<char>>, feeds: Seq<FeedConfig>, n: int)
    requires
        0 <= n <= feeds.len() <= usize::MAX,
        seen.no_duplicates(),
    ensures
        seen_after(seen, feeds, n).no_duplicates(),
        seen_after(seen, feeds, n).take(seen.len() as int) == seen,
        seen_after(seen, feeds, n).len() == seen.len() + started_upto(seen, feeds, n).len(),
        forall|k: int|
            0 <= k < started_upto(seen, feeds, n).len() ==> #[trigger] started_upto(seen, feeds, n)[k]
                < n && seen_after(seen, feeds, n)[seen.len() + k] == feeds[started_upto(
                seen,
                feeds,
                n,
            )[k] as int].id@,
    decreases n,
{
    if n > 0 {
        lemma_seen_after(seen, feeds, n - 1);
        let s = seen_after(seen, feeds, n - 1);
        if !s.contains(feeds[n - 1].id@) {
            assert(s.push(feeds[n - 1].id@).take(seen.len() as int) =~= s.take(seen.len() as int));
            let t = s.push(feeds[n - 1].id@);
            assert forall|a: int, b: int| 0 <= a < b < t.len() implies t[a] != t[b] by {
                if b == t.len() - 1 {
                    assert(s[a] == t[a]);
                }
            }
            let st = started_upto(seen, feeds, n);
            let prev = started_upto(seen, feeds, n - 1);
            assert forall|k: int| 0 <= k < st.len() implies #[trigger] st[k] < n && t[seen.len()
                + k] == feeds[st[k] as int].id@ by {
                if k < prev.len() {
                    assert(st[k] == prev[k]);
                    assert(t[seen.len() + k] == s[seen.len() + k]);
                } else {
                    assert(st[k] as int == n - 1);
                    assert(seen.len() + k == s.len());
                }
            }
        } else {
            let st = started_upto(seen, feeds, n);
            let prev = started_upto(seen, feeds, n - 1);
            assert forall|k: int| 0 <= k < st.len() implies #[trigger] st[k] < n && s[seen.len()
                + k] == feeds[st[k] as int].id@ by {
                assert(st[k] == prev[k]);
            }
        }
    }
}

/// Reloading never starts a second loop for a feed id: every feed started has an id that
/// was not seen before, and no id is started twice.
pub proof fn lemma_never_started_twice(seen: Seq<Seq<char>>, feeds: Seq<FeedConfig>)
    requires
        seen.no_duplicates(),
        feeds.len() <= usize::MAX,
    ensures
        seen_after(seen, feeds, feeds.len() as int).no_duplicates(),
        forall|k: int|
            0 <= k < started_upto(seen, feeds, feeds.len() as int).len() ==> !seen.contains(
                feeds[#[trigger] started_upto(seen, feeds, feeds.len() as int)[k] as int].id@,
            ),
        forall|a: int, b: int|
            0 <= a < b < started_upto(seen, feeds, feeds.len() as int).len() ==> feeds[
            #[trigger] started_upto(seen, feeds, feeds.len() as int)[a] as int].id@ != feeds[
            #[trigger] started_upto(seen, feeds, feeds.len() as int)[b] as int].id@,
{
    let n = feeds.len() as int;
    lemma_seen_after(seen, feeds, n);
    let all = seen_after(seen, feeds, n);
    let st = started_upto(seen, feeds, n);
    assert forall|k: int| 0 <= k < st.len() implies !seen.contains(feeds[#[trigger] st[k] as int].id@) by {
        if seen.contains(feeds[st[k] as int].id@) {
            let j = choose|j: int| 0 <= j < seen.len() && seen[j] == feeds[st[k] as int].id@;
            assert(all.take(seen.len() as int)[j] == all[j]);
            assert(all[j] == all[seen.len() + k]);
        }
    }
    assert forall|a: int, b: int| 0 <= a < b < st.len() implies feeds[#[trigger] st[a] as int].id@
        != feeds[#[trigger] st[b] as int].id@ by {
        assert(all[seen.len() + a] != all[seen.len() + b]);
    }
}

} // verus!
