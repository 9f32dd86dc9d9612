use vstd::prelude::*;

use crate::feed::Entry;
use crate::post_item::{entry_link, entry_title, link_of, title_of, Model};

verus! {

/// What a poll of a feed leads to.
pub enum NewEntries {
    /// Nothing to record and nothing to post.
    Nothing,
    /// First sight of the feed: record the entry at this index as published, post nothing.
    RecordOnly(usize),
    /// Record and post the entries at these indices, in this order.
    Post(Vec<usize>),
}

/// An entry that can be posted: it has a title and at least one link.
pub open spec fn postable(e: Entry) -> bool {
    e.title is Some && e.links@.len() > 0
}

/// The time an entry is ordered by: its publication time, or `now` where it carries none.
pub open spec fn order_key(e: Entry, now: i64) -> i64 {
    match e.pub_date() {
        Some(t) => t,
        None => now,
    }
}

/// The index of the newest postable entry among the first `n`; of several equally new,
/// the last.
pub open spec fn newest_upto(es: Seq<Entry>, now: i64, n: int) -> Option<int>
    decreases n,
{
    if n <= 0 {
        None
    } else {
        let prev = newest_upto(es, now, n - 1);
        if postable(es[n - 1]) && (prev matches Some(p) ==> order_key(es[p], now) <= order_key(
            es[n - 1],
            now,
        )) {
            Some(n - 1)
        } else {
            prev
        }
    }
}

/// The index of the newest postable entry; of several equally new, the last.
pub open spec fn newest(es: Seq<Entry>, now: i64) -> Option<int> {
    newest_upto(es, now, es.len() as int)
}

/// No entry carries a `published` time (a protocol variant without that field).
pub open spec fn undated(es: Seq<Entry>) -> bool {
    forall|i: int| 0 <= i < es.len() ==> (#[trigger] es[i]).published is None
}

/// The entry was published strictly after `since`.
pub open spec fn published_after(e: Entry, since: i64) -> bool {
    e.pub_date() matches Some(t) && t > since
}

/// The indices below `n` of the entries published strictly after `since`, in document order.
pub open spec fn fresh_upto(es: Seq<Entry>, since: i64, n: int) -> Seq<usize>
    decreases n,
{
    if n <= 0 {
        Seq::empty()
    } else if published_after(es[n - 1], since) {
        fresh_upto(es, since, n - 1).push((n - 1) as usize)
    } else {
        fresh_upto(es, since, n - 1)
    }
}

/// The publication time of a dated entry.
pub open spec fn date_of(e: Entry) -> i64 {
    match e.pub_date() {
        Some(t) => t,
        None => 0,
    }
}

/// The publication time of a dated entry.
pub fn entry_date(e: &Entry) -> (r: i64)
    ensures
        r == date_of(*e),
{
    e.pub_date_utc_or(0)
}

/// `idx` lists entries by publication time, ties in document order.
pub open spec fn in_publication_order(es: Seq<Entry>, idx: Seq<usize>) -> bool {
    forall|a: int, b: int|
        #![trigger idx[a], idx[b]]
        0 <= a < b < idx.len() ==> date_of(es[idx[a] as int]) < date_of(es[idx[b] as int]) || (
        date_of(es[idx[a] as int]) == date_of(es[idx[b] as int]) && idx[a] < idx[b])
}

/// The indices of the entries published strictly after `since`, by publication time, ties
/// in document order.
pub fn fresh_in_order(es: &Vec<Entry>, since: i64) -> (r: Vec<usize>)
    ensures
        r@.to_multiset() == fresh_upto(es@, since, es@.len() as int).to_multiset(),
        in_publication_order(es@, r@),
        forall|k: int| 0 <= k < r@.len() ==> (#[trigger] r@[k]) < es@.len() && published_after(
            es@[r@[k] as int],
            since,
        ),
{
    let mut out: Vec<usize> = Vec::new();
    let mut i: usize = 0;
    proof {
        broadcast use vstd::seq_lib::group_to_multiset_ensures;
        assert(out@ =~= Seq::<usize>::empty());
    }
    while i < es.len()
        invariant
            i <= es.len(),
            out@.to_multiset() == fresh_upto(es@, since, i as int).to_multiset(),
            in_publication_order(es@, out@),
            forall|k: int| 0 <= k < out@.len() ==> (#[trigger] out@[k]) < i && published_after(
                es@[out@[k] as int],
                since,
            ),
        decreases es.len() - i,
    {
        match es[i].pub_date_utc() {
            Some(t) => {
                if t > since {
                    let mut pos: usize = 0;
                    while pos < out.len() && entry_date(&es[out[pos]]) <= t
                        invariant
                            pos <= out.len(),
                            forall|k: int| 0 <= k < out@.len() ==> (#[trigger] out@[k]) < i,
                            i < es@.len(),
                            forall|k: int| 0 <= k < pos ==> date_of(es@[#[trigger] out@[k] as int]) <= t,
                        decreases out.len() - pos,
                    {
                        pos = pos + 1;
                    }
                    let ghost before = out@;
                    out.insert(pos, i);
                    proof {
                        broadcast use vstd::seq_lib::group_to_multiset_ensures;
                        assert(out@ == before.insert(pos as int, i));
                        assert(date_of(es@[i as int]) == t);
                        assert forall|a: int, b: int|
                            #![trigger out@[a], out@[b]]
                            0 <= a < b < out@.len() implies date_of(es@[out@[a] as int]) < date_of(
                            es@[out@[b] as int],
                        ) || (date_of(es@[out@[a] as int]) == date_of(es@[out@[b] as int])
                            && out@[a] < out@[b]) by {
                            if b < pos {
                                assert(out@[a] == before[a] && out@[b] == before[b]);
                            } else if b == pos {
                                assert(out@[a] == before[a]);
                            } else if a == pos {
                                assert(out@[b] == before[b - 1]);
                                if b - 1 > pos {
                                    assert(date_of(es@[before[pos as int] as int]) > t);
                                    let x = before[pos as int];
                                    let y = before[b - 1];
                                    assert(date_of(es@[x as int]) < date_of(es@[y as int]) || (
                                    date_of(es@[x as int]) == date_of(es@[y as int]) && x < y));
                                } else {
                                    assert(date_of(es@[before[pos as int] as int]) > t);
                                }
                            } else if a < pos {
                                assert(out@[a] == before[a] && out@[b] == before[b - 1]);
                            } else {
                                assert(out@[a] == before[a - 1] && out@[b] == before[b - 1]);
                            }
                        }
                        assert(published_after(es@[i as int], since));
                    }
                }
            },
            None => {},
        }
        proof {
            broadcast use vstd::seq_lib::group_to_multiset_ensures;
            if published_after(es@[i as int], since) {
                assert(fresh_upto(es@, since, i + 1) == fresh_upto(es@, since, i as int).push(i));
            }
        }
        i = i + 1;
    }
    out
}

/// The index of the newest postable entry; of several equally new, the last.
pub fn newest_postable(es: &Vec<Entry>, now: i64) -> (r: Option<usize>)
    ensures
        match r {
            Some(i) => newest(es@, now) == Some(i as int),
            None => newest(es@, now) is None,
        },
{
    let mut best: Option<usize> = None;
    let mut i: usize = 0;
    while i < es.len()
        invariant
            i <= es.len(),
            match best {
                Some(b) => newest_upto(es@, now, i as int) == Some(b as int) && b < i,
                None => newest_upto(es@, now, i as int) is None,
            },
        decreases es.len() - i,
    {
        let e = &es[i];
        if e.title.is_some() && e.links.len() > 0 {
            let key = e.pub_date_utc_or(now);
            match best {
                Some(b) => {
                    if es[b].pub_date_utc_or(now) <= key {
                        best = Some(i);
                    }
                },
                None => {
                    best = Some(i);
                },
            }
        }
        i = i + 1;
    }
    best
}

/// No entry carries a `published` time.
pub fn all_undated(es: &Vec<Entry>) -> (r: bool)
    ensures
        r == undated(es@),
{
    let mut i: usize = 0;
    while i < es.len()
        invariant
            i <= es.len(),
            forall|k: int| 0 <= k < i ==> (#[trigger] es@[k]).published is None,
        decreases es.len() - i,
    {
        if es[i].published.is_some() {
            return false;
        }
        i = i + 1;
    }
    true
}

/// `r` is what a poll of a feed with entries `es` leads to, given the latest record of
/// the feed, if any.
pub open spec fn decides(es: Seq<Entry>, last: Option<Model>, now: i64, r: NewEntries) -> bool {
    match newest(es, now) {
        None => r is Nothing,
        Some(n) => match last {
            None => r == NewEntries::RecordOnly(n as usize),
            Some(lp) => if undated(es) {
                if title_of(es[0]) != lp.title@ || link_of(es[0]) != lp.link@ {
                    r is Post && r->Post_0@ == seq![0usize]
                } else {
                    r is Nothing
                }
            } else {
                match r {
                    NewEntries::Post(v) => {
                        &&& v@.to_multiset() == fresh_upto(es, lp.pub_date, es.len() as int).to_multiset()
                        &&& in_publication_order(es, v@)
                        &&& forall|k: int|
                            0 <= k < v@.len() ==> (#[trigger] v@[k]) < es.len() && published_after(
                                es[v@[k] as int],
                                lp.pub_date,
                            )
                    },
                    _ => false,
                }
            },
        },
    }
}

/// Decides which entries of a freshly fetched feed are new, given the latest record of
/// the feed (`last`), if any.
/// - No entry with a title and a link: nothing.
/// - First sight of the feed: the newest such entry is recorded as published, and
///   nothing is posted.
/// - No entry carries a `published` time: the first entry is posted where its title or
///   link differs from the last record's.
/// - Otherwise: every entry published strictly after the last record, oldest first.
pub fn determine_new(es: &Vec<Entry>, last: &Option<Model>, now: i64) -> (r: NewEntries)
    ensures
        decides(es@, *last, now, r),
{
    let n = match newest_postable(es, now) {
        Some(n) => n,
        None => {
            return NewEntries::Nothing;
        },
    };
    proof {
        lemma_newest_in_range(es@, now, es@.len() as int);
    }
    match last {
        None => {
            NewEntries::RecordOnly(n)
        },
        Some(lp) => {
            if all_undated(es) {
                let title = entry_title(&es[0]);
                let link = entry_link(&es[0]);
                if lp.title != title || lp.link != link {
                    let mut first: Vec<usize> = Vec::new();
                    first.push(0);
                    assert(first@ =~= seq![0usize]);
                    NewEntries::Post(first)
                } else {
                    NewEntries::Nothing
                }
            } else {
                NewEntries::Post(fresh_in_order(es, lp.pub_date))
            }
        },
    }
}

/// The newest entry among the first `n` is one of them.
pub proof fn lemma_newest_in_range(es: Seq<Entry>, now: i64, n: int)
    requires
        n <= es.len(),
    ensures
        newest_upto(es, now, n) matches Some(i) ==> 0 <= i < n,
    decreases n,
{
    if n > 0 {
        lemma_newest_in_range(es, now, n - 1);
    }
}

/// On first sight of a feed nothing is posted, and where the feed has an entry with a
/// title and a link, exactly one entry is recorded.
pub proof fn lemma_first_sight_posts_nothing(es: Seq<Entry>, now: i64, r: NewEntries)
    requires
        decides(es, None, now, r),
    ensures
        !(r is Post),
        newest(es, now) is Some ==> r is RecordOnly,
{
}

/// Outside the protocol variant without `published` times, no entry published at or
/// before the last record's publication time is ever posted.
pub proof fn lemma_posts_only_later_entries(es: Seq<Entry>, last: Model, now: i64, r: NewEntries)
    requires
        decides(es, Some(last), now, r),
        !undated(es),
    ensures
        r matches NewEntries::Post(v) ==> forall|k: int|
            0 <= k < v@.len() ==> ((#[trigger] es[v@[k] as int]).pub_date() matches Some(t) && t
                > last.pub_date),
{
    if r is Post {
        let v = r->Post_0;
        assert forall|k: int| 0 <= k < v@.len() implies ((#[trigger] es[v@[k] as int]).pub_date() matches Some(t) && t
            > last.pub_date) by {
            assert(published_after(es[v@[k] as int], last.pub_date));
        }
    }
}

} // verus!
