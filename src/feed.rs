use vstd::prelude::*;

verus! {

/// Largest magnitude, in seconds from the Unix epoch, of a timestamp the library handles:
/// beyond every date that `chrono` can represent (about 262,000 years either way).
pub const TIME_BOUND: i64 = 10_000_000_000_000;

/// `t` lies within `TIME_BOUND` seconds of the Unix epoch.
pub open spec fn valid_time(t: int) -> bool {
    -TIME_BOUND <= t <= TIME_BOUND
}

/// A category of an entry: a term, with an optional human-readable label.
pub struct Category {
    pub term: String,
    pub label: Option<String>,
}

/// One syndicated item of a feed, whatever protocol it came in.
/// Times are seconds from the Unix epoch.
pub struct Entry {
    pub title: Option<String>,
    pub links: Vec<String>,
    pub categories: Vec<Category>,
    pub published: Option<i64>,
    pub updated: Option<i64>,
}

/// A fetched feed: its time-to-live hint in minutes, and its entries in document order.
pub struct Feed {
    pub ttl: Option<u32>,
    pub entries: Vec<Entry>,
}

impl Entry {
    /// The time the entry counts as published at: `published`, else `updated`.
    pub open spec fn pub_date(&self) -> Option<i64> {
        match self.published {
            Some(p) => Some(p),
            None => self.updated,
        }
    }

    /// Its times are valid.
    pub open spec fn wf(&self) -> bool {
        &&& (self.published matches Some(p) ==> valid_time(p as int))
        &&& (self.updated matches Some(u) ==> valid_time(u as int))
    }

    /// The time the entry counts as published at, if it carries one.
    pub fn pub_date_utc(&self) -> (r: Option<i64>)
        ensures
            r == self.pub_date(),
    {
        match self.published {
            Some(p) => Some(p),
            None => self.updated,
        }
    }

    /// The time the entry counts as published at, or `or` where it carries none.
    pub fn pub_date_utc_or(&self, or: i64) -> (r: i64)
        ensures
            r == match self.pub_date() {
                Some(t) => t,
                None => or,
            },
    {
        match self.pub_date_utc() {
            Some(t) => t,
            None => or,
        }
    }
}

impl Feed {
    /// Every entry is well formed.
    pub open spec fn wf(&self) -> bool {
        forall|i: int| 0 <= i < self.entries@.len() ==> (#[trigger] self.entries@[i]).wf()
    }
}

/// The publication times of the entries that carry one, in document order.
pub open spec fn dated_times(es: Seq<Entry>) -> Seq<i64>
    decreases es.len(),
{
    if es.len() == 0 {
        Seq::empty()
    } else {
        let rest = dated_times(es.drop_last());
        match es.last().pub_date() {
            Some(t) => rest.push(t),
            None => rest,
        }
    }
}

/// The publication times of the entries, with `now` standing in where an entry carries none.
pub open spec fn times_or(es: Seq<Entry>, now: i64) -> Seq<i64> {
    es.map_values(|e: Entry| match e.pub_date() {
        Some(t) => t,
        None => now,
    })
}

/// The publication times of well-formed entries are valid times, one at most per entry.
pub proof fn lemma_dated_times_valid(es: Seq<Entry>)
    requires
        forall|i: int| 0 <= i < es.len() ==> (#[trigger] es[i]).wf(),
    ensures
        forall|i: int| 0 <= i < dated_times(es).len() ==> valid_time(#[trigger] dated_times(es)[i] as int),
        dated_times(es).len() <= es.len(),
    decreases es.len(),
{
    if es.len() > 0 {
        assert forall|i: int| 0 <= i < es.drop_last().len() implies (#[trigger] es.drop_last()[i]).wf() by {
            assert(es.drop_last()[i] == es[i]);
        }
        lemma_dated_times_valid(es.drop_last());
        assert(es.last() == es[es.len() - 1]);
    }
}

/// Collects the publication times of the entries that carry one, in document order.
pub fn collect_dated_times(es: &Vec<Entry>) -> (r: Vec<i64>)
    ensures
        r@ == dated_times(es@),
{
    let mut out: Vec<i64> = Vec::new();
    let mut i: usize = 0;
    proof {
        assert(es@.take(0) =~= Seq::<Entry>::empty());
    }
    while i < es.len()
        invariant
            i <= es.len(),
            out@ == dated_times(es@.take(i as int)),
        decreases es.len() - i,
    {
        proof {
            assert(es@.take(i + 1).drop_last() == es@.take(i as int));
            assert(es@.take(i + 1).last() == es@[i as int]);
        }
        match es[i].pub_date_utc() {
            Some(t) => out.push(t),
            None => {},
        }
        i = i + 1;
    }
    proof {
        assert(es@.take(es.len() as int) == es@);
    }
    out
}

/// Collects the publication times of the entries, with `now` where an entry carries none.
pub fn collect_times_or(es: &Vec<Entry>, now: i64) -> (r: Vec<i64>)
    ensures
        r@ == times_or(es@, now),
{
    let mut out: Vec<i64> = Vec::new();
    let mut i: usize = 0;
    while i < es.len()
        invariant
            i <= es.len(),
            out@ == times_or(es@.take(i as int), now),
        decreases es.len() - i,
    {
        let t = es[i].pub_date_utc_or(now);
        out.push(t);
        proof {
            assert(times_or(es@.take(i + 1), now) =~= times_or(es@.take(i as int), now).push(t));
        }
        i = i + 1;
    }
    proof {
        assert(es@.take(es.len() as int) == es@);
    }
    out
}

} // verus!
