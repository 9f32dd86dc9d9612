use vstd::prelude::*;
use vstd::relations::sorted_by;

use crate::feed::{
    collect_dated_times, collect_times_or, dated_times, lemma_dated_times_valid, times_or,
    valid_time, Feed, TIME_BOUND,
};
use crate::duration::tdiv;
use crate::order::{ascending, lemma_ascending, leq, sort_ascending};

verus! {

/// The `last_fetch` of a feed that was never fetched: the Unix epoch.
pub const NEVER: i64 = 0;

/// Gaps between entries shorter than this many seconds count as one burst.
pub const MIN_GAP: i64 = 300;

/// Time-to-live, in minutes, of a feed that declares none.
pub const DEFAULT_TTL_MINUTES: u32 = 60;

/// Longest poll delay, in seconds, that limits may allow: about 31,000 years.
pub const MAX_DELAY: i64 = 1_000_000_000_000;

/// The range, in seconds, that every poll delay is clamped to.
pub struct WaitLimits {
    pub min_wait: i64,
    pub max_wait: i64,
}

impl WaitLimits {
    /// The limits are ordered, and no longer than `MAX_DELAY`.
    pub open spec fn wf(&self) -> bool {
        0 <= self.min_wait <= self.max_wait <= MAX_DELAY
    }

    /// `d` brought into `[min_wait, max_wait]`.
    pub open spec fn clamp(&self, d: int) -> int {
        if d < self.min_wait {
            self.min_wait as int
        } else if d > self.max_wait {
            self.max_wait as int
        } else {
            d
        }
    }
}

impl Default for WaitLimits {
    /// Five minutes to one hour.
    fn default() -> (r: Self)
        ensures
            r.min_wait == 300,
            r.max_wait == 3600,
    {
        WaitLimits { min_wait: 300, max_wait: 3600 }
    }
}

/// The times in `ts` that lie strictly after `last`, in their order.
pub open spec fn after(ts: Seq<i64>, last: i64) -> Seq<i64>
    decreases ts.len(),
{
    if ts.len() == 0 {
        Seq::empty()
    } else if ts.last() > last {
        after(ts.drop_last(), last).push(ts.last())
    } else {
        after(ts.drop_last(), last)
    }
}

/// The differences between neighbours of `s`.
pub open spec fn gaps(s: Seq<i64>) -> Seq<i64> {
    if s.len() < 2 {
        Seq::empty()
    } else {
        Seq::new((s.len() - 1) as nat, |k: int| (s[k + 1] - s[k]) as i64)
    }
}

/// The gaps of at least `MIN_GAP`, in their order.
pub open spec fn long_gaps(g: Seq<i64>) -> Seq<i64>
    decreases g.len(),
{
    if g.len() == 0 {
        Seq::empty()
    } else if g.last() >= MIN_GAP {
        long_gaps(g.drop_last()).push(g.last())
    } else {
        long_gaps(g.drop_last())
    }
}

/// The middle of an ascending sequence: the mean of the two middle values, rounded towards
/// zero, when its length is even.
pub open spec fn middle(s: Seq<i64>) -> int {
    let n = s.len() as int;
    if n % 2 == 0 {
        tdiv(s[n / 2 - 1] + s[n / 2], 2)
    } else {
        s[n / 2] as int
    }
}

/// The median of a non-empty sequence.
pub open spec fn median_of(s: Seq<i64>) -> int {
    middle(ascending(s))
}

/// An ascending sequence with repeated values removed.
pub open spec fn distinct(s: Seq<i64>) -> Seq<i64>
    decreases s.len(),
{
    if s.len() <= 1 {
        s
    } else if s.last() == s[s.len() - 2] {
        distinct(s.drop_last())
    } else {
        distinct(s.drop_last()).push(s.last())
    }
}

/// The time since `last`: negative where the clock reads earlier than `last`.
pub open spec fn elapsed(last: i64, now: i64) -> int {
    now - last
}

/// The delay before the first poll of a feed: the gap between its newest two distinct
/// publication times where it has at least three of them, bounded by its time-to-live;
/// else a sixth of its time-to-live. Never below `min_wait`.
pub open spec fn first_duration(ttl: Option<u32>, times: Seq<i64>, min_wait: i64) -> int {
    let ttl_secs = match ttl {
        Some(m) => m as int,
        None => DEFAULT_TTL_MINUTES as int,
    } * 60;
    let d = distinct(ascending(times));
    let n = d.len() as int;
    let est = if n > 2 {
        let gap = d[n - 1] - d[n - 2];
        if ttl_secs < gap {
            ttl_secs
        } else {
            gap
        }
    } else {
        ttl_secs / 6
    };
    if est < min_wait {
        min_wait as int
    } else {
        est
    }
}

/// The delay before the next poll of a feed last polled at `last`, from the publication
/// times of its entries, before clamping. Products of the elapsed time are rounded towards
/// zero.
pub open spec fn next_duration(times: Seq<i64>, last: i64, now: i64) -> int {
    let e = elapsed(last, now);
    let fresh = after(times, last);
    let g = long_gaps(gaps(ascending(times)));
    if times.len() == 0 {
        tdiv(e * 3, 2)
    } else if fresh.len() >= 2 {
        tdiv(e, 2)
    } else if fresh.len() == 1 {
        fresh[0] - last
    } else if g.len() == 0 {
        tdiv(e * 3, 2)
    } else if e < median_of(g) / 6 {
        median_of(g) / 6
    } else if e < median_of(g) {
        tdiv(e * 11, 10)
    } else {
        tdiv(e * 3, 2)
    }
}

/// Every value of `ascending(s)` lies in any range that holds all values of `s`.
pub proof fn lemma_ascending_within(s: Seq<i64>, lo: int, hi: int)
    requires
        forall|i: int| 0 <= i < s.len() ==> lo <= #[trigger] s[i] <= hi,
    ensures
        forall|i: int| 0 <= i < ascending(s).len() ==> lo <= #[trigger] ascending(s)[i] <= hi,
{
    lemma_ascending(s);
    broadcast use vstd::seq_lib::group_to_multiset_ensures;
    assert forall|i: int| 0 <= i < ascending(s).len() implies lo <= #[trigger] ascending(s)[i] <= hi by {
        let x = ascending(s)[i];
        assert(ascending(s).contains(x));
        assert(s.to_multiset().count(x) > 0);
        assert(s.contains(x));
    }
}

/// The times after `last` are times of `ts` that lie after `last`.
pub proof fn lemma_after(ts: Seq<i64>, last: i64)
    ensures
        forall|i: int| 0 <= i < after(ts, last).len() ==> #[trigger] after(ts, last)[i] > last
            && ts.contains(after(ts, last)[i]),
    decreases ts.len(),
{
    if ts.len() > 0 {
        lemma_after(ts.drop_last(), last);
        assert forall|i: int| 0 <= i < after(ts, last).len() implies #[trigger] after(ts, last)[i] > last
            && ts.contains(after(ts, last)[i]) by {
            if i < after(ts.drop_last(), last).len() {
                let j = choose|j: int| 0 <= j < ts.drop_last().len() && ts.drop_last()[j] == after(ts.drop_last(), last)[i];
                assert(ts[j] == ts.drop_last()[j]);
            } else {
                assert(ts[ts.len() - 1] == ts.last());
            }
        }
    }
}

/// The long gaps are at least `MIN_GAP`, and keep any upper bound of all gaps.
pub proof fn lemma_long_gaps(g: Seq<i64>, hi: int)
    requires
        forall|i: int| 0 <= i < g.len() ==> #[trigger] g[i] <= hi,
    ensures
        forall|i: int| 0 <= i < long_gaps(g).len() ==> MIN_GAP <= #[trigger] long_gaps(g)[i] <= hi,
    decreases g.len(),
{
    if g.len() > 0 {
        assert forall|i: int| 0 <= i < g.drop_last().len() implies #[trigger] g.drop_last()[i] <= hi by {
            assert(g.drop_last()[i] == g[i]);
        }
        lemma_long_gaps(g.drop_last(), hi);
        assert(g.last() == g[g.len() - 1]);
        let prev = long_gaps(g.drop_last());
        assert forall|i: int| 0 <= i < long_gaps(g).len() implies MIN_GAP <= #[trigger] long_gaps(
            g,
        )[i] <= hi by {
            if i < prev.len() {
                assert(long_gaps(g)[i] == prev[i]);
            }
        }
    }
}

/// The times of `ts` that lie strictly after `last`, in their order.
pub fn times_after(ts: &Vec<i64>, last: i64) -> (r: Vec<i64>)
    ensures
        r@ == after(ts@, last),
{
    let mut out: Vec<i64> = Vec::new();
    let mut i: usize = 0;
    proof {
        assert(ts@.take(0) =~= Seq::<i64>::empty());
    }
    while i < ts.len()
        invariant
            i <= ts.len(),
            out@ == after(ts@.take(i as int), last),
        decreases ts.len() - i,
    {
        proof {
            assert(ts@.take(i + 1).drop_last() == ts@.take(i as int));
            assert(ts@.take(i + 1).last() == ts@[i as int]);
        }
        if ts[i] > last {
            out.push(ts[i]);
        }
        i = i + 1;
    }
    proof {
        assert(ts@.take(ts.len() as int) == ts@);
    }
    out
}

/// The differences between neighbours of an ascending list of valid times.
pub fn gap_list(s: &Vec<i64>) -> (r: Vec<i64>)
    requires
        sorted_by(s@, leq()),
        forall|i: int| 0 <= i < s@.len() ==> valid_time(#[trigger] s@[i] as int),
    ensures
        r@ == gaps(s@),
        forall|i: int| 0 <= i < r@.len() ==> 0 <= #[trigger] r@[i] <= 2 * TIME_BOUND,
{
    let mut out: Vec<i64> = Vec::new();
    if s.len() < 2 {
        return out;
    }
    let mut k: usize = 0;
    while k + 1 < s.len()
        invariant
            s@.len() >= 2,
            k + 1 <= s@.len(),
            out@.len() == k,
            forall|j: int| 0 <= j < k ==> #[trigger] out@[j] == (s@[j + 1] - s@[j]) as i64,
            forall|j: int| 0 <= j < k ==> 0 <= #[trigger] out@[j] <= 2 * TIME_BOUND,
            sorted_by(s@, leq()),
            forall|i: int| 0 <= i < s@.len() ==> valid_time(#[trigger] s@[i] as int),
        decreases s.len() - k,
    {
        assert(leq()(s@[k as int], s@[k + 1]));
        let d = s[k + 1] - s[k];
        out.push(d);
        k = k + 1;
    }
    assert(out@ =~= gaps(s@));
    out
}

/// The gaps of at least `MIN_GAP`, in their order.
pub fn long_gap_list(g: &Vec<i64>) -> (r: Vec<i64>)
    ensures
        r@ == long_gaps(g@),
{
    let mut out: Vec<i64> = Vec::new();
    let mut i: usize = 0;
    proof {
        assert(g@.take(0) =~= Seq::<i64>::empty());
    }
    while i < g.len()
        invariant
            i <= g.len(),
            out@ == long_gaps(g@.take(i as int)),
        decreases g.len() - i,
    {
        proof {
            assert(g@.take(i + 1).drop_last() == g@.take(i as int));
            assert(g@.take(i + 1).last() == g@[i as int]);
        }
        if g[i] >= MIN_GAP {
            out.push(g[i]);
        }
        i = i + 1;
    }
    proof {
        assert(g@.take(g.len() as int) == g@);
    }
    out
}

/// The median of a non-empty list of spans: the middle value once sorted, or the mean of
/// the two middle values where the length is even.
pub fn median(durations: Vec<i64>) -> (r: i64)
    requires
        durations@.len() > 0,
        forall|i: int| 0 <= i < durations@.len() ==> -2 * TIME_BOUND <= #[trigger] durations@[i] <= 2 * TIME_BOUND,
    ensures
        r == median_of(durations@),
        -2 * TIME_BOUND <= r <= 2 * TIME_BOUND,
        (forall|i: int| 0 <= i < durations@.len() ==> 0 <= #[trigger] durations@[i]) ==> 0 <= r,
{
    let sorted = sort_ascending(&durations);
    proof {
        lemma_ascending(durations@);
        lemma_ascending_within(durations@, -2 * TIME_BOUND, 2 * TIME_BOUND);
        if forall|i: int| 0 <= i < durations@.len() ==> 0 <= #[trigger] durations@[i] {
            lemma_ascending_within(durations@, 0, 2 * TIME_BOUND);
        }
    }
    let len = sorted.len();
    if len % 2 == 0 {
        (sorted[len / 2 - 1] + sorted[len / 2]) / 2
    } else {
        sorted[len / 2]
    }
}

/// Repeated values of an ascending list removed.
pub fn distinct_list(s: &Vec<i64>) -> (r: Vec<i64>)
    ensures
        r@ == distinct(s@),
{
    let mut out: Vec<i64> = Vec::new();
    if s.len() == 0 {
        assert(s@ =~= Seq::<i64>::empty());
        return out;
    }
    out.push(s[0]);
    let mut i: usize = 1;
    proof {
        assert(s@.take(1) =~= seq![s@[0]]);
        assert(out@ =~= seq![s@[0]]);
    }
    while i < s.len()
        invariant
            1 <= i <= s.len(),
            out@ == distinct(s@.take(i as int)),
        decreases s.len() - i,
    {
        proof {
            assert(s@.take(i + 1).drop_last() == s@.take(i as int));
            assert(s@.take(i + 1).last() == s@[i as int]);
            assert(s@.take(i + 1)[i - 1] == s@[i - 1]);
        }
        if s[i] != s[i - 1] {
            out.push(s[i]);
        }
        i = i + 1;
    }
    proof {
        assert(s@.take(s.len() as int) == s@);
    }
    out
}

/// The scheduling record of one feed, keyed by a stable feed id.
/// Times are seconds from the Unix epoch; `NEVER` marks a feed not fetched yet.
pub struct Model {
    pub source: String,
    pub last_fetch: i64,
    pub next_fetch: i64,
}

impl Model {
    /// Both times are valid.
    pub open spec fn wf(&self) -> bool {
        &&& valid_time(self.last_fetch as int)
        &&& valid_time(self.next_fetch as int)
    }

    /// The record of a feed seen for the first time.
    pub fn new(source: String) -> (r: Self)
        ensures
            r.source == source,
            r.last_fetch == NEVER,
            r.next_fetch == NEVER,
            r.wf(),
    {
        Model { source, last_fetch: NEVER, next_fetch: NEVER }
    }

    /// Records a fetch made at `now` and schedules the next one: returns the delay,
    /// which lies in `[min_wait, max_wait]`, and sets `next_fetch` to `now` plus it.
    /// A feed never fetched before is timed by `get_first_duration`, any other by
    /// `get_next_duration`.
    pub fn update_next_fetch(&mut self, feed: &Feed, now: i64, limits: &WaitLimits) -> (r: i64)
        requires
            old(self).wf(),
            feed.wf(),
            limits.wf(),
            valid_time(now as int),
            now <= TIME_BOUND - limits.max_wait,
        ensures
            r == limits.clamp(
                if old(self).last_fetch == NEVER {
                    first_duration(feed.ttl, times_or(feed.entries@, now), limits.min_wait)
                } else {
                    next_duration(dated_times(feed.entries@), old(self).last_fetch, now)
                },
            ),
            limits.min_wait <= r <= limits.max_wait,
            final(self).source == old(self).source,
            final(self).last_fetch == now,
            final(self).next_fetch == now + r,
            final(self).next_fetch >= final(self).last_fetch,
            final(self).wf(),
    {
        let d = if self.last_fetch == NEVER {
            Self::get_first_duration(feed, now, limits.min_wait)
        } else {
            Self::get_next_duration(feed, self.last_fetch, now)
        };
        let r = if d < limits.min_wait {
            limits.min_wait
        } else if d > limits.max_wait {
            limits.max_wait
        } else {
            d
        };
        self.last_fetch = now;
        self.next_fetch = now + r;
        r
    }

    /// The delay before the first poll of a feed, with `now` standing in for missing
    /// publication times.
    pub fn get_first_duration(feed: &Feed, now: i64, min_wait: i64) -> (r: i64)
        requires
            feed.wf(),
            valid_time(now as int),
            0 <= min_wait <= TIME_BOUND,
        ensures
            r == first_duration(feed.ttl, times_or(feed.entries@, now), min_wait),
            0 <= r <= 2 * TIME_BOUND,
    {
        let ttl_minutes: u32 = match feed.ttl {
            Some(m) => m,
            None => DEFAULT_TTL_MINUTES,
        };
        let ttl = ttl_minutes as i64 * 60;
        let times = collect_times_or(&feed.entries, now);
        proof {
            assert forall|i: int| 0 <= i < times@.len() implies -TIME_BOUND <= #[trigger] times@[i] <= TIME_BOUND by {
                assert(feed.entries@[i].wf());
            }
            lemma_ascending(times@);
            lemma_ascending_within(times@, -TIME_BOUND as int, TIME_BOUND as int);
        }
        let sorted = sort_ascending(&times);
        let d = distinct_list(&sorted);
        proof {
            lemma_distinct_within(sorted@, -TIME_BOUND as int, TIME_BOUND as int);
        }
        let n = d.len();
        let est = if n > 2 {
            let gap = d[n - 1] - d[n - 2];
            if ttl < gap {
                ttl
            } else {
                gap
            }
        } else {
            ttl / 6
        };
        if est < min_wait {
            min_wait
        } else {
            est
        }
    }
}

impl Model {
    /// The delay before the next poll of a feed last polled at `last`, before clamping.
    /// Entries without a publication time are left out; where none is left, or where no
    /// gap between entries is long enough to count, the delay grows by half.
    pub fn get_next_duration(feed: &Feed, last: i64, now: i64) -> (r: i64)
        requires
            feed.wf(),
            valid_time(last as int),
            valid_time(now as int),
        ensures
            r == next_duration(dated_times(feed.entries@), last, now),
            -3 * TIME_BOUND <= r <= 3 * TIME_BOUND,
    {
        let e: i64 = now - last;
        let times = collect_dated_times(&feed.entries);
        proof {
            lemma_dated_times_valid(feed.entries@);
        }
        if times.len() == 0 {
            return e * 3 / 2;
        }
        let fresh = times_after(&times, last);
        proof {
            lemma_after(times@, last);
        }
        if fresh.len() >= 2 {
            return e / 2;
        }
        if fresh.len() == 1 {
            proof {
                let x = fresh@[0];
                assert(times@.contains(x));
                let j = choose|j: int| 0 <= j < times@.len() && times@[j] == x;
                assert(valid_time(times@[j] as int));
            }
            return fresh[0] - last;
        }
        let m = match typical_gap(&times) {
            Some(m) => m,
            None => {
                return e * 3 / 2;
            },
        };
        let m6 = m / 6;
        if e < m6 {
            m6
        } else if e < m {
            e * 11 / 10
        } else {
            e * 3 / 2
        }
    }
}

/// The typical spacing of a list of valid times: the median of the gaps, of at least
/// `MIN_GAP`, between neighbours once sorted; `None` where no gap is that long.
pub fn typical_gap(times: &Vec<i64>) -> (r: Option<i64>)
    requires
        forall|i: int| 0 <= i < times@.len() ==> valid_time(#[trigger] times@[i] as int),
    ensures
        r == (if long_gaps(gaps(ascending(times@))).len() == 0 {
            None::<i64>
        } else {
            Some(median_of(long_gaps(gaps(ascending(times@)))) as i64)
        }),
        r matches Some(m) ==> 0 <= m <= 2 * TIME_BOUND,
{
    proof {
        assert forall|i: int| 0 <= i < times@.len() implies -TIME_BOUND <= #[trigger] times@[i] <= TIME_BOUND by {
            assert(valid_time(times@[i] as int));
        }
        lemma_ascending(times@);
        lemma_ascending_within(times@, -TIME_BOUND as int, TIME_BOUND as int);
    }
    let sorted = sort_ascending(times);
    let g = gap_list(&sorted);
    let lg = long_gap_list(&g);
    proof {
        lemma_long_gaps(g@, 2 * TIME_BOUND);
    }
    if lg.len() == 0 {
        return None;
    }
    Some(median(lg))
}

/// With no entries, the next delay is the time since the last poll grown by half.
pub proof fn lemma_empty_feed_backs_off(feed: Feed, last: i64, now: i64)
    requires
        feed.entries@.len() == 0,
    ensures
        next_duration(dated_times(feed.entries@), last, now) == tdiv((now - last) * 3, 2),
        now >= last ==> next_duration(dated_times(feed.entries@), last, now) == (now - last) * 3 / 2,
{
}

/// Where two or more entries were published after the last poll, the next delay is half
/// the time since it.
pub proof fn lemma_burst_halves(feed: Feed, last: i64, now: i64)
    requires
        after(dated_times(feed.entries@), last).len() >= 2,
    ensures
        next_duration(dated_times(feed.entries@), last, now) == tdiv(now - last, 2),
        now >= last ==> next_duration(dated_times(feed.entries@), last, now) == (now - last) / 2,
{
}

/// Whatever the entries and the clock, the scheduled delay lies within the limits, on the
/// first poll of a feed as on any later one.
pub proof fn lemma_delay_within_limits(feed: Feed, last: i64, now: i64, limits: WaitLimits)
    requires
        limits.wf(),
    ensures
        limits.min_wait <= limits.clamp(
            first_duration(feed.ttl, times_or(feed.entries@, now), limits.min_wait),
        ) <= limits.max_wait,
        limits.min_wait <= limits.clamp(next_duration(dated_times(feed.entries@), last, now))
            <= limits.max_wait,
{
}

/// The first poll of a feed with a time-to-live of an hour and three entries ten minutes
/// apart waits ten minutes, under limits of five minutes to an hour.
pub proof fn lemma_first_poll_ten_minute_spacing(feed: Feed, now: i64, t: i64)
    requires
        feed.ttl == Some(60u32),
        valid_time(t as int),
        valid_time(t + 1200),
        times_or(feed.entries@, now).to_multiset() == seq![t, (t + 600) as i64, (t + 1200) as i64].to_multiset(),
    ensures
        first_duration(feed.ttl, times_or(feed.entries@, now), 300) == 600,
        (WaitLimits { min_wait: 300, max_wait: 3600 }).clamp(
            first_duration(feed.ttl, times_or(feed.entries@, now), 300),
        ) == 600,
{
    let s = seq![t, (t + 600) as i64, (t + 1200) as i64];
    assert(sorted_by(s, leq()));
    crate::order::lemma_ascending_unique(times_or(feed.entries@, now), s);
    assert(s.drop_last() =~= seq![t, (t + 600) as i64]);
    assert(s.drop_last().drop_last() =~= seq![t]);
    assert(distinct(seq![t]) == seq![t]);
    assert(distinct(s.drop_last()) =~= seq![t, (t + 600) as i64]);
    assert(distinct(s) =~= s);
}

/// A feed polled forty minutes ago, with exactly one entry since, published thirty minutes
/// after that poll, is polled again in thirty minutes.
pub proof fn lemma_single_entry_mirrors_gap(feed: Feed, last: i64, now: i64)
    requires
        valid_time(last as int),
        valid_time(last + 2400),
        now == last + 2400,
        after(dated_times(feed.entries@), last) == seq![(last + 1800) as i64],
    ensures
        next_duration(dated_times(feed.entries@), last, now) == 1800,
        (WaitLimits { min_wait: 300, max_wait: 3600 }).clamp(
            next_duration(dated_times(feed.entries@), last, now),
        ) == 1800,
{
    if dated_times(feed.entries@).len() == 0 {
        assert(after(dated_times(feed.entries@), last) == Seq::<i64>::empty());
    }
}

/// Gaps under five minutes are left out of the median: for entries at 0, 1, 10, 11 and 20
/// minutes, the gaps of 1, 9, 1 and 9 minutes leave 9 and 9, whose median is 9 minutes.
pub proof fn lemma_bursts_left_out(t: i64)
    requires
        valid_time(t as int),
        valid_time(t + 1200),
    ensures
        long_gaps(gaps(ascending(seq![t, (t + 60) as i64, (t + 600) as i64, (t + 660) as i64, (t + 1200) as i64])))
            == seq![540i64, 540i64],
        median_of(long_gaps(gaps(ascending(seq![t, (t + 60) as i64, (t + 600) as i64, (t + 660) as i64, (t + 1200) as i64]))))
            == 540,
{
    let s = seq![t, (t + 60) as i64, (t + 600) as i64, (t + 660) as i64, (t + 1200) as i64];
    assert(sorted_by(s, leq()));
    crate::order::lemma_ascending_unique(s, s);
    let g = seq![60i64, 540i64, 60i64, 540i64];
    assert(gaps(s) =~= g);
    assert(g.drop_last() =~= seq![60i64, 540i64, 60i64]);
    assert(g.drop_last().drop_last() =~= seq![60i64, 540i64]);
    assert(g.drop_last().drop_last().drop_last() =~= seq![60i64]);
    assert(g.drop_last().drop_last().drop_last().drop_last() =~= Seq::<i64>::empty());
    assert(seq![60i64].drop_last() =~= Seq::<i64>::empty());
    assert(seq![60i64].last() == 60);
    assert(long_gaps(Seq::<i64>::empty()) == Seq::<i64>::empty());
    assert(long_gaps(seq![60i64]) =~= Seq::<i64>::empty());
    assert(seq![60i64, 540i64].drop_last() =~= seq![60i64]);
    assert(seq![60i64, 540i64].last() == 540);
    assert(seq![60i64, 540i64, 60i64].last() == 60);
    assert(g.last() == 540);
    assert(long_gaps(seq![60i64, 540i64]) =~= seq![540i64]);
    assert(long_gaps(seq![60i64, 540i64, 60i64]) =~= seq![540i64]);
    assert(long_gaps(g) =~= seq![540i64, 540i64]);
    let m = seq![540i64, 540i64];
    assert(sorted_by(m, leq()));
    crate::order::lemma_ascending_unique(m, m);
}

/// Removing repeats keeps values inside any range that holds them all, and keeps order.
pub proof fn lemma_distinct_within(s: Seq<i64>, lo: int, hi: int)
    requires
        forall|i: int| 0 <= i < s.len() ==> lo <= #[trigger] s[i] <= hi,
    ensures
        forall|i: int| 0 <= i < distinct(s).len() ==> lo <= #[trigger] distinct(s)[i] <= hi,
    decreases s.len(),
{
    if s.len() > 1 {
        assert forall|i: int| 0 <= i < s.drop_last().len() implies lo <= #[trigger] s.drop_last()[i] <= hi by {
            assert(s.drop_last()[i] == s[i]);
        }
        lemma_distinct_within(s.drop_last(), lo, hi);
        let prev = distinct(s.drop_last());
        assert forall|i: int| 0 <= i < distinct(s).len() implies lo <= #[trigger] distinct(s)[i] <= hi by {
            if i < prev.len() {
                assert(distinct(s)[i] == prev[i]);
            } else {
                assert(s.last() == s[s.len() - 1]);
            }
        }
    }
}

} // verus!
