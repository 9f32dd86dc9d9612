use rand::Rng;
use vstd::prelude::*;

use crate::feed::{dated_times, times_or, valid_time, Feed};
use crate::feed_info::{first_duration, next_duration, Model, WaitLimits, NEVER};

verus! {

/// Seconds to wait after a fetch or parse failure before polling the feed again.
pub const FAILED_FETCH_WAIT_SECS: i64 = 1200;

/// Bounds, in seconds, of the random wait before the first poll after a start.
pub const JITTER_MIN_SECS: i64 = 10;
pub const JITTER_MAX_SECS: i64 = 60;

/// Seconds a poll loop pauses after queueing an entry.
pub const QUEUE_INTERVAL_SECS: i64 = 1;

/// Seconds between two reloads of the configuration.
pub const CONFIG_INTERVAL_SECS: i64 = 60;

/// Default capacity of the queue between the poll loops and the publish loop.
pub const MAX_QUEUE: usize = 1000;

/// Latest time, in seconds from the Unix epoch, that the clock can read: past the end of
/// the last calendar year that `chrono` represents.
pub const CLOCK_MAX: i64 = 9_000_000_000_000;

/// Relies on `chrono::Utc::now` and `DateTime::timestamp`: the current time in whole
/// seconds from the Unix epoch. `Utc::now` reads the system clock, which stands at or after
/// the epoch, and builds a date within chrono's range.
#[verifier::external_body]
pub(crate) fn now_secs() -> (r: i64)
    ensures
        0 <= r <= CLOCK_MAX,
{
    chrono::Utc::now().timestamp()
}

/// Relies on `rand::Rng::gen_range` over `thread_rng`: a number drawn from `lo..=hi`.
#[verifier::external_body]
pub(crate) fn random_between(lo: i64, hi: i64) -> (r: i64)
    requires
        lo <= hi,
    ensures
        lo <= r <= hi,
{
    rand::thread_rng().gen_range(lo..=hi)
}

/// The wait before the first poll of a feed after a start: until `next_fetch` where it
/// lies ahead, else a short random jitter, so that feeds do not all poll at once.
pub fn initial_wait(next_fetch: i64, now: i64) -> (r: i64)
    requires
        valid_time(next_fetch as int),
        valid_time(now as int),
    ensures
        initial_wait_at(next_fetch, now, r),
{
    if next_fetch != NEVER && next_fetch > now {
        next_fetch - now
    } else {
        random_between(JITTER_MIN_SECS, JITTER_MAX_SECS)
    }
}

/// `r` is a wait that `initial_wait` may give for `next_fetch` at `now`.
pub open spec fn initial_wait_at(next_fetch: i64, now: i64, r: i64) -> bool {
    &&& (next_fetch != NEVER && next_fetch > now ==> r == next_fetch - now)
    &&& (!(next_fetch != NEVER && next_fetch > now) ==> JITTER_MIN_SECS <= r <= JITTER_MAX_SECS)
}

/// The wait before the first poll of a feed after a start, by the clock: the clock reading
/// used, and what `initial_wait` gives at it.
pub fn initial_wait_now(next_fetch: i64) -> (r: (i64, i64))
    requires
        valid_time(next_fetch as int),
    ensures
        0 <= r.0 <= CLOCK_MAX,
        initial_wait_at(next_fetch, r.0, r.1),
{
    let now = now_secs();
    (now, initial_wait(next_fetch, now))
}

impl Model {
    /// Records a fetch made now, by the clock, and schedules the next one; returns the
    /// delay, which lies in `[min_wait, max_wait]`.
    pub fn refresh(&mut self, feed: &Feed, limits: &WaitLimits) -> (r: i64)
        requires
            old(self).wf(),
            feed.wf(),
            limits.wf(),
        ensures
            r == limits.clamp(
                if old(self).last_fetch == NEVER {
                    first_duration(feed.ttl, times_or(feed.entries@, final(self).last_fetch), limits.min_wait)
                } else {
                    next_duration(dated_times(feed.entries@), old(self).last_fetch, final(self).last_fetch)
                },
            ),
            limits.min_wait <= r <= limits.max_wait,
            0 <= final(self).last_fetch <= CLOCK_MAX,
            final(self).source == old(self).source,
            final(self).next_fetch == final(self).last_fetch + r,
            final(self).wf(),
    {
        let now = now_secs();
        self.update_next_fetch(feed, now, limits)
    }
}

} // verus!
