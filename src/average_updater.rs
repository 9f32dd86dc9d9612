use vstd::prelude::*;

use crate::duration::Duration;
use crate::feed::{valid_time, TIME_BOUND};

verus! {

/// The time, in seconds from the Unix epoch, that `chrono` reads from an RFC 2822 date.
pub uninterp spec fn rfc2822_time(s: Seq<char>) -> Option<int>;

/// Relies on `chrono::DateTime::parse_from_rfc2822` and `DateTime::timestamp`: the instant
/// an RFC 2822 date names, in seconds from the Unix epoch, where the text parses.
#[verifier::external_body]
fn parse_rfc2822(s: &str) -> (r: Option<i64>)
    ensures
        r matches Some(t) ==> rfc2822_time(s@) == Some(t as int),
        r is None ==> rfc2822_time(s@) is None,
{
    match chrono::DateTime::parse_from_rfc2822(s) {
        Ok(d) => Some(d.timestamp()),
        Err(_) => None,
    }
}

/// Shortest and longest wait, in seconds, that the running average gives.
pub const AVERAGE_MIN_WAIT: i64 = 300;
pub const AVERAGE_MAX_WAIT: i64 = 43_200;

/// The average after an update at `new_time`: unchanged at the first update; then the time
/// since the previous update, then the mean of the old average and it, rounded towards zero.
pub open spec fn next_average(last: Option<i64>, average: Option<i64>, new_time: i64) -> Option<i64> {
    match last {
        None => average,
        Some(last) => Some(
            match average {
                None => (new_time - last) as i64,
                Some(avg) => {
                    let sum = avg + (new_time - last);
                    (if sum >= 0 {
                        sum / 2
                    } else {
                        -((-sum) / 2)
                    }) as i64
                },
            },
        ),
    }
}

/// Keeps a running average of the time between updates of a source.
pub struct AverageUpdater {
    last_time: Option<i64>,
    current_average: Option<i64>,
    last_title: Option<String>,
}

impl AverageUpdater {
    pub closed spec fn spec_last_time(&self) -> Option<i64> {
        self.last_time
    }

    pub closed spec fn spec_average(&self) -> Option<i64> {
        self.current_average
    }

    pub closed spec fn spec_last_title(&self) -> Option<String> {
        self.last_title
    }

    /// The last time is valid and the average lies within twice `TIME_BOUND`.
    pub open spec fn wf(&self) -> bool {
        &&& (self.spec_last_time() matches Some(t) ==> valid_time(t as int))
        &&& (self.spec_average() matches Some(a) ==> -2 * TIME_BOUND <= a <= 2 * TIME_BOUND)
    }

    /// Nothing seen yet.
    pub fn new() -> (r: Self)
        ensures
            r.spec_last_time() is None,
            r.spec_average() is None,
            r.spec_last_title() is None,
            r.wf(),
    {
        AverageUpdater { last_time: None, current_average: None, last_title: None }
    }

    /// The time of the latest update seen.
    pub fn last_time(&self) -> (r: &Option<i64>)
        ensures
            *r == self.spec_last_time(),
    {
        &self.last_time
    }

    /// The title of the latest update seen, where one was set.
    pub fn last_title(&self) -> (r: &Option<String>)
        ensures
            *r == self.spec_last_title(),
    {
        &self.last_title
    }

    /// Sets the title of the latest update seen.
    pub fn set_last_title(&mut self, title: Option<String>)
        ensures
            final(self).spec_last_title() == title,
            final(self).spec_last_time() == old(self).spec_last_time(),
            final(self).spec_average() == old(self).spec_average(),
    {
        self.last_title = title;
    }

    /// Takes in an update at `new_time`: from the second update on, the average becomes
    /// the time since the previous update, then the mean of the old average and it,
    /// rounded towards zero.
    pub fn update(&mut self, new_time: i64)
        requires
            old(self).wf(),
            valid_time(new_time as int),
        ensures
            final(self).wf(),
            final(self).spec_last_time() == Some(new_time),
            final(self).spec_last_title() == old(self).spec_last_title(),
            final(self).spec_average() == next_average(
                old(self).spec_last_time(),
                old(self).spec_average(),
                new_time,
            ),
    {
        match self.last_time {
            Some(last) => {
                let diff = new_time - last;
                let avg = match self.current_average {
                    Some(avg) => (avg + diff) / 2,
                    None => diff,
                };
                self.current_average = Some(avg);
            },
            None => {},
        }
        self.last_time = Some(new_time);
    }

    /// Takes in an update at the time an RFC 2822 date names. Returns false, and changes
    /// nothing, where the text does not parse or names a time out of range.
    pub fn update_from_rfc2822(&mut self, new_time: &str) -> (r: bool)
        requires
            old(self).wf(),
        ensures
            final(self).wf(),
            r == (rfc2822_time(new_time@) matches Some(t) && valid_time(t)),
            !r ==> *final(self) == *old(self),
            r ==> (final(self).spec_last_time() matches Some(t) && rfc2822_time(new_time@) == Some(
                t as int,
            ) && final(self).spec_average() == next_average(
                old(self).spec_last_time(),
                old(self).spec_average(),
                t,
            )),
            final(self).spec_last_title() == old(self).spec_last_title(),
    {
        match parse_rfc2822(new_time) {
            Some(t) => {
                if -TIME_BOUND <= t && t <= TIME_BOUND {
                    self.update(t);
                    true
                } else {
                    false
                }
            },
            None => false,
        }
    }

    /// The wait before looking again: the average clamped to five minutes to twelve hours;
    /// twelve hours while there is no average yet.
    pub fn get_next_wait(&self) -> (r: Duration)
        ensures
            r.seconds == match self.spec_average() {
                None => AVERAGE_MAX_WAIT,
                Some(a) => if a < AVERAGE_MIN_WAIT {
                    AVERAGE_MIN_WAIT
                } else if a > AVERAGE_MAX_WAIT {
                    AVERAGE_MAX_WAIT
                } else {
                    a
                },
            },
    {
        let avg = match self.current_average {
            Some(a) => a,
            None => AVERAGE_MAX_WAIT,
        };
        let w = if avg < AVERAGE_MIN_WAIT {
            AVERAGE_MIN_WAIT
        } else if avg > AVERAGE_MAX_WAIT {
            AVERAGE_MAX_WAIT
        } else {
            avg
        };
        Duration::seconds(w)
    }
}

} // verus!
