use vstd::prelude::*;

use crate::chars::push_char;
use crate::duration::{int_text, push_int, tdiv, trem, Duration};

verus! {

/// `n` followed by the unit letter, where `n` is positive; nothing otherwise.
pub open spec fn part(n: int, unit: char) -> Seq<char> {
    if n > 0 {
        int_text(n).push(unit)
    } else {
        Seq::empty()
    }
}

/// A span as an ISO 8601 duration, counting years of 365 days and months of 30 days:
/// `P1Y2M3DT4H5M6S`, with zero parts left out (`PT` for nothing).
pub open spec fn iso8601(total: int) -> Seq<char> {
    let years = tdiv(total, 31_536_000);
    let months = tdiv(trem(total, 31_536_000), 2_592_000);
    let days = tdiv(trem(total, 2_592_000), 86_400);
    let hours = tdiv(trem(total, 86_400), 3600);
    let minutes = tdiv(trem(total, 3600), 60);
    let seconds = trem(total, 60);
    seq!['P'] + part(years, 'Y') + part(months, 'M') + part(days, 'D') + seq!['T'] + part(hours, 'H')
        + part(minutes, 'M') + part(seconds, 'S')
}

fn push_part(s: &mut String, n: i128, unit: char)
    requires
        -0x1_0000_0000_0000_0000 <= n <= 0x1_0000_0000_0000_0000,
    ensures
        final(s)@ == old(s)@ + part(n as int, unit),
{
    if n > 0 {
        push_int(s, n);
        push_char(s, unit);
        proof {
            assert(final(s)@ =~= old(s)@ + part(n as int, unit));
        }
    } else {
        proof {
            assert(old(s)@ + part(n as int, unit) =~= old(s)@);
        }
    }
}

/// A value that reads as an ISO 8601 duration.
pub trait ISO8601 {
    spec fn iso8601_view(&self) -> Seq<char>;

    fn to_iso8601(&self) -> (r: String)
        ensures
            r@ == self.iso8601_view(),
    ;
}

impl ISO8601 for Duration {
    open spec fn iso8601_view(&self) -> Seq<char> {
        iso8601(self.seconds as int)
    }

    fn to_iso8601(&self) -> (r: String) {
        let total = self.num_seconds() as i128;
        let mut r = String::new();
        push_char(&mut r, 'P');
        push_part(&mut r, total / 31_536_000, 'Y');
        push_part(&mut r, (total % 31_536_000) / 2_592_000, 'M');
        push_part(&mut r, (total % 2_592_000) / 86_400, 'D');
        push_char(&mut r, 'T');
        push_part(&mut r, (total % 86_400) / 3600, 'H');
        push_part(&mut r, (total % 3600) / 60, 'M');
        push_part(&mut r, total % 60, 'S');
        proof {
            assert(r@ =~= iso8601(self.seconds as int));
        }
        r
    }
}

} // verus!
