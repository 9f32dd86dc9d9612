use vstd::prelude::*;

use crate::chars::push_char;
use crate::duration::{int_text, push_int, tdiv, trem, Duration};

verus! {

/// A span as hours, minutes and seconds in Japanese units, leaving out zero parts:
/// `1時間1分1秒`, `2分`, and `0秒` for nothing.
pub open spec fn readable(total: int) -> Seq<char> {
    let h = tdiv(total, 3600);
    let m = tdiv(trem(total, 3600), 60);
    let s = trem(total, 60);
    (if h > 0 {
        int_text(h) + seq!['時', '間']
    } else {
        Seq::empty()
    }) + (if m > 0 {
        int_text(m) + seq!['分']
    } else {
        Seq::empty()
    }) + (if s > 0 || (h <= 0 && m <= 0) {
        int_text(s) + seq!['秒']
    } else {
        Seq::empty()
    })
}

/// A value that reads as a span of time for people.
pub trait ReadableString {
    spec fn readable_view(&self) -> Seq<char>;

    fn to_readable_string(&self) -> (r: String)
        ensures
            r@ == self.readable_view(),
    ;
}

impl ReadableString for Duration {
    open spec fn readable_view(&self) -> Seq<char> {
        readable(self.seconds as int)
    }

    fn to_readable_string(&self) -> (r: String) {
        let total = self.num_seconds() as i128;
        let hours = total / 3600;
        let minutes = (total % 3600) / 60;
        let seconds = total % 60;
        let mut r = String::new();
        if hours > 0 {
            push_int(&mut r, hours);
            push_char(&mut r, '時');
            push_char(&mut r, '間');
        }
        if minutes > 0 {
            push_int(&mut r, minutes);
            push_char(&mut r, '分');
        }
        if seconds > 0 || (hours <= 0 && minutes <= 0) {
            push_int(&mut r, seconds);
            push_char(&mut r, '秒');
        }
        proof {
            assert(r@ =~= readable(self.seconds as int));
        }
        r
    }
}

} // verus!
