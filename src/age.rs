use vstd::prelude::*;

use crate::report::is_time;

verus! {

/// How long ago something was modified, in the largest unit that is not zero.
#[derive(Clone, Copy, Debug, PartialEq, Eq, Structural)]
pub enum Age {
    Days(i128),
    Hours(i128),
    Minutes(i128),
    JustNow,
    Unknown,
}

/// Integer division of `a` by a positive `b`, rounding toward zero.
pub open spec fn div_toward_zero(a: int, b: int) -> int {
    if a >= 0 {
        a / b
    } else {
        -((-a) / b)
    }
}

/// The age of a modification at time `modified`, seen at time `now` (both in
/// nanoseconds from the epoch): whole seconds elapsed, then whole days, hours or
/// minutes, the first of them that is positive.
pub open spec fn age_spec(now: i128, modified: Option<i128>) -> Age {
    match modified {
        None => Age::Unknown,
        Some(t) => {
            let secs = div_toward_zero(now - t, 1_000_000_000);
            let days = div_toward_zero(secs, 86400);
            let hours = div_toward_zero(secs, 3600);
            let minutes = div_toward_zero(secs, 60);
            if days > 0 {
                Age::Days(days as i128)
            } else if hours > 0 {
                Age::Hours(hours as i128)
            } else if minutes > 0 {
                Age::Minutes(minutes as i128)
            } else {
                Age::JustNow
            }
        },
    }
}

pub fn age(now: i128, modified: Option<i128>) -> (a: Age)
    requires
        is_time(now),
        modified matches Some(t) ==> is_time(t),
    ensures
        a == age_spec(now, modified),
{
    match modified {
        None => Age::Unknown,
        Some(t) => {
            let elapsed: i128 = now - t;
            if elapsed < 60_000_000_000 {
                proof {
                    let e = now - t;
                    let secs = div_toward_zero(e, 1_000_000_000);
                    if e >= 0 {
                        assert(secs < 60);
                    } else {
                        assert(secs <= 0);
                    }
                }
                Age::JustNow
            } else {
                let secs: i128 = elapsed / 1_000_000_000;
                let days: i128 = secs / 86400;
                let hours: i128 = secs / 3600;
                let minutes: i128 = secs / 60;
                if days > 0 {
                    Age::Days(days)
                } else if hours > 0 {
                    Age::Hours(hours)
                } else {
                    Age::Minutes(minutes)
                }
            }
        },
    }
}

} // verus!
