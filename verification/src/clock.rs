//! Wall-clock time, as milliseconds since the Unix epoch.

use vstd::prelude::*;

verus! {

/// `chrono::Utc::now` followed by `timestamp_millis`: the current time in
/// milliseconds since the Unix epoch. Nothing is promised of the value;
/// the call does not return where the system clock stands before the
/// epoch.
#[verifier::external_body]
pub(crate) fn now_millis() -> (now: i64) {
    chrono::Utc::now().timestamp_millis()
}

/// Whole minutes from `earlier` to `later`, rounded toward zero.
pub open spec fn minutes_between(earlier: i64, later: i64) -> int {
    let span = later - earlier;
    if span >= 0 {
        span / 60_000
    } else {
        -((-span) / 60_000)
    }
}

/// Whether more than `limit` whole minutes lie between `earlier` and `later`.
pub fn more_minutes_than(earlier: i64, later: i64, limit: u32) -> (over: bool)
    ensures
        over == (minutes_between(earlier, later) > limit),
{
    if later < earlier {
        return false;
    }
    let span: i128 = later as i128 - earlier as i128;
    let bound: i128 = (limit as i128 + 1) * 60_000;
    proof {
        let s = later - earlier;
        assert(s / 60_000 > limit <==> s >= (limit + 1) * 60_000) by (nonlinear_arith)
            requires
                s >= 0,
                limit >= 0,
        ;
    }
    span >= bound
}

} // verus!
