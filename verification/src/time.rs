//! Instants in UTC and the whole-second intervals between them.

use vstd::prelude::*;

verus! {

pub const NANOS_PER_SEC: u32 = 1_000_000_000;

pub const SECS_PER_DAY: i64 = 86_400;

/// Every instant a calendar of years -262144..=262143 can name lies strictly
/// within this many seconds of the epoch.
pub const EPOCH_SECS_BOUND: i64 = 0x800_0000_0000;

/// The spans of time statistics can be asked for.
#[derive(Clone, Copy, Debug, PartialEq, Eq, Structural)]
pub enum TimePeriod {
    Today,
    ThisWeek,
    ThisMonth,
}

/// A UTC instant: whole seconds since the Unix epoch plus a sub-second part.
#[derive(Clone, Copy, Debug, PartialEq, Eq, Structural)]
pub struct Timestamp {
    pub secs: i64,
    pub nanos: u32,
}

impl Timestamp {
    /// The sub-second part is a proper fraction of a second and the instant lies
    /// in the supported calendar range.
    pub open spec fn wf(&self) -> bool {
        &&& self.nanos < NANOS_PER_SEC
        &&& -EPOCH_SECS_BOUND < self.secs < EPOCH_SECS_BOUND
    }

    /// The instant as a number of nanoseconds since the epoch.
    pub open spec fn total_nanos(&self) -> int {
        self.secs * (NANOS_PER_SEC as int) + self.nanos
    }
}

/// Integer division that rounds toward zero.
pub open spec fn div_toward_zero(a: int, b: int) -> int
    recommends
        b > 0,
{
    if a >= 0 {
        a / b
    } else {
        -((-a) / b)
    }
}

/// The number of whole seconds from `from` to `to`, negative when `to` is earlier;
/// a partial second is dropped, whatever the sign.
pub open spec fn whole_seconds_between(from: Timestamp, to: Timestamp) -> int {
    div_toward_zero(to.total_nanos() - from.total_nanos(), NANOS_PER_SEC as int)
}

/// Whole seconds elapsed from `from` to `to` (negative if `to` comes first).
pub fn seconds_between(from: &Timestamp, to: &Timestamp) -> (r: i64)
    requires
        from.wf(),
        to.wf(),
    ensures
        r == whole_seconds_between(*from, *to),
{
    let nanos_to: i128 = to.secs as i128 * 1_000_000_000i128 + to.nanos as i128;
    let nanos_from: i128 = from.secs as i128 * 1_000_000_000i128 + from.nanos as i128;
    let diff: i128 = nanos_to - nanos_from;
    let secs: i128 = if diff >= 0 {
        diff / 1_000_000_000i128
    } else {
        -((-diff) / 1_000_000_000i128)
    };
    assert(-0x1000_0000_0000 * 1_000_000_000 <= diff <= 0x1000_0000_0000 * 1_000_000_000)
        by (nonlinear_arith)
        requires
            diff == (to.secs * 1_000_000_000 + to.nanos) - (from.secs * 1_000_000_000 + from.nanos),
            from.nanos < 1_000_000_000,
            to.nanos < 1_000_000_000,
            -0x800_0000_0000 < to.secs < 0x800_0000_0000,
            -0x800_0000_0000 < from.secs < 0x800_0000_0000,
    ;
    assert(-0x1000_0000_0000 <= secs <= 0x1000_0000_0000) by (nonlinear_arith)
        requires
            secs == div_toward_zero(diff as int, 1_000_000_000),
            -0x1000_0000_0000 * 1_000_000_000 <= diff <= 0x1000_0000_0000 * 1_000_000_000,
    ;
    secs as i64
}

/// The first instant whose reports count for `period`, seen at `now`: midnight
/// (UTC) of the current day for today; seven days earlier for this week; thirty
/// days earlier for this month.
pub open spec fn period_start_spec(period: TimePeriod, now: Timestamp) -> Timestamp {
    match period {
        TimePeriod::Today => Timestamp { secs: ((now.secs as int / SECS_PER_DAY as int) * SECS_PER_DAY) as i64, nanos: 0 },
        TimePeriod::ThisWeek => Timestamp { secs: (now.secs - 7 * SECS_PER_DAY) as i64, nanos: now.nanos },
        TimePeriod::ThisMonth => Timestamp { secs: (now.secs - 30 * SECS_PER_DAY) as i64, nanos: now.nanos },
    }
}

/// The first instant whose reports count for `period`, seen at `now`.
pub fn period_start(period: TimePeriod, now: Timestamp) -> (r: Timestamp)
    requires
        now.wf(),
        now.secs > -EPOCH_SECS_BOUND + 30 * SECS_PER_DAY,
    ensures
        r == period_start_spec(period, now),
        r.wf(),
{
    match period {
        TimePeriod::Today => {
            let day: i64 = if now.secs >= 0 {
                now.secs / SECS_PER_DAY
            } else {
                -((-now.secs - 1) / SECS_PER_DAY) - 1
            };
            assert(day == now.secs as int / SECS_PER_DAY as int) by (nonlinear_arith)
                requires
                    now.secs >= 0 ==> day == now.secs / 86400,
                    now.secs < 0 ==> day == -((-now.secs - 1) / 86400) - 1,
            {
                if now.secs < 0 {
                    let q = (-now.secs - 1) / 86400;
                    let r = (-now.secs - 1) % 86400;
                    assert(-now.secs - 1 == q * 86400 + r);
                    assert(now.secs == (-q - 1) * 86400 + (86400 - 1 - r));
                }
            };
            assert(-0x800_0000_0000 < day * 86400 <= now.secs) by (nonlinear_arith)
                requires
                    day == now.secs as int / 86400,
                    -0x800_0000_0000 + 30 * 86400 < now.secs < 0x800_0000_0000,
            ;
            Timestamp { secs: day * SECS_PER_DAY, nanos: 0 }
        },
        TimePeriod::ThisWeek => Timestamp { secs: now.secs - 7 * SECS_PER_DAY, nanos: now.nanos },
        TimePeriod::ThisMonth => Timestamp { secs: now.secs - 30 * SECS_PER_DAY, nanos: now.nanos },
    }
}

} // verus!
