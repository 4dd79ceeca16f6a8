//! Instants on the UTC timeline, held as whole seconds since the NTP epoch
//! (1900-01-01T00:00:00Z) plus a normalized nanosecond remainder, and the
//! civil-calendar arithmetic the decoders need.

use vstd::prelude::*;

verus! {

/// Seconds from the NTP epoch (1900-01-01) to the GPS epoch (1980-01-06).
pub const GPS_EPOCH_SECS: i64 = 2_524_953_600;

/// Days from the civil epoch used by the day-number formula (1970-01-01)
/// back to the NTP epoch (1900-01-01).
pub const DAYS_1900_TO_1970: i64 = 25_567;

/// An instant on the UTC timeline: whole seconds since 1900-01-01T00:00:00Z
/// (negative before it) and nanoseconds within the second.
#[derive(Debug, Copy, Clone, PartialEq, Eq, Structural)]
pub struct Instant {
    pub secs: i64,
    pub nanos: u32,
}

impl Instant {
    /// The nanosecond remainder stays below one second.
    pub open spec fn wf(self) -> bool {
        self.nanos < 1_000_000_000
    }

    /// Total nanoseconds since the NTP epoch.
    pub open spec fn total_nanos(self) -> int {
        self.secs * 1_000_000_000 + self.nanos
    }

    /// The NTP epoch itself.
    pub fn ntp_zero() -> (r: Instant)
        ensures
            r.wf(),
            r.total_nanos() == 0,
    {
        Instant { secs: 0, nanos: 0 }
    }

    /// An instant from whole seconds and a sub-second remainder.
    pub fn new(secs: i64, nanos: u32) -> (r: Instant)
        requires
            nanos < 1_000_000_000,
        ensures
            r.wf(),
            r == (Instant { secs, nanos }),
    {
        Instant { secs, nanos }
    }

    /// Milliseconds from `other` to `self`, truncated toward zero as a
    /// signed difference.
    pub fn millis_since(&self, other: &Instant) -> (r: i64)
        requires
            self.wf(),
            other.wf(),
            -0x7fff_ffff_ffff_ffff <= spec_trunc_div(
                self.total_nanos() - other.total_nanos(),
                1_000_000,
            ) <= 0x7fff_ffff_ffff_ffff,
        ensures
            r == spec_trunc_div(self.total_nanos() - other.total_nanos(), 1_000_000),
    {
        let a: i128 = (self.secs as i128) * 1_000_000_000 + (self.nanos as i128);
        let b: i128 = (other.secs as i128) * 1_000_000_000 + (other.nanos as i128);
        let delta: i128 = a - b;
        let ms: i128 = if delta >= 0 {
            delta / 1_000_000
        } else {
            -((-delta) / 1_000_000)
        };
        ms as i64
    }
}

/// Division truncated toward zero, as Rust's `/` computes it on signed
/// integers.
pub open spec fn spec_trunc_div(a: int, b: int) -> int {
    if a >= 0 {
        a / b
    } else {
        -((-a) / b)
    }
}

/// An instant from a possibly denormalized pair: whole seconds plus a
/// nanosecond offset of either sign. The offset is folded in and the
/// remainder normalized into `[0, 10^9)`.
pub fn instant_from_secs_and_nanos(secs: i64, nanos: i64) -> (r: Instant)
    requires
        -0x4000_0000_0000 <= secs <= 0x4000_0000_0000,
    ensures
        r.wf(),
        r.total_nanos() == secs * 1_000_000_000 + nanos,
{
    let tn: i128 = (secs as i128) * 1_000_000_000 + (nanos as i128);
    let off: i128 = 0x8000_0000_0000i128 * 1_000_000_000;
    let tn2: i128 = tn + off;
    assert(tn2 >= 0);
    let u: u128 = tn2 as u128;
    let q: u128 = u / 1_000_000_000;
    let rem: u128 = u % 1_000_000_000;
    let out_secs: i64 = ((q as i128) - 0x8000_0000_0000i128) as i64;
    let out_nanos: u32 = rem as u32;
    assert(q * 1_000_000_000 + rem == u);
    assert(out_secs * 1_000_000_000 + out_nanos == tn) by {
        assert((q as int - 0x8000_0000_0000) * 1_000_000_000 == q * 1_000_000_000 - off)
            by (nonlinear_arith)
            requires
                off == 0x8000_0000_0000i128 * 1_000_000_000,
        ;
    }
    Instant { secs: out_secs, nanos: out_nanos }
}

/// Day number of a civil date, counted from 1970-01-01, by the era
/// formula: years are shifted so March opens the year, grouped into
/// 400-year eras of 146097 days each.
pub open spec fn spec_days_from_civil(y: int, m: int, d: int) -> int {
    let yy = if m <= 2 {
        y - 1
    } else {
        y
    };
    let era = yy / 400;
    let yoe = yy - era * 400;
    let mp = (m + 9) % 12;
    let doy = (153 * mp + 2) / 5 + d - 1;
    let doe = yoe * 365 + yoe / 4 - yoe / 100 + doy;
    era * 146097 + doe - 719468
}

/// Days each month has, February by leap year.
pub open spec fn spec_days_in_month(y: int, m: int) -> int {
    if m == 2 {
        if y % 4 == 0 && (y % 100 != 0 || y % 400 == 0) {
            29
        } else {
            28
        }
    } else if m == 4 || m == 6 || m == 9 || m == 11 {
        30
    } else {
        31
    }
}

/// A calendar date the civil formula accepts: a positive year and a day
/// that exists in its month.
pub open spec fn spec_valid_civil(y: int, m: int, d: int) -> bool {
    &&& 1 <= y <= 65535
    &&& 1 <= m <= 12
    &&& 1 <= d <= spec_days_in_month(y, m)
}

/// Computes the day number of a civil date, counted from 1970-01-01.
pub fn days_from_civil(year: u16, month: u8, day: u8) -> (r: i64)
    requires
        spec_valid_civil(year as int, month as int, day as int),
    ensures
        r == spec_days_from_civil(year as int, month as int, day as int),
        -720000 <= r <= 24_000_000,
{
    let y: i64 = if month <= 2 {
        year as i64 - 1
    } else {
        year as i64
    };
    let era: i64 = y / 400;
    let yoe: i64 = y - era * 400;
    let mp: i64 = (month as i64 + 9) % 12;
    let doy: i64 = (153 * mp + 2) / 5 + day as i64 - 1;
    let doe: i64 = yoe * 365 + yoe / 4 - yoe / 100 + doy;
    era * 146097 + doe - 719468
}

} // verus!
