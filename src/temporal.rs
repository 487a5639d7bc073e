//! Wire payloads of dates, times and timestamps.
//!
//! PostgreSQL writes a timestamp as microseconds since 2000-01-01 00:00:00, a date as days
//! since 2000-01-01 and a time as microseconds since midnight. A stored value is accepted only
//! where chrono can represent the instant it denotes.

use vstd::prelude::*;
use vstd::arithmetic::div_mod::lemma_fundamental_div_mod_converse;
use crate::external::{chrono_instant_exists, instant_exists};
use crate::types::TimeUnit;
use crate::wire::{be_signed, encode_signed, fits_signed};

verus! {

/// Seconds from the Unix epoch to 2000-01-01.
pub const EPOCH_2000_SECONDS: i64 = 946_684_800;

/// Days from the Unix epoch to 2000-01-01.
pub const EPOCH_2000_DAYS: i64 = 10_957;

/// Microseconds from the Unix epoch to 2000-01-01.
pub const EPOCH_2000_MICROS: i128 = 946_684_800_000_000;

/// How many of `u` make one second.
pub open spec fn units_per_second(u: TimeUnit) -> int {
    match u {
        TimeUnit::Second => 1,
        TimeUnit::Millisecond => 1_000,
        TimeUnit::Microsecond => 1_000_000,
        TimeUnit::Nanosecond => 1_000_000_000,
    }
}

/// `a / b` rounded toward zero.
pub open spec fn div_toward_zero(a: int, b: int) -> int {
    if a >= 0 {
        a / b
    } else {
        -((-a) / b)
    }
}

/// Whole seconds since the Unix epoch of the instant `v` units after it (rounded down).
pub open spec fn instant_seconds(u: TimeUnit, v: int) -> int {
    v / units_per_second(u)
}

/// The nanoseconds past `instant_seconds(u, v)` of the instant `v` units after the epoch.
pub open spec fn instant_nanos(u: TimeUnit, v: int) -> int {
    (v % units_per_second(u)) * (1_000_000_000int / units_per_second(u))
}

/// Whether chrono represents the instant `v` units after the Unix epoch.
pub open spec fn instant_valid(u: TimeUnit, v: int) -> bool {
    chrono_instant_exists(instant_seconds(u, v) as i64, instant_nanos(u, v) as u32)
}

/// Microseconds since 2000-01-01 of the instant `v` units after the Unix epoch; a finer unit
/// is cut toward zero.
pub open spec fn timestamp_micros(u: TimeUnit, v: int) -> int {
    match u {
        TimeUnit::Second => v * 1_000_000 - EPOCH_2000_MICROS,
        TimeUnit::Millisecond => v * 1_000 - EPOCH_2000_MICROS,
        TimeUnit::Microsecond => v - EPOCH_2000_MICROS,
        TimeUnit::Nanosecond => div_toward_zero(v - EPOCH_2000_MICROS * 1_000, 1_000),
    }
}

/// The payload of a timestamp stored as `v` units since the Unix epoch, where chrono's
/// verdict on that instant is `representable`; `None` where it cannot be written.
pub open spec fn timestamp_payload_of(u: TimeUnit, v: int, representable: bool) -> Option<Seq<u8>> {
    if representable && fits_signed(timestamp_micros(u, v), 8) {
        Some(be_signed(timestamp_micros(u, v), 8))
    } else {
        None
    }
}

/// Days since 2000-01-01 of a date stored as `d` days since the Unix epoch, where chrono's
/// verdict on that day is `representable`; `None` where it cannot be written.
pub open spec fn date_payload_of(d: int, representable: bool) -> Option<Seq<u8>> {
    if representable && fits_signed(d - EPOCH_2000_DAYS, 4) {
        Some(be_signed(d - EPOCH_2000_DAYS, 4))
    } else {
        None
    }
}

/// The payload of a 32-bit date: `d` days since the Unix epoch.
pub open spec fn date32_payload(d: int) -> Option<Seq<u8>> {
    date_payload_of(d, chrono_instant_exists((d * 86_400) as i64, 0))
}

/// The payload of a 64-bit date: `ms` milliseconds since the Unix epoch, whose day is kept.
pub open spec fn date64_payload(ms: int) -> Option<Seq<u8>> {
    date_payload_of(ms / 86_400_000, instant_valid(TimeUnit::Millisecond, ms))
}

/// The payload of a timestamp stored as `v` units since the Unix epoch.
pub open spec fn timestamp_payload(u: TimeUnit, v: int) -> Option<Seq<u8>> {
    timestamp_payload_of(u, v, instant_valid(u, v))
}

/// Microseconds since midnight of a time of day stored as `v` units; a finer unit is cut.
pub open spec fn time_micros(u: TimeUnit, v: int) -> int {
    match u {
        TimeUnit::Second => v * 1_000_000,
        TimeUnit::Millisecond => v * 1_000,
        TimeUnit::Microsecond => v,
        TimeUnit::Nanosecond => v / 1_000,
    }
}

/// The payload of a time of day stored as `v` units since midnight; `None` outside a day.
pub open spec fn time_payload(u: TimeUnit, v: int) -> Option<Seq<u8>> {
    if 0 <= v < 86_400 * units_per_second(u) {
        Some(be_signed(time_micros(u, v), 8))
    } else {
        None
    }
}

fn units_per_second_exec(u: TimeUnit) -> (r: i64)
    ensures
        r == units_per_second(u),
{
    match u {
        TimeUnit::Second => 1,
        TimeUnit::Millisecond => 1_000,
        TimeUnit::Microsecond => 1_000_000,
        TimeUnit::Nanosecond => 1_000_000_000,
    }
}

fn nanos_per_unit(u: TimeUnit) -> (r: i64)
    ensures
        r > 0,
        r * units_per_second(u) == 1_000_000_000,
        r == 1_000_000_000int / units_per_second(u),
{
    match u {
        TimeUnit::Second => 1_000_000_000,
        TimeUnit::Millisecond => 1_000_000,
        TimeUnit::Microsecond => 1_000,
        TimeUnit::Nanosecond => 1,
    }
}

/// The quotient rounded down and the non-negative remainder of `a` by `b`.
pub fn floor_div_mod(a: i64, b: i64) -> (r: (i64, i64))
    requires
        b > 0,
    ensures
        r.0 == a / b,
        r.1 == a % b,
{
    if a >= 0 {
        let q = (a as u64 / b as u64) as i64;
        let m = (a as u64 % b as u64) as i64;
        assert(a == q * b + m) by (nonlinear_arith)
            requires
                a >= 0,
                b > 0,
                q == (a as u64) / (b as u64),
                m == (a as u64) % (b as u64),
        ;
        proof {
            lemma_fundamental_div_mod_converse(a as int, b as int, q as int, m as int);
        }
        (q, m)
    } else {
        let n: u64 = (-(a + 1)) as u64;
        let q0: u64 = n / b as u64;
        let m0: u64 = n % b as u64;
        assert(n == q0 * b + m0) by (nonlinear_arith)
            requires
                q0 == n / (b as u64),
                m0 == n % (b as u64),
                b > 0,
        ;
        assert(q0 <= n) by (nonlinear_arith)
            requires
                q0 == n / (b as u64),
                b > 0,
        ;
        let q: i64 = -(q0 as i64) - 1;
        let m: i64 = b - 1 - m0 as i64;
        assert(a == q * b + m) by (nonlinear_arith)
            requires
                a == -(n as int) - 1,
                n == q0 * b + m0,
                q == -(q0 as int) - 1,
                m == b - 1 - m0,
        ;
        proof {
            lemma_fundamental_div_mod_converse(a as int, b as int, q as int, m as int);
        }
        (q, m)
    }
}

/// Whether chrono represents the instant `v` units after the Unix epoch.
fn instant_valid_exec(u: TimeUnit, v: i64) -> (r: bool)
    ensures
        r == instant_valid(u, v as int),
{
    let per = units_per_second_exec(u);
    let (secs, rest) = floor_div_mod(v, per);
    let scale = nanos_per_unit(u);
    assert(rest * scale < 1_000_000_000) by (nonlinear_arith)
        requires
            0 <= rest < per,
            per * scale == 1_000_000_000,
            scale > 0,
    ;
    let nanos: u32 = (rest * scale) as u32;
    instant_exists(secs, nanos)
}

/// The payload of a timestamp stored as `v` units since the Unix epoch, given chrono's
/// verdict `representable` on that instant: microseconds since 2000-01-01 as an 8-byte
/// integer, or `None` where the instant cannot be written.
pub fn timestamp_payload_given(unit: TimeUnit, v: i64, representable: bool) -> (r: Option<Vec<u8>>)
    ensures
        r matches Some(p) ==> timestamp_payload_of(unit, v as int, representable) == Some(p@),
        r is None ==> timestamp_payload_of(unit, v as int, representable) is None,
{
    let x = v as i128;
    let micros: i128 = match unit {
        TimeUnit::Second => x * 1_000_000 - EPOCH_2000_MICROS,
        TimeUnit::Millisecond => x * 1_000 - EPOCH_2000_MICROS,
        TimeUnit::Microsecond => x - EPOCH_2000_MICROS,
        TimeUnit::Nanosecond => {
            let a: i128 = x - EPOCH_2000_MICROS * 1_000;
            if a >= 0 {
                (a as u128 / 1_000) as i128
            } else {
                -(((-a) as u128 / 1_000) as i128)
            }
        },
    };
    proof {
        crate::wire::lemma_pow256_widths();
    }
    if !representable || micros < i64::MIN as i128 || micros > i64::MAX as i128 {
        None
    } else {
        Some(encode_signed(micros as i64, 8))
    }
}

/// The payload of a timestamp stored as `v` units since the Unix epoch.
pub fn encode_timestamp(unit: TimeUnit, v: i64) -> (r: Option<Vec<u8>>)
    ensures
        r matches Some(p) ==> timestamp_payload(unit, v as int) == Some(p@),
        r is None ==> timestamp_payload(unit, v as int) is None,
{
    let ok = instant_valid_exec(unit, v);
    timestamp_payload_given(unit, v, ok)
}

/// The payload of a date `days` days after the Unix epoch, given chrono's verdict
/// `representable` on that day: days since 2000-01-01 as a 4-byte integer, or `None` where
/// the day cannot be written.
pub fn date_payload_given(days: i64, representable: bool) -> (r: Option<Vec<u8>>)
    ensures
        r matches Some(p) ==> date_payload_of(days as int, representable) == Some(p@),
        r is None ==> date_payload_of(days as int, representable) is None,
{
    proof {
        crate::wire::lemma_pow256_widths();
    }
    if !representable || days < i32::MIN as i64 + EPOCH_2000_DAYS || days > i32::MAX as i64
        + EPOCH_2000_DAYS {
        None
    } else {
        Some(encode_signed(days - EPOCH_2000_DAYS, 4))
    }
}

/// The payload of a 32-bit date, `d` days since the Unix epoch.
pub fn encode_date32(d: i32) -> (r: Option<Vec<u8>>)
    ensures
        r matches Some(p) ==> date32_payload(d as int) == Some(p@),
        r is None ==> date32_payload(d as int) is None,
{
    let ok = instant_exists(d as i64 * 86_400, 0);
    date_payload_given(d as i64, ok)
}

/// The payload of a 64-bit date, `ms` milliseconds since the Unix epoch.
pub fn encode_date64(ms: i64) -> (r: Option<Vec<u8>>)
    ensures
        r matches Some(p) ==> date64_payload(ms as int) == Some(p@),
        r is None ==> date64_payload(ms as int) is None,
{
    let ok = instant_valid_exec(TimeUnit::Millisecond, ms);
    let (days, _) = floor_div_mod(ms, 86_400_000);
    date_payload_given(days, ok)
}

/// The payload of a time of day stored as `v` units since midnight: microseconds since
/// midnight as an 8-byte integer, or `None` where `v` lies outside one day.
pub fn encode_time(unit: TimeUnit, v: i64) -> (r: Option<Vec<u8>>)
    ensures
        r matches Some(p) ==> time_payload(unit, v as int) == Some(p@),
        r is None ==> time_payload(unit, v as int) is None,
{
    proof {
        crate::wire::lemma_pow256_widths();
    }
    let per = units_per_second_exec(unit);
    if v < 0 || v >= 86_400 * per {
        return None;
    }
    let micros: i64 = match unit {
        TimeUnit::Second => v * 1_000_000,
        TimeUnit::Millisecond => v * 1_000,
        TimeUnit::Microsecond => v,
        TimeUnit::Nanosecond => v / 1_000,
    };
    Some(encode_signed(micros, 8))
}

} // verus!
