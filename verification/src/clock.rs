//! Calendar dates from day counts (proleptic Gregorian, days since
//! 1970-01-01) and the timestamps the history records.

use vstd::prelude::*;

use crate::text::{pad_dec, push_padded};

verus! {

pub open spec fn is_leap(y: int) -> bool {
    (y % 4 == 0 && y % 100 != 0) || y % 400 == 0
}

pub open spec fn month_days(y: int, m: int) -> int {
    if m == 2 {
        if is_leap(y) { 29 } else { 28 }
    } else if m == 4 || m == 6 || m == 9 || m == 11 {
        30
    } else {
        31
    }
}

/// Days of the year before the first of month `m`.
pub open spec fn days_before_month(y: int, m: int) -> int {
    let base: int = if m == 1 { 0 } else if m == 2 { 31 } else if m == 3 { 59 } else if m == 4 { 90 }
        else if m == 5 { 120 } else if m == 6 { 151 } else if m == 7 { 181 } else if m == 8 { 212 }
        else if m == 9 { 243 } else if m == 10 { 273 } else if m == 11 { 304 } else { 334 };
    base + if m > 2 && is_leap(y) { 1int } else { 0int }
}

/// Days from 1970-01-01 to the first of January of year `y`: 365 a year
/// plus one per leap year in between (negative before 1970); 492, 19 and 4
/// are the multiples of 4, 100 and 400 up to 1969.
pub open spec fn days_before_year(y: int) -> int {
    let p = y - 1;
    365 * (y - 1970) + (p / 4 - 492) - (p / 100 - 19) + (p / 400 - 4)
}

/// Days from 1970-01-01 to the date `y-m-d`.
pub open spec fn days_from_civil(y: int, m: int, d: int) -> int {
    days_before_year(y) + days_before_month(y, m) + d - 1
}

/// Days in the first `t` years (from March) of a 400-year era.
pub open spec fn era_days(t: int) -> int {
    365 * t + t / 4 - t / 100
}

/// The first of March of year `400 * era + t` as days since 1970-01-01.
proof fn lemma_march_first(era: int, t: int)
    requires
        0 <= t <= 399,
    ensures
        days_before_year(400 * era + t) + 59 + (if is_leap(400 * era + t) { 1int } else { 0int })
            == 146097 * era + era_days(t) - 719468,
{
    let y = 400 * era + t;
    let p = y - 1;
    assert(p / 4 == 100 * era + (t - 1) / 4);
    assert(p / 100 == 4 * era + (t - 1) / 100);
    assert(p / 400 == era + (t - 1) / 400);
    assert(y % 4 == t % 4);
    assert(y % 100 == t % 100);
    assert(y % 400 == t % 400);
}

/// The year of the era a day of the era falls in, with the day of that year.
proof fn lemma_year_of_era(doe: int)
    requires
        0 <= doe <= 146096,
    ensures
        ({
            let yoe = (doe - doe / 1460 + doe / 36524 - doe / 146096) / 365;
            &&& 0 <= yoe <= 399
            &&& era_days(yoe) <= doe
            &&& doe - era_days(yoe) <= 364 || (doe - era_days(yoe) == 365 && is_leap(yoe + 1))
        }),
{
}

} // verus!

verus! {

/// The month (counted from March) a day of a March-based year falls in.
proof fn lemma_month_of_year(doy: int, leap: bool)
    requires
        0 <= doy <= 365,
        doy == 365 ==> leap,
    ensures
        ({
            let mp = (5 * doy + 2) / 153;
            let d = doy - (153 * mp + 2) / 5 + 1;
            let m = if mp < 10 { mp + 3 } else { mp - 9 };
            &&& 0 <= mp <= 11
            &&& 1 <= m <= 12
            &&& 1 <= d
            &&& m != 2 ==> d <= month_days(2001, m)
            &&& m == 2 ==> d <= if leap { 29int } else { 28int }
            &&& (m >= 3 ==> days_before_month(2001, m) == 59 + (153 * mp + 2) / 5)
            &&& (m <= 2 ==> days_before_month(2001, m) == (153 * mp + 2) / 5 - 306)
        }),
{
}

} // verus!

verus! {

/// A valid calendar date.
pub open spec fn valid_date(y: int, m: int, d: int) -> bool {
    1 <= m <= 12 && 1 <= d <= month_days(y, m)
}

/// The steps of the day-to-date computation.
pub open spec fn era_of(z: int) -> int {
    (z + 719468) / 146097
}

pub open spec fn doe_of(z: int) -> int {
    (z + 719468) - era_of(z) * 146097
}

pub open spec fn yoe_of(doe: int) -> int {
    (doe - doe / 1460 + doe / 36524 - doe / 146096) / 365
}

pub open spec fn mp_of(doy: int) -> int {
    (5 * doy + 2) / 153
}

proof fn lemma_leap_shift(era: int, t: int)
    ensures
        is_leap(400 * era + t) == is_leap(t),
{
    vstd::arithmetic::div_mod::lemma_mod_multiples_vanish(100 * era, t, 4);
    vstd::arithmetic::div_mod::lemma_mod_multiples_vanish(4 * era, t, 100);
    vstd::arithmetic::div_mod::lemma_mod_multiples_vanish(era, t, 400);
    assert(4 * (100 * era) == 400 * era);
    assert(100 * (4 * era) == 400 * era);
}

/// The March-based year `yoe` of an era ends where the next one starts.
proof fn lemma_next_march(era: int, yoe: int)
    requires
        0 <= yoe <= 399,
    ensures
        days_before_year(400 * era + yoe + 1) - 306 == 146097 * era + era_days(yoe) - 719468,
{
    if yoe < 399 {
        lemma_march_first(era, yoe + 1);
        lemma_leap_shift(era, yoe + 1);
        assert(400 * era + (yoe + 1) == 400 * era + yoe + 1);
    } else {
        lemma_march_first(era + 1, 0);
        lemma_leap_shift(era + 1, 0);
        assert(400 * (era + 1) + 0 == 400 * era + yoe + 1);
    }
}

/// The date `z` days after 1970-01-01, as the era/year/month steps compute it.
pub open spec fn civil_spec(z: int) -> (int, int, int) {
    let era = era_of(z);
    let doe = doe_of(z);
    let yoe = yoe_of(doe);
    let doy = doe - era_days(yoe);
    let mp = mp_of(doy);
    let d = doy - (153 * mp + 2) / 5 + 1;
    let m = if mp < 10 { mp + 3 } else { mp - 9 };
    let y = yoe + era * 400;
    (if m <= 2 { y + 1 } else { y }, m, d)
}

/// The day-to-date steps give a valid date that is `z` days after 1970-01-01.
pub proof fn lemma_civil_correct(z: int)
    ensures
        valid_date(civil_spec(z).0, civil_spec(z).1, civil_spec(z).2),
        days_from_civil(civil_spec(z).0, civil_spec(z).1, civil_spec(z).2) == z,
{
    let era = era_of(z);
    let doe = doe_of(z);
    assert(0 <= doe <= 146096);
    let yoe = yoe_of(doe);
    lemma_year_of_era(doe);
    let doy = doe - era_days(yoe);
    let y = yoe + era * 400;
    lemma_leap_shift(era, yoe + 1);
    assert(400 * era + yoe + 1 == y + 1);
    let leap_next = is_leap(y + 1);
    lemma_month_of_year(doy, leap_next);
    let mp = mp_of(doy);
    let start = (153 * mp + 2) / 5;
    let m = if mp < 10 { mp + 3 } else { mp - 9 };
    let d = doy - start + 1;
    if m >= 3 {
        lemma_march_first(era, yoe);
        assert(400 * era + yoe == y);
        assert(days_before_month(y, m) == days_before_month(2001, m) + if is_leap(y) { 1int } else { 0int });
        assert(month_days(y, m) == month_days(2001, m));
        assert(days_from_civil(y, m, d) == z);
    } else {
        lemma_next_march(era, yoe);
        assert(days_before_month(y + 1, m) == days_before_month(2001, m));
        assert(days_from_civil(y + 1, m, d) == z);
    }
}

/// The calendar date `z` days after 1970-01-01 (before it when negative).
pub fn civil_from_days(z: i64) -> (r: (i64, u32, u32))
    requires
        z <= i64::MAX - 719_468,
    ensures
        valid_date(r.0 as int, r.1 as int, r.2 as int),
        days_from_civil(r.0 as int, r.1 as int, r.2 as int) == z,
        (r.0 as int, r.1 as int, r.2 as int) == civil_spec(z as int),
{
    let z1: i64 = z + 719_468;
    // era = floor(z1 / 146097)
    let era: i64 = if z1 >= 0 { z1 / 146_097 } else { -((146_096 - z1) / 146_097) };
    assert(era == era_of(z as int)) by {
        if z1 < 0 {
            assert((146_096 - z1) / 146_097 == -((z1 as int) / 146097)) by (nonlinear_arith)
                requires z1 < 0;
        }
    }
    proof {
        lemma_civil_correct(z as int);
    }
    let doe: u64 = (z1 - era * 146_097) as u64;
    assert(doe == doe_of(z as int));
    let yoe: u64 = (doe - doe / 1460 + doe / 36524 - doe / 146_096) / 365;
    assert(yoe == yoe_of(doe as int));
    let y: i64 = yoe as i64 + era * 400;
    let doy: u64 = doe - (365 * yoe + yoe / 4 - yoe / 100);
    let mp: u64 = (5 * doy + 2) / 153;
    let d: u32 = (doy - (153 * mp + 2) / 5 + 1) as u32;
    let m: u32 = if mp < 10 { (mp + 3) as u32 } else { (mp - 9) as u32 };
    (if m <= 2 { y + 1 } else { y }, m, d)
}

} // verus!

verus! {

proof fn lemma_civil_year_nonneg(z: int)
    requires
        z >= 0,
    ensures
        civil_spec(z).0 >= 0,
{
    assert(era_of(z) >= 0);
}

/// `YYYY-MM-DD HH:MM:SS` for a date and a second of the day.
pub open spec fn stamp_text(y: nat, m: nat, d: nat, tod: nat) -> Seq<char> {
    pad_dec(y, 4) + "-"@ + pad_dec(m, 2) + "-"@ + pad_dec(d, 2) + " "@ + pad_dec(tod / 3600, 2)
        + ":"@ + pad_dec((tod % 3600) / 60, 2) + ":"@ + pad_dec(tod % 60, 2)
}

/// The timestamp of `secs` seconds after the Unix epoch (UTC), RFC3339-ish:
/// the calendar date of its day and the time of day.
pub open spec fn timestamp_of(secs: nat) -> Seq<char> {
    let (y, m, d) = civil_spec((secs / 86400) as int);
    stamp_text(y as nat, m as nat, d as nat, secs % 86400)
}

/// The timestamp of `secs` seconds after the Unix epoch (UTC).
pub fn format_timestamp(secs: u64) -> (r: String)
    ensures
        r@ == timestamp_of(secs as nat),
        valid_date(civil_spec((secs / 86400) as int).0, civil_spec((secs / 86400) as int).1,
            civil_spec((secs / 86400) as int).2),
        days_from_civil(civil_spec((secs / 86400) as int).0, civil_spec((secs / 86400) as int).1,
            civil_spec((secs / 86400) as int).2) == secs / 86400,
{
    let days: u64 = secs / 86400;
    let (y, m, d) = civil_from_days(days as i64);
    proof {
        lemma_civil_correct(days as int);
        lemma_civil_year_nonneg(days as int);
    }
    let tod: u64 = secs % 86400;
    let mut s = String::new();
    push_padded(&mut s, y as u64, 4);
    s.append("-");
    push_padded(&mut s, m as u64, 2);
    s.append("-");
    push_padded(&mut s, d as u64, 2);
    s.append(" ");
    push_padded(&mut s, tod / 3600, 2);
    s.append(":");
    push_padded(&mut s, (tod % 3600) / 60, 2);
    s.append(":");
    push_padded(&mut s, tod % 60, 2);
    s
}

} // verus!

verus! {

/// Whole seconds since the Unix epoch by the system clock
/// (`SystemTime::elapsed` on `UNIX_EPOCH`, `Duration::as_secs`), none when
/// the clock is set before the epoch. What the clock reads is the machine's;
/// nothing is stated of it.
#[verifier::external_body]
fn unix_time_secs() -> Option<u64> {
    match std::time::UNIX_EPOCH.elapsed() {
        Ok(d) => Some(d.as_secs()),
        Err(_) => None,
    }
}

/// The wall-clock second, counted from the epoch, that the UTC second `secs`
/// reads as in a zone `offset` seconds east of UTC, kept within what a `u64`
/// count holds: a local time before the epoch reads as the epoch itself.
pub open spec fn local_secs(secs: u64, offset: i64) -> nat {
    let t = secs + offset;
    if t < 0 {
        0
    } else if t > u64::MAX {
        u64::MAX as nat
    } else {
        t as nat
    }
}

/// The local timestamp of the UTC second `secs` for a time zone `offset`
/// seconds east of UTC.
pub fn local_timestamp(secs: u64, offset: i64) -> (r: String)
    ensures
        r@ == timestamp_of(local_secs(secs, offset)),
{
    let t: i128 = secs as i128 + offset as i128;
    let local: u64 = if t < 0 {
        0
    } else if t > u64::MAX as i128 {
        u64::MAX
    } else {
        t as u64
    };
    format_timestamp(local)
}

/// RFC3339-ish local timestamp of the moment of the call, for a time zone
/// `offset` seconds east of UTC: the local timestamp of whatever count of
/// seconds since the epoch the clock gave, or of the epoch itself when the
/// clock is set before it.
pub fn chrono_like_now(offset: i64) -> (r: String)
    ensures
        exists|secs: u64| r@ == #[trigger] timestamp_of(local_secs(secs, offset)),
{
    let secs = match unix_time_secs() {
        Some(s) => s,
        None => 0,
    };
    local_timestamp(secs, offset)
}

} // verus!
