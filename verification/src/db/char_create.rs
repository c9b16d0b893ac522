//! Character creation.
use vstd::prelude::*;

verus! {

/// Whole days since the Unix epoch at `secs` seconds.
pub open spec fn days_of(secs: u64) -> int {
    secs as int / 86400
}

/// The year of the stamp: 365-day years counted from 1970.
pub open spec fn stamp_year(days: int) -> int {
    1970 + days / 365
}

/// The month of the stamp: 30-day months counted from 1 within the 365-day
/// year; the five days left after the twelfth month stay in December.
pub open spec fn stamp_month(days: int) -> int {
    if days % 365 < 360 {
        (days % 365) / 30 + 1
    } else {
        12
    }
}

/// The day of the stamp: 1 to 30 within the 30-day month; the five days left
/// after the twelfth month are all 31 December.
pub open spec fn stamp_day(days: int) -> int {
    if days % 365 < 360 {
        (days % 365) % 30 + 1
    } else {
        31
    }
}

/// The birthday stamp of day `days` after the epoch, as `yyyyMMdd`.
pub open spec fn birthday(days: int) -> int {
    stamp_year(days) * 10000 + stamp_month(days) * 100 + stamp_day(days)
}

/// Days since the epoch from which the year no longer fits the `i32` stamp:
/// 212779 years of 365 days.
pub const LAST_STAMP_DAY: u64 = 77_664_335;

/// The birthday stamp of the moment `secs` seconds after the Unix epoch, in
/// `yyyyMMdd` form, computed without a calendar: 365-day years from 1970 and
/// 30-day months, the year's last five days counting as 31 December.
pub fn chrono_free_birthday(secs: u64) -> (b: i32)
    requires
        secs / 86400 < LAST_STAMP_DAY,
    ensures
        b == birthday(days_of(secs)),
        b as int / 10000 == stamp_year(days_of(secs)),
        1 <= (b as int / 100) % 100 <= 12,
        1 <= b as int % 100 <= 31,
{
    let days = secs / 86400;
    let years = 1970 + days / 365;
    let remaining = days % 365;
    let (month, day) = if remaining < 360 {
        (remaining / 30 + 1, remaining % 30 + 1)
    } else {
        (12, 31)
    };
    assert(years <= 214748);
    let b: i32 = (years as i32) * 10000 + (month as i32) * 100 + (day as i32);
    assert(b as int / 10000 == years && (b as int / 100) % 100 == month && b as int % 100 == day)
        by (nonlinear_arith)
        requires
            b == years * 10000 + month * 100 + day,
            1 <= month <= 12,
            1 <= day <= 31,
            years >= 0,
    ;
    b
}

} // verus!
