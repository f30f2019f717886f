//! Days since the epoch as a date of the Gregorian calendar, and seconds
//! since the epoch as an ISO 8601 timestamp in UTC.

use crate::text::{fixed_digits, padded_decimal, push_fixed, push_padded};
use vstd::prelude::*;

verus! {

/// True for the leap years of the Gregorian calendar.
pub open spec fn is_leap_year(year: int) -> bool {
    year % 4 == 0 && (year % 100 != 0 || year % 400 == 0)
}

/// Number of days of a month.
pub open spec fn days_in_month(year: int, month: int) -> int {
    if month == 2 {
        if is_leap_year(year) {
            29
        } else {
            28
        }
    } else if month == 4 || month == 6 || month == 9 || month == 11 {
        30
    } else {
        31
    }
}

/// True for the dates of the calendar.
pub open spec fn is_date(year: int, month: int, day: int) -> bool {
    1 <= month <= 12 && 1 <= day <= days_in_month(year, month)
}

/// Days from 1970-01-01 to a date from March of the year 0 on. Years are
/// counted from March, so that the leap day is the last of its year, and
/// in eras of 400 years, which all have 146097 days.
pub open spec fn days_from_civil(year: int, month: int, day: int) -> int {
    let y = if month <= 2 {
        year - 1
    } else {
        year
    };
    let era = y / 400;
    let year_of_era = y - era * 400;
    let month_from_march = if month > 2 {
        month - 3
    } else {
        month + 9
    };
    let day_of_year = (153 * month_from_march + 2) / 5 + day - 1;
    let day_of_era = year_of_era * 365 + year_of_era / 4 - year_of_era / 100 + day_of_year;
    era * 146097 + day_of_era - 719468
}

/// The largest number of days that has a date here.
pub const LAST_DAY: u64 = 18446744073708832147;

/// The year of an era in which a day of the era lies, counted from March.
pub open spec fn year_of_era(doe: int) -> int {
    (doe - doe / 1460 + doe / 36524 - doe / 146096) / 365
}

/// The first day of a year of an era.
pub open spec fn first_day_of_year(yoe: int) -> int {
    365 * yoe + yoe / 4 - yoe / 100
}

/// The month, counted from March, in which a day of the year lies.
pub open spec fn month_from_march(doy: int) -> int {
    (5 * doy + 2) / 153
}

/// The first day of a month counted from March.
pub open spec fn first_day_of_month(mp: int) -> int {
    (153 * mp + 2) / 5
}

/// Every day of an era lies in one of its 400 years, and only a leap year
/// has a 366th day.
proof fn lemma_year_of_era(doe: u32)
    requires
        doe <= 146096,
    ensures
        0 <= year_of_era(doe as int) <= 399,
        first_day_of_year(year_of_era(doe as int)) <= doe,
        doe - first_day_of_year(year_of_era(doe as int)) <= 365,
        doe - first_day_of_year(year_of_era(doe as int)) == 365 ==> (year_of_era(doe as int)
            + 1) % 4 == 0 && ((year_of_era(doe as int) + 1) % 100 != 0 || year_of_era(
            doe as int,
        ) == 399),
{
    assert((doe - doe / 1460 + doe / 36524 - doe / 146096) / 365 <= 399) by (bit_vector)
        requires
            doe <= 146096,
    ;
}

/// Every day of a year lies in one of its twelve months, and within the
/// length of that month; February is the last month and has what is left.
proof fn lemma_month_of_year(doy: u32)
    requires
        doy <= 365,
    ensures
        0 <= month_from_march(doy as int) <= 11,
        first_day_of_month(month_from_march(doy as int)) <= doy,
        month_from_march(doy as int) == 11 ==> doy - first_day_of_month(11) <= 29 && (doy
            - first_day_of_month(11) == 28 <==> doy == 365),
        month_from_march(doy as int) == 1 || month_from_march(doy as int) == 3
            || month_from_march(doy as int) == 6 || month_from_march(doy as int) == 8 ==> doy
            - first_day_of_month(month_from_march(doy as int)) <= 29,
        month_from_march(doy as int) != 11 ==> doy - first_day_of_month(
            month_from_march(doy as int),
        ) <= 30,
{
    assert((5 * doy + 2) / 153 <= 11) by (bit_vector)
        requires
            doy <= 365,
    ;
}

/// The date that lies `days` days after 1970-01-01, as year, month and
/// day of the month.
pub fn epoch_days_to_date(days: u64) -> (date: (u64, u64, u64))
    requires
        days <= LAST_DAY,
    ensures
        is_date(date.0 as int, date.1 as int, date.2 as int),
        days_from_civil(date.0 as int, date.1 as int, date.2 as int) == days,
{
    let z = days + 719468;
    let era = z / 146097;
    let doe = z - era * 146097;
    proof {
        lemma_year_of_era(doe as u32);
    }
    let yoe = (doe - doe / 1460 + doe / 36524 - doe / 146096) / 365;
    let y = yoe + era * 400;
    let doy = doe - (365 * yoe + yoe / 4 - yoe / 100);
    proof {
        lemma_month_of_year(doy as u32);
    }
    let mp = (5 * doy + 2) / 153;
    let d = doy - (153 * mp + 2) / 5 + 1;
    let m = if mp < 10 {
        mp + 3
    } else {
        mp - 9
    };
    let year = if m <= 2 {
        y + 1
    } else {
        y
    };
    proof {
        lemma_round_trip(era as int, yoe as int, doy as int, mp as int, d as int);
    }
    (year, m, d)
}

/// The parts of a date give back the day they were taken from.
proof fn lemma_round_trip(era: int, yoe: int, doy: int, mp: int, d: int)
    requires
        0 <= era,
        0 <= yoe <= 399,
        0 <= doy <= 365,
        doy == 365 ==> (yoe + 1) % 4 == 0 && ((yoe + 1) % 100 != 0 || yoe == 399),
        mp == month_from_march(doy),
        0 <= mp <= 11,
        d == doy - first_day_of_month(mp) + 1,
        1 <= d <= 31,
        mp == 11 ==> d <= 29 && (d == 29 <==> doy == 365),
        mp == 1 || mp == 3 || mp == 6 || mp == 8 ==> d <= 30,
    ensures
        ({
            let m = if mp < 10 {
                mp + 3
            } else {
                mp - 9
            };
            let year = if m <= 2 {
                yoe + era * 400 + 1
            } else {
                yoe + era * 400
            };
            is_date(year, m, d) && days_from_civil(year, m, d) == era * 146097
                + first_day_of_year(yoe) + doy - 719468
        }),
{
    let m = if mp < 10 {
        mp + 3
    } else {
        mp - 9
    };
    let y = yoe + era * 400;
    let year = if m <= 2 {
        y + 1
    } else {
        y
    };
    assert(y / 400 == era && y - (y / 400) * 400 == yoe);
    if m == 2 {
        assert(mp == 11);
        assert((y + 1) % 4 == (yoe + 1) % 4);
        assert((y + 1) % 100 == (yoe + 1) % 100);
        assert((y + 1) % 400 == (yoe + 1) % 400);
    }
}

/// The timestamp of a number of seconds since the epoch.
pub open spec fn timestamp_text(year: nat, month: nat, day: nat, seconds_of_day: nat) -> Seq<char> {
    padded_decimal(year, 4) + "-"@ + fixed_digits(month, 10, 2) + "-"@ + fixed_digits(day, 10, 2)
        + "T"@ + fixed_digits(seconds_of_day / 3600, 10, 2) + ":"@ + fixed_digits(
        (seconds_of_day % 3600) / 60,
        10,
        2,
    ) + ":"@ + fixed_digits(seconds_of_day % 60, 10, 2) + "Z"@
}

/// True when the text is the ISO 8601 timestamp, in UTC, of the time
/// `seconds` seconds after the epoch: the date is the one that lies
/// `seconds / 86400` days after 1970-01-01.
pub open spec fn is_timestamp_of(text: Seq<char>, seconds: u64) -> bool {
    exists|year: nat, month: nat, day: nat|
        is_date(year as int, month as int, day as int) && days_from_civil(
            year as int,
            month as int,
            day as int,
        ) == seconds / 86400 && text == #[trigger] timestamp_text(
            year,
            month,
            day,
            (seconds % 86400) as nat,
        )
}

/// Writes a time as an ISO 8601 timestamp in UTC, such as
/// `2025-01-15T08:30:00Z`.
pub fn format_timestamp(seconds: u64) -> (text: String)
    ensures
        is_timestamp_of(text@, seconds),
{
    let days = seconds / 86400;
    let time_of_day = seconds % 86400;
    let (year, month, day) = epoch_days_to_date(days);
    let mut text = String::new();
    push_padded(&mut text, year, 4);
    text.append("-");
    push_fixed(&mut text, month, 10, 2);
    text.append("-");
    push_fixed(&mut text, day, 10, 2);
    text.append("T");
    push_fixed(&mut text, time_of_day / 3600, 10, 2);
    text.append(":");
    push_fixed(&mut text, (time_of_day % 3600) / 60, 10, 2);
    text.append(":");
    push_fixed(&mut text, time_of_day % 60, 10, 2);
    text.append("Z");
    proof {
        assert(text@ =~= timestamp_text(year as nat, month as nat, day as nat, time_of_day as nat));
    }
    text
}

} // verus!
