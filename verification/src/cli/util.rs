//! UTC timestamps (`YYYY-MM-DDTHH:MM:SSZ`) computed from seconds since the Unix epoch with the
//! civil-from-days algorithm, so no date library is needed.

use std::time::{Duration, SystemTime, SystemTimeError, UNIX_EPOCH};
use vstd::prelude::*;

use crate::text::{decimal_text, string_from_chars, zero_padded, zero_padded_chars};

verus! {

/// The calendar reading of an instant given in seconds since the Unix epoch (UTC):
/// `(year, month, day, hour, minute, second)`, by the civil-from-days algorithm on the day count
/// (days and seconds of the day by floor division, eras of 400 years of 146097 days counted
/// from 0000-03-01).
pub open spec fn utc_fields(total: int) -> (int, int, int, int, int, int) {
    let days = total / 86400;
    let seconds_of_day = total % 86400;
    let z = days + 719468;
    let era = z / 146097;
    let day_of_era = z - era * 146097;
    let year_of_era = (day_of_era - day_of_era / 1460 + day_of_era / 36524 - day_of_era / 146096)
        / 365;
    let year = year_of_era + era * 400;
    let day_of_year = day_of_era - (365 * year_of_era + year_of_era / 4 - year_of_era / 100);
    let month_position = (5 * day_of_year + 2) / 153;
    let day = day_of_year - (153 * month_position + 2) / 5 + 1;
    let month = if month_position < 10 {
        month_position + 3
    } else {
        month_position - 9
    };
    let calendar_year = if month <= 2 {
        year + 1
    } else {
        year
    };
    (
        calendar_year,
        month,
        day,
        seconds_of_day / 3600,
        (seconds_of_day % 3600) / 60,
        seconds_of_day % 60,
    )
}

/// A year padded to four places (`{:04}`): a negative year's sign counts as one of them.
pub open spec fn year_text(year: int) -> Seq<char> {
    if year >= 0 {
        zero_padded(year as nat, 4)
    } else {
        seq!['-'] + zero_padded((-year) as nat, 3)
    }
}

/// The ISO-8601 text of an instant: `YYYY-MM-DDTHH:MM:SSZ`.
pub open spec fn iso8601_text(total: int) -> Seq<char> {
    let f = utc_fields(total);
    year_text(f.0) + seq!['-'] + zero_padded(f.1 as nat, 2) + seq!['-'] + zero_padded(f.2 as nat, 2)
        + seq!['T'] + zero_padded(f.3 as nat, 2) + seq![':'] + zero_padded(f.4 as nat, 2) + seq![
        ':',
    ] + zero_padded(f.5 as nat, 2) + seq!['Z']
}

/// Floor division by a positive divisor.
fn floor_div(a: i64, b: i64) -> (q: i64)
    requires
        b > 0,
    ensures
        q == a / b,
{
    if a >= 0 {
        let q = ((a as u64) / (b as u64)) as i64;
        assert(q == a / b) by (nonlinear_arith)
            requires
                a >= 0,
                b > 0,
                q == (a as u64) / (b as u64),
        ;
        q
    } else {
        let m: i64 = -(a + 1);
        let k = ((m as u64) / (b as u64)) as i64;
        let q = -k - 1;
        assert(q == a / b) by (nonlinear_arith)
            requires
                a < 0,
                b > 0,
                m == -(a + 1),
                k == (m as u64) / (b as u64),
                q == -k - 1,
        {
            let r = m - k * b;
            assert(0 <= r < b);
            assert(a == b * q + (b - r - 1));
        }
        q
    }
}

/// The remainder of floor division by a positive divisor.
fn floor_rem(a: i64, b: i64) -> (r: i64)
    requires
        b > 0,
    ensures
        r == a % b,
        0 <= r < b,
{
    if a >= 0 {
        let r = ((a as u64) % (b as u64)) as i64;
        assert(r == a % b) by (nonlinear_arith)
            requires
                a >= 0,
                b > 0,
                r == (a as u64) % (b as u64),
        ;
        r
    } else {
        let m: i64 = -(a + 1);
        let t = ((m as u64) % (b as u64)) as i64;
        let r = b - 1 - t;
        assert(r == a % b) by (nonlinear_arith)
            requires
                a < 0,
                b > 0,
                m == -(a + 1),
                t == (m as u64) % (b as u64),
                r == b - 1 - t,
        {
            let k = m / b;
            assert(m == k * b + t);
            assert(a == b * (-k - 1) + r);
            assert(0 <= r < b);
        }
        r
    }
}

/// The calendar fields of an instant given in seconds since the Unix epoch.
pub fn utc_fields_of(total_seconds: i64) -> (r: (i64, i64, i64, i64, i64, i64))
    ensures
        (r.0 as int, r.1 as int, r.2 as int, r.3 as int, r.4 as int, r.5 as int) == utc_fields(
            total_seconds as int,
        ),
        1 <= r.1 <= 12,
        1 <= r.2 <= 31,
        0 <= r.3 < 24,
        0 <= r.4 < 60,
        0 <= r.5 < 60,
{
    let days = floor_div(total_seconds, 86_400);
    assert(-106751991167301 <= days <= 106751991167300) by (nonlinear_arith)
        requires
            days == total_seconds / 86400,
            i64::MIN <= total_seconds <= i64::MAX,
    ;
    let seconds_of_day = floor_rem(total_seconds, 86_400);
    let hour = seconds_of_day / 3_600;
    let minute = (seconds_of_day % 3_600) / 60;
    let second = seconds_of_day % 60;
    let z = days + 719_468;
    let era = floor_div(z, 146_097);
    let day_of_era = z - era * 146_097;
    assert(0 <= day_of_era < 146097 && -731000000 <= era <= 731000000) by (nonlinear_arith)
        requires
            era == z / 146097,
            day_of_era == z - era * 146_097,
            -106751991167301 + 719468 <= z <= 106751991167300 + 719468,
    ;
    let year_of_era = (day_of_era - day_of_era / 1_460 + day_of_era / 36_524 - day_of_era
        / 146_096) / 365;
    assert(0 <= year_of_era <= 400) by (nonlinear_arith)
        requires
            0 <= day_of_era < 146097,
            year_of_era == (day_of_era - day_of_era / 1_460 + day_of_era / 36_524 - day_of_era
                / 146_096) / 365,
    ;
    let year = year_of_era + era * 400;
    let day_of_year = day_of_era - (365 * year_of_era + year_of_era / 4 - year_of_era / 100);
    assert(0 <= day_of_year <= 365) by (nonlinear_arith)
        requires
            0 <= day_of_era < 146097,
            year_of_era == (day_of_era - day_of_era / 1_460 + day_of_era / 36_524 - day_of_era
                / 146_096) / 365,
            day_of_year == day_of_era - (365 * year_of_era + year_of_era / 4 - year_of_era / 100),
    ;
    let month_position = (5 * day_of_year + 2) / 153;
    let day = day_of_year - (153 * month_position + 2) / 5 + 1;
    assert(0 <= month_position <= 11 && 1 <= day <= 31) by (nonlinear_arith)
        requires
            0 <= day_of_year <= 365,
            month_position == (5 * day_of_year + 2) / 153,
            day == day_of_year - (153 * month_position + 2) / 5 + 1,
    ;
    let month = if month_position < 10 {
        month_position + 3
    } else {
        month_position - 9
    };
    let calendar_year = if month <= 2 {
        year + 1
    } else {
        year
    };
    (calendar_year, month, day, hour, minute, second)
}

/// The digits of a non-negative field padded with zeros.
fn padded(n: i64, width: usize) -> (r: Vec<char>)
    requires
        n >= 0,
    ensures
        r@ == zero_padded(n as nat, width as nat),
{
    zero_padded_chars(n as u64, width)
}

/// The ISO-8601 UTC text of an instant given in seconds since the Unix epoch.
pub fn utc_iso8601_at(total_seconds: i64) -> (r: String)
    ensures
        r@ == iso8601_text(total_seconds as int),
{
    let (year, month, day, hour, minute, second) = utc_fields_of(total_seconds);
    let mut out: Vec<char> = Vec::new();
    if year >= 0 {
        let y = padded(year, 4);
        out.extend_from_slice(y.as_slice());
    } else {
        out.push('-');
        assert(year > i64::MIN) by (nonlinear_arith)
            requires
                year == utc_fields(total_seconds as int).0,
        {
            assert(utc_fields(total_seconds as int).0 >= -292277026596 - 2);
        }
        let y = padded(-year, 3);
        out.extend_from_slice(y.as_slice());
    }
    out.push('-');
    out.extend_from_slice(padded(month, 2).as_slice());
    out.push('-');
    out.extend_from_slice(padded(day, 2).as_slice());
    out.push('T');
    out.extend_from_slice(padded(hour, 2).as_slice());
    out.push(':');
    out.extend_from_slice(padded(minute, 2).as_slice());
    out.push(':');
    out.extend_from_slice(padded(second, 2).as_slice());
    out.push('Z');
    assert(out@ =~= iso8601_text(total_seconds as int));
    string_from_chars(out.as_slice())
}

#[verifier::external_type_specification]
#[verifier::external_body]
pub struct ExSystemTime(SystemTime);

#[verifier::external_type_specification]
#[verifier::external_body]
pub struct ExSystemTimeError(SystemTimeError);

/// `SystemTime::now`: the system clock's reading. The clock decides; nothing is stated of it.
#[verifier::external_body]
fn clock_now() -> SystemTime {
    SystemTime::now()
}

/// `SystemTime::duration_since(UNIX_EPOCH)`: the time elapsed since the Unix epoch, or an error
/// when the reading is earlier than the epoch. Nothing is stated of the span.
#[verifier::external_body]
fn since_epoch(time: &SystemTime) -> Result<Duration, SystemTimeError> {
    time.duration_since(UNIX_EPOCH)
}

/// `Duration::as_secs`: the whole seconds of a span. Nothing is stated of the number, as the span
/// is opaque to proofs.
#[verifier::external_body]
fn whole_seconds(span: &Duration) -> u64 {
    span.as_secs()
}

/// Whole seconds since the Unix epoch by the system clock; zero when the clock reads earlier.
fn unix_seconds_now() -> u64 {
    let now = clock_now();
    match since_epoch(&now) {
        Ok(span) => whole_seconds(&span),
        Err(_) => 0,
    }
}

/// The current time as a UTC ISO-8601 text (`YYYY-MM-DDTHH:MM:SSZ`).
pub fn utc_iso8601() -> (r: String)
    ensures
        exists|seconds: u64| r@ == #[trigger] iso8601_text((seconds as i64) as int),
{
    let seconds = unix_seconds_now();
    let total = #[verifier::truncate] (seconds as i64);
    let r = utc_iso8601_at(total);
    assert(r@ == iso8601_text((seconds as i64) as int));
    r
}

// ---------------------------------------------------------------------------------------------
// Calendar validity
// ---------------------------------------------------------------------------------------------

/// Gregorian leap years: divisible by 4, except centuries not divisible by 400.
pub open spec fn is_leap_year(year: int) -> bool {
    (year % 4 == 0 && year % 100 != 0) || year % 400 == 0
}

/// The number of days in a month of a year.
pub open spec fn month_length(year: int, month: int) -> int {
    if month == 2 {
        if is_leap_year(year) {
            29
        } else {
            28
        }
    } else if month == 4 || month == 6 || month == 9 || month == 11 {
        30
    } else {
        31
    }
}

/// Within an era of 400 years (146097 days from a 1 March), the year the algorithm picks for a
/// day begins on or before it, and the day falls inside that year: its 366th day only when the
/// following February has a 29th.
proof fn lemma_year_of_era(day_of_era: int)
    requires
        0 <= day_of_era < 146097,
    ensures
        ({
            let yoe = (day_of_era - day_of_era / 1460 + day_of_era / 36524 - day_of_era / 146096)
                / 365;
            let doy = day_of_era - (365 * yoe + yoe / 4 - yoe / 100);
            &&& 0 <= yoe <= 399
            &&& 0 <= doy <= 365
            &&& doy == 365 ==> ((yoe + 1) % 4 == 0 && ((yoe + 1) % 100 != 0 || yoe == 399))
        }),
{
    let yoe = (day_of_era - day_of_era / 1460 + day_of_era / 36524 - day_of_era / 146096) / 365;
    let doy = day_of_era - (365 * yoe + yoe / 4 - yoe / 100);
    assert(0 <= yoe <= 399 && 0 <= doy <= 365 && (doy == 365 ==> ((yoe + 1) % 4 == 0 && ((yoe + 1)
        % 100 != 0 || yoe == 399)))) by (nonlinear_arith)
        requires
            0 <= day_of_era < 146097,
            yoe == (day_of_era - day_of_era / 1460 + day_of_era / 36524 - day_of_era / 146096)
                / 365,
            doy == day_of_era - (365 * yoe + yoe / 4 - yoe / 100),
    ;
}

/// Within a year counted from 1 March, the month and day the algorithm picks for a day of that
/// year exist: the day lies within its month, and the 29th of February only on the year's 366th
/// day.
proof fn lemma_month_and_day(doy: int)
    requires
        0 <= doy <= 365,
    ensures
        ({
            let mp = (5 * doy + 2) / 153;
            let day = doy - (153 * mp + 2) / 5 + 1;
            let month = if mp < 10 {
                mp + 3
            } else {
                mp - 9
            };
            &&& 0 <= mp <= 11
            &&& 1 <= month <= 12
            &&& 1 <= day
            &&& day <= (if month == 2 {
                if doy == 365 {
                    29int
                } else {
                    28int
                }
            } else if month == 4 || month == 6 || month == 9 || month == 11 {
                30int
            } else {
                31int
            })
        }),
{
    let mp = (5 * doy + 2) / 153;
    let day = doy - (153 * mp + 2) / 5 + 1;
    assert(0 <= mp <= 11 && 1 <= day && day <= (if mp == 11 {
        if doy == 365 {
            29int
        } else {
            28int
        }
    } else if mp == 1 || mp == 3 || mp == 6 || mp == 8 {
        30int
    } else {
        31int
    })) by (nonlinear_arith)
        requires
            0 <= doy <= 365,
            mp == (5 * doy + 2) / 153,
            day == doy - (153 * mp + 2) / 5 + 1,
    ;
}

/// Every instant names a real date and time: a month of the year, a day that month has (the 29th
/// of February only in leap years), an hour of the day, a minute and a second.
pub proof fn law_timestamps_name_real_dates(total: int)
    ensures
        ({
            let f = utc_fields(total);
            &&& 1 <= f.1 <= 12
            &&& 1 <= f.2 <= month_length(f.0, f.1)
            &&& 0 <= f.3 < 24
            &&& 0 <= f.4 < 60
            &&& 0 <= f.5 < 60
        }),
{
    let days = total / 86400;
    let seconds_of_day = total % 86400;
    let z = days + 719468;
    let era = z / 146097;
    let day_of_era = z - era * 146097;
    assert(0 <= day_of_era < 146097) by (nonlinear_arith)
        requires
            era == z / 146097,
            day_of_era == z - era * 146097,
    ;
    lemma_year_of_era(day_of_era);
    let yoe = (day_of_era - day_of_era / 1460 + day_of_era / 36524 - day_of_era / 146096) / 365;
    let year = yoe + era * 400;
    let doy = day_of_era - (365 * yoe + yoe / 4 - yoe / 100);
    lemma_month_and_day(doy);
    let mp = (5 * doy + 2) / 153;
    let month = if mp < 10 {
        mp + 3
    } else {
        mp - 9
    };
    let calendar_year = if month <= 2 {
        year + 1
    } else {
        year
    };
    if month == 2 && doy == 365 {
        assert(is_leap_year(calendar_year)) by (nonlinear_arith)
            requires
                calendar_year == yoe + 1 + era * 400,
                (yoe + 1) % 4 == 0 && ((yoe + 1) % 100 != 0 || yoe == 399),
                0 <= yoe <= 399,
        ;
    }
    assert(0 <= seconds_of_day < 86400);
    assert(seconds_of_day / 3600 < 24 && (seconds_of_day % 3600) / 60 < 60) by (nonlinear_arith)
        requires
            0 <= seconds_of_day < 86400,
    ;
}

// ---------------------------------------------------------------------------------------------
// Calendar round trip
// ---------------------------------------------------------------------------------------------

/// The number of leap years among the years `1..=n` (for any `n`: multiples of 4, less multiples
/// of 100, plus multiples of 400, counted by floor division).
pub open spec fn leap_years_through(n: int) -> int {
    n / 4 - n / 100 + n / 400
}

/// Days from 1970-01-01 to 1 January of `year` (negative before 1970).
pub open spec fn days_before_year(year: int) -> int {
    365 * (year - 1970) + leap_years_through(year - 1) - leap_years_through(1969)
}

/// Days from 1 January to the first of `month` in `year`.
pub open spec fn days_before_month(year: int, month: int) -> int {
    let common: int = if month == 1 {
        0
    } else if month == 2 {
        31
    } else if month == 3 {
        59
    } else if month == 4 {
        90
    } else if month == 5 {
        120
    } else if month == 6 {
        151
    } else if month == 7 {
        181
    } else if month == 8 {
        212
    } else if month == 9 {
        243
    } else if month == 10 {
        273
    } else if month == 11 {
        304
    } else {
        334
    };
    common + if month > 2 && is_leap_year(year) {
        1int
    } else {
        0int
    }
}

/// The day number of a date: days from 1970-01-01 (negative before it).
pub open spec fn day_number(year: int, month: int, day: int) -> int {
    days_before_year(year) + days_before_month(year, month) + day - 1
}

/// Consecutive years differ by a common year, plus a day when the earlier one is leap; and
/// counted from 0000-03-01, 1 March of a year is that many days further.
proof fn lemma_year_lengths(year: int)
    ensures
        days_before_year(year + 1) == days_before_year(year) + 365 + if is_leap_year(year) {
            1int
        } else {
            0int
        },
        365 * year + year / 4 - year / 100 + year / 400 - 719468 == days_before_year(year) + 59
            + if is_leap_year(year) {
            1int
        } else {
            0int
        },
{
    assert(leap_years_through(year) - leap_years_through(year - 1) == if is_leap_year(year) {
        1int
    } else {
        0int
    }) by (nonlinear_arith);
    assert(leap_years_through(1969) == 477);
}

/// Every instant's date, read back as a day number, is the instant's day, and its time of day
/// adds up to the seconds since midnight.
pub proof fn law_timestamps_round_trip(total: int)
    ensures
        ({
            let f = utc_fields(total);
            &&& day_number(f.0, f.1, f.2) == total / 86400
            &&& f.3 * 3600 + f.4 * 60 + f.5 == total % 86400
        }),
{
    let days = total / 86400;
    let seconds_of_day = total % 86400;
    let z = days + 719468;
    let era = z / 146097;
    let day_of_era = z - era * 146097;
    assert(0 <= day_of_era < 146097) by (nonlinear_arith)
        requires
            era == z / 146097,
            day_of_era == z - era * 146097,
    ;
    lemma_year_of_era(day_of_era);
    let yoe = (day_of_era - day_of_era / 1460 + day_of_era / 36524 - day_of_era / 146096) / 365;
    let year = yoe + era * 400;
    let doy = day_of_era - (365 * yoe + yoe / 4 - yoe / 100);
    lemma_month_and_day(doy);
    let mp = (5 * doy + 2) / 153;
    let day = doy - (153 * mp + 2) / 5 + 1;
    let month = if mp < 10 {
        mp + 3
    } else {
        mp - 9
    };
    let calendar_year = if month <= 2 {
        year + 1
    } else {
        year
    };
    assert(365 * year + year / 4 - year / 100 + year / 400 == era * 146097 + 365 * yoe + yoe / 4
        - yoe / 100) by (nonlinear_arith)
        requires
            year == yoe + era * 400,
            0 <= yoe <= 399,
    ;
    lemma_year_lengths(year);
    assert(days == 365 * year + year / 4 - year / 100 + year / 400 - 719468 + doy);
    let leap: int = if is_leap_year(year) {
        1
    } else {
        0
    };
    assert(days_before_month(calendar_year, month) + (if month <= 2 {
        365 + leap
    } else {
        0int
    }) == 59 + (153 * mp + 2) / 5 + leap) by {
        if mp == 0 {
            assert((153 * mp + 2) / 5 == 0);
        } else if mp == 1 {
            assert((153 * mp + 2) / 5 == 31);
        } else if mp == 2 {
            assert((153 * mp + 2) / 5 == 61);
        } else if mp == 3 {
            assert((153 * mp + 2) / 5 == 92);
        } else if mp == 4 {
            assert((153 * mp + 2) / 5 == 122);
        } else if mp == 5 {
            assert((153 * mp + 2) / 5 == 153);
        } else if mp == 6 {
            assert((153 * mp + 2) / 5 == 184);
        } else if mp == 7 {
            assert((153 * mp + 2) / 5 == 214);
        } else if mp == 8 {
            assert((153 * mp + 2) / 5 == 245);
        } else if mp == 9 {
            assert((153 * mp + 2) / 5 == 275);
        } else if mp == 10 {
            assert((153 * mp + 2) / 5 == 306);
        } else {
            assert((153 * mp + 2) / 5 == 337);
        }
    }
    assert(seconds_of_day == (seconds_of_day / 3600) * 3600 + ((seconds_of_day % 3600) / 60) * 60
        + seconds_of_day % 60) by (nonlinear_arith)
        requires
            0 <= seconds_of_day < 86400,
    ;
}

} // verus!
