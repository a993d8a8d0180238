//! Timestamps: the civil calendar, and how long ago something was.

use vstd::prelude::*;

use crate::text::{cat, decimal_of, decimal_wide};

verus! {

/// Whole days from 1970-01-01 to a date of the civil calendar. Years begin in March, so that a
/// leap day is a year's last.
pub open spec fn day_number(year: int, mon: int, day: int) -> int {
    let y = if mon <= 2 {
        year - 1
    } else {
        year
    };
    let m = if mon > 2 {
        mon - 3
    } else {
        mon + 9
    };
    365 * y + y / 4 - y / 100 + y / 400 + (153 * m + 2) / 5 + day - 1 - 719468
}

/// A year with a leap day.
pub open spec fn is_leap(year: int) -> bool {
    year % 4 == 0 && (year % 100 != 0 || year % 400 == 0)
}

pub open spec fn month_days(year: int, mon: int) -> int {
    if mon == 2 {
        if is_leap(year) {
            29
        } else {
            28
        }
    } else if mon == 4 || mon == 6 || mon == 9 || mon == 11 {
        30
    } else {
        31
    }
}

/// Days are counted from 1970-01-01.
pub proof fn law_epoch()
    ensures
        day_number(1970, 1, 1) == 0,
{
}

/// Each month begins as many days after the one before as that month has, and each year where
/// December ends.
pub proof fn law_months(year: int, mon: int)
    requires
        1 <= mon <= 12,
    ensures
        mon < 12 ==> day_number(year, mon + 1, 1) == day_number(year, mon, 1) + month_days(
            year,
            mon,
        ),
        mon == 12 ==> day_number(year + 1, 1, 1) == day_number(year, mon, 1) + month_days(
            year,
            mon,
        ),
{
}

/// Bytes `[a, z)` are decimal digits.
pub open spec fn digits_at(b: Seq<u8>, a: int, z: int) -> bool {
    forall|i: int| a <= i < z ==> 0x30 <= #[trigger] b[i] <= 0x39
}

/// The number that the digits at bytes `[a, z)` write.
pub open spec fn field(b: Seq<u8>, a: int, z: int) -> int
    decreases z - a,
{
    if z <= a {
        0
    } else {
        field(b, a, z - 1) * 10 + (b[z - 1] - 0x30)
    }
}

/// The form `YYYY-MM-DDTHH:MM:SS`, whatever comes after it.
pub open spec fn has_form(b: Seq<u8>) -> bool {
    &&& b.len() >= 19
    &&& digits_at(b, 0, 4)
    &&& b[4] == 0x2d
    &&& digits_at(b, 5, 7)
    &&& b[7] == 0x2d
    &&& digits_at(b, 8, 10)
    &&& b[10] == 0x54
    &&& digits_at(b, 11, 13)
    &&& b[13] == 0x3a
    &&& digits_at(b, 14, 16)
    &&& b[16] == 0x3a
    &&& digits_at(b, 17, 19)
}

/// A timestamp's fields, where it has the form of one and the date can be one.
pub open spec fn fields(b: Seq<u8>) -> Option<(int, int, int, int, int, int)> {
    if has_form(b) && 1 <= field(b, 5, 7) <= 12 && 1 <= field(b, 8, 10) <= 31 {
        Some(
            (
                field(b, 0, 4),
                field(b, 5, 7),
                field(b, 8, 10),
                field(b, 11, 13),
                field(b, 14, 16),
                field(b, 17, 19),
            ),
        )
    } else {
        None
    }
}

/// Seconds from 1970 to a UTC timestamp `YYYY-MM-DDTHH:MM:SS…`; what comes after is ignored.
pub open spec fn timestamp(b: Seq<u8>) -> Option<int> {
    match fields(b) {
        Some((year, mon, day, hh, mm, ss)) => Some(
            day_number(year, mon, day) * 86400 + hh * 3600 + mm * 60 + ss,
        ),
        None => None,
    }
}

/// The number that a few bytes write, where they are digits.
fn read_field(b: &[u8], a: usize, z: usize) -> (r: Option<i64>)
    requires
        a <= z <= b@.len(),
        z - a <= 4,
    ensures
        match r {
            Some(v) => digits_at(b@, a as int, z as int) && field(b@, a as int, z as int) == v
                && 0 <= v <= 9999,
            None => !digits_at(b@, a as int, z as int),
        },
{
    let mut v: i64 = 0;
    let mut i: usize = a;
    while i < z
        invariant
            a <= i <= z <= b@.len(),
            z - a <= 4,
            digits_at(b@, a as int, i as int),
            v == field(b@, a as int, i as int),
            0 <= v,
            i == a ==> v <= 0,
            i == a + 1 ==> v <= 9,
            i == a + 2 ==> v <= 99,
            i == a + 3 ==> v <= 999,
            i == a + 4 ==> v <= 9999,
        decreases z - i,
    {
        if b[i] < 0x30 || b[i] > 0x39 {
            return None;
        }
        v = v * 10 + (b[i] - 0x30) as i64;
        i = i + 1;
    }
    Some(v)
}

/// Days from 1970-01-01 to a date.
fn days_from_civil(year: i64, mon: i64, day: i64) -> (r: i64)
    requires
        -9999 <= year <= 9999,
        1 <= mon <= 12,
        1 <= day <= 31,
    ensures
        r == day_number(year as int, mon as int, day as int),
        -5000000 <= r <= 5000000,
{
    let y: i64 = if mon <= 2 {
        year - 1
    } else {
        year
    };
    let era: i64 = if y >= 0 {
        y / 400
    } else {
        -((399 - y) / 400)
    };
    assert(era == y as int / 400) by {
        if y < 0 {
            assert((399 - y) / 400 == -(y as int / 400));
        }
    }
    let yoe: i64 = y - era * 400;
    let m: i64 = if mon > 2 {
        mon - 3
    } else {
        mon + 9
    };
    let doy: i64 = (153 * m + 2) / 5 + day - 1;
    let doe: i64 = yoe * 365 + yoe / 4 - yoe / 100 + doy;
    era * 146097 + doe - 719468
}

/// Parse a UTC `YYYY-MM-DDTHH:MM:SS…Z` timestamp to unix seconds. Ignores fractional seconds
/// and assumes UTC; `None` on a malformed prefix.
pub fn parse_rfc3339_to_unix(s: &str) -> (r: Option<i64>)
    ensures
        match r {
            Some(v) => timestamp(vstd::utf8::encode_utf8(s@)) == Some(v as int),
            None => timestamp(vstd::utf8::encode_utf8(s@)) is None,
        },
{
    let b = s.as_bytes();
    if b.len() < 19 || b[4] != 0x2d || b[7] != 0x2d || b[10] != 0x54 || b[13] != 0x3a || b[16]
        != 0x3a {
        return None;
    }
    let (year, mon, day, hh, mm, ss): (i64, i64, i64, i64, i64, i64) = match (
        read_field(b, 0, 4),
        read_field(b, 5, 7),
        read_field(b, 8, 10),
        read_field(b, 11, 13),
        read_field(b, 14, 16),
        read_field(b, 17, 19),
    ) {
        (Some(a), Some(b), Some(c), Some(d), Some(e), Some(f)) => (a, b, c, d, e, f),
        _ => {
            return None;
        },
    };
    if mon < 1 || mon > 12 || day < 1 || day > 31 {
        return None;
    }
    let days: i64 = days_from_civil(year, mon, day);
    Some(days * 86400 + hh * 3600 + mm * 60 + ss)
}

/// How long ago: in the largest of days, hours, minutes and seconds that is at least one.
pub open spec fn age_text(secs: int) -> Seq<char> {
    if secs < 0 {
        "just now"@
    } else if secs < 60 {
        decimal_of(secs as nat) + "s ago"@
    } else if secs < 3600 {
        decimal_of((secs / 60) as nat) + "m ago"@
    } else if secs < 86400 {
        decimal_of((secs / 3600) as nat) + "h ago"@
    } else {
        decimal_of((secs / 86400) as nat) + "d ago"@
    }
}

/// Say how long ago something was.
pub fn human_age(secs: i64) -> (r: String)
    ensures
        r@ == age_text(secs as int),
{
    tell_age(secs as i128)
}

pub(crate) fn tell_age(secs: i128) -> (r: String)
    ensures
        r@ == age_text(secs as int),
{
    if secs < 0 {
        "just now".to_string()
    } else if secs < 60 {
        cat(decimal_wide(secs as u128).as_str(), "s ago")
    } else if secs < 3600 {
        cat(decimal_wide((secs / 60) as u128).as_str(), "m ago")
    } else if secs < 86400 {
        cat(decimal_wide((secs / 3600) as u128).as_str(), "h ago")
    } else {
        cat(decimal_wide((secs / 86400) as u128).as_str(), "d ago")
    }
}

/// The next day is one more.
pub proof fn law_days(year: int, mon: int, day: int)
    ensures
        day_number(year, mon, day + 1) == day_number(year, mon, day) + 1,
{
}

/// The value of two digits at a place.
pub open spec fn pair_at(b: Seq<u8>, i: int) -> int {
    (b[i] - 0x30) * 10 + (b[i + 1] - 0x30)
}

/// A timestamp is its date's days and its time of day, each field read at its place; without
/// the form, or with a month or a day that cannot be, there is none.
pub proof fn law_timestamp(b: Seq<u8>)
    ensures
        !has_form(b) ==> timestamp(b) is None,
        has_form(b) ==> ({
            let year = pair_at(b, 0) * 100 + pair_at(b, 2);
            let (mon, day) = (pair_at(b, 5), pair_at(b, 8));
            let (hh, mm, ss) = (pair_at(b, 11), pair_at(b, 14), pair_at(b, 17));
            if 1 <= mon <= 12 && 1 <= day <= 31 {
                timestamp(b) == Some(
                    ((day_number(year, mon, day) * 24 + hh) * 60 + mm) * 60 + ss,
                )
            } else {
                timestamp(b) is None
            }
        }),
{
    lemma_pair(b, 5);
    lemma_pair(b, 8);
    lemma_pair(b, 11);
    lemma_pair(b, 14);
    lemma_pair(b, 17);
    reveal_with_fuel(field, 5);
}

proof fn lemma_pair(b: Seq<u8>, i: int)
    ensures
        field(b, i, i + 2) == pair_at(b, i),
{
    reveal_with_fuel(field, 3);
}

/// Ages are told in whole units, of the largest that there is one of: seconds under a minute,
/// minutes under an hour, hours under a day, and days.
pub proof fn law_age(n: int, rest: int)
    ensures
        n < 0 ==> age_text(n) == "just now"@,
        0 <= n < 60 ==> age_text(n) == decimal_of(n as nat) + "s ago"@,
        1 <= n < 60 && 0 <= rest < 60 ==> age_text(n * 60 + rest) == decimal_of(n as nat)
            + "m ago"@,
        1 <= n < 24 && 0 <= rest < 3600 ==> age_text(n * 3600 + rest) == decimal_of(n as nat)
            + "h ago"@,
        1 <= n && 0 <= rest < 86400 ==> age_text(n * 86400 + rest) == decimal_of(n as nat)
            + "d ago"@,
{
}

} // verus!
