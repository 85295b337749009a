//! Strict parsing of `YYYY-MM-DD HH:MM:SS` timestamps into epoch seconds.
//!
//! The format is fixed and the field ranges are checked exactly: an
//! out-of-range field (such as hour 24) is rejected rather than wrapped,
//! because a garbage timestamp would corrupt the event identifier and defeat
//! deduplication.

use vstd::prelude::*;
use crate::fault::Fault;
use crate::numfmt::{digit_val, is_dec_digit};

verus! {

/// The Gregorian leap-year rule.
pub open spec fn is_leap_year(y: int) -> bool {
    y % 4 == 0 && (y % 100 != 0 || y % 400 == 0)
}

pub open spec fn days_in_year(y: int) -> int {
    if is_leap_year(y) {
        366
    } else {
        365
    }
}

pub open spec fn days_in_month(y: int, m: int) -> int
    recommends
        1 <= m <= 12,
{
    if m == 2 {
        if is_leap_year(y) {
            29
        } else {
            28
        }
    } else if m == 4 || m == 6 || m == 9 || m == 11 {
        30
    } else {
        31
    }
}

/// Days from the first day of year zero to the first day of year `y`.
pub open spec fn days_before_year(y: nat) -> int
    decreases y,
{
    if y == 0 {
        0
    } else {
        days_before_year((y - 1) as nat) + days_in_year(y - 1)
    }
}

/// Days from the first day of month 1 of year `y` to the first day of
/// month `m` of the same year.
pub open spec fn days_before_month(y: int, m: nat) -> int
    decreases m,
{
    if m <= 1 {
        0
    } else {
        days_before_month(y, (m - 1) as nat) + days_in_month(y, m - 1)
    }
}

/// Days from the Unix epoch (1970-01-01) to the civil date `y-m-d`;
/// 719528 is the day count from year zero to the epoch.
pub open spec fn epoch_day(y: nat, m: nat, d: nat) -> int {
    days_before_year(y) + days_before_month(y as int, m) + (d - 1) - 719528
}

/// Epoch seconds of the civil datetime `y-m-d h:mi:s`.
pub open spec fn epoch_seconds(y: nat, m: nat, d: nat, h: nat, mi: nat, s: nat) -> int {
    epoch_day(y, m, d) * 86400 + h * 3600 + mi * 60 + s
}

/// The shape of the fixed format: 19 characters, digits and separators in
/// their exact places.
pub open spec fn well_formed_datetime(s: Seq<char>) -> bool {
    &&& s.len() == 19
    &&& is_dec_digit(s[0])
    &&& is_dec_digit(s[1])
    &&& is_dec_digit(s[2])
    &&& is_dec_digit(s[3])
    &&& s[4] == '-'
    &&& is_dec_digit(s[5])
    &&& is_dec_digit(s[6])
    &&& s[7] == '-'
    &&& is_dec_digit(s[8])
    &&& is_dec_digit(s[9])
    &&& s[10] == ' '
    &&& is_dec_digit(s[11])
    &&& is_dec_digit(s[12])
    &&& s[13] == ':'
    &&& is_dec_digit(s[14])
    &&& is_dec_digit(s[15])
    &&& s[16] == ':'
    &&& is_dec_digit(s[17])
    &&& is_dec_digit(s[18])
}

pub open spec fn year_of(s: Seq<char>) -> int {
    1000 * digit_val(s[0]) + 100 * digit_val(s[1]) + 10 * digit_val(s[2]) + digit_val(s[3])
}

pub open spec fn month_of(s: Seq<char>) -> int {
    10 * digit_val(s[5]) + digit_val(s[6])
}

pub open spec fn day_of(s: Seq<char>) -> int {
    10 * digit_val(s[8]) + digit_val(s[9])
}

pub open spec fn hour_of(s: Seq<char>) -> int {
    10 * digit_val(s[11]) + digit_val(s[12])
}

pub open spec fn minute_of(s: Seq<char>) -> int {
    10 * digit_val(s[14]) + digit_val(s[15])
}

pub open spec fn second_of(s: Seq<char>) -> int {
    10 * digit_val(s[17]) + digit_val(s[18])
}

/// A timestamp string is valid when it has the exact shape of the fixed
/// format and every field lies in its calendar range.
pub open spec fn valid_datetime(s: Seq<char>) -> bool {
    &&& well_formed_datetime(s)
    &&& 1 <= month_of(s) <= 12
    &&& 1 <= day_of(s) <= days_in_month(year_of(s), month_of(s))
    &&& 0 <= hour_of(s) <= 23
    &&& 0 <= minute_of(s) <= 59
    &&& 0 <= second_of(s) <= 59
}

/// The epoch seconds a valid timestamp string denotes.
pub open spec fn datetime_seconds(s: Seq<char>) -> int {
    epoch_seconds(
        year_of(s) as nat,
        month_of(s) as nat,
        day_of(s) as nat,
        hour_of(s) as nat,
        minute_of(s) as nat,
        second_of(s) as nat,
    )
}

fn is_leap_year_exec(y: u32) -> (r: bool)
    ensures
        r == is_leap_year(y as int),
{
    y % 4 == 0 && (y % 100 != 0 || y % 400 == 0)
}

fn days_in_month_exec(y: u32, m: u32) -> (r: u32)
    requires
        1 <= m <= 12,
    ensures
        r == days_in_month(y as int, m as int),
{
    if m == 2 {
        if is_leap_year_exec(y) {
            29
        } else {
            28
        }
    } else if m == 4 || m == 6 || m == 9 || m == 11 {
        30
    } else {
        31
    }
}

/// A year's day count is at most 366, so prefix sums stay small.
proof fn lemma_days_before_year_bounds(y: nat)
    ensures
        365 * y <= days_before_year(y) <= 366 * y,
    decreases y,
{
    if y > 0 {
        lemma_days_before_year_bounds((y - 1) as nat);
    }
}

proof fn lemma_days_before_month_bounds(y: int, m: nat)
    requires
        m <= 13,
    ensures
        0 <= days_before_month(y, m) <= 31 * m,
    decreases m,
{
    if m > 1 {
        lemma_days_before_month_bounds(y, (m - 1) as nat);
    }
}

fn days_before_year_exec(y: u32) -> (r: i64)
    requires
        y <= 9999,
    ensures
        r == days_before_year(y as nat),
{
    let mut acc: i64 = 0;
    let mut i: u32 = 0;
    while i < y
        invariant
            i <= y <= 9999,
            acc == days_before_year(i as nat),
            0 <= acc <= 366 * i,
        decreases y - i,
    {
        if is_leap_year_exec(i) {
            acc = acc + 366;
        } else {
            acc = acc + 365;
        }
        i = i + 1;
    }
    acc
}

fn days_before_month_exec(y: u32, m: u32) -> (r: i64)
    requires
        1 <= m <= 12,
    ensures
        r == days_before_month(y as int, m as nat),
{
    let mut acc: i64 = 0;
    let mut i: u32 = 1;
    while i < m
        invariant
            1 <= i <= m <= 12,
            acc == days_before_month(y as int, i as nat),
            0 <= acc <= 31 * i,
        decreases m - i,
    {
        acc = acc + days_in_month_exec(y, i) as i64;
        i = i + 1;
    }
    acc
}

/// Reads the decimal digit at a character position, or rejects.
fn read_digit(s: &str, i: usize) -> (r: Option<u32>)
    requires
        i < s@.len(),
    ensures
        match r {
            Some(v) => is_dec_digit(s@[i as int]) && v == digit_val(s@[i as int]),
            None => !is_dec_digit(s@[i as int]),
        },
{
    let c = s.get_char(i);
    let u = c as u32;
    if 48 <= u && u <= 57 {
        Some(u - 48)
    } else {
        None
    }
}

/// Parses a `YYYY-MM-DD HH:MM:SS` string into epoch seconds.
///
/// Succeeds exactly on valid timestamps; every malformed or out-of-range
/// input is rejected with a parse fault, never silently normalized.
pub fn convert_string_to_timestamp(s: &str) -> (r: Result<i64, Fault>)
    ensures
        r is Ok <==> valid_datetime(s@),
        r matches Ok(v) ==> v == datetime_seconds(s@),
        r is Err ==> r == Result::<i64, Fault>::Err(Fault::Parse),
{
    if s.unicode_len() != 19 {
        return Err(Fault::Parse);
    }
    if s.get_char(4) != '-' || s.get_char(7) != '-' || s.get_char(10) != ' ' || s.get_char(13)
        != ':' || s.get_char(16) != ':' {
        return Err(Fault::Parse);
    }
    let d0 = match read_digit(s, 0) {
        Some(v) => v,
        None => { return Err(Fault::Parse) },
    };
    let d1 = match read_digit(s, 1) {
        Some(v) => v,
        None => { return Err(Fault::Parse) },
    };
    let d2 = match read_digit(s, 2) {
        Some(v) => v,
        None => { return Err(Fault::Parse) },
    };
    let d3 = match read_digit(s, 3) {
        Some(v) => v,
        None => { return Err(Fault::Parse) },
    };
    let d5 = match read_digit(s, 5) {
        Some(v) => v,
        None => { return Err(Fault::Parse) },
    };
    let d6 = match read_digit(s, 6) {
        Some(v) => v,
        None => { return Err(Fault::Parse) },
    };
    let d8 = match read_digit(s, 8) {
        Some(v) => v,
        None => { return Err(Fault::Parse) },
    };
    let d9 = match read_digit(s, 9) {
        Some(v) => v,
        None => { return Err(Fault::Parse) },
    };
    let d11 = match read_digit(s, 11) {
        Some(v) => v,
        None => { return Err(Fault::Parse) },
    };
    let d12 = match read_digit(s, 12) {
        Some(v) => v,
        None => { return Err(Fault::Parse) },
    };
    let d14 = match read_digit(s, 14) {
        Some(v) => v,
        None => { return Err(Fault::Parse) },
    };
    let d15 = match read_digit(s, 15) {
        Some(v) => v,
        None => { return Err(Fault::Parse) },
    };
    let d17 = match read_digit(s, 17) {
        Some(v) => v,
        None => { return Err(Fault::Parse) },
    };
    let d18 = match read_digit(s, 18) {
        Some(v) => v,
        None => { return Err(Fault::Parse) },
    };
    let year: u32 = 1000 * d0 + 100 * d1 + 10 * d2 + d3;
    let month: u32 = 10 * d5 + d6;
    let day: u32 = 10 * d8 + d9;
    let hour: u32 = 10 * d11 + d12;
    let minute: u32 = 10 * d14 + d15;
    let second: u32 = 10 * d17 + d18;
    if month < 1 || month > 12 {
        return Err(Fault::Parse);
    }
    if day < 1 || day > days_in_month_exec(year, month) {
        return Err(Fault::Parse);
    }
    if hour > 23 || minute > 59 || second > 59 {
        return Err(Fault::Parse);
    }
    proof {
        lemma_days_before_year_bounds(year as nat);
        lemma_days_before_month_bounds(year as int, month as nat);
    }
    let days: i64 = days_before_year_exec(year) + days_before_month_exec(year, month) + (day as i64
        - 1) - 719528;
    let seconds: i64 = days * 86400 + (hour as i64) * 3600 + (minute as i64) * 60 + second as i64;
    Ok(seconds)
}

} // verus!
