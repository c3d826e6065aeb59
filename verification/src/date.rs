//! Date codec: an 8-digit `YYYYMMDD` string is decoded into a calendar
//! date, validated against the proleptic Gregorian calendar.

use vstd::prelude::*;

verus! {

/// A calendar date held as plain year/month/day components.
/// `wf` states when the triple denotes a real calendar date.
#[derive(Clone, Copy, Debug, PartialEq, Eq, Structural)]
pub struct Date {
    pub year: u16,
    pub month: u8,
    pub day: u8,
}

/// How decoding an 8-digit date string can fail: `FormatError` when the
/// input is not exactly 8 ASCII digits, `RangeError` when the digits do
/// not denote a real calendar date.
#[derive(Clone, Copy, Debug, PartialEq, Eq, Structural)]
pub enum DateError {
    FormatError,
    RangeError,
}

pub open spec fn is_leap_year(y: int) -> bool {
    y % 4 == 0 && (y % 100 != 0 || y % 400 == 0)
}

pub open spec fn days_in_month(y: int, m: int) -> int {
    if m == 2 {
        if is_leap_year(y) {
            29
        } else {
            28
        }
    } else if m == 4 || m == 6 || m == 9 || m == 11 {
        30
    } else {
        31
    }
}

/// A real calendar date: a four-digit year, month 1..=12, and a day
/// valid for that month and year (leap years included).
pub open spec fn valid_date(y: int, m: int, d: int) -> bool {
    &&& 0 <= y <= 9999
    &&& 1 <= m <= 12
    &&& 1 <= d <= days_in_month(y, m)
}

impl Date {
    pub open spec fn wf(self) -> bool {
        valid_date(self.year as int, self.month as int, self.day as int)
    }
}

pub open spec fn is_digit(c: char) -> bool {
    48 <= c as int && c as int <= 57
}

pub open spec fn digit_val(c: char) -> int {
    c as int - 48
}

/// The ASCII digit character for a value 0..=9.
pub open spec fn digit_char(n: int) -> char {
    if n == 0 {
        '0'
    } else if n == 1 {
        '1'
    } else if n == 2 {
        '2'
    } else if n == 3 {
        '3'
    } else if n == 4 {
        '4'
    } else if n == 5 {
        '5'
    } else if n == 6 {
        '6'
    } else if n == 7 {
        '7'
    } else if n == 8 {
        '8'
    } else {
        '9'
    }
}

pub open spec fn all_digits(s: Seq<char>) -> bool {
    forall|i: int| 0 <= i < s.len() ==> is_digit(#[trigger] s[i])
}

pub open spec fn two_digit_val(s: Seq<char>, i: int) -> int {
    digit_val(s[i]) * 10 + digit_val(s[i + 1])
}

pub open spec fn four_digit_val(s: Seq<char>, i: int) -> int {
    digit_val(s[i]) * 1000 + digit_val(s[i + 1]) * 100 + digit_val(s[i + 2]) * 10 + digit_val(
        s[i + 3],
    )
}

/// What `parse_date` returns on any input: `FormatError` unless the
/// input is exactly 8 ASCII digits; `RangeError` unless the digits
/// denote a real calendar date; otherwise the decoded date.
pub open spec fn spec_parse_date(s: Seq<char>) -> Result<Date, DateError> {
    if s.len() != 8 || !all_digits(s) {
        Err(DateError::FormatError)
    } else {
        let y = four_digit_val(s, 0);
        let m = two_digit_val(s, 4);
        let d = two_digit_val(s, 6);
        if valid_date(y, m, d) {
            Ok(Date { year: y as u16, month: m as u8, day: d as u8 })
        } else {
            Err(DateError::RangeError)
        }
    }
}

/// The 8-digit text of a date, year first.
pub open spec fn date_digits(d: Date) -> Seq<char> {
    seq![
        digit_char(d.year as int / 1000),
        digit_char((d.year as int / 100) % 10),
        digit_char((d.year as int / 10) % 10),
        digit_char(d.year as int % 10),
        digit_char(d.month as int / 10),
        digit_char(d.month as int % 10),
        digit_char(d.day as int / 10),
        digit_char(d.day as int % 10),
    ]
}

proof fn lemma_digit_char_val(n: int)
    requires
        0 <= n <= 9,
    ensures
        is_digit(digit_char(n)),
        digit_val(digit_char(n)) == n,
{
}

/// Every real calendar date round-trips through its 8-digit text:
/// the text is exactly 8 digits and decodes to the same date.
pub proof fn lemma_parse_date_roundtrip(d: Date)
    requires
        d.wf(),
    ensures
        date_digits(d).len() == 8,
        all_digits(date_digits(d)),
        spec_parse_date(date_digits(d)) == Ok::<Date, DateError>(d),
{
    let y = d.year as int;
    let m = d.month as int;
    let dy = d.day as int;
    let s = date_digits(d);
    assert(0 <= y <= 9999 && 1 <= m <= 12 && 1 <= dy <= 31);
    assert(0 <= y / 1000 <= 9) by (nonlinear_arith)
        requires
            0 <= y <= 9999,
    ;
    assert(0 <= (y / 100) % 10 <= 9) by (nonlinear_arith);
    assert(0 <= (y / 10) % 10 <= 9) by (nonlinear_arith);
    assert(0 <= y % 10 <= 9) by (nonlinear_arith)
        requires
            0 <= y,
    ;
    assert(0 <= m / 10 <= 9) by (nonlinear_arith)
        requires
            1 <= m <= 12,
    ;
    assert(0 <= m % 10 <= 9) by (nonlinear_arith)
        requires
            0 <= m,
    ;
    assert(0 <= dy / 10 <= 9) by (nonlinear_arith)
        requires
            1 <= dy <= 31,
    ;
    assert(0 <= dy % 10 <= 9) by (nonlinear_arith)
        requires
            0 <= dy,
    ;
    lemma_digit_char_val(y / 1000);
    lemma_digit_char_val((y / 100) % 10);
    lemma_digit_char_val((y / 10) % 10);
    lemma_digit_char_val(y % 10);
    lemma_digit_char_val(m / 10);
    lemma_digit_char_val(m % 10);
    lemma_digit_char_val(dy / 10);
    lemma_digit_char_val(dy % 10);
    assert(all_digits(s));
    vstd::arithmetic::div_mod::lemma_fundamental_div_mod(y, 1000);
    vstd::arithmetic::div_mod::lemma_mod_breakdown(y, 100, 10);
    vstd::arithmetic::div_mod::lemma_mod_breakdown(y, 10, 10);
    vstd::arithmetic::div_mod::lemma_fundamental_div_mod(m, 10);
    vstd::arithmetic::div_mod::lemma_fundamental_div_mod(dy, 10);
    assert(four_digit_val(s, 0) == y);
    assert(two_digit_val(s, 4) == m);
    assert(two_digit_val(s, 6) == dy);
    assert(valid_date(four_digit_val(s, 0), two_digit_val(s, 4), two_digit_val(s, 6)));
    assert(spec_parse_date(s) == Ok::<Date, DateError>(
        Date { year: d.year, month: d.month, day: d.day },
    ));
}

/// Decoding never builds a half-valid value: whatever parses is a
/// real calendar date.
pub proof fn lemma_parse_date_wf(s: Seq<char>)
    ensures
        (spec_parse_date(s) matches Ok(d) ==> d.wf()),
{
    if s.len() == 8 && all_digits(s) {
        let y = four_digit_val(s, 0);
        let m = two_digit_val(s, 4);
        let dd = two_digit_val(s, 6);
        if valid_date(y, m, dd) {
            assert((Date { year: y as u16, month: m as u8, day: dd as u8 }).wf());
        }
    }
}

fn digit_of(c: char) -> (r: Option<u8>)
    ensures
        r matches Some(v) ==> is_digit(c) && v as int == digit_val(c),
        r is None ==> !is_digit(c),
{
    let u = c as u32;
    if 48 <= u && u <= 57 {
        Some((u - 48) as u8)
    } else {
        None
    }
}

fn days_in_month_exec(year: u16, month: u8) -> (r: u8)
    requires
        1 <= month <= 12,
    ensures
        r as int == days_in_month(year as int, month as int),
{
    if month == 2 {
        if (year % 4 == 0 && year % 100 != 0) || year % 400 == 0 {
            29
        } else {
            28
        }
    } else if month == 4 || month == 6 || month == 9 || month == 11 {
        30
    } else {
        31
    }
}

/// Decode an 8-character `YYYYMMDD` date: the first 4 characters are the
/// year, the next 2 the month, the last 2 the day.
pub fn parse_date(s: &[char]) -> (r: Result<Date, DateError>)
    ensures
        r == spec_parse_date(s@),
{
    if s.len() != 8 {
        return Err(DateError::FormatError);
    }
    let mut digits: [u8; 8] = [0; 8];
    let mut i: usize = 0;
    while i < 8
        invariant
            0 <= i <= 8,
            s@.len() == 8,
            forall|j: int|
                0 <= j < i ==> is_digit(#[trigger] s@[j]) && digits@[j] as int == digit_val(s@[j]),
        decreases 8 - i,
    {
        match digit_of(s[i]) {
            Some(v) => {
                digits[i] = v;
            },
            None => {
                return Err(DateError::FormatError);
            },
        }
        i = i + 1;
    }
    assert(all_digits(s@));
    let year: u16 = digits[0] as u16 * 1000 + digits[1] as u16 * 100 + digits[2] as u16 * 10
        + digits[3] as u16;
    let month: u8 = digits[4] * 10 + digits[5];
    let day: u8 = digits[6] * 10 + digits[7];
    assert(year as int == four_digit_val(s@, 0));
    assert(month as int == two_digit_val(s@, 4));
    assert(day as int == two_digit_val(s@, 6));
    if 1 <= month && month <= 12 && 1 <= day && day <= days_in_month_exec(year, month) {
        Ok(Date { year, month, day })
    } else {
        Err(DateError::RangeError)
    }
}

} // verus!
