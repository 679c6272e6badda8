//! Calendar dates as plain year/month/day values, with the formatting the
//! template context needs: ISO dates, English month and weekday names, and
//! ordinal day suffixes.  A branch's directory layout depends on the month of
//! its creation date, so these functions are pure and fully specified.

use vstd::prelude::*;

use crate::text::{dec_digit, dec_spec, padded_dec, push_char, u32_dec, u32_dec_pad};

verus! {

/// A Gregorian calendar date.  Well-formed dates (`Date::wf`) have a year
/// between 1 and 9999 and a day that exists in the month.
#[derive(Debug, Clone, Copy, PartialEq, Eq, Structural)]
pub struct Date {
    pub year: u32,
    pub month: u32,
    pub day: u32,
}

/// Whether `y` is a leap year.
pub open spec fn is_leap_year(y: u32) -> bool {
    y % 4 == 0 && (y % 100 != 0 || y % 400 == 0)
}

/// The number of days in month `m` of year `y`.
pub open spec fn days_in_month_spec(y: u32, m: u32) -> u32 {
    if m == 2 {
        if is_leap_year(y) {
            29
        } else {
            28
        }
    } else if m == 4 || m == 6 || m == 9 || m == 11 {
        30
    } else {
        31
    }
}

/// The number of days in month `m` of year `y`.
pub fn days_in_month(y: u32, m: u32) -> (d: u32)
    ensures
        d == days_in_month_spec(y, m),
{
    if m == 2 {
        if y % 4 == 0 && (y % 100 != 0 || y % 400 == 0) {
            29
        } else {
            28
        }
    } else if m == 4 || m == 6 || m == 9 || m == 11 {
        30
    } else {
        31
    }
}

impl Date {
    /// A valid calendar date within the supported year range.
    pub open spec fn wf(self) -> bool {
        &&& 1 <= self.year <= 9999
        &&& 1 <= self.month <= 12
        &&& 1 <= self.day <= days_in_month_spec(self.year, self.month)
    }
}

/// The English name of month `m` (1 through 12).
pub open spec fn month_name_spec(m: u32) -> Seq<char> {
    if m == 1 {
        "January"@
    } else if m == 2 {
        "February"@
    } else if m == 3 {
        "March"@
    } else if m == 4 {
        "April"@
    } else if m == 5 {
        "May"@
    } else if m == 6 {
        "June"@
    } else if m == 7 {
        "July"@
    } else if m == 8 {
        "August"@
    } else if m == 9 {
        "September"@
    } else if m == 10 {
        "October"@
    } else if m == 11 {
        "November"@
    } else {
        "December"@
    }
}

/// The English name of month `m` (1 through 12).
pub fn month_name(m: u32) -> (s: String)
    ensures
        s@ == month_name_spec(m),
{
    if m == 1 {
        "January".to_owned()
    } else if m == 2 {
        "February".to_owned()
    } else if m == 3 {
        "March".to_owned()
    } else if m == 4 {
        "April".to_owned()
    } else if m == 5 {
        "May".to_owned()
    } else if m == 6 {
        "June".to_owned()
    } else if m == 7 {
        "July".to_owned()
    } else if m == 8 {
        "August".to_owned()
    } else if m == 9 {
        "September".to_owned()
    } else if m == 10 {
        "October".to_owned()
    } else if m == 11 {
        "November".to_owned()
    } else {
        "December".to_owned()
    }
}

/// Days in the months strictly before `m` of a non-leap year.
pub open spec fn days_before_month_spec(m: u32) -> u32 {
    if m <= 1 {
        0
    } else if m == 2 {
        31
    } else if m == 3 {
        59
    } else if m == 4 {
        90
    } else if m == 5 {
        120
    } else if m == 6 {
        151
    } else if m == 7 {
        181
    } else if m == 8 {
        212
    } else if m == 9 {
        243
    } else if m == 10 {
        273
    } else if m == 11 {
        304
    } else {
        334
    }
}

fn days_before_month(m: u32) -> (d: u32)
    ensures
        d == days_before_month_spec(m),
{
    if m <= 1 {
        0
    } else if m == 2 {
        31
    } else if m == 3 {
        59
    } else if m == 4 {
        90
    } else if m == 5 {
        120
    } else if m == 6 {
        151
    } else if m == 7 {
        181
    } else if m == 8 {
        212
    } else if m == 9 {
        243
    } else if m == 10 {
        273
    } else if m == 11 {
        304
    } else {
        334
    }
}

/// The weekday of a date as an index, 0 for Sunday through 6 for Saturday,
/// computed by counting the days of the proleptic Gregorian calendar before
/// the date (day 1-1-1 was a Monday).
pub open spec fn weekday_index_spec(d: Date) -> u32 {
    let y = (d.year - 1) as u32;
    let leap = if d.month > 2 && is_leap_year(d.year) {
        1u32
    } else {
        0u32
    };
    (((y * 365) as nat + (y / 4) as nat - (y / 100) as nat + (y / 400) as nat
        + days_before_month_spec(d.month) as nat + leap as nat + d.day as nat) % 7) as u32
}

/// The weekday index of a date, 0 for Sunday through 6 for Saturday.
pub fn weekday_index(d: &Date) -> (w: u32)
    requires
        d.wf(),
    ensures
        w == weekday_index_spec(*d),
        w < 7,
{
    let y = d.year - 1;
    let leap: u32 = if d.month > 2 && d.year % 4 == 0 && (d.year % 100 != 0 || d.year % 400 == 0) {
        1
    } else {
        0
    };
    let days: u64 = (y as u64) * 365 + (y / 4) as u64 - (y / 100) as u64 + (y / 400) as u64
        + days_before_month(d.month) as u64 + leap as u64 + d.day as u64;
    proof {
        assert((y as u64) * 365 == (y * 365) as nat) by (nonlinear_arith)
            requires
                y < 10000,
        ;
        assert((y as u64) * 365 <= 3650000) by (nonlinear_arith)
            requires
                y < 10000,
        ;
    }
    (days % 7) as u32
}

/// The English name of the weekday with index `w` (0 for Sunday).
pub open spec fn weekday_name_spec(w: u32) -> Seq<char> {
    if w == 0 {
        "Sunday"@
    } else if w == 1 {
        "Monday"@
    } else if w == 2 {
        "Tuesday"@
    } else if w == 3 {
        "Wednesday"@
    } else if w == 4 {
        "Thursday"@
    } else if w == 5 {
        "Friday"@
    } else {
        "Saturday"@
    }
}

/// The English name of the weekday with index `w` (0 for Sunday).
pub fn weekday_name(w: u32) -> (s: String)
    ensures
        s@ == weekday_name_spec(w),
{
    if w == 0 {
        "Sunday".to_owned()
    } else if w == 1 {
        "Monday".to_owned()
    } else if w == 2 {
        "Tuesday".to_owned()
    } else if w == 3 {
        "Wednesday".to_owned()
    } else if w == 4 {
        "Thursday".to_owned()
    } else {
        if w == 5 {
            "Friday".to_owned()
        } else {
            "Saturday".to_owned()
        }
    }
}

/// The ordinal suffix of a day number: `st`, `nd`, `rd` or `th`, with the
/// teens always taking `th`.
pub open spec fn ordinal_suffix_spec(day: u32) -> Seq<char> {
    if day % 100 == 11 || day % 100 == 12 || day % 100 == 13 {
        "th"@
    } else if day % 10 == 1 {
        "st"@
    } else if day % 10 == 2 {
        "nd"@
    } else if day % 10 == 3 {
        "rd"@
    } else {
        "th"@
    }
}

/// The ordinal suffix of a day number.
pub fn ordinal_suffix(day: u32) -> (s: String)
    ensures
        s@ == ordinal_suffix_spec(day),
{
    let m100 = day % 100;
    if m100 == 11 || m100 == 12 || m100 == 13 {
        "th".to_owned()
    } else {
        let m10 = day % 10;
        if m10 == 1 {
            "st".to_owned()
        } else if m10 == 2 {
            "nd".to_owned()
        } else if m10 == 3 {
            "rd".to_owned()
        } else {
            "th".to_owned()
        }
    }
}

/// The `YYYY-MM-DD` rendering of a date, zero-padded.
pub open spec fn simple_date_spec(d: Date) -> Seq<char> {
    padded_dec(d.year as nat, 4) + "-"@ + padded_dec(d.month as nat, 2) + "-"@ + padded_dec(
        d.day as nat,
        2,
    )
}

/// Formats a date as `YYYY-MM-DD`.
pub fn simple_date(d: &Date) -> (s: String)
    ensures
        s@ == simple_date_spec(*d),
{
    let mut s = u32_dec_pad(d.year, 4);
    s.append("-");
    let m = u32_dec_pad(d.month, 2);
    s.append(m.as_str());
    s.append("-");
    let dd = u32_dec_pad(d.day, 2);
    s.append(dd.as_str());
    s
}

/// A day-of-month rendering padded with a space to width two, as the long
/// date format uses.
pub open spec fn space_day_spec(day: u32) -> Seq<char> {
    if day < 10 {
        seq![' '] + dec_spec(day as nat)
    } else {
        dec_spec(day as nat)
    }
}

fn space_day(day: u32) -> (s: String)
    ensures
        s@ == space_day_spec(day),
{
    if day < 10 {
        let mut s = String::new();
        push_char(&mut s, ' ');
        let d = u32_dec(day);
        s.append(d.as_str());
        proof {
            assert(s@ =~= seq![' '] + dec_spec(day as nat));
        }
        s
    } else {
        u32_dec(day)
    }
}

/// The long human date: weekday name, month name, space-padded day with an
/// ordinal suffix wrapped by the given markup, and the year, e.g.
/// `Friday, September  1<sup>, 2023` where `<sup>` is the wrapped suffix.
pub open spec fn long_date_spec(d: Date, sup_open: Seq<char>, sup_close: Seq<char>) -> Seq<char> {
    weekday_name_spec(weekday_index_spec(d)) + ", "@ + month_name_spec(d.month) + " "@
        + space_day_spec(d.day) + sup_open + ordinal_suffix_spec(d.day) + sup_close + ", "@
        + padded_dec(d.year as nat, 4)
}

/// Formats the long human date, wrapping the ordinal suffix of the day in the
/// given opening and closing markup.
pub fn long_date(d: &Date, sup_open: &str, sup_close: &str) -> (s: String)
    requires
        d.wf(),
    ensures
        s@ == long_date_spec(*d, sup_open@, sup_close@),
{
    let w = weekday_index(d);
    let mut s = weekday_name(w);
    s.append(", ");
    let m = month_name(d.month);
    s.append(m.as_str());
    s.append(" ");
    let day = space_day(d.day);
    s.append(day.as_str());
    s.append(sup_open);
    let suf = ordinal_suffix(d.day);
    s.append(suf.as_str());
    s.append(sup_close);
    s.append(", ");
    let y = u32_dec_pad(d.year, 4);
    s.append(y.as_str());
    s
}

proof fn lemma_dec_len(n: nat)
    ensures
        n < 10 ==> dec_spec(n).len() == 1,
        10 <= n < 100 ==> dec_spec(n).len() == 2,
        100 <= n < 1000 ==> dec_spec(n).len() == 3,
        1000 <= n < 10000 ==> dec_spec(n).len() == 4,
    decreases n,
{
    if n >= 10 {
        assert(n < 100 ==> n / 10 < 10) by (nonlinear_arith);
        assert(n < 1000 ==> n / 10 < 100) by (nonlinear_arith);
        assert(n < 10000 ==> n / 10 < 1000) by (nonlinear_arith);
        assert(100 <= n ==> 10 <= n / 10) by (nonlinear_arith);
        assert(1000 <= n ==> 100 <= n / 10) by (nonlinear_arith);
        assert(n / 10 < n) by (nonlinear_arith)
            requires
                n >= 10,
        ;
        lemma_dec_len(n / 10);
    }
}

proof fn lemma_digit_val_inverse(x: nat)
    requires
        x < 10,
    ensures
        digit_val(dec_digit(x)) == x,
{
}

proof fn lemma_dec_digits2(n: nat)
    requires
        n < 100,
    ensures
        padded_dec(n, 2) =~= seq![dec_digit(n / 10), dec_digit(n % 10)],
{
    lemma_dec_len(n);
    if n < 10 {
        assert(n / 10 == 0);
        assert(n % 10 == n);
        assert(padded_dec(n, 2) =~= Seq::new(1, |k: int| '0') + seq![dec_digit(n)]);
        assert(dec_digit(0) == '0');
    } else {
        assert(n / 10 < 10) by (nonlinear_arith)
            requires
                n < 100,
        ;
        assert(dec_spec(n) == dec_spec(n / 10).push(dec_digit(n % 10)));
        assert(dec_spec(n / 10) == seq![dec_digit(n / 10)]);
    }
}

proof fn lemma_dec_digits4(n: nat)
    requires
        n < 10000,
    ensures
        padded_dec(n, 4) =~= seq![
            dec_digit(n / 1000),
            dec_digit((n / 100) % 10),
            dec_digit((n / 10) % 10),
            dec_digit(n % 10),
        ],
{
    lemma_dec_len(n);
    assert((n / 10) / 10 == n / 100) by (nonlinear_arith);
    assert((n / 100) / 10 == n / 1000) by (nonlinear_arith);
    assert((n / 10) / 100 == n / 1000) by (nonlinear_arith);
    if n < 10 {
        assert(padded_dec(n, 4) =~= Seq::new(3, |k: int| '0') + seq![dec_digit(n)]);
        assert(n / 1000 == 0 && (n / 100) % 10 == 0 && (n / 10) % 10 == 0 && n % 10 == n);
        assert(dec_digit(0) == '0');
    } else if n < 100 {
        assert(10 <= n / 10 < 10 || n / 10 < 10) by (nonlinear_arith)
            requires
                n < 100,
        ;
        assert(dec_spec(n) == dec_spec(n / 10).push(dec_digit(n % 10)));
        assert(dec_spec(n / 10) == seq![dec_digit(n / 10)]);
        assert(padded_dec(n, 4) =~= Seq::new(2, |k: int| '0') + dec_spec(n));
        assert(n / 1000 == 0 && (n / 100) % 10 == 0);
        assert((n / 10) % 10 == n / 10) by (nonlinear_arith)
            requires
                n < 100,
        ;
    } else if n < 1000 {
        assert(10 <= n / 10 < 100) by (nonlinear_arith)
            requires
                100 <= n < 1000,
        ;
        assert(n / 100 < 10) by (nonlinear_arith)
            requires
                n < 1000,
        ;
        assert(dec_spec(n) == dec_spec(n / 10).push(dec_digit(n % 10)));
        assert(dec_spec(n / 10) == dec_spec(n / 100).push(dec_digit((n / 10) % 10)));
        assert(dec_spec(n / 100) == seq![dec_digit(n / 100)]);
        assert(padded_dec(n, 4) =~= Seq::new(1, |k: int| '0') + dec_spec(n));
        assert(n / 1000 == 0);
        assert((n / 100) % 10 == n / 100) by (nonlinear_arith)
            requires
                n < 1000,
        ;
    } else {
        assert(100 <= n / 10 < 1000) by (nonlinear_arith)
            requires
                1000 <= n < 10000,
        ;
        assert(10 <= n / 100 < 100) by (nonlinear_arith)
            requires
                1000 <= n < 10000,
        ;
        assert(n / 1000 < 10) by (nonlinear_arith)
            requires
                n < 10000,
        ;
        assert(dec_spec(n) == dec_spec(n / 10).push(dec_digit(n % 10)));
        assert(dec_spec(n / 10) == dec_spec(n / 100).push(dec_digit((n / 10) % 10)));
        assert(dec_spec(n / 100) == dec_spec(n / 1000).push(dec_digit((n / 100) % 10)));
        assert(dec_spec(n / 1000) == seq![dec_digit(n / 1000)]);
        assert(padded_dec(n, 4) =~= dec_spec(n));
    }
}

/// Formatting a well-formed date as `YYYY-MM-DD` and parsing it back gives
/// the same date: the rendered string has the date shape and denotes the
/// original year, month and day.
pub proof fn lemma_date_round_trip(d: Date)
    requires
        d.wf(),
    ensures
        is_date_shape(simple_date_spec(d)),
        date_of_str(simple_date_spec(d)) == d,
{
    let s = simple_date_spec(d);
    let y: nat = d.year as nat;
    let m: nat = d.month as nat;
    let dd: nat = d.day as nat;
    lemma_dec_digits4(y);
    lemma_dec_digits2(m);
    lemma_dec_digits2(dd);
    reveal_strlit("-");
    let ys = padded_dec(y, 4);
    let ms = padded_dec(m, 2);
    let ds = padded_dec(dd, 2);
    assert(s =~= ys + "-"@ + ms + "-"@ + ds);
    assert(s.len() == 10);
    assert(s[0] == dec_digit(y / 1000));
    assert(s[1] == dec_digit((y / 100) % 10));
    assert(s[2] == dec_digit((y / 10) % 10));
    assert(s[3] == dec_digit(y % 10));
    assert(s[4] == '-');
    assert(s[5] == dec_digit(m / 10));
    assert(s[6] == dec_digit(m % 10));
    assert(s[7] == '-');
    assert(s[8] == dec_digit(dd / 10));
    assert(s[9] == dec_digit(dd % 10));
    assert forall|k: int| 0 <= k < 10 && k != 4 && k != 7 implies #[trigger] digit_val(s[k])
        < 10 by {
        lemma_digit_val_inverse(y / 1000);
        lemma_digit_val_inverse((y / 100) % 10);
        lemma_digit_val_inverse((y / 10) % 10);
        lemma_digit_val_inverse(y % 10);
        lemma_digit_val_inverse(m / 10);
        lemma_digit_val_inverse(m % 10);
        lemma_digit_val_inverse(dd / 10);
        lemma_digit_val_inverse(dd % 10);
    }
    lemma_digit_val_inverse(y / 1000);
    lemma_digit_val_inverse((y / 100) % 10);
    lemma_digit_val_inverse((y / 10) % 10);
    lemma_digit_val_inverse(y % 10);
    lemma_digit_val_inverse(m / 10);
    lemma_digit_val_inverse(m % 10);
    lemma_digit_val_inverse(dd / 10);
    lemma_digit_val_inverse(dd % 10);
    assert(y == (y / 1000) * 1000 + ((y / 100) % 10) * 100 + ((y / 10) % 10) * 10 + y % 10)
        by (nonlinear_arith)
        requires
            y < 10000,
    ;
    assert(m == (m / 10) * 10 + m % 10) by (nonlinear_arith)
        requires
            m < 100,
    ;
    assert(dd == (dd / 10) * 10 + dd % 10) by (nonlinear_arith)
        requires
            dd < 100,
    ;
}

/// The numeric value of an ASCII digit, or 10 for any other character.
pub open spec fn digit_val(c: char) -> u32 {
    if c == '0' {
        0
    } else if c == '1' {
        1
    } else if c == '2' {
        2
    } else if c == '3' {
        3
    } else if c == '4' {
        4
    } else if c == '5' {
        5
    } else if c == '6' {
        6
    } else if c == '7' {
        7
    } else if c == '8' {
        8
    } else if c == '9' {
        9
    } else {
        10
    }
}

fn digit_val_exec(c: char) -> (v: u32)
    ensures
        v == digit_val(c),
{
    if c == '0' {
        0
    } else if c == '1' {
        1
    } else if c == '2' {
        2
    } else if c == '3' {
        3
    } else if c == '4' {
        4
    } else if c == '5' {
        5
    } else if c == '6' {
        6
    } else if c == '7' {
        7
    } else if c == '8' {
        8
    } else if c == '9' {
        9
    } else {
        10
    }
}

/// Whether `s` has the shape `YYYY-MM-DD`: ten characters, dashes at
/// positions four and seven, digits everywhere else.
pub open spec fn is_date_shape(s: Seq<char>) -> bool {
    &&& s.len() == 10
    &&& s[4] == '-'
    &&& s[7] == '-'
    &&& forall|k: int|
        0 <= k < 10 && k != 4 && k != 7 ==> #[trigger] digit_val(s[k]) < 10
}

/// The date a well-shaped `YYYY-MM-DD` string denotes.
pub open spec fn date_of_str(s: Seq<char>) -> Date {
    Date {
        year: (digit_val(s[0]) * 1000 + digit_val(s[1]) * 100 + digit_val(s[2]) * 10 + digit_val(
            s[3],
        )) as u32,
        month: (digit_val(s[5]) * 10 + digit_val(s[6])) as u32,
        day: (digit_val(s[8]) * 10 + digit_val(s[9])) as u32,
    }
}

/// Parses a strict `YYYY-MM-DD` date.  Returns `Some` exactly when the input
/// has the digit shape and denotes a well-formed calendar date.
pub fn parse_date(s: &str) -> (r: Option<Date>)
    ensures
        match r {
            Some(d) => is_date_shape(s@) && d == date_of_str(s@) && d.wf(),
            None => !(is_date_shape(s@) && date_of_str(s@).wf()),
        },
{
    let len = s.unicode_len();
    if len != 10 {
        return None;
    }
    if s.get_char(4) != '-' || s.get_char(7) != '-' {
        return None;
    }
    let d0 = digit_val_exec(s.get_char(0));
    let d1 = digit_val_exec(s.get_char(1));
    let d2 = digit_val_exec(s.get_char(2));
    let d3 = digit_val_exec(s.get_char(3));
    let d5 = digit_val_exec(s.get_char(5));
    let d6 = digit_val_exec(s.get_char(6));
    let d8 = digit_val_exec(s.get_char(8));
    let d9 = digit_val_exec(s.get_char(9));
    if d0 >= 10 || d1 >= 10 || d2 >= 10 || d3 >= 10 || d5 >= 10 || d6 >= 10 || d8 >= 10 || d9 >= 10
    {
        return None;
    }
    let d = Date {
        year: d0 * 1000 + d1 * 100 + d2 * 10 + d3,
        month: d5 * 10 + d6,
        day: d8 * 10 + d9,
    };
    if d.year < 1 || d.month < 1 || d.month > 12 || d.day < 1 || d.day > days_in_month(
        d.year,
        d.month,
    ) {
        return None;
    }
    Some(d)
}

} // verus!
