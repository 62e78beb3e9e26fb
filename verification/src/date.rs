//! Civil dates: the day a playlist belongs to, day rollover, and the
//! `YYYY-MM-DD` text form used by playlist lookups and the status record.

use vstd::prelude::*;

use crate::numfmt::{
    all_digits, char_val, fmt_pad2, fmt_pad4, lemma_pad2_val, lemma_pad4_val, pad2, pad2_val,
    pad4, pad4_val,
};

verus! {

/// A civil date, held as plain year, month and day numbers.
#[derive(Clone, Copy, PartialEq, Eq, Structural, Debug)]
pub struct Date {
    pub year: u16,
    pub month: u8,
    pub day: u8,
}

/// Gregorian leap year rule.
pub open spec fn spec_is_leap_year(y: int) -> bool {
    (y % 4 == 0 && y % 100 != 0) || y % 400 == 0
}

/// Days in a month of a given year.
pub open spec fn spec_days_in_month(y: int, m: int) -> int {
    if m == 2 {
        if spec_is_leap_year(y) {
            29
        } else {
            28
        }
    } else if m == 4 || m == 6 || m == 9 || m == 11 {
        30
    } else {
        31
    }
}

/// The date names a real day of the Gregorian calendar (four-digit years).
pub open spec fn valid_date(d: Date) -> bool {
    &&& 1 <= d.month <= 12
    &&& 1 <= d.day <= spec_days_in_month(d.year as int, d.month as int)
    &&& 1 <= d.year <= 9999
}

/// Whether `year` is a Gregorian leap year.
pub fn is_leap_year(year: u16) -> (r: bool)
    ensures
        r == spec_is_leap_year(year as int),
{
    (year % 4 == 0 && year % 100 != 0) || year % 400 == 0
}

/// How many days the given month of the given year has.
pub fn days_in_month(year: u16, month: u8) -> (r: u8)
    ensures
        r as int == spec_days_in_month(year as int, month as int),
{
    if month == 2 {
        if is_leap_year(year) {
            29
        } else {
            28
        }
    } else if month == 4 || month == 6 || month == 9 || month == 11 {
        30
    } else {
        31
    }
}

/// The day after `d` in the Gregorian calendar.
pub open spec fn spec_next_date(d: Date) -> Date {
    if d.day < spec_days_in_month(d.year as int, d.month as int) {
        Date { year: d.year, month: d.month, day: (d.day + 1) as u8 }
    } else if d.month < 12 {
        Date { year: d.year, month: (d.month + 1) as u8, day: 1 }
    } else {
        Date { year: (d.year + 1) as u16, month: 1, day: 1 }
    }
}

/// Step a date forward by one day, carrying over month and year boundaries.
pub fn next_date(d: Date) -> (r: Date)
    requires
        valid_date(d),
        d.year < 9999,
    ensures
        r == spec_next_date(d),
        valid_date(r),
{
    if d.day < days_in_month(d.year, d.month) {
        Date { year: d.year, month: d.month, day: d.day + 1 }
    } else if d.month < 12 {
        Date { year: d.year, month: d.month + 1, day: 1 }
    } else {
        Date { year: d.year + 1, month: 1, day: 1 }
    }
}

/// Assemble a date from clock fields, exactly when they name a day this
/// library can: the year must have at most four digits and the day must
/// exist in the month.
pub fn date_from_parts(y: i32, m: u32, d: u32) -> (r: Option<Date>)
    requires
        1 <= m <= 12,
        1 <= d <= 31,
    ensures
        (r is Some) <==> (1 <= y <= 9999 && d <= spec_days_in_month(y as int, m as int)),
        r matches Some(x) ==> x == (Date { year: y as u16, month: m as u8, day: d as u8 })
            && valid_date(x),
{
    if y < 1 || y > 9999 {
        return None;
    }
    let year: u16 = y as u16;
    let month: u8 = m as u8;
    let day: u8 = d as u8;
    if day <= days_in_month(year, month) {
        Some(Date { year, month, day })
    } else {
        None
    }
}

/// The ten characters `YYYY-MM-DD` of a date.
pub open spec fn spec_format_date(d: Date) -> Seq<char> {
    pad4(d.year as int) + seq!['-'] + pad2(d.month as int) + seq!['-'] + pad2(d.day as int)
}

/// Write a date as `YYYY-MM-DD`.
pub fn format_date(d: Date) -> (r: String)
    requires
        valid_date(d),
    ensures
        r@ == spec_format_date(d),
{
    proof {
        reveal_strlit("-");
    }
    let y = fmt_pad4(d.year);
    let a = y.concat("-");
    let b = a.concat(fmt_pad2(d.month).as_str());
    let c = b.concat("-");
    let r = c.concat(fmt_pad2(d.day).as_str());
    proof {
        assert(r@ =~= spec_format_date(d));
    }
    r
}

/// What reading ten characters as `YYYY-MM-DD` yields: the date, if the text
/// has exactly that shape and names a real day.
pub open spec fn spec_parse_date(s: Seq<char>) -> Option<Date> {
    if s.len() == 10 && all_digits(s.subrange(0, 4)) && s[4] == '-' && all_digits(
        s.subrange(5, 7),
    ) && s[7] == '-' && all_digits(s.subrange(8, 10)) {
        let d = Date {
            year: pad4_val(s.subrange(0, 4)) as u16,
            month: pad2_val(s.subrange(5, 7)) as u8,
            day: pad2_val(s.subrange(8, 10)) as u8,
        };
        if valid_date(d) {
            Some(d)
        } else {
            None
        }
    } else {
        None
    }
}

/// Read a date from its `YYYY-MM-DD` text form.
pub fn parse_date(s: &str) -> (r: Option<Date>)
    ensures
        r == spec_parse_date(s@),
{
    if s.unicode_len() != 10 {
        return None;
    }
    proof {
        reveal_strlit("-");
    }
    let c4 = s.get_char(4);
    let c7 = s.get_char(7);
    if c4 != '-' || c7 != '-' {
        proof {
            assert(!(s@[4] == '-' && s@[7] == '-'));
        }
        return None;
    }
    let d0 = char_val(s.get_char(0));
    let d1 = char_val(s.get_char(1));
    let d2 = char_val(s.get_char(2));
    let d3 = char_val(s.get_char(3));
    let m0 = char_val(s.get_char(5));
    let m1 = char_val(s.get_char(6));
    let y0 = char_val(s.get_char(8));
    let y1 = char_val(s.get_char(9));
    if d0 >= 10 || d1 >= 10 || d2 >= 10 || d3 >= 10 || m0 >= 10 || m1 >= 10 || y0 >= 10 || y1
        >= 10 {
        proof {
            assert(!(all_digits(s@.subrange(0, 4)) && all_digits(s@.subrange(5, 7)) && all_digits(
                s@.subrange(8, 10),
            )));
        }
        return None;
    }
    let year: u16 = (d0 as u16) * 1000 + (d1 as u16) * 100 + (d2 as u16) * 10 + (d3 as u16);
    let month: u8 = m0 * 10 + m1;
    let day: u8 = y0 * 10 + y1;
    proof {
        assert(all_digits(s@.subrange(0, 4)));
        assert(all_digits(s@.subrange(5, 7)));
        assert(all_digits(s@.subrange(8, 10)));
        assert(year as int == pad4_val(s@.subrange(0, 4)));
        assert(month as int == pad2_val(s@.subrange(5, 7)));
        assert(day as int == pad2_val(s@.subrange(8, 10)));
    }
    let date = Date { year, month, day };
    if 1 <= month && month <= 12 && 1 <= day && day <= days_in_month(year, month) && 1 <= year {
        Some(date)
    } else {
        None
    }
}

/// Reading back a formatted date gives the date itself.
pub proof fn lemma_date_roundtrip(d: Date)
    requires
        valid_date(d),
    ensures
        spec_parse_date(spec_format_date(d)) == Some(d),
{
    let s = spec_format_date(d);
    lemma_pad4_val(d.year as int);
    lemma_pad2_val(d.month as int);
    lemma_pad2_val(d.day as int);
    assert(s.subrange(0, 4) =~= pad4(d.year as int));
    assert(s.subrange(5, 7) =~= pad2(d.month as int));
    assert(s.subrange(8, 10) =~= pad2(d.day as int));
    assert(s.len() == 10);
    assert(s[4] == '-');
    assert(s[7] == '-');
}

} // verus!
