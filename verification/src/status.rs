//! The status record: the operator-applied time shift and the day it applies
//! to, in the text form kept on disk across process restarts.

use vstd::prelude::*;

use crate::MS_PER_DAY;
use crate::date::{Date, spec_format_date, spec_parse_date, parse_date, format_date, valid_date};
use crate::numfmt::{
    all_digits, char_val, dec_rep, digits_val, is_digit_char, lemma_dec_rep_len, lemma_dec_rep_val,
    pow10, spec_char_val, u64_dec,
};

verus! {

/// A time shift the status record can carry: any drift the schedule
/// arithmetic can produce, less than four days in magnitude.
pub open spec fn valid_shift(t: int) -> bool {
    -4 * MS_PER_DAY < t < 4 * MS_PER_DAY
}

/// The signed decimal form of a number: a minus sign for negative values,
/// then the digits of its magnitude.
pub open spec fn int_rep(v: int) -> Seq<char> {
    if v < 0 {
        seq!['-'] + dec_rep(-v)
    } else {
        dec_rep(v)
    }
}

/// What reading a signed decimal number yields, capped at nine digits of
/// magnitude so that every accepted value fits the schedule's range.
pub open spec fn spec_parse_int(s: Seq<char>) -> Option<int> {
    if s.len() >= 1 && s[0] == '-' {
        if 2 <= s.len() <= 10 && all_digits(s.skip(1)) {
            Some(-digits_val(s.skip(1)))
        } else {
            None
        }
    } else if 1 <= s.len() <= 9 && all_digits(s) {
        Some(digits_val(s))
    } else {
        None
    }
}

/// A digit sequence's value is bounded by ten to its length.
pub proof fn lemma_digits_val_bound(s: Seq<char>)
    requires
        all_digits(s),
    ensures
        0 <= digits_val(s) < pow10(s.len()),
    decreases s.len(),
{
    if s.len() == 0 {
    } else {
        assert(all_digits(s.drop_last())) by {
            assert(forall|i: int|
                0 <= i < s.len() - 1 ==> s.drop_last()[i] == #[trigger] s[i]);
        }
        lemma_digits_val_bound(s.drop_last());
        assert(is_digit_char(s.last()));
        assert(0 <= spec_char_val(s.last()) <= 9);
    }
}

/// Ten to the ninth is one billion.
pub proof fn lemma_pow10_9()
    ensures
        pow10(9) == 1_000_000_000,
{
    assert(pow10(0) == 1);
    assert(pow10(1) == 10);
    assert(pow10(2) == 100);
    assert(pow10(3) == 1000);
    assert(pow10(4) == 10000);
    assert(pow10(5) == 100000);
    assert(pow10(6) == 1000000);
    assert(pow10(7) == 10000000);
    assert(pow10(8) == 100000000);
    assert(pow10(9) == 1000000000);
}

/// Write a signed number in decimal.
pub fn fmt_i64(v: i64) -> (r: String)
    requires
        valid_shift(v as int),
    ensures
        r@ == int_rep(v as int),
{
    proof {
        reveal_strlit("-");
    }
    if v < 0 {
        let sign = String::from_str("-");
        let r = sign.concat(u64_dec((-v) as u64).as_str());
        proof {
            assert(r@ =~= int_rep(v as int));
        }
        r
    } else {
        u64_dec(v as u64)
    }
}

/// The status record's text form: a two-field object holding the shift in
/// milliseconds and the day it applies to.
pub open spec fn spec_format_status(t: int, d: Date) -> Seq<char> {
    "{\"time_shift\":"@ + int_rep(t) + ",\"date\":\""@ + spec_format_date(d) + "\"}"@
}

/// What reading a status record's text yields: the shift and date, if the
/// text has exactly the record's shape, the shift is less than a day, and
/// the date names a real day.
pub open spec fn spec_parse_status(s: Seq<char>) -> Option<(int, Date)> {
    if s.len() >= 36 && s.subrange(0, 14) == "{\"time_shift\":"@ && s.subrange(
        s.len() - 21,
        s.len() - 12,
    ) == ",\"date\":\""@ && s.subrange(s.len() - 2, s.len() as int) == "\"}"@ {
        match spec_parse_int(s.subrange(14, s.len() - 21)) {
            Some(t) => {
                if valid_shift(t) {
                    match spec_parse_date(s.subrange(s.len() - 12, s.len() - 2)) {
                        Some(d) => Some((t, d)),
                        None => None,
                    }
                } else {
                    None
                }
            },
            None => None,
        }
    } else {
        None
    }
}

/// Serialize a status record.
pub fn format_status(t: i64, d: Date) -> (r: String)
    requires
        valid_shift(t as int),
        valid_date(d),
    ensures
        r@ == spec_format_status(t as int, d),
{
    proof {
        reveal_strlit("{\"time_shift\":");
        reveal_strlit(",\"date\":\"");
        reveal_strlit("\"}");
    }
    let a = String::from_str("{\"time_shift\":");
    let b = a.concat(fmt_i64(t).as_str());
    let c = b.concat(",\"date\":\"");
    let e = c.concat(format_date(d).as_str());
    let r = e.concat("\"}");
    proof {
        assert(r@ =~= spec_format_status(t as int, d));
    }
    r
}

/// The characters of `s` from `from` on are those of `pat`.
fn matches_at(s: &str, from: usize, pat: &str) -> (r: bool)
    requires
        from + pat@.len() <= s@.len(),
        from + pat@.len() <= usize::MAX,
    ensures
        r == (s@.subrange(from as int, from + pat@.len()) == pat@),
{
    let n = pat.unicode_len();
    let mut i: usize = 0;
    while i < n
        invariant
            from + n <= s@.len(),
            from + n <= usize::MAX,
            n == pat@.len(),
            0 <= i <= n,
            forall|j: int| 0 <= j < i ==> s@[from + j] == pat@[j],
        decreases n - i,
    {
        if s.get_char(from + i) != pat.get_char(i) {
            proof {
                assert(s@.subrange(from as int, from + pat@.len())[i as int] != pat@[i as int]);
            }
            return false;
        }
        i = i + 1;
    }
    proof {
        assert(s@.subrange(from as int, from + pat@.len()) =~= pat@);
    }
    true
}

/// Read a status record from its text form.
pub fn parse_status(s: &str) -> (r: Option<(i64, Date)>)
    ensures
        spec_parse_status(s@) == (match r {
            Some(p) => Some((p.0 as int, p.1)),
            None => None::<(int, Date)>,
        }),
        r is Some ==> valid_shift(r.unwrap().0 as int) && valid_date(r.unwrap().1),
{
    proof {
        reveal_strlit("{\"time_shift\":");
        reveal_strlit(",\"date\":\"");
        reveal_strlit("\"}");
        reveal_strlit("-");
    }
    let n = s.unicode_len();
    if n < 36 {
        return None;
    }
    if !matches_at(s, 0, "{\"time_shift\":") {
        return None;
    }
    if !matches_at(s, n - 21, ",\"date\":\"") {
        return None;
    }
    if !matches_at(s, n - 2, "\"}") {
        return None;
    }
    let date_text = s.substring_char(n - 12, n - 2);
    let date = match parse_date(date_text) {
        Some(d) => d,
        None => {
            return None;
        },
    };
    // the signed number between the fixed head and tail
    let num_start: usize = 14;
    let num_end: usize = n - 21;
    let negative = s.get_char(num_start) == '-';
    let digits_start = if negative {
        num_start + 1
    } else {
        num_start
    };
    if digits_start >= num_end || num_end - digits_start > 9 {
        proof {
            let num = s@.subrange(14, s@.len() - 21);
            assert(num.len() == num_end - 14);
            if negative {
                assert(num[0] == '-');
                assert(num.len() < 2 || num.len() > 10);
            } else {
                assert(num[0] != '-');
                assert(num.len() > 9);
            }
            assert(spec_parse_int(num) is None);
        }
        return None;
    }
    let ghost digits_seq = s@.subrange(digits_start as int, num_end as int);
    let mut acc: u64 = 0;
    let mut i: usize = digits_start;
    while i < num_end
        invariant
            14 <= digits_start <= i <= num_end <= s@.len(),
            num_end == s@.len() - 21,
            negative == (s@[14] == '-'),
            digits_start == (if negative { 15int } else { 14int }),
            num_end - digits_start <= 9,
            digits_seq == s@.subrange(digits_start as int, num_end as int),
            all_digits(s@.subrange(digits_start as int, i as int)),
            acc == digits_val(s@.subrange(digits_start as int, i as int)),
            acc < 1_000_000_000,
        decreases num_end - i,
    {
        let v = char_val(s.get_char(i));
        if v >= 10 {
            proof {
                assert(!is_digit_char(digits_seq[i - digits_start]));
                let num = s@.subrange(14, s@.len() - 21);
                if negative {
                    assert(num.skip(1) =~= digits_seq);
                    assert(!all_digits(num.skip(1)));
                } else {
                    assert(num =~= digits_seq);
                    assert(!all_digits(num));
                    assert(num[0] != '-');
                }
                assert(spec_parse_int(num) is None);
            }
            return None;
        }
        proof {
            let pre = s@.subrange(digits_start as int, i as int);
            let cur = s@.subrange(digits_start as int, i + 1);
            assert(cur.drop_last() =~= pre);
            assert(all_digits(cur));
            lemma_digits_val_bound(cur);
            lemma_pow10_9();
            assert(cur.len() <= 9);
            assert(pow10(cur.len()) <= pow10(9)) by {
                lemma_pow10_monotone(cur.len(), 9);
            }
        }
        acc = acc * 10 + (v as u64);
        i = i + 1;
    }
    proof {
        assert(s@.subrange(digits_start as int, num_end as int) =~= digits_seq);
    }
    let magnitude: i64 = acc as i64;
    let value: i64 = if negative {
        -magnitude
    } else {
        magnitude
    };
    proof {
        let num = s@.subrange(14, s@.len() - 21);
        if negative {
            assert(num[0] == '-');
            assert(num.skip(1) =~= digits_seq);
            assert(2 <= num.len() <= 10);
            assert(spec_parse_int(num) == Some(-digits_val(digits_seq)));
        } else {
            assert(num =~= digits_seq);
            assert(num[0] != '-');
            assert(spec_parse_int(num) == Some(digits_val(digits_seq)));
        }
    }
    if value <= -4 * MS_PER_DAY || value >= 4 * MS_PER_DAY {
        return None;
    }
    Some((value, date))
}

/// Powers of ten grow with the exponent.
pub proof fn lemma_pow10_monotone(a: nat, b: nat)
    requires
        a <= b,
    ensures
        pow10(a) <= pow10(b),
        pow10(a) >= 1,
    decreases b,
{
    if a < b {
        lemma_pow10_monotone(a, (b - 1) as nat);
    } else if b > 0 {
        lemma_pow10_monotone((a - 1) as nat, (b - 1) as nat);
    }
}

/// Round trip: a written status record reads back as the same shift and day.
pub proof fn lemma_status_roundtrip(t: i64, d: Date)
    requires
        valid_shift(t as int),
        valid_date(d),
    ensures
        spec_parse_status(spec_format_status(t as int, d)) == Some((t as int, d)),
{
    reveal_strlit("{\"time_shift\":");
    reveal_strlit(",\"date\":\"");
    reveal_strlit("\"}");
    reveal_strlit("-");
    let s = spec_format_status(t as int, d);
    let num = int_rep(t as int);
    let mag: int = if t < 0 {
        -t as int
    } else {
        t as int
    };
    lemma_dec_rep_val(mag);
    lemma_pow10_9();
    lemma_dec_rep_len(mag, 9);
    assert(num.len() >= 1);
    if t < 0 {
        assert(num.len() <= 10);
    } else {
        assert(num.len() <= 9);
    }
    assert(s.len() == 14 + num.len() + 9 + 10 + 2);
    assert(s.subrange(0, 14) =~= "{\"time_shift\":"@);
    assert(s.subrange(s.len() - 21, s.len() - 12) =~= ",\"date\":\""@);
    assert(s.subrange(s.len() - 2, s.len() as int) =~= "\"}"@);
    assert(s.subrange(14, s.len() - 21) =~= num);
    assert(s.subrange(s.len() - 12, s.len() - 2) =~= spec_format_date(d));
    crate::date::lemma_date_roundtrip(d);
    if t < 0 {
        assert(num[0] == '-');
        assert(num.skip(1) =~= dec_rep(mag));
        assert(spec_parse_int(num) == Some(-digits_val(dec_rep(mag))));
        assert(spec_parse_int(num) == Some(t as int));
    } else {
        assert(num == dec_rep(mag));
        assert(is_digit_char(num[0]));
        assert(num[0] != '-');
        assert(spec_parse_int(num) == Some(t as int));
    }
}

} // verus!
