//! Decimal formatting and parsing of schedule times: digit sequences, their
//! numeric value, and proofs that parsing inverts formatting.

use vstd::prelude::*;

verus! {

/// The character for one decimal digit value.
pub open spec fn spec_digit_char(v: int) -> char {
    if v == 0 {
        '0'
    } else if v == 1 {
        '1'
    } else if v == 2 {
        '2'
    } else if v == 3 {
        '3'
    } else if v == 4 {
        '4'
    } else if v == 5 {
        '5'
    } else if v == 6 {
        '6'
    } else if v == 7 {
        '7'
    } else if v == 8 {
        '8'
    } else {
        '9'
    }
}

/// Whether `c` is one of the ten decimal digit characters.
pub open spec fn is_digit_char(c: char) -> bool {
    c == '0' || c == '1' || c == '2' || c == '3' || c == '4' || c == '5' || c == '6' || c == '7'
        || c == '8' || c == '9'
}

/// The numeric value of a decimal digit character.
pub open spec fn spec_char_val(c: char) -> int {
    if c == '0' {
        0
    } else if c == '1' {
        1
    } else if c == '2' {
        2
    } else if c == '3' {
        3
    } else if c == '4' {
        4
    } else if c == '5' {
        5
    } else if c == '6' {
        6
    } else if c == '7' {
        7
    } else if c == '8' {
        8
    } else {
        9
    }
}

/// Every character of `s` is a decimal digit.
pub open spec fn all_digits(s: Seq<char>) -> bool {
    forall|i: int| 0 <= i < s.len() ==> is_digit_char(#[trigger] s[i])
}

/// The decimal representation of a non-negative number, most significant
/// digit first, without leading zeros (`0` is written as one digit).
pub open spec fn dec_rep(n: int) -> Seq<char>
    decreases n
        when n >= 0
{
    if n < 10 {
        seq![spec_digit_char(n)]
    } else {
        dec_rep(n / 10).push(spec_digit_char(n % 10))
    }
}

/// The numeric value of a digit sequence read as a decimal number.
pub open spec fn digits_val(s: Seq<char>) -> int
    decreases s.len(),
{
    if s.len() == 0 {
        0
    } else {
        digits_val(s.drop_last()) * 10 + spec_char_val(s.last())
    }
}

/// Reading back the decimal representation gives the number itself, the
/// representation is all digits, and it is never empty.
pub proof fn lemma_dec_rep_val(n: int)
    requires
        n >= 0,
    ensures
        digits_val(dec_rep(n)) == n,
        all_digits(dec_rep(n)),
        dec_rep(n).len() >= 1,
    decreases n,
{
    if n < 10 {
        lemma_char_val_of_digit(n);
        assert(dec_rep(n) =~= seq![spec_digit_char(n)]);
        assert(dec_rep(n).drop_last() =~= Seq::<char>::empty());
        assert(digits_val(Seq::<char>::empty()) == 0);
        assert(digits_val(dec_rep(n)) == spec_char_val(spec_digit_char(n)));
    } else {
        lemma_dec_rep_val(n / 10);
        lemma_char_val_of_digit(n % 10);
        let s = dec_rep(n / 10).push(spec_digit_char(n % 10));
        assert(s.drop_last() =~= dec_rep(n / 10));
        assert(digits_val(s) == n);
    }
}

/// A digit's character reads back as the digit.
pub proof fn lemma_char_val_of_digit(v: int)
    requires
        0 <= v < 10,
    ensures
        spec_char_val(spec_digit_char(v)) == v,
        is_digit_char(spec_digit_char(v)),
{
}

/// Ten to the `k`-th power.
pub open spec fn pow10(k: nat) -> int
    decreases k,
{
    if k == 0 {
        1
    } else {
        10 * pow10((k - 1) as nat)
    }
}

/// A number below `pow10(k)` is written with at most `k` digits.
pub proof fn lemma_dec_rep_len(n: int, k: nat)
    requires
        0 <= n < pow10(k),
        k >= 1,
    ensures
        dec_rep(n).len() <= k,
    decreases n,
{
    if n >= 10 {
        assert(pow10(k) == 10 * pow10((k - 1) as nat));
        assert(n / 10 < pow10((k - 1) as nat)) by (nonlinear_arith)
            requires
                n < 10 * pow10((k - 1) as nat),
                n >= 10,
        ;
        assert(pow10((k - 1) as nat) > 1);
        lemma_dec_rep_len(n / 10, (k - 1) as nat);
    }
}

/// One decimal digit as a string slice.
pub fn digit_str(v: u8) -> (r: &'static str)
    requires
        v < 10,
    ensures
        r@ =~= seq![spec_digit_char(v as int)],
{
    proof {
        reveal_strlit("0");
        reveal_strlit("1");
        reveal_strlit("2");
        reveal_strlit("3");
        reveal_strlit("4");
        reveal_strlit("5");
        reveal_strlit("6");
        reveal_strlit("7");
        reveal_strlit("8");
        reveal_strlit("9");
    }
    match v {
        0 => "0",
        1 => "1",
        2 => "2",
        3 => "3",
        4 => "4",
        5 => "5",
        6 => "6",
        7 => "7",
        8 => "8",
        _ => "9",
    }
}

/// The value of one digit character, or `10` for any other character.
pub fn char_val(c: char) -> (r: u8)
    ensures
        (r < 10) == is_digit_char(c),
        r < 10 ==> r as int == spec_char_val(c),
{
    match c {
        '0' => 0,
        '1' => 1,
        '2' => 2,
        '3' => 3,
        '4' => 4,
        '5' => 5,
        '6' => 6,
        '7' => 7,
        '8' => 8,
        '9' => 9,
        _ => 10,
    }
}

/// Format a non-negative number in decimal, without leading zeros.
pub fn u64_dec(n: u64) -> (r: String)
    ensures
        r@ == dec_rep(n as int),
    decreases n,
{
    if n < 10 {
        String::from_str(digit_str(n as u8))
    } else {
        let high = u64_dec(n / 10);
        let r = high.concat(digit_str((n % 10) as u8));
        proof {
            assert(r@ =~= dec_rep(n as int / 10).push(spec_digit_char(n as int % 10)));
        }
        r
    }
}

/// The two-digit, zero-padded form of a number below one hundred.
pub open spec fn pad2(v: int) -> Seq<char> {
    seq![spec_digit_char(v / 10), spec_digit_char(v % 10)]
}

/// The four-digit, zero-padded form of a number below ten thousand: the
/// two-digit groups of its upper and lower halves.
pub open spec fn pad4(v: int) -> Seq<char> {
    pad2(v / 100) + pad2(v % 100)
}

/// The value written in a two-digit group.
pub open spec fn pad2_val(s: Seq<char>) -> int
    recommends
        s.len() == 2,
{
    spec_char_val(s[0]) * 10 + spec_char_val(s[1])
}

/// The value written in a four-digit group.
pub open spec fn pad4_val(s: Seq<char>) -> int
    recommends
        s.len() == 4,
{
    pad2_val(s.subrange(0, 2)) * 100 + pad2_val(s.subrange(2, 4))
}

/// Reading back a two-digit group gives the number itself.
pub proof fn lemma_pad2_val(v: int)
    requires
        0 <= v < 100,
    ensures
        pad2_val(pad2(v)) == v,
        all_digits(pad2(v)),
{
    lemma_char_val_of_digit(v / 10);
    lemma_char_val_of_digit(v % 10);
}

/// Reading back a four-digit group gives the number itself.
pub proof fn lemma_pad4_val(v: int)
    requires
        0 <= v < 10000,
    ensures
        pad4_val(pad4(v)) == v,
        all_digits(pad4(v)),
{
    lemma_pad2_val(v / 100);
    lemma_pad2_val(v % 100);
    assert(pad4(v).subrange(0, 2) =~= pad2(v / 100));
    assert(pad4(v).subrange(2, 4) =~= pad2(v % 100));
}

/// The three-digit, zero-padded form of a number below one thousand.
pub open spec fn pad3(v: int) -> Seq<char> {
    seq![spec_digit_char(v / 100)] + pad2(v % 100)
}

/// A millisecond count written as decimal seconds: the whole seconds without
/// leading zeros, a point, and exactly three fraction digits.
pub open spec fn ms_text(ms: int) -> Seq<char> {
    dec_rep(ms / 1000) + seq!['.'] + pad3(ms % 1000)
}

/// Write a millisecond count as decimal seconds, such as `12.500`.
pub fn fmt_ms(ms: i64) -> (r: String)
    requires
        0 <= ms,
    ensures
        r@ == ms_text(ms as int),
{
    proof {
        reveal_strlit(".");
    }
    let whole = u64_dec((ms / 1000) as u64);
    let frac = ms % 1000;
    let a = whole.concat(".");
    let b = a.concat(digit_str((frac / 100) as u8));
    let r = b.concat(fmt_pad2((frac % 100) as u8).as_str());
    proof {
        assert(r@ =~= ms_text(ms as int));
    }
    r
}

/// A millisecond-of-day count as a clock reading `HH:MM:SS`.
pub open spec fn time_text(ms: int) -> Seq<char> {
    pad2(ms / 3_600_000) + seq![':'] + pad2((ms / 60_000) % 60) + seq![':'] + pad2(
        (ms / 1000) % 60,
    )
}

/// Write a millisecond-of-day count as `HH:MM:SS`.
pub fn sec_to_time(ms: i64) -> (r: String)
    requires
        0 <= ms < 360_000_000,
    ensures
        r@ == time_text(ms as int),
{
    proof {
        reveal_strlit(":");
    }
    let h = fmt_pad2((ms / 3_600_000) as u8);
    let m = fmt_pad2(((ms / 60_000) % 60) as u8);
    let s = fmt_pad2(((ms / 1000) % 60) as u8);
    let a = h.concat(":");
    let b = a.concat(m.as_str());
    let c = b.concat(":");
    let r = c.concat(s.as_str());
    proof {
        assert(r@ =~= time_text(ms as int));
    }
    r
}

/// What reading a clock time `HH:MM:SS` yields: the milliseconds of the
/// day, if the text has exactly that shape and minutes and seconds are below
/// sixty.
pub open spec fn spec_parse_clock_time(s: Seq<char>) -> Option<int> {
    if s.len() == 8 && all_digits(s.subrange(0, 2)) && s[2] == ':' && all_digits(
        s.subrange(3, 5),
    ) && s[5] == ':' && all_digits(s.subrange(6, 8)) {
        let h = pad2_val(s.subrange(0, 2));
        let m = pad2_val(s.subrange(3, 5));
        let sec = pad2_val(s.subrange(6, 8));
        if m < 60 && sec < 60 {
            Some(h * 3_600_000 + m * 60_000 + sec * 1000)
        } else {
            None
        }
    } else {
        None
    }
}

/// Read a clock time `HH:MM:SS` as milliseconds of the day.
pub fn time_to_ms(s: &str) -> (r: Option<i64>)
    ensures
        spec_parse_clock_time(s@) == (match r {
            Some(v) => Some(v as int),
            None => None::<int>,
        }),
{
    if s.unicode_len() != 8 {
        return None;
    }
    proof {
        reveal_strlit(":");
    }
    if s.get_char(2) != ':' || s.get_char(5) != ':' {
        proof {
            assert(!(s@[2] == ':' && s@[5] == ':'));
        }
        return None;
    }
    let h0 = char_val(s.get_char(0));
    let h1 = char_val(s.get_char(1));
    let m0 = char_val(s.get_char(3));
    let m1 = char_val(s.get_char(4));
    let s0 = char_val(s.get_char(6));
    let s1 = char_val(s.get_char(7));
    if h0 >= 10 || h1 >= 10 || m0 >= 10 || m1 >= 10 || s0 >= 10 || s1 >= 10 {
        proof {
            assert(!(all_digits(s@.subrange(0, 2)) && all_digits(s@.subrange(3, 5)) && all_digits(
                s@.subrange(6, 8),
            )));
        }
        return None;
    }
    let h: i64 = (h0 as i64) * 10 + (h1 as i64);
    let m: i64 = (m0 as i64) * 10 + (m1 as i64);
    let sec: i64 = (s0 as i64) * 10 + (s1 as i64);
    proof {
        assert(all_digits(s@.subrange(0, 2)));
        assert(all_digits(s@.subrange(3, 5)));
        assert(all_digits(s@.subrange(6, 8)));
        assert(h as int == pad2_val(s@.subrange(0, 2)));
        assert(m as int == pad2_val(s@.subrange(3, 5)));
        assert(sec as int == pad2_val(s@.subrange(6, 8)));
    }
    if m < 60 && sec < 60 {
        Some(h * 3_600_000 + m * 60_000 + sec * 1000)
    } else {
        None
    }
}

/// Write `v` as two zero-padded decimal digits.
pub fn fmt_pad2(v: u8) -> (r: String)
    requires
        v < 100,
    ensures
        r@ == pad2(v as int),
{
    let s = String::from_str(digit_str(v / 10));
    let r = s.concat(digit_str(v % 10));
    proof {
        assert(r@ =~= pad2(v as int));
    }
    r
}

/// Write `v` as four zero-padded decimal digits.
pub fn fmt_pad4(v: u16) -> (r: String)
    requires
        v < 10000,
    ensures
        r@ == pad4(v as int),
{
    let a = fmt_pad2((v / 100) as u8);
    let r = a.concat(fmt_pad2((v % 100) as u8).as_str());
    proof {
        assert(r@ =~= pad4(v as int));
    }
    r
}

} // verus!
