//! Unsigned numbers as text: how the form shows them and how it reads them.
//!
//! Numbers are written without sign, padding or separators, in base ten or
//! in lower-case base sixteen. They are read in the same two bases: an
//! optional `+`, then one digit or more, and nothing else.

use vstd::prelude::*;
use crate::text::{append_chars, to_chars};

verus! {

/// The character that stands for the digit `d`, for `d` below sixteen.
pub open spec fn digit_char(d: nat) -> char {
    if d < 10 {
        (48 + d) as char
    } else {
        (87 + d) as char
    }
}

/// `n` in base ten.
pub open spec fn decimal(n: nat) -> Seq<char>
    decreases n,
{
    if n < 10 {
        seq![digit_char(n)]
    } else {
        decimal(n / 10).push(digit_char(n % 10))
    }
}

/// `n` in base sixteen, with the letters `a` to `f`.
pub open spec fn lower_hex(n: nat) -> Seq<char>
    decreases n,
{
    if n < 16 {
        seq![digit_char(n)]
    } else {
        lower_hex(n / 16).push(digit_char(n % 16))
    }
}

/// `v` in base ten, with a leading `-` when it is negative.
pub open spec fn signed_decimal(v: int) -> Seq<char> {
    if v < 0 {
        seq!['-'] + decimal((-v) as nat)
    } else {
        decimal(v as nat)
    }
}

/// The value of `c` as a digit in bases up to sixteen, if it is one.
/// Letters count in either case.
pub open spec fn digit_of(c: char) -> Option<nat> {
    let v = c as u32;
    if 48 <= v <= 57 {
        Some((v - 48) as nat)
    } else if 97 <= v <= 102 {
        Some((v - 87) as nat)
    } else if 65 <= v <= 70 {
        Some((v - 55) as nat)
    } else {
        None
    }
}

/// Whether `c` is a digit of base `radix`.
pub open spec fn is_digit(c: char, radix: nat) -> bool {
    digit_of(c) matches Some(d) && d < radix
}

/// Whether `s` holds digits of base `radix` only.
pub open spec fn all_digits(s: Seq<char>, radix: nat) -> bool {
    forall|i: int| 0 <= i < s.len() ==> is_digit(#[trigger] s[i], radix)
}

/// The number that the digits `s` write in base `radix`.
pub open spec fn digits_value(s: Seq<char>, radix: nat) -> nat
    decreases s.len(),
{
    if s.len() == 0 {
        0
    } else {
        digits_value(s.drop_last(), radix) * radix + digit_of(s.last()).unwrap()
    }
}

/// `s` without its leading `+`, if it has one.
pub open spec fn unsigned_body(s: Seq<char>) -> Seq<char> {
    if s.len() > 0 && s[0] == '+' {
        s.skip(1)
    } else {
        s
    }
}

/// The number that `s` writes in base `radix`, if `s` is an optional `+`
/// followed by at least one digit and nothing else, and the number is at
/// most `max`.
pub open spec fn parse_unsigned(s: Seq<char>, radix: nat, max: nat) -> Option<nat> {
    let body = unsigned_body(s);
    if body.len() > 0 && all_digits(body, radix) && digits_value(body, radix) <= max {
        Some(digits_value(body, radix))
    } else {
        None
    }
}

/// The character that stands for the digit `d`.
fn digit_to_char(d: u8) -> (c: char)
    requires
        d < 16,
    ensures
        c == digit_char(d as nat),
{
    if d < 10 {
        (48 + d) as char
    } else {
        (87 + d) as char
    }
}

/// The value of `c` as a digit in bases up to sixteen, if it is one.
fn digit_value(c: char) -> (d: Option<u8>)
    ensures
        d is Some <==> digit_of(c) is Some,
        d matches Some(v) ==> v as nat == digit_of(c)->0 && v < 16,
{
    let v: u32 = c as u32;
    if 48 <= v && v <= 57 {
        Some((v - 48) as u8)
    } else if 97 <= v && v <= 102 {
        Some((v - 87) as u8)
    } else if 65 <= v && v <= 70 {
        Some((v - 55) as u8)
    } else {
        None
    }
}

/// `n` in base ten, as characters.
pub fn decimal_chars(n: u64) -> (out: Vec<char>)
    ensures
        out@ == decimal(n as nat),
{
    let mut out: Vec<char> = Vec::new();
    let mut m: u64 = n;
    while m >= 10
        invariant
            decimal(n as nat) == decimal(m as nat) + out@,
        decreases m,
    {
        let d: u8 = (m % 10) as u8;
        let ghost before = out@;
        out.insert(0, digit_to_char(d));
        assert(out@ == seq![digit_char((m % 10) as nat)] + before);
        assert(decimal(m as nat) == decimal((m / 10) as nat).push(digit_char((m % 10) as nat)));
        assert(decimal(m as nat) + before == decimal((m / 10) as nat) + out@);
        m = m / 10;
    }
    let ghost before = out@;
    out.insert(0, digit_to_char(m as u8));
    assert(out@ == decimal(m as nat) + before);
    out
}

/// `n` in lower-case base sixteen, as characters.
pub fn hex_chars(n: u32) -> (out: Vec<char>)
    ensures
        out@ == lower_hex(n as nat),
{
    let mut out: Vec<char> = Vec::new();
    let mut m: u32 = n;
    while m >= 16
        invariant
            lower_hex(n as nat) == lower_hex(m as nat) + out@,
        decreases m,
    {
        let d: u8 = (m % 16) as u8;
        let ghost before = out@;
        out.insert(0, digit_to_char(d));
        assert(out@ == seq![digit_char((m % 16) as nat)] + before);
        assert(lower_hex(m as nat) == lower_hex((m / 16) as nat).push(
            digit_char((m % 16) as nat),
        ));
        assert(lower_hex(m as nat) + before == lower_hex((m / 16) as nat) + out@);
        m = m / 16;
    }
    let ghost before = out@;
    out.insert(0, digit_to_char(m as u8));
    assert(out@ == lower_hex(m as nat) + before);
    out
}

/// `v` in base ten, with a leading `-` when it is negative, as characters.
pub fn signed_decimal_chars(v: i8) -> (out: Vec<char>)
    ensures
        out@ == signed_decimal(v as int),
{
    if v < 0 {
        let magnitude: u64 = (-(v as i64)) as u64;
        let mut out: Vec<char> = Vec::new();
        out.push('-');
        let digits = decimal_chars(magnitude);
        append_chars(&mut out, &digits);
        out
    } else {
        decimal_chars(v as u64)
    }
}

/// A shorter run of digits writes no greater number.
pub proof fn lemma_digits_value_grows(s: Seq<char>, radix: nat, k: int)
    requires
        radix >= 1,
        0 <= k <= s.len(),
    ensures
        digits_value(s.subrange(0, k), radix) <= digits_value(s, radix),
    decreases s.len(),
{
    if k == s.len() {
        assert(s.subrange(0, k) == s);
    } else {
        lemma_digits_value_grows(s.drop_last(), radix, k);
        assert(s.drop_last().subrange(0, k) == s.subrange(0, k));
        let v = digits_value(s.drop_last(), radix);
        assert(v * radix >= v) by (nonlinear_arith)
            requires
                radix >= 1,
                v >= 0,
        ;
    }
}

/// Reads `s` as a number in base `radix` that is at most `max`.
pub fn parse_chars(s: &Vec<char>, radix: u8, max: u64) -> (out: Option<u64>)
    requires
        2 <= radix <= 16,
    ensures
        out == match parse_unsigned(s@, radix as nat, max as nat) {
            Some(v) => Some(v as u64),
            None => None,
        },
        out matches Some(v) ==> v <= max,
{
    let start: usize = if s.len() > 0 && s[0] == '+' {
        1
    } else {
        0
    };
    let ghost body = unsigned_body(s@);
    assert(body == s@.skip(start as int));
    if start == s.len() {
        return None;
    }
    let mut acc: u64 = 0;
    let mut i: usize = start;
    assert(body.subrange(0, 0) == Seq::<char>::empty());
    while i < s.len()
        invariant
            2 <= radix <= 16,
            start <= i <= s.len(),
            body == s@.skip(start as int),
            body == unsigned_body(s@),
            body.len() > 0,
            all_digits(body.subrange(0, i - start), radix as nat),
            acc as nat == digits_value(body.subrange(0, i - start), radix as nat),
            acc <= max,
        decreases s.len() - i,
    {
        let c = s[i];
        assert(c == body[i - start]);
        let d = match digit_value(c) {
            Some(d) => d,
            None => {
                assert(!is_digit(body[i - start], radix as nat));
                return None;
            },
        };
        if d >= radix {
            assert(!is_digit(body[i - start], radix as nat));
            return None;
        }
        let ghost prefix = body.subrange(0, i - start + 1);
        assert(prefix.drop_last() == body.subrange(0, i - start));
        assert(prefix.last() == c);
        assert(acc * radix <= 0xffff_ffff_ffff_ffff * 16) by (nonlinear_arith)
            requires
                acc <= 0xffff_ffff_ffff_ffff,
                radix <= 16,
        ;
        let next: u128 = acc as u128 * radix as u128 + d as u128;
        assert(next as nat == digits_value(prefix, radix as nat));
        if next > max as u128 {
            proof {
                lemma_digits_value_grows(body, radix as nat, i - start + 1);
            }
            return None;
        }
        assert forall|j: int| 0 <= j < prefix.len() implies is_digit(
            #[trigger] prefix[j],
            radix as nat,
        ) by {
            if j < i - start {
                assert(prefix[j] == body.subrange(0, i - start)[j]);
            }
        }
        acc = next as u64;
        i = i + 1;
    }
    assert(body.subrange(0, s.len() - start) == body);
    Some(acc)
}

/// Reads `s` as a number in base `radix` that is at most `max`.
pub fn parse_text(s: &str, radix: u8, max: u64) -> (out: Option<u64>)
    requires
        2 <= radix <= 16,
    ensures
        out == match parse_unsigned(s@, radix as nat, max as nat) {
            Some(v) => Some(v as u64),
            None => None,
        },
        out matches Some(v) ==> v <= max,
{
    let chars = to_chars(s);
    parse_chars(&chars, radix, max)
}

/// A digit's character is read back as that digit.
pub proof fn lemma_digit_char_read_back(d: nat)
    requires
        d < 16,
    ensures
        digit_of(digit_char(d)) == Some(d),
        digit_char(d) != '+',
{
}

/// What [`decimal`] writes is one digit or more of base ten, and writes `n`.
pub proof fn lemma_decimal_is_digits(n: nat)
    ensures
        decimal(n).len() > 0,
        all_digits(decimal(n), 10),
        digits_value(decimal(n), 10) == n,
        decimal(n)[0] != '+',
    decreases n,
{
    if n < 10 {
        lemma_digit_char_read_back(n);
        assert(decimal(n).drop_last() == Seq::<char>::empty());
        assert(digits_value(Seq::<char>::empty(), 10) == 0);
        assert(decimal(n).last() == digit_char(n));
    } else {
        lemma_decimal_is_digits(n / 10);
        lemma_digit_char_read_back(n % 10);
        let head = decimal(n / 10);
        assert(decimal(n).drop_last() == head);
        assert(decimal(n).last() == digit_char(n % 10));
        assert forall|i: int| 0 <= i < decimal(n).len() implies is_digit(
            #[trigger] decimal(n)[i],
            10,
        ) by {
            if i < head.len() {
                assert(decimal(n)[i] == head[i]);
            }
        }
        assert(decimal(n)[0] == head[0]);
    }
}

/// What [`lower_hex`] writes is one digit or more of base sixteen, and
/// writes `n`.
pub proof fn lemma_lower_hex_is_digits(n: nat)
    ensures
        lower_hex(n).len() > 0,
        all_digits(lower_hex(n), 16),
        digits_value(lower_hex(n), 16) == n,
        lower_hex(n)[0] != '+',
    decreases n,
{
    if n < 16 {
        lemma_digit_char_read_back(n);
        assert(lower_hex(n).drop_last() == Seq::<char>::empty());
        assert(digits_value(Seq::<char>::empty(), 16) == 0);
        assert(lower_hex(n).last() == digit_char(n));
    } else {
        lemma_lower_hex_is_digits(n / 16);
        lemma_digit_char_read_back(n % 16);
        let head = lower_hex(n / 16);
        assert(lower_hex(n).drop_last() == head);
        assert(lower_hex(n).last() == digit_char(n % 16));
        assert forall|i: int| 0 <= i < lower_hex(n).len() implies is_digit(
            #[trigger] lower_hex(n)[i],
            16,
        ) by {
            if i < head.len() {
                assert(lower_hex(n)[i] == head[i]);
            }
        }
        assert(lower_hex(n)[0] == head[0]);
    }
}

/// A number written in base ten is read back as itself, as long as it is
/// within the limit of the reader.
pub proof fn lemma_decimal_round_trip(n: nat, max: nat)
    requires
        n <= max,
    ensures
        parse_unsigned(decimal(n), 10, max) == Some(n),
{
    lemma_decimal_is_digits(n);
}

/// A number written in base sixteen is read back as itself, as long as it
/// is within the limit of the reader.
pub proof fn lemma_lower_hex_round_trip(n: nat, max: nat)
    requires
        n <= max,
    ensures
        parse_unsigned(lower_hex(n), 16, max) == Some(n),
{
    lemma_lower_hex_is_digits(n);
}

} // verus!
