//! Decimal text of integers: what std's parsing accepts and what its
//! formatting writes, and the fact that one reads back what the other wrote.

use vstd::prelude::*;

verus! {

pub open spec fn is_digit(c: char) -> bool {
    '0' <= c && c <= '9'
}

pub open spec fn digit_value(c: char) -> int {
    c as int - '0' as int
}

pub open spec fn digit_char(d: nat) -> char {
    (d + '0' as nat) as char
}

/// A non-empty run of ASCII digits.
pub open spec fn all_digits(s: Seq<char>) -> bool {
    s.len() > 0 && forall|i: int| 0 <= i < s.len() ==> is_digit(#[trigger] s[i])
}

/// The value of a run of digits, most significant first.
pub open spec fn digits_value(s: Seq<char>) -> int
    decreases s.len(),
{
    if s.len() == 0 {
        0
    } else {
        digits_value(s.drop_last()) * 10 + digit_value(s.last())
    }
}

/// What a signed integer's `from_str` reads: an optional sign, then digits.
pub open spec fn signed_value(s: Seq<char>) -> Option<int> {
    if s.len() > 0 && s[0] == '-' && all_digits(s.drop_first()) {
        Some(-digits_value(s.drop_first()))
    } else if s.len() > 0 && s[0] == '+' && all_digits(s.drop_first()) {
        Some(digits_value(s.drop_first()))
    } else if all_digits(s) {
        Some(digits_value(s))
    } else {
        None
    }
}

/// What an unsigned integer's `from_str` reads: an optional `+`, then digits.
pub open spec fn unsigned_value(s: Seq<char>) -> Option<int> {
    if s.len() > 0 && s[0] == '+' && all_digits(s.drop_first()) {
        Some(digits_value(s.drop_first()))
    } else if all_digits(s) {
        Some(digits_value(s))
    } else {
        None
    }
}

/// The canonical decimal digits of a natural number.
pub open spec fn nat_text(n: nat) -> Seq<char>
    decreases n,
{
    if n < 10 {
        seq![digit_char(n)]
    } else {
        nat_text(n / 10).push(digit_char(n % 10))
    }
}

/// The canonical decimal text of an integer: `-` before a negative one.
pub open spec fn int_text(n: int) -> Seq<char> {
    if n < 0 {
        seq!['-'] + nat_text((-n) as nat)
    } else {
        nat_text(n as nat)
    }
}

/// The `i32` that a text parses to, if any.
pub open spec fn parse_i32_spec(s: Seq<char>) -> Option<i32> {
    match signed_value(s) {
        Some(v) => if i32::MIN <= v <= i32::MAX {
            Some(v as i32)
        } else {
            None
        },
        None => None,
    }
}

/// The `u16` that a text parses to, if any.
pub open spec fn parse_u16_spec(s: Seq<char>) -> Option<u16> {
    match unsigned_value(s) {
        Some(v) => if 0 <= v <= u16::MAX {
            Some(v as u16)
        } else {
            None
        },
        None => None,
    }
}

/// Relies on `<i32 as FromStr>::from_str`: an optional sign followed by one or
/// more decimal digits, whose value fits in `i32`; anything else is an error.
#[verifier::external_body]
pub(crate) fn parse_i32(s: &str) -> (r: Option<i32>)
    ensures
        r == parse_i32_spec(s@),
{
    s.parse::<i32>().ok()
}

/// Relies on `<u16 as FromStr>::from_str`: an optional `+` followed by one or
/// more decimal digits, whose value fits in `u16`; anything else is an error.
#[verifier::external_body]
pub(crate) fn parse_u16(s: &str) -> (r: Option<u16>)
    ensures
        r == parse_u16_spec(s@),
{
    s.parse::<u16>().ok()
}

/// Relies on `i32`'s `Display`: decimal digits without leading zeros, after a
/// `-` when negative.
#[verifier::external_body]
pub(crate) fn i32_text(n: i32) -> (r: String)
    ensures
        r@ == int_text(n as int),
{
    n.to_string()
}

/// Relies on `u16`'s `Display`: decimal digits without leading zeros.
#[verifier::external_body]
pub(crate) fn u16_text(n: u16) -> (r: String)
    ensures
        r@ == int_text(n as int),
{
    n.to_string()
}

/// The digits of `n` are all digits and read back as `n`.
pub proof fn lemma_nat_text(n: nat)
    ensures
        all_digits(nat_text(n)),
        digits_value(nat_text(n)) == n,
    decreases n,
{
    if n < 10 {
        assert(seq![digit_char(n)].drop_last() =~= Seq::<char>::empty());
        assert(digit_value(digit_char(n)) == n);
        assert(nat_text(n) == seq![digit_char(n)]);
        assert(digits_value(seq![digit_char(n)]) == digits_value(Seq::<char>::empty()) * 10 + digit_value(digit_char(n)));
    } else {
        lemma_nat_text(n / 10);
        let s = nat_text(n / 10).push(digit_char(n % 10));
        assert(s.drop_last() =~= nat_text(n / 10));
        assert(digit_value(digit_char(n % 10)) == n % 10);
        assert((n / 10) * 10 + n % 10 == n) by (nonlinear_arith);
        assert(s.last() == digit_char(n % 10));
        assert(digits_value(s) == digits_value(s.drop_last()) * 10 + digit_value(s.last()));
        assert(nat_text(n) == s);
        assert forall|i: int| 0 <= i < s.len() implies is_digit(#[trigger] s[i]) by {
            if i < s.len() - 1 {
                assert(s[i] == nat_text(n / 10)[i]);
            }
        }
    }
}

/// Decimal text of any integer reads back as that integer, signed.
pub proof fn lemma_int_text_signed(n: int)
    ensures
        signed_value(int_text(n)) == Some(n),
{
    lemma_nat_text(if n < 0 { (-n) as nat } else { n as nat });
    if n < 0 {
        let t = nat_text((-n) as nat);
        assert((seq!['-'] + t).drop_first() =~= t);
    } else {
        let t = nat_text(n as nat);
        assert(is_digit(t[0]));
    }
}

/// Decimal text of a natural number reads back as that number, unsigned.
pub proof fn lemma_int_text_unsigned(n: int)
    requires
        n >= 0,
    ensures
        unsigned_value(int_text(n)) == Some(n),
{
    lemma_nat_text(n as nat);
    assert(is_digit(nat_text(n as nat)[0]));
}

/// Parsing the text that `i32`'s formatting writes gives the number back.
pub proof fn lemma_i32_text_round_trip(n: i32)
    ensures
        parse_i32_spec(int_text(n as int)) == Some(n),
{
    lemma_int_text_signed(n as int);
}

/// Parsing the text that `u16`'s formatting writes gives the number back.
pub proof fn lemma_u16_text_round_trip(n: u16)
    ensures
        parse_u16_spec(int_text(n as int)) == Some(n),
{
    lemma_int_text_unsigned(n as int);
}

} // verus!
