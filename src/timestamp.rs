//! Timestamps are stored as decimal text.

use vstd::prelude::*;

verus! {

/// The decimal digit for `d` (0 to 9).
pub open spec fn digit_char(d: nat) -> char {
    if d == 0 {
        '0'
    } else if d == 1 {
        '1'
    } else if d == 2 {
        '2'
    } else if d == 3 {
        '3'
    } else if d == 4 {
        '4'
    } else if d == 5 {
        '5'
    } else if d == 6 {
        '6'
    } else if d == 7 {
        '7'
    } else if d == 8 {
        '8'
    } else {
        '9'
    }
}

/// The digits of `n` in base ten, without leading zeros.
pub open spec fn digits_of(n: nat) -> Seq<char>
    decreases n,
{
    if n < 10 {
        seq![digit_char(n)]
    } else {
        digits_of(n / 10).push(digit_char(n % 10))
    }
}

/// `t` written in base ten, with a leading `-` when it is negative.
pub open spec fn decimal_text(t: int) -> Seq<char> {
    if t < 0 {
        seq!['-'] + digits_of((-t) as nat)
    } else {
        digits_of(t as nat)
    }
}

pub open spec fn is_digit(c: char) -> bool {
    '0' <= c && c <= '9'
}

/// The value of a run of decimal digits.
pub open spec fn digits_value(s: Seq<char>) -> int
    decreases s.len(),
{
    if s.len() == 0 {
        0
    } else {
        digits_value(s.drop_last()) * 10 + (s.last() as int - '0' as int)
    }
}

/// A decimal integer: an optional `+` or `-`, then at least one digit; `None`
/// when the text is not one or its value does not fit in an `i64`.
pub open spec fn parse_decimal_i64(s: Seq<char>) -> Option<i64> {
    let negative = s.len() > 0 && s[0] == '-';
    let digits = if s.len() > 0 && (s[0] == '-' || s[0] == '+') {
        s.drop_first()
    } else {
        s
    };
    let v = if negative {
        -digits_value(digits)
    } else {
        digits_value(digits)
    };
    if digits.len() == 0 || !(forall|i: int| 0 <= i < digits.len() ==> is_digit(#[trigger] digits[i])) {
        None
    } else if i64::MIN <= v <= i64::MAX {
        Some(v as i64)
    } else {
        None
    }
}

/// Relies on `i64`'s `Display` (through `ToString::to_string`): base ten,
/// with a leading `-` for negative values.
#[verifier::external_body]
fn i64_to_text(t: i64) -> (r: String)
    ensures
        r@ == decimal_text(t as int),
{
    t.to_string()
}

/// Relies on `i64`'s `FromStr` (through `str::parse`): an optional sign and
/// decimal digits, rejected when out of range.
#[verifier::external_body]
fn i64_from_text(s: &str) -> (r: Option<i64>)
    ensures
        r == parse_decimal_i64(s@),
{
    match s.parse::<i64>() {
        Ok(v) => Some(v),
        Err(_) => None,
    }
}

/// The stored form of a timestamp.
pub fn serialize_timestamp(timestamp: i64) -> (r: String)
    ensures
        r@ == decimal_text(timestamp as int),
{
    i64_to_text(timestamp)
}

/// A timestamp read back from its stored form; `None` when the text is not a
/// decimal integer that fits in an `i64`.
pub fn deserialize_timestamp(s: &str) -> (r: Option<i64>)
    ensures
        r == parse_decimal_i64(s@),
{
    i64_from_text(s)
}

proof fn lemma_digit_char(d: nat)
    requires
        d < 10,
    ensures
        is_digit(digit_char(d)),
        digit_char(d) as int - '0' as int == d,
{
}

proof fn lemma_digits_of(n: nat)
    ensures
        digits_of(n).len() > 0,
        forall|i: int| 0 <= i < digits_of(n).len() ==> is_digit(#[trigger] digits_of(n)[i]),
        digits_value(digits_of(n)) == n,
    decreases n,
{
    lemma_digit_char(n % 10);
    if n >= 10 {
        lemma_digits_of(n / 10);
        let p = digits_of(n / 10);
        assert(digits_of(n).drop_last() =~= p);
        assert forall|i: int| 0 <= i < digits_of(n).len() implies is_digit(#[trigger] digits_of(n)[i]) by {
            if i < p.len() {
                assert(digits_of(n)[i] == p[i]);
            }
        }
        vstd::arithmetic::div_mod::lemma_fundamental_div_mod(n as int, 10);
        assert(digits_value(digits_of(n)) == digits_value(p) * 10 + (n % 10));
        assert(digits_value(p) * 10 == (n / 10) * 10);
        assert((n / 10) * 10 + n % 10 == n) by (nonlinear_arith);
    } else {
        assert(digits_of(n).drop_last() =~= Seq::<char>::empty());
        assert(digits_of(n).last() == digit_char(n));
        assert(digits_value(digits_of(n)) == digits_value(Seq::<char>::empty()) * 10 + (digit_char(n) as int - '0' as int));
    }
}

/// Round trip: the stored form of every timestamp reads back as that timestamp.
pub proof fn lemma_timestamp_round_trip(t: i64)
    ensures
        parse_decimal_i64(decimal_text(t as int)) == Some(t),
{
    if t < 0 {
        let d = digits_of((-t) as nat);
        lemma_digits_of((-t) as nat);
        let s = decimal_text(t as int);
        assert(s[0] == '-');
        assert(s.drop_first() =~= d);
    } else {
        let d = digits_of(t as nat);
        lemma_digits_of(t as nat);
        assert(is_digit(d[0]));
    }
}

} // verus!
