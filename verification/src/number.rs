//! Unsigned numbers in decimal: written without a sign and without leading
//! zeros, read with an optional plus sign.

use vstd::prelude::*;
use crate::text;

verus! {

/// An ASCII digit.
pub open spec fn is_digit(c: char) -> bool {
    '0' <= c <= '9'
}

/// A text of ASCII digits only.
pub open spec fn all_digits(s: Seq<char>) -> bool {
    forall|i: int| 0 <= i < s.len() ==> is_digit(#[trigger] s[i])
}

/// The digit of a number below ten.
pub open spec fn digit(n: nat) -> char {
    (n + 0x30) as char
}

/// The number that a row of digits stands for.
pub open spec fn digits_value(s: Seq<char>) -> nat
    decreases s.len(),
{
    if s.len() == 0 {
        0
    } else {
        digits_value(s.drop_last()) * 10 + (s.last() as u32 - 0x30) as nat
    }
}

/// A number in decimal.
pub open spec fn decimal(n: nat) -> Seq<char>
    decreases n,
{
    if n < 10 {
        seq![digit(n)]
    } else {
        decimal(n / 10).push(digit(n % 10))
    }
}

/// A text without the plus sign that may stand before a number.
pub open spec fn without_plus(s: Seq<char>) -> Seq<char> {
    if s.len() > 0 && s[0] == '+' {
        s.drop_first()
    } else {
        s
    }
}

/// The number that a text spells, where it spells one that is at most `max`:
/// an optional plus sign, then digits, at least one and nothing else.
pub open spec fn parse_unsigned(s: Seq<char>, max: nat) -> Option<nat> {
    let d = without_plus(s);
    if d.len() > 0 && all_digits(d) && digits_value(d) <= max {
        Some(digits_value(d))
    } else {
        None
    }
}

/// A number in decimal.
pub fn to_decimal(n: u64) -> (r: String)
    ensures
        r@ == decimal(n as nat),
    decreases n,
{
    if n < 10 {
        let mut r: String = String::new();
        r.push(((n as u8) + 0x30) as char);
        assert(r@ =~= seq![digit(n as nat)]);
        r
    } else {
        let mut r: String = to_decimal(n / 10);
        r.push((((n % 10) as u8) + 0x30) as char);
        r
    }
}

/// Reads a number that fits in 64 bits.
pub fn parse_u64(s: &str) -> (r: Option<u64>)
    ensures
        match r {
            Some(n) => parse_unsigned(s@, u64::MAX as nat) == Some(n as nat),
            None => parse_unsigned(s@, u64::MAX as nat) is None,
        },
{
    let v: Vec<char> = text::chars_of(s);
    let first: usize = if v.len() > 0 && v[0] == '+' {
        1
    } else {
        0
    };
    let ghost d = without_plus(s@);
    assert(d =~= v@.skip(first as int));
    if v.len() == first {
        return None;
    }
    let mut n: u64 = 0;
    let mut i: usize = first;
    while i < v.len()
        invariant
            first <= i <= v@.len(),
            d == v@.skip(first as int),
            d == without_plus(s@),
            forall|k: int| 0 <= k < i - first ==> is_digit(#[trigger] d[k]),
            n == digits_value(d.take(i - first)),
        decreases v@.len() - i,
    {
        let c: char = v[i];
        let ghost k = i - first;
        assert(d[k] == c);
        if c < '0' || '9' < c {
            return None;
        }
        let x: u64 = c as u64 - 0x30;
        proof {
            assert(d.take(k + 1).drop_last() =~= d.take(k));
            lemma_value_grows(d, k + 1);
        }
        if n > u64::MAX / 10 || n * 10 > u64::MAX - x {
            assert(digits_value(d) > u64::MAX);
            return None;
        }
        n = n * 10 + x;
        i += 1;
    }
    assert(d.take(d.len() as int) =~= d);
    Some(n)
}

/// Reads a number that fits in 32 bits.
pub fn parse_u32(s: &str) -> (r: Option<u32>)
    ensures
        match r {
            Some(n) => parse_unsigned(s@, u32::MAX as nat) == Some(n as nat),
            None => parse_unsigned(s@, u32::MAX as nat) is None,
        },
{
    match parse_u64(s) {
        Some(n) => {
            if n <= u32::MAX as u64 {
                Some(n as u32)
            } else {
                None
            }
        },
        None => None,
    }
}

proof fn lemma_value_grows(d: Seq<char>, k: int)
    requires
        0 <= k <= d.len(),
    ensures
        digits_value(d.take(k)) <= digits_value(d),
    decreases d.len() - k,
{
    if k < d.len() {
        lemma_value_grows(d, k + 1);
        assert(d.take(k + 1).drop_last() =~= d.take(k));
    } else {
        assert(d.take(k) =~= d);
    }
}

/// Decimal is at least one digit and nothing but digits, and its value is the
/// number.
pub proof fn lemma_decimal(n: nat)
    ensures
        decimal(n).len() > 0,
        all_digits(decimal(n)),
        digits_value(decimal(n)) == n,
    decreases n,
{
    if n < 10 {
        let s = seq![digit(n)];
        assert(s.drop_last() =~= Seq::<char>::empty());
        assert(digits_value(s.drop_last()) == 0);
        assert(s.last() as u32 == n + 0x30);
    } else {
        lemma_decimal(n / 10);
        let s = decimal(n);
        let r = decimal(n / 10);
        assert(s.drop_last() =~= r);
        assert(s.last() as u32 == n % 10 + 0x30);
        assert forall|i: int| 0 <= i < s.len() implies is_digit(#[trigger] s[i]) by {
            if i < r.len() {
                assert(s[i] == r[i]);
            }
        }
    }
}

/// What is written in decimal reads back as the number it was written from.
pub proof fn law_number_round_trip(n: nat, max: nat)
    requires
        n <= max,
    ensures
        parse_unsigned(decimal(n), max) == Some(n),
{
    lemma_decimal(n);
    assert(is_digit(decimal(n)[0]));
}

/// Decimal writes the ten digits by their characters, and a longer number as its
/// tens followed by its units.
pub proof fn law_decimal_digit_by_digit(tens: nat, units: nat)
    requires
        units < 10,
    ensures
        decimal(units) == seq![(units + '0' as nat) as char],
        tens > 0 ==> decimal(10 * tens + units) == decimal(tens).push(
            (units + '0' as nat) as char,
        ),
{
    assert((10 * tens + units) / 10 == tens);
    assert((10 * tens + units) % 10 == units);
}

/// A number is read digit by digit: a digit behind the digits of `n` makes ten
/// times `n` and that digit, where it is not too large. Leading zeros are fine.
pub proof fn law_read_digit_by_digit(s: Seq<char>, c: char, n: nat, max: nat)
    requires
        parse_unsigned(s, max) == Some(n),
        '0' <= c <= '9',
    ensures
        parse_unsigned(s.push(c), max) == (if 10 * n + (c as nat - '0' as nat) <= max {
            Some((10 * n + (c as nat - '0' as nat)) as nat)
        } else {
            None
        }),
{
    let d = without_plus(s);
    let e = without_plus(s.push(c));
    assert(e =~= d.push(c));
    assert(e.drop_last() =~= d);
    assert forall|i: int| 0 <= i < e.len() implies is_digit(#[trigger] e[i]) by {
        if i < d.len() {
            assert(is_digit(d[i]));
        }
    }
}

/// A single digit is read as what it stands for.
pub proof fn law_read_one_digit(c: char, max: nat)
    requires
        '0' <= c <= '9',
        c as nat - '0' as nat <= max,
    ensures
        parse_unsigned(seq![c], max) == Some((c as nat - '0' as nat) as nat),
{
    let s = seq![c];
    assert(without_plus(s) == s);
    assert(s.drop_last() =~= Seq::<char>::empty());
    assert(digits_value(s.drop_last()) == 0);
}

/// One plus sign may stand before a number, and makes no difference.
pub proof fn law_a_plus_sign_makes_no_difference(s: Seq<char>, max: nat)
    requires
        s.len() > 0,
        s[0] != '+',
    ensures
        parse_unsigned(seq!['+'] + s, max) == parse_unsigned(s, max),
{
    assert(without_plus(seq!['+'] + s) =~= s);
}

/// A text with anything else than digits in it, but for a plus sign before them,
/// is no number; and neither is one without a digit.
pub proof fn law_other_texts_are_no_numbers(s: Seq<char>, i: int, max: nat)
    ensures
        0 <= i < s.len() && !('0' <= s[i] <= '9') && !(i == 0 && s[i] == '+') ==> parse_unsigned(
            s,
            max,
        ) is None,
        s.len() == 0 ==> parse_unsigned(s, max) is None,
        s == seq!['+'] ==> parse_unsigned(s, max) is None,
{
    if 0 <= i < s.len() && !('0' <= s[i] <= '9') && !(i == 0 && s[i] == '+') {
        let d = without_plus(s);
        if s[0] == '+' {
            assert(d[i - 1] == s[i]);
            assert(!is_digit(d[i - 1]));
        } else {
            assert(!is_digit(d[i]));
        }
    }
}

} // verus!
