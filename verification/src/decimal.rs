//! Decimal numerals as ASCII bytes: rendering a number, reading one back, and
//! the law that ties the two together.

use vstd::prelude::*;

verus! {

/// ASCII code of the digit `0`.
pub const DIGIT_ZERO: u8 = 48;

/// ASCII code of the plus sign.
pub const PLUS_SIGN: u8 = 43;

/// `b` is one of the ASCII digits `0` to `9`.
pub open spec fn is_digit(b: u8) -> bool {
    48 <= b <= 57
}

/// Every byte of `s` is an ASCII digit.
pub open spec fn all_digits(s: Seq<u8>) -> bool {
    forall|i: int| 0 <= i < s.len() ==> is_digit(#[trigger] s[i])
}

/// The number that the digits of `s` denote, most significant digit first.
/// The empty sequence denotes zero.
pub open spec fn digits_value(s: Seq<u8>) -> nat
    decreases s.len(),
{
    if s.len() == 0 {
        0
    } else {
        digits_value(s.drop_last()) * 10 + (s.last() - 48) as nat
    }
}

/// The decimal numeral of `n`: its digits, most significant first, without
/// leading zeros; zero is the single digit `0`.
pub open spec fn numeral(n: nat) -> Seq<u8>
    decreases n,
{
    if n < 10 {
        seq![(48 + n) as u8]
    } else {
        numeral(n / 10).push((48 + n % 10) as u8)
    }
}

/// The text with one leading plus sign taken off, if it has one.
pub open spec fn unsigned_part(text: Seq<u8>) -> Seq<u8> {
    if text.len() > 0 && text[0] == 43 {
        text.drop_first()
    } else {
        text
    }
}

/// What a text reads as, given the largest value that is accepted: an optional
/// plus sign followed by at least one digit, and nothing else, denotes its
/// value if that is at most `max`. Every other text denotes nothing.
pub open spec fn parse_spec(text: Seq<u8>, max: nat) -> Option<nat> {
    let digits = unsigned_part(text);
    if digits.len() > 0 && all_digits(digits) && digits_value(digits) <= max {
        Some(digits_value(digits))
    } else {
        None
    }
}

/// The digits of `m` that are still to be written in front of those already
/// written: none once `m` has reached zero.
spec fn leading_digits(m: nat) -> Seq<u8> {
    if m == 0 {
        Seq::empty()
    } else {
        numeral(m)
    }
}

proof fn lemma_leading_digits_step(m: nat)
    requires
        m > 0,
    ensures
        leading_digits(m) == leading_digits(m / 10).push((48 + m % 10) as u8),
{
    if m < 10 {
        assert(seq![(48 + m) as u8] =~= Seq::<u8>::empty().push((48 + m % 10) as u8));
    }
}

/// Writes `n` as a decimal numeral.
pub fn render(n: usize) -> (out: Vec<u8>)
    ensures
        out@ == numeral(n as nat),
{
    let mut out: Vec<u8> = Vec::new();
    if n == 0 {
        out.push(DIGIT_ZERO);
        assert(out@ =~= numeral(0));
        return out;
    }
    let mut m: usize = n;
    while m > 0
        invariant
            numeral(n as nat) == leading_digits(m as nat) + out@,
        decreases m,
    {
        let d: u8 = DIGIT_ZERO + (m % 10) as u8;
        proof {
            lemma_leading_digits_step(m as nat);
            assert(leading_digits((m / 10) as nat).push(d) + out@ =~= leading_digits(
                (m / 10) as nat,
            ) + out@.insert(0, d));
        }
        out.insert(0, d);
        m = m / 10;
    }
    assert(numeral(n as nat) =~= out@);
    out
}

/// A numeral is never empty, holds digits only, and denotes the number it was
/// written for.
pub proof fn lemma_numeral_value(n: nat)
    ensures
        numeral(n).len() > 0,
        all_digits(numeral(n)),
        digits_value(numeral(n)) == n,
    decreases n,
{
    if n < 10 {
        let s = numeral(n);
        assert(s.drop_last() =~= Seq::<u8>::empty());
        assert(digits_value(s.drop_last()) == 0);
    } else {
        lemma_numeral_value(n / 10);
        let s = numeral(n);
        assert(s.drop_last() =~= numeral(n / 10));
    }
}

/// A numeral has no leading zero, but for the numeral of zero itself.
pub proof fn lemma_numeral_is_canonical(n: nat)
    ensures
        numeral(n)[0] == 48 <==> n == 0,
        n == 0 ==> numeral(n).len() == 1,
    decreases n,
{
    if n >= 10 {
        lemma_numeral_is_canonical(n / 10);
        lemma_numeral_value(n / 10);
    }
}

/// Reading a rendered number gives the number back, whenever it is within the
/// accepted range.
pub proof fn lemma_parse_inverts_numeral(n: nat, max: nat)
    requires
        n <= max,
    ensures
        parse_spec(numeral(n), max) == Some(n),
{
    lemma_numeral_value(n);
    assert(is_digit(numeral(n)[0]));
}

/// Digits in front denote no more than the whole sequence does.
proof fn lemma_prefix_value_is_smaller(s: Seq<u8>, i: int)
    requires
        all_digits(s),
        0 <= i <= s.len(),
    ensures
        digits_value(s.take(i)) <= digits_value(s),
    decreases s.len() - i,
{
    if i < s.len() {
        lemma_prefix_value_is_smaller(s, i + 1);
        let t = s.take(i + 1);
        assert(t.drop_last() =~= s.take(i));
        assert(is_digit(s[i]));
    } else {
        assert(s.take(i) =~= s);
    }
}

/// Reads the digits of `text` from position `start` on as a number of at most
/// `max`.
fn read_digits(text: &[u8], start: usize, max: usize) -> (value: Option<usize>)
    requires
        start <= text@.len(),
    ensures
        value == ({
            let digits = text@.skip(start as int);
            if digits.len() > 0 && all_digits(digits) && digits_value(digits) <= max {
                Some(digits_value(digits) as usize)
            } else {
                None
            }
        }),
{
    let ghost digits = text@.skip(start as int);
    if start == text.len() {
        return None;
    }
    let mut acc: usize = 0;
    let mut i: usize = start;
    while i < text.len()
        invariant
            start <= i <= text@.len(),
            digits == text@.skip(start as int),
            all_digits(digits.take(i - start)),
            acc == digits_value(digits.take(i - start)),
            acc <= max,
        decreases text@.len() - i,
    {
        let b: u8 = text[i];
        if b < DIGIT_ZERO || b > DIGIT_ZERO + 9 {
            assert(!is_digit(digits[i - start]));
            return None;
        }
        let d: usize = (b - DIGIT_ZERO) as usize;
        proof {
            let t = digits.take(i - start + 1);
            assert(t.drop_last() =~= digits.take(i - start));
            assert(t.last() == b);
            assert(digits_value(t) == acc * 10 + d);
            assert forall|j: int| 0 <= j < t.len() implies is_digit(#[trigger] t[j]) by {
                if j < i - start {
                    assert(t[j] == digits.take(i - start)[j]);
                }
            }
        }
        if d > max || acc > (max - d) / 10 {
            proof {
                if all_digits(digits) {
                    lemma_prefix_value_is_smaller(digits, i - start + 1);
                }
            }
            return None;
        }
        acc = acc * 10 + d;
        i = i + 1;
    }
    assert(digits.take(i - start) =~= digits);
    Some(acc)
}

/// Reads `text` as a number of at most `max`: an optional plus sign, then
/// decimal digits. Anything else, or a value above `max`, gives `None`.
pub fn parse_decimal(text: &[u8], max: usize) -> (value: Option<usize>)
    ensures
        value == match parse_spec(text@, max as nat) {
            Some(v) => Some(v as usize),
            None => None,
        },
{
    if text.len() > 0 && text[0] == PLUS_SIGN {
        assert(text@.drop_first() =~= text@.skip(1));
        read_digits(text, 1, max)
    } else {
        assert(text@ =~= text@.skip(0));
        read_digits(text, 0, max)
    }
}

} // verus!
