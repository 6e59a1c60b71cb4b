//! Unsigned integers written in decimal.
use vstd::prelude::*;

use crate::text::push_chars;

verus! {

pub open spec fn digit_char(d: nat) -> char {
    (48 + d) as char
}

/// `n` in decimal, without leading zeros.
pub open spec fn decimal(n: nat) -> Seq<char>
    decreases n,
{
    if n < 10 {
        seq![digit_char(n)]
    } else {
        decimal(n / 10).push(digit_char(n % 10))
    }
}

pub open spec fn is_digit(c: char) -> bool {
    '0' <= c <= '9'
}

/// The number that a run of digits stands for.
pub open spec fn value(digits: Seq<char>) -> nat
    decreases digits.len(),
{
    if digits.len() == 0 {
        0
    } else {
        (value(digits.drop_last()) * 10 + (digits.last() as nat - 48)) as nat
    }
}

/// The digits of a numeral, which may carry a leading plus sign.
pub open spec fn magnitude(text: Seq<char>) -> Seq<char> {
    if text.len() > 0 && text[0] == '+' {
        text.drop_first()
    } else {
        text
    }
}

pub open spec fn all_digits(text: Seq<char>) -> bool {
    forall|i: int| 0 <= i < text.len() ==> is_digit(#[trigger] text[i])
}

/// What a numeral stands for: digits only, behind at most one plus sign, with
/// a value that 64 bits hold.
pub open spec fn numeral_value(text: Seq<char>) -> Option<u64> {
    let digits = magnitude(text);
    if digits.len() > 0 && all_digits(digits) && value(digits) <= u64::MAX {
        Some(value(digits) as u64)
    } else {
        None
    }
}

fn digit(d: u64) -> (c: char)
    requires
        d < 10,
    ensures
        c == digit_char(d as nat),
{
    match d {
        0 => '0',
        1 => '1',
        2 => '2',
        3 => '3',
        4 => '4',
        5 => '5',
        6 => '6',
        7 => '7',
        8 => '8',
        _ => '9',
    }
}

/// `n` in decimal.
pub fn decimal_chars(n: u64) -> (v: Vec<char>)
    ensures
        v@ == decimal(n as nat),
    decreases n,
{
    if n < 10 {
        let mut v: Vec<char> = Vec::new();
        v.push(digit(n));
        v
    } else {
        let mut v = decimal_chars(n / 10);
        v.push(digit(n % 10));
        v
    }
}

/// Appends `n` in decimal.
pub fn push_decimal(out: &mut String, n: u64)
    ensures
        final(out)@ == old(out)@ + decimal(n as nat),
{
    let digits = decimal_chars(n);
    push_chars(out, digits.as_slice());
}

proof fn lemma_value_prefix(digits: Seq<char>, i: int)
    requires
        0 <= i <= digits.len(),
        all_digits(digits),
    ensures
        value(digits.take(i)) <= value(digits),
    decreases digits.len() - i,
{
    if i == digits.len() {
        assert(digits.take(i) == digits);
    } else {
        lemma_value_prefix(digits, i + 1);
        assert(digits.take(i + 1).drop_last() == digits.take(i));
        assert(is_digit(digits[i]));
    }
}

proof fn lemma_value_step(digits: Seq<char>, k: int)
    requires
        0 <= k < digits.len(),
        is_digit(digits[k]),
    ensures
        value(digits.take(k + 1)) == value(digits.take(k)) * 10 + (digits[k] as nat - 48),
{
    assert(digits.take(k + 1).drop_last() == digits.take(k));
}

/// `total` with one more digit, where 64 bits hold it.
fn with_digit(total: u64, d: u64) -> (r: Option<u64>)
    ensures
        r is Some <==> total * 10 + d <= u64::MAX,
        r matches Some(sum) ==> sum == total * 10 + d,
{
    match total.checked_mul(10) {
        Some(shifted) => shifted.checked_add(d),
        None => None,
    }
}

/// Reads a decimal numeral.
pub fn parse_u64(text: &[char]) -> (r: Option<u64>)
    ensures
        r == numeral_value(text@),
{
    let start: usize = if text.len() > 0 && text[0] == '+' {
        1
    } else {
        0
    };
    let ghost digits = magnitude(text@);
    assert(digits == text@.skip(start as int));
    if start == text.len() {
        return None;
    }
    let mut total: u64 = 0;
    let mut i: usize = start;
    while i < text.len()
        invariant
            start <= i <= text@.len(),
            start < text@.len(),
            digits == text@.skip(start as int),
            digits == magnitude(text@),
            forall|j: int| 0 <= j < i - start ==> is_digit(#[trigger] digits[j]),
            total == value(digits.take(i - start)),
        decreases text.len() - i,
    {
        let c = text[i];
        let ghost k = i - start;
        assert(digits[k] == c);
        if !('0' <= c && c <= '9') {
            assert(!is_digit(digits[k]));
            return None;
        }
        proof {
            lemma_value_step(digits, k);
        }
        match with_digit(total, (c as u32 - 48) as u64) {
            Some(sum) => {
                total = sum;
            },
            None => {
                proof {
                    if all_digits(digits) {
                        lemma_value_prefix(digits, k + 1);
                    }
                }
                return None;
            },
        }
        i = i + 1;
    }
    assert(digits.take(i - start) == digits);
    Some(total)
}

pub proof fn lemma_decimal_digits(n: nat)
    ensures
        decimal(n).len() > 0,
        all_digits(decimal(n)),
        value(decimal(n)) == n,
    decreases n,
{
    if n < 10 {
        reveal_with_fuel(value, 2);
        assert(decimal(n).drop_last() == Seq::<char>::empty());
    } else {
        lemma_decimal_digits(n / 10);
        assert(decimal(n).drop_last() == decimal(n / 10));
        assert forall|i: int| 0 <= i < decimal(n).len() implies is_digit(#[trigger] decimal(n)[i]) by {
            if i < decimal(n / 10).len() {
                assert(decimal(n)[i] == decimal(n / 10)[i]);
            }
        }
    }
}

/// A number written in decimal reads back as itself.
pub proof fn numerals_round_trip(n: u64)
    ensures
        numeral_value(decimal(n as nat)) == Some(n),
{
    lemma_decimal_digits(n as nat);
    assert(is_digit(decimal(n as nat)[0]));
}

/// A digit behind a numeral makes it ten times as great and adds the digit, as long as 64
/// bits hold it; a plus sign before it makes no difference; and nothing else may stand in it.
pub proof fn numerals_grow_by_digits(text: Seq<char>, n: u64, d: nat)
    requires
        numeral_value(text) == Some(n),
        d < 10,
    ensures
        n * 10 + d <= u64::MAX ==> numeral_value(text.push((48 + d) as char)) == Some(
            (n * 10 + d) as u64,
        ),
        n * 10 + d > u64::MAX ==> numeral_value(text.push((48 + d) as char)) is None,
        text[0] != '+' ==> numeral_value(seq!['+'] + text) == Some(n),
        text.len() > 0,
        forall|i: int| 1 <= i < text.len() ==> '0' <= #[trigger] text[i] <= '9',
        '0' <= text[0] <= '9' || text[0] == '+' && text.len() > 1,
{
    let c = (48 + d) as char;
    let more = text.push(c);
    let digits = magnitude(text);
    assert(magnitude(more) =~= digits.push(c));
    assert(digits.push(c).drop_last() =~= digits);
    assert(all_digits(digits.push(c))) by {
        assert forall|i: int| 0 <= i < digits.push(c).len() implies is_digit(
            #[trigger] digits.push(c)[i],
        ) by {
            if i < digits.len() {
                assert(digits.push(c)[i] == digits[i]);
            }
        }
    }
    assert((seq!['+'] + text).drop_first() =~= text);
    assert forall|i: int| 1 <= i < text.len() implies '0' <= #[trigger] text[i] <= '9' by {
        if text[0] == '+' {
            assert(digits[i - 1] == text[i]);
            assert(is_digit(digits[i - 1]));
        } else {
            assert(is_digit(digits[i]));
        }
    }
    assert(is_digit(digits[0]));
}

/// A single digit stands for itself; nothing, and a text with another mark, stands for no
/// number.
pub proof fn numerals_begin_with_digits(d: nat, text: Seq<char>, i: int)
    requires
        d < 10,
    ensures
        numeral_value(seq![(48 + d) as char]) == Some(d as u64),
        numeral_value(Seq::empty()) is None,
        1 <= i < text.len() && !('0' <= text[i] <= '9') ==> numeral_value(text) is None,
        text.len() > 0 && text[0] != '+' && !('0' <= text[0] <= '9') ==> numeral_value(
            text,
        ) is None,
{
    reveal_with_fuel(value, 2);
    let one = seq![(48 + d) as char];
    assert(one.drop_last() =~= Seq::empty());
    assert(is_digit(one[0]));
    let digits = magnitude(text);
    if 1 <= i < text.len() && !('0' <= text[i] <= '9') {
        if text[0] == '+' {
            assert(digits[i - 1] == text[i]);
            assert(!is_digit(digits[i - 1]));
        } else {
            assert(!is_digit(digits[i]));
        }
    }
    if text.len() > 0 && text[0] != '+' && !('0' <= text[0] <= '9') {
        assert(!is_digit(digits[0]));
    }
}

} // verus!
