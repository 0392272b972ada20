//! Network codes: the country code and the network code of a carrier,
//! written as one number of five digits.

use vstd::prelude::*;
use crate::text::{chars_of, digit, is_digit};

verus! {

/// The number that the digit `c` stands for.
pub open spec fn digit_value(c: char) -> nat {
    (c as u32 - '0' as u32) as nat
}

/// The number that `digits` write in base ten.
pub open spec fn decimal_number(digits: Seq<char>) -> nat
    decreases digits.len(),
{
    if digits.len() == 0 {
        0
    } else {
        decimal_number(digits.drop_last()) * 10 + digit_value(digits.last())
    }
}

/// `t` without the plus sign that it may start with.
pub open spec fn unsigned_digits(t: Seq<char>) -> Seq<char> {
    if t.len() > 0 && t[0] == '+' {
        t.skip(1)
    } else {
        t
    }
}

/// `t` writes an unsigned number: digits, one at least, with or without a
/// plus sign before them.
pub open spec fn is_unsigned(t: Seq<char>) -> bool {
    let digits = unsigned_digits(t);
    digits.len() > 0 && forall|i: int| 0 <= i < digits.len() ==> is_digit(digits[i])
}

/// The network code that `text` holds: the number that its first five
/// characters write, and `0`, which is no code, where `text` is shorter or
/// those characters write no unsigned number.
pub open spec fn network_code(text: Seq<char>) -> nat {
    if text.len() >= 5 && is_unsigned(text.take(5)) {
        decimal_number(unsigned_digits(text.take(5)))
    } else {
        0
    }
}

/// A number of `digits.len()` digits is below that power of ten.
pub proof fn lemma_decimal_number_bound(digits: Seq<char>)
    requires
        forall|i: int| 0 <= i < digits.len() ==> is_digit(digits[i]),
        digits.len() <= 5,
    ensures
        decimal_number(digits) < 100_000,
        digits.len() <= 4 ==> decimal_number(digits) < 10_000,
        digits.len() <= 3 ==> decimal_number(digits) < 1_000,
        digits.len() <= 2 ==> decimal_number(digits) < 100,
        digits.len() <= 1 ==> decimal_number(digits) < 10,
        digits.len() == 0 ==> decimal_number(digits) == 0,
    decreases digits.len(),
{
    if digits.len() > 0 {
        lemma_decimal_number_bound(digits.drop_last());
        assert(is_digit(digits.last()));
    }
}

/// Reads the network code out of the text of a cell.
pub fn read_code(text: &str) -> (code: u32)
    ensures
        code == network_code(text@),
{
    let chars = chars_of(text);
    if chars.len() < 5 {
        return 0;
    }
    let first: usize = if chars[0] == '+' {
        1
    } else {
        0
    };
    let ghost five = text@.take(5);
    let ghost digits = unsigned_digits(five);
    assert(digits =~= text@.subrange(first as int, 5));
    let mut code: u32 = 0;
    let mut i: usize = first;
    while i < 5
        invariant
            first <= i <= 5,
            first <= 1,
            chars@ == text@,
            chars.len() >= 5,
            digits == text@.subrange(first as int, 5),
            digits == unsigned_digits(text@.take(5)),
            forall|k: int| 0 <= k < i - first ==> is_digit(digits[k]),
            code == decimal_number(digits.take(i - first)),
            code < 100_000,
        decreases 5 - i,
    {
        let c = chars[i];
        if !digit(c) {
            assert(!is_digit(digits[i - first]));
            return 0;
        }
        proof {
            let next = digits.take(i - first + 1);
            assert(next.drop_last() == digits.take(i - first));
            assert(next.last() == c);
            lemma_decimal_number_bound(next);
        }
        code = code * 10 + (c as u32 - '0' as u32);
        i += 1;
    }
    assert(digits.take(5 - first) == digits);
    code
}

} // verus!
