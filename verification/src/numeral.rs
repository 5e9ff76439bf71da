//! Integer literals: the number that a run of decimal digits denotes.
use crate::lexer::is_digit;
use crate::scan::is_digit_char;
use vstd::prelude::*;

verus! {

/// The value of a decimal digit.
pub open spec fn digit_value(c: char) -> nat {
    (c as nat - '0' as nat) as nat
}

/// The number that a sequence of decimal digits denotes.
pub open spec fn decimal_value(digits: Seq<char>) -> nat
    decreases digits.len(),
{
    if digits.len() == 0 {
        0
    } else {
        decimal_value(digits.drop_last()) * 10 + digit_value(digits.last())
    }
}

/// A numeral is one decimal digit or more, and nothing else.
pub open spec fn is_numeral(text: Seq<char>) -> bool {
    text.len() > 0 && forall|i: int| 0 <= i < text.len() ==> is_digit_char(#[trigger] text[i])
}

/// The value of an integer literal: that of its digits, if it is a numeral
/// and the value fits the machine's unsigned integer.
pub open spec fn integer_value(text: Seq<char>) -> Option<nat> {
    if is_numeral(text) && decimal_value(text) <= usize::MAX {
        Some(decimal_value(text))
    } else {
        None
    }
}

/// More digits never make a smaller number: the value of the first `k`
/// digits is at most the value of all.
pub proof fn lemma_decimal_value_grows(digits: Seq<char>, k: int)
    requires
        0 <= k <= digits.len(),
    ensures
        decimal_value(digits.subrange(0, k)) <= decimal_value(digits),
    decreases digits.len(),
{
    if k == digits.len() {
        assert(digits.subrange(0, k) =~= digits);
    } else {
        let shorter = digits.drop_last();
        lemma_decimal_value_grows(shorter, k);
        assert(shorter.subrange(0, k) =~= digits.subrange(0, k));
    }
}

/// Reads `text` as an unsigned decimal integer. There is a value exactly
/// if `text` is a numeral whose value fits `usize`.
pub fn parse_integer(text: &str) -> (value: Option<usize>)
    ensures
        match value {
            Some(v) => integer_value(text@) == Some(v as nat),
            None => integer_value(text@) is None,
        },
{
    let mut value: usize = 0;
    let mut empty: bool = true;
    for c in it: text.chars()
        invariant
            it.seq() == text@,
            empty == (it.index() == 0),
            forall|j: int| 0 <= j < it.index() ==> is_digit_char(#[trigger] text@[j]),
            value == decimal_value(text@.subrange(0, it.index())),
    {
        if !is_digit(c) {
            return None;
        }
        let digit: usize = (c as u32 - '0' as u32) as usize;
        proof {
            let longer = text@.subrange(0, it.index() + 1);
            assert(longer.drop_last() =~= text@.subrange(0, it.index()));
            lemma_decimal_value_grows(text@, it.index() + 1);
        }
        let scaled: usize = match value.checked_mul(10) {
            Some(scaled) => scaled,
            None => {
                return None;
            },
        };
        value = match scaled.checked_add(digit) {
            Some(sum) => sum,
            None => {
                return None;
            },
        };
        empty = false;
    }
    if empty {
        return None;
    }
    assert(text@.subrange(0, text@.len() as int) =~= text@);
    Some(value)
}

} // verus!
