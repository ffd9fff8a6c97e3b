//! Reading a signed decimal number from text.

use vstd::prelude::*;

verus! {

/// A decimal digit.
pub open spec fn is_digit(c: char) -> bool {
    '0' <= c <= '9'
}

/// Every character is a decimal digit.
pub open spec fn all_digits(s: Seq<char>) -> bool {
    forall|i: int| 0 <= i < s.len() ==> is_digit(#[trigger] s[i])
}

/// The number that a sequence of decimal digits stands for.
pub open spec fn digits_value(s: Seq<char>) -> int
    decreases s.len(),
{
    if s.len() == 0 {
        0
    } else {
        10 * digits_value(s.drop_last()) + (s.last() as int - '0' as int)
    }
}

/// The number that a text stands for: one or more decimal digits, with
/// one `+` or `-` in front if at all. Anything else is no number.
pub open spec fn number_value(s: Seq<char>) -> Option<int> {
    if s.len() > 0 && s[0] == '-' {
        if s.len() > 1 && all_digits(s.skip(1)) {
            Some(-digits_value(s.skip(1)))
        } else {
            None
        }
    } else if s.len() > 0 && s[0] == '+' {
        if s.len() > 1 && all_digits(s.skip(1)) {
            Some(digits_value(s.skip(1)))
        } else {
            None
        }
    } else if s.len() > 0 && all_digits(s) {
        Some(digits_value(s))
    } else {
        None
    }
}

/// The number that a text stands for, if it is one that fits a machine
/// word.
pub open spec fn word_value(s: Seq<char>) -> Option<isize> {
    match number_value(s) {
        Some(v) => if isize::MIN <= v <= isize::MAX {
            Some(v as isize)
        } else {
            None
        },
        None => None,
    }
}

/// More digits never make a number smaller.
pub proof fn lemma_digits_value_grows(s: Seq<char>, k: int)
    requires
        0 <= k <= s.len(),
        all_digits(s),
    ensures
        0 <= digits_value(s.take(k)) <= digits_value(s),
    decreases s.len() - k,
{
    if k == s.len() {
        assert(s.take(k) =~= s);
        lemma_digits_value_non_negative(s);
    } else {
        lemma_digits_value_grows(s, k + 1);
        assert(s.take(k + 1).drop_last() =~= s.take(k));
        assert(is_digit(s[k]));
        assert(s.take(k + 1).last() == s[k]);
        lemma_digits_value_non_negative(s.take(k));
    }
}

/// Digits stand for a number that is not negative.
pub proof fn lemma_digits_value_non_negative(s: Seq<char>)
    requires
        all_digits(s),
    ensures
        0 <= digits_value(s),
    decreases s.len(),
{
    if s.len() > 0 {
        assert(is_digit(s.last()));
        assert forall|i: int| 0 <= i < s.drop_last().len() implies is_digit(
            #[trigger] s.drop_last()[i],
        ) by {
            assert(s.drop_last()[i] == s[i]);
        }
        lemma_digits_value_non_negative(s.drop_last());
    }
}

/// The value of a decimal digit, or `None` for any other character.
pub fn digit_of(c: char) -> (d: Option<u8>)
    ensures
        is_digit(c) ==> d == Some((c as int - '0' as int) as u8),
        !is_digit(c) ==> d is None,
{
    match c {
        '0' => Some(0),
        '1' => Some(1),
        '2' => Some(2),
        '3' => Some(3),
        '4' => Some(4),
        '5' => Some(5),
        '6' => Some(6),
        '7' => Some(7),
        '8' => Some(8),
        '9' => Some(9),
        _ => None,
    }
}

/// The largest magnitude that is followed any further; every machine word
/// lies well within it.
const MAGNITUDE_CAP: u128 = 0x1_0000_0000_0000_0000;

/// Reads a signed decimal number that fits a machine word.
pub fn parse_word(text: &str) -> (r: Option<isize>)
    ensures
        r == word_value(text@),
{
    let len = text.unicode_len();
    if len == 0 {
        return None;
    }
    let first = text.get_char(0);
    let negative = first == '-';
    let start: usize = if first == '-' || first == '+' {
        1
    } else {
        0
    };
    if start == len {
        return None;
    }
    let ghost digits = text@.skip(start as int);
    let mut magnitude: u128 = 0;
    let mut k: usize = start;
    assert(digits.take(0) =~= Seq::<char>::empty());
    assert(start == 0 ==> digits =~= text@);
    while k < len
        invariant
            start <= k <= len,
            start < len,
            len == text@.len(),
            negative == (text@[0] == '-'),
            start == (if text@[0] == '-' || text@[0] == '+' {
                1int
            } else {
                0int
            }),
            digits == text@.skip(start as int),
            start == 0 ==> digits == text@,
            all_digits(digits.take(k - start)),
            magnitude == digits_value(digits.take(k - start)),
            magnitude <= MAGNITUDE_CAP,
        decreases len - k,
    {
        let c = text.get_char(k);
        let ghost seen = digits.take(k - start);
        let ghost more = digits.take(k - start + 1);
        proof {
            assert(more.drop_last() =~= seen);
            assert(more.last() == c);
        }
        match digit_of(c) {
            Some(d) => {
                proof {
                    assert forall|i: int| 0 <= i < more.len() implies is_digit(
                        #[trigger] more[i],
                    ) by {
                        if i < seen.len() {
                            assert(seen[i] == more[i]);
                        }
                    }
                }
                magnitude = magnitude * 10 + d as u128;
                if magnitude > MAGNITUDE_CAP {
                    proof {
                        if all_digits(digits) {
                            lemma_digits_value_grows(digits, k - start + 1);
                        }
                    }
                    return None;
                }
            },
            None => {
                assert(!is_digit(digits[k - start]));
                return None;
            },
        }
        k += 1;
    }
    assert(digits.take(len - start) =~= digits);
    if negative {
        if magnitude <= isize::MAX as u128 + 1 {
            if magnitude == isize::MAX as u128 + 1 {
                Some(isize::MIN)
            } else {
                Some(-(magnitude as isize))
            }
        } else {
            None
        }
    } else if magnitude <= isize::MAX as u128 {
        Some(magnitude as isize)
    } else {
        None
    }
}

} // verus!
