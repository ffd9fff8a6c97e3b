//! Numbers as text: upper-case hexadecimal and decimal digits.

use vstd::prelude::*;

verus! {

/// The sixteen hexadecimal digits, upper case.
pub open spec fn hex_digits() -> Seq<char> {
    seq!['0', '1', '2', '3', '4', '5', '6', '7', '8', '9', 'A', 'B', 'C', 'D', 'E', 'F']
}

/// The digit for a value below sixteen.
pub open spec fn hex_digit(d: int) -> char {
    hex_digits()[d]
}

/// The last `width` hexadecimal digits of a value, most significant
/// first, with zeros in front where the value is short.
pub open spec fn hex_fixed(value: int, width: nat) -> Seq<char>
    decreases width,
{
    if width == 0 {
        Seq::empty()
    } else {
        hex_fixed(value / 16, (width - 1) as nat).push(hex_digit(value % 16))
    }
}

/// The hexadecimal digits of a value, most significant first, without
/// zeros in front; zero is the single digit `0`.
pub open spec fn hex_short(value: int) -> Seq<char>
    decreases value,
{
    if value < 16 {
        seq![hex_digit(value)]
    } else {
        hex_short(value / 16).push(hex_digit(value % 16))
    }
}

/// The decimal digits of a value, most significant first, without zeros
/// in front; zero is the single digit `0`.
pub open spec fn decimal(value: int) -> Seq<char>
    decreases value,
{
    if value < 10 {
        seq![hex_digit(value)]
    } else {
        decimal(value / 10).push(hex_digit(value % 10))
    }
}

/// `count` copies of a character; none when the count is not positive.
pub open spec fn repeated(c: char, count: int) -> Seq<char> {
    if count <= 0 {
        Seq::empty()
    } else {
        Seq::new(count as nat, |i: int| c)
    }
}

/// The text moved to the right edge of a field of the given width by
/// spaces in front. Text that is wider than the field is left as it is.
pub open spec fn right_aligned(text: Seq<char>, width: int) -> Seq<char> {
    repeated(' ', width - text.len()) + text
}

/// Std's `String::push`: the string afterwards is the string before with
/// the character at its end.
pub assume_specification[ String::push ](s: &mut String, c: char)
    ensures
        final(s)@ == old(s)@.push(c),
;

/// The digit for a value below sixteen.
pub fn hex_digit_of(d: u8) -> (c: char)
    requires
        d < 16,
    ensures
        c == hex_digit(d as int),
{
    match d {
        0 => '0',
        1 => '1',
        2 => '2',
        3 => '3',
        4 => '4',
        5 => '5',
        6 => '6',
        7 => '7',
        8 => '8',
        9 => '9',
        10 => 'A',
        11 => 'B',
        12 => 'C',
        13 => 'D',
        14 => 'E',
        _ => 'F',
    }
}

/// Appends the last `width` hexadecimal digits of a value, zeros in front
/// included.
pub fn push_hex_fixed(out: &mut String, value: u32, width: u8)
    ensures
        final(out)@ == old(out)@ + hex_fixed(value as int, width as nat),
    decreases width,
{
    if width > 0 {
        push_hex_fixed(out, value / 16, width - 1);
        out.push(hex_digit_of((value % 16) as u8));
    }
}

/// Appends the hexadecimal digits of a value without zeros in front.
pub fn push_hex_short(out: &mut String, value: u32)
    ensures
        final(out)@ == old(out)@ + hex_short(value as int),
    decreases value,
{
    if value >= 16 {
        push_hex_short(out, value / 16);
    }
    out.push(hex_digit_of((value % 16) as u8));
}

/// Appends the decimal digits of a value without zeros in front.
pub fn push_decimal(out: &mut String, value: u128)
    ensures
        final(out)@ == old(out)@ + decimal(value as int),
    decreases value,
{
    if value >= 10 {
        push_decimal(out, value / 10);
    }
    out.push(hex_digit_of((value % 10) as u8));
}

/// The number of decimal digits of a value.
pub fn decimal_len(value: u128) -> (n: usize)
    ensures
        n == decimal(value as int).len(),
        1 <= n <= 39,
    decreases value,
{
    if value >= 10 {
        proof {
            lemma_decimal_len_bound(value as int);
        }
        decimal_len(value / 10) + 1
    } else {
        1
    }
}

/// A value below `10^k` has at most `k` decimal digits; every value that
/// fits 128 bits has at most 39.
pub proof fn lemma_decimal_len_bound(value: int)
    requires
        0 <= value <= u128::MAX,
    ensures
        1 <= decimal(value).len() <= 39,
{
    assert(pow10(39) == 1_000_000_000_000_000_000_000_000_000_000_000_000_000) by {
        reveal_with_fuel(pow10, 40);
    }
    lemma_decimal_len_below(value, 39);
}

/// Ten to the power `e`.
pub open spec fn pow10(e: nat) -> int
    decreases e,
{
    if e == 0 {
        1
    } else {
        10 * pow10((e - 1) as nat)
    }
}

/// A value below `10^k`, `k >= 1`, has at most `k` decimal digits.
pub proof fn lemma_decimal_len_below(value: int, k: nat)
    requires
        0 <= value < pow10(k),
        k >= 1,
    ensures
        1 <= decimal(value).len() <= k,
    decreases k,
{
    if value >= 10 {
        assert(pow10(1) == 10) by {
            reveal_with_fuel(pow10, 2);
        }
        lemma_decimal_len_below(value / 10, (k - 1) as nat);
    }
}

/// Appends `count` copies of a character.
pub fn push_repeated(out: &mut String, c: char, count: usize)
    ensures
        final(out)@ == old(out)@ + repeated(c, count as int),
{
    let mut k: usize = 0;
    while k < count
        invariant
            k <= count,
            out@ == old(out)@ + repeated(c, k as int),
        decreases count - k,
    {
        out.push(c);
        k += 1;
    }
}

/// Appends the decimal digits of a value at the right edge of a field of
/// the given width.
pub fn push_decimal_right(out: &mut String, value: u128, width: usize)
    ensures
        final(out)@ == old(out)@ + right_aligned(decimal(value as int), width as int),
{
    let len = decimal_len(value);
    let pad = if width > len {
        width - len
    } else {
        0
    };
    push_repeated(out, ' ', pad);
    push_decimal(out, value);
}

} // verus!
