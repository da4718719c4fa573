//! Decimal notation, the building block of every number this crate prints,
//! and the comparison of strings.

use vstd::prelude::*;
use vstd::arithmetic::div_mod::{lemma_div_denominator, lemma_fundamental_div_mod};

verus! {

/// The character that writes the digit `d`, for `d` in `0..=9`.
pub open spec fn digit_char(d: int) -> char {
    if d == 0 {
        '0'
    } else if d == 1 {
        '1'
    } else if d == 2 {
        '2'
    } else if d == 3 {
        '3'
    } else if d == 4 {
        '4'
    } else if d == 5 {
        '5'
    } else if d == 6 {
        '6'
    } else if d == 7 {
        '7'
    } else if d == 8 {
        '8'
    } else {
        '9'
    }
}

/// Whether `c` is one of the ten digits.
pub open spec fn is_digit(c: char) -> bool {
    c == '0' || c == '1' || c == '2' || c == '3' || c == '4' || c == '5' || c == '6' || c == '7'
        || c == '8' || c == '9'
}

/// Decimal notation of `n`, most significant digit first, without leading
/// zeros; zero is written `0`.
pub open spec fn decimal(n: nat) -> Seq<char>
    decreases n,
{
    if n < 10 {
        seq![digit_char(n as int)]
    } else {
        decimal(n / 10).push(digit_char((n % 10) as int))
    }
}

/// `hundredths / 100` written with exactly two digits after the point.
pub open spec fn two_decimals(hundredths: nat) -> Seq<char> {
    decimal(hundredths / 100).push('.').push(digit_char((hundredths / 10 % 10) as int)).push(
        digit_char((hundredths % 10) as int),
    )
}

/// `tenths / 10` written with exactly one digit after the point.
pub open spec fn one_decimal(tenths: nat) -> Seq<char> {
    decimal(tenths / 10).push('.').push(digit_char((tenths % 10) as int))
}

/// Whether two strings hold the same characters.
pub fn same_text(left: &str, right: &str) -> (same: bool)
    ensures
        same == (left@ == right@),
{
    String::from_str(left) == String::from_str(right)
}

/// Appends one decimal digit to `out`.
fn push_digit(out: &mut String, d: u8)
    requires
        d < 10,
    ensures
        final(out)@ == old(out)@.push(digit_char(d as int)),
{
    proof {
        reveal_strlit("0");
        reveal_strlit("1");
        reveal_strlit("2");
        reveal_strlit("3");
        reveal_strlit("4");
        reveal_strlit("5");
        reveal_strlit("6");
        reveal_strlit("7");
        reveal_strlit("8");
        reveal_strlit("9");
    }
    let glyph: &str = if d == 0 {
        "0"
    } else if d == 1 {
        "1"
    } else if d == 2 {
        "2"
    } else if d == 3 {
        "3"
    } else if d == 4 {
        "4"
    } else if d == 5 {
        "5"
    } else if d == 6 {
        "6"
    } else if d == 7 {
        "7"
    } else if d == 8 {
        "8"
    } else {
        "9"
    };
    out.append(glyph);
}

/// Appends the decimal notation of `n` to `out`.
pub fn push_decimal(out: &mut String, n: u128)
    ensures
        final(out)@ == old(out)@ + decimal(n as nat),
    decreases n,
{
    if n >= 10 {
        push_decimal(out, n / 10);
    }
    let d: u8 = (n % 10) as u8;
    push_digit(out, d);
}

/// Appends `hundredths / 100` with two digits after the point.
pub fn push_two_decimals(out: &mut String, hundredths: u128)
    ensures
        final(out)@ == old(out)@ + two_decimals(hundredths as nat),
{
    push_decimal(out, hundredths / 100);
    proof {
        reveal_strlit(".");
    }
    out.append(".");
    push_digit(out, (hundredths / 10 % 10) as u8);
    push_digit(out, (hundredths % 10) as u8);
}

/// Appends `tenths / 10` with one digit after the point.
pub fn push_one_decimal(out: &mut String, tenths: u128)
    ensures
        final(out)@ == old(out)@ + one_decimal(tenths as nat),
{
    push_decimal(out, tenths / 10);
    proof {
        reveal_strlit(".");
    }
    out.append(".");
    push_digit(out, (tenths % 10) as u8);
}

/// Decimal notation is made of digits, at least one.
pub proof fn lemma_decimal_is_digits(n: nat)
    ensures
        decimal(n).len() >= 1,
        forall|i: int| 0 <= i < decimal(n).len() ==> is_digit(#[trigger] decimal(n)[i]),
    decreases n,
{
    if n >= 10 {
        lemma_decimal_is_digits(n / 10);
    }
}

/// Different digits are written differently.
pub proof fn lemma_digit_char_tells_digit(first: int, second: int)
    requires
        0 <= first < 10,
        0 <= second < 10,
        digit_char(first) == digit_char(second),
    ensures
        first == second,
{
}

/// Different numbers are written differently.
pub proof fn lemma_decimal_tells_number(first: nat, second: nat)
    requires
        decimal(first) == decimal(second),
    ensures
        first == second,
    decreases first,
{
    lemma_decimal_is_digits(first / 10);
    lemma_decimal_is_digits(second / 10);
    if first < 10 && second < 10 {
        assert(decimal(first)[0] == digit_char(first as int));
        assert(decimal(second)[0] == digit_char(second as int));
        lemma_digit_char_tells_digit(first as int, second as int);
    } else if first < 10 {
        assert(decimal(first).len() == 1);
        assert(decimal(second).len() == decimal(second / 10).len() + 1);
    } else if second < 10 {
        assert(decimal(second).len() == 1);
        assert(decimal(first).len() == decimal(first / 10).len() + 1);
    } else {
        let head = decimal(first / 10);
        let other = decimal(second / 10);
        assert(decimal(first).drop_last() =~= head);
        assert(decimal(second).drop_last() =~= other);
        assert(decimal(first).last() == digit_char((first % 10) as int));
        assert(decimal(second).last() == digit_char((second % 10) as int));
        lemma_digit_char_tells_digit((first % 10) as int, (second % 10) as int);
        lemma_decimal_tells_number(first / 10, second / 10);
    }
}

/// A number is its hundreds, its tens and its units.
proof fn lemma_last_two_digits(n: nat)
    ensures
        n == 100 * (n / 100) + 10 * (n / 10 % 10) + n % 10,
{
    lemma_div_denominator(n as int, 10, 10);
    lemma_fundamental_div_mod(n as int, 10);
    lemma_fundamental_div_mod((n / 10) as int, 10);
}

/// Different numbers of hundredths are written differently.
pub proof fn lemma_two_decimals_tell_number(first: nat, second: nat)
    requires
        two_decimals(first) == two_decimals(second),
    ensures
        first == second,
{
    let text = two_decimals(first);
    let whole = decimal(first / 100);
    let other = decimal(second / 100);
    assert(text.len() == whole.len() + 3);
    assert(text.len() == other.len() + 3);
    assert(whole =~= text.subrange(0, text.len() - 3));
    assert(other =~= text.subrange(0, text.len() - 3));
    lemma_decimal_tells_number(first / 100, second / 100);
    assert(text[text.len() - 2] == digit_char((first / 10 % 10) as int));
    assert(text[text.len() - 2] == digit_char((second / 10 % 10) as int));
    lemma_digit_char_tells_digit((first / 10 % 10) as int, (second / 10 % 10) as int);
    assert(text[text.len() - 1] == digit_char((first % 10) as int));
    assert(text[text.len() - 1] == digit_char((second % 10) as int));
    lemma_digit_char_tells_digit((first % 10) as int, (second % 10) as int);
    lemma_last_two_digits(first);
    lemma_last_two_digits(second);
}

/// A number with two decimals ends in a digit, after at least three other
/// characters.
pub proof fn lemma_two_decimals_shape(hundredths: nat)
    ensures
        two_decimals(hundredths).len() >= 4,
        is_digit(two_decimals(hundredths).last()),
{
    lemma_decimal_is_digits(hundredths / 100);
}

/// A text that is put together holds what one of its two parts holds.
pub proof fn lemma_contains_in_parts(left: Seq<char>, right: Seq<char>, c: char)
    ensures
        (left + right).contains(c) <==> left.contains(c) || right.contains(c),
{
    let whole = left + right;
    if left.contains(c) {
        let i = choose|i: int| 0 <= i < left.len() && left[i] == c;
        assert(whole[i] == c);
    }
    if right.contains(c) {
        let i = choose|i: int| 0 <= i < right.len() && right[i] == c;
        assert(whole[left.len() + i] == c);
    }
    if whole.contains(c) {
        let i = choose|i: int| 0 <= i < whole.len() && whole[i] == c;
        if i < left.len() {
            assert(left[i] == c);
        } else {
            assert(right[i - left.len()] == c);
        }
    }
}

} // verus!
