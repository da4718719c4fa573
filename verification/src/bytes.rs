//! Byte counts as short strings: a number with two decimals, a unit prefix
//! from the ladder `k M G T P E Z Y`, and an optional `B`.
//!
//! Counts are whole numbers of bytes and all arithmetic is exact, so what is
//! printed is the count in its unit, rounded once.

use vstd::prelude::*;
use vstd::arithmetic::div_mod::{lemma_div_denominator, lemma_div_non_zero, lemma_fundamental_div_mod};
use vstd::arithmetic::power::{lemma_pow0, lemma_pow_increases, lemma_pow_positive, pow};
use vstd::math::abs;
use crate::rounding::{divide_rounded, lemma_round_half_even_error, lemma_round_half_even_split, round_half_even};
use crate::text::{
    decimal, is_digit, lemma_two_decimals_shape, lemma_two_decimals_tell_number, one_decimal,
    push_decimal, push_one_decimal, push_two_decimals, two_decimals,
};

verus! {

/// Index of the last prefix of the ladder, `Y`.
pub const LADDER_LAST: u32 = 8;

/// The factor between one unit and the next: 1024 for binary units, 1000
/// otherwise.
pub open spec fn divisor(binary_units: bool) -> nat {
    if binary_units {
        1024
    } else {
        1000
    }
}

/// How often `value` can be divided by `base` before it drops below `base`,
/// counted up to `cap` and no further.
pub open spec fn capped_log(value: nat, base: nat, cap: nat) -> nat
    decreases cap,
{
    if cap == 0 || base < 2 || value < base {
        0
    } else {
        1 + capped_log(value / base, base, (cap - 1) as nat)
    }
}

/// The ladder index of the unit in which `value` is shown: the whole part of
/// its logarithm to `base`, held at the last index for larger values.
pub open spec fn unit_exponent(value: nat, base: nat) -> nat {
    capped_log(value, base, LADDER_LAST as nat)
}

/// The size of the unit at ladder index `exponent`: `base` to that power.
pub open spec fn unit_scale(base: nat, exponent: nat) -> nat {
    pow(base as int, exponent) as nat
}

/// `value` in hundredths of its unit, rounded to the nearest hundredth.
pub open spec fn scaled_hundredths(value: nat, base: nat) -> nat {
    round_half_even(100 * value, unit_scale(base, unit_exponent(value, base)))
}

/// The prefix at ladder index `exponent`; index 0 has none.
pub open spec fn unit_prefix(exponent: nat) -> Seq<char> {
    if exponent == 0 {
        Seq::empty()
    } else if exponent == 1 {
        seq!['k']
    } else if exponent == 2 {
        seq!['M']
    } else if exponent == 3 {
        seq!['G']
    } else if exponent == 4 {
        seq!['T']
    } else if exponent == 5 {
        seq!['P']
    } else if exponent == 6 {
        seq!['E']
    } else if exponent == 7 {
        seq!['Z']
    } else {
        seq!['Y']
    }
}

/// `B` where the byte suffix is asked for, nothing otherwise.
pub open spec fn byte_suffix(display_byte_suffix: bool) -> Seq<char> {
    if display_byte_suffix {
        seq!['B']
    } else {
        Seq::empty()
    }
}

/// `-` before a negative number, nothing otherwise.
pub open spec fn sign_mark(num: int) -> Seq<char> {
    if num < 0 {
        seq!['-']
    } else {
        Seq::empty()
    }
}

/// What `humanize_bytes` writes for `num` bytes.
///
/// A magnitude below one is written as it is, with no unit. Any other is
/// scaled to its unit and written with two decimals and the unit's prefix.
pub open spec fn humanized(num: int, binary_units: bool, display_byte_suffix: bool) -> Seq<char> {
    let value = abs(num);
    let base = divisor(binary_units);
    let body = if value < 1 {
        decimal(value)
    } else {
        two_decimals(scaled_hundredths(value, base)) + unit_prefix(unit_exponent(value, base))
    };
    sign_mark(num) + body + byte_suffix(display_byte_suffix)
}

/// What `percentage` writes: `used / total` in percent, rounded to the
/// nearest tenth, and `0.0%` where `total` is zero.
pub open spec fn percent_text(used: nat, total: nat) -> Seq<char> {
    if total == 0 {
        one_decimal(0).push('%')
    } else {
        one_decimal(round_half_even(1000 * used, total)).push('%')
    }
}

/// The ladder index and the scale of the unit in which `magnitude` is shown.
pub fn unit_for(magnitude: u128, binary_units: bool) -> (unit: (u32, u128))
    ensures
        unit.0 == unit_exponent(magnitude as nat, divisor(binary_units)),
        unit.1 == unit_scale(divisor(binary_units), unit.0 as nat),
        unit.0 <= LADDER_LAST,
        1 <= unit.1 <= 0x1_0000_0000_0000_0000_0000,
{
    let base: u128 = if binary_units {
        1024
    } else {
        1000
    };
    let mut exponent: u32 = 0;
    let mut scale: u128 = 1;
    let mut rest: u128 = magnitude;
    proof {
        lemma_pow0(base as int);
    }
    while exponent < LADDER_LAST && rest >= base
        invariant
            base == divisor(binary_units),
            exponent <= LADDER_LAST,
            scale == unit_scale(base as nat, exponent as nat),
            scale >= 1,
            rest == magnitude / scale,
            unit_exponent(magnitude as nat, base as nat) == exponent + capped_log(
                rest as nat,
                base as nat,
                (LADDER_LAST - exponent) as nat,
            ),
        decreases LADDER_LAST - exponent,
    {
        proof {
            lemma_fundamental_div_mod(magnitude as int, scale as int);
            assert(scale * base <= magnitude) by (nonlinear_arith)
                requires
                    magnitude == scale * rest + magnitude % scale,
                    magnitude % scale >= 0,
                    rest >= base,
                    scale >= 1,
                    base >= 0,
            ;
            lemma_div_denominator(magnitude as int, scale as int, base as int);
            reveal(pow);
            lemma_pow_positive(base as int, exponent as nat);
            lemma_pow_positive(base as int, (exponent + 1) as nat);
        }
        rest = rest / base;
        scale = scale * base;
        exponent = exponent + 1;
    }
    proof {
        lemma_last_scale();
        lemma_pow_increases(base as nat, exponent as nat, LADDER_LAST as nat);
        lemma_pow_positive(base as int, exponent as nat);
        lemma_pow_positive(base as int, LADDER_LAST as nat);
    }
    (exponent, scale)
}

/// Appends the prefix at ladder index `exponent`.
fn push_unit_prefix(out: &mut String, exponent: u32)
    requires
        exponent <= LADDER_LAST,
    ensures
        final(out)@ == old(out)@ + unit_prefix(exponent as nat),
{
    proof {
        reveal_strlit("");
        reveal_strlit("k");
        reveal_strlit("M");
        reveal_strlit("G");
        reveal_strlit("T");
        reveal_strlit("P");
        reveal_strlit("E");
        reveal_strlit("Z");
        reveal_strlit("Y");
    }
    let prefix: &str = if exponent == 0 {
        ""
    } else if exponent == 1 {
        "k"
    } else if exponent == 2 {
        "M"
    } else if exponent == 3 {
        "G"
    } else if exponent == 4 {
        "T"
    } else if exponent == 5 {
        "P"
    } else if exponent == 6 {
        "E"
    } else if exponent == 7 {
        "Z"
    } else {
        "Y"
    };
    out.append(prefix);
}

/// `magnitude` in hundredths of the unit `(exponent, scale)`, rounded to the
/// nearest hundredth.
fn hundredths_in_unit(magnitude: u128, binary_units: bool, exponent: u32, scale: u128) -> (hundredths:
    u128)
    requires
        magnitude >= 1,
        exponent == unit_exponent(magnitude as nat, divisor(binary_units)),
        scale == unit_scale(divisor(binary_units), exponent as nat),
    ensures
        hundredths == scaled_hundredths(magnitude as nat, divisor(binary_units)),
{
    proof {
        lemma_unit_brackets(magnitude as nat, binary_units);
        lemma_last_scale();
        lemma_pow_increases(divisor(binary_units), exponent as nat, LADDER_LAST as nat);
        lemma_pow_positive(divisor(binary_units) as int, exponent as nat);
        lemma_pow_positive(divisor(binary_units) as int, LADDER_LAST as nat);
    }
    let whole: u128 = magnitude / scale;
    let part: u128 = magnitude % scale;
    proof {
        lemma_fundamental_div_mod(magnitude as int, scale as int);
        if exponent < LADDER_LAST {
            let base = divisor(binary_units);
            reveal(pow);
            lemma_pow_positive(base as int, (exponent + 1) as nat);
            assert(whole < base) by (nonlinear_arith)
                requires
                    magnitude == scale * whole + part,
                    part >= 0,
                    magnitude < base * scale,
                    scale >= 1,
            ;
        } else {
            assert(whole < 0x1_0000_0000_0000_0000) by (nonlinear_arith)
                requires
                    magnitude == scale * whole + part,
                    part >= 0,
                    magnitude <= u128::MAX,
                    scale >= 1_000_000_000_000_000_000_000_000,
            ;
        }
    }
    let rounded: u128 = divide_rounded(100 * part, scale);
    proof {
        lemma_round_half_even_error((100 * part) as nat, scale as nat);
        assert(rounded <= 100) by (nonlinear_arith)
            requires
                2 * (rounded * scale - 100 * part) <= scale,
                part < scale,
                scale >= 1,
        ;
        lemma_round_half_even_split((100 * whole) as nat, (100 * part) as nat, scale as nat);
        assert((100 * whole) * scale + 100 * part == 100 * magnitude) by (nonlinear_arith)
            requires
                magnitude == scale * whole + part,
        ;
    }
    100 * whole + rounded
}

/// Writes `num` bytes as a short string, such as `1.50k` or `-2.00MB`.
///
/// With `binary_units` a unit is 1024 of the one below, otherwise 1000.
/// With `display_byte_suffix` a `B` ends the string. A negative count keeps
/// its sign, and its magnitude decides the rest. Zero is written `0`. Any
/// other count is written in the largest unit of the ladder that does not
/// exceed it, rounded to the nearest hundredth of that unit, a tie going to
/// the even hundredth.
pub fn humanize_bytes(num: i128, binary_units: bool, display_byte_suffix: bool) -> (text: String)
    ensures
        text@ == humanized(num as int, binary_units, display_byte_suffix),
{
    let mut out = String::new();
    proof {
        reveal_strlit("-");
        reveal_strlit("B");
    }
    if num < 0 {
        out.append("-");
    }
    let magnitude: u128 = if num >= 0 {
        num as u128
    } else if num == i128::MIN {
        0x8000_0000_0000_0000_0000_0000_0000_0000
    } else {
        (-num) as u128
    };
    if magnitude < 1 {
        push_decimal(&mut out, magnitude);
    } else {
        let (exponent, scale) = unit_for(magnitude, binary_units);
        let hundredths = hundredths_in_unit(magnitude, binary_units, exponent, scale);
        push_two_decimals(&mut out, hundredths);
        push_unit_prefix(&mut out, exponent);
    }
    if display_byte_suffix {
        out.append("B");
    }
    out
}

/// Writes `used` as a percentage of `total`, with one decimal.
///
/// A `total` of zero has no ratio: the result is then `0.0%`, whatever
/// `used` is.
pub fn percentage(used: u64, total: u64) -> (text: String)
    ensures
        text@ == percent_text(used as nat, total as nat),
{
    let mut out = String::new();
    let tenths: u128 = if total == 0 {
        0
    } else {
        divide_rounded(1000 * (used as u128), total as u128)
    };
    push_one_decimal(&mut out, tenths);
    proof {
        reveal_strlit("%");
    }
    out.append("%");
    out
}

/// The unit's scale brackets the value: `base^e <= value`, and
/// `value < base^(e + 1)` unless `e` is the cap.
pub proof fn lemma_capped_log_brackets(value: nat, base: nat, cap: nat)
    requires
        value >= 1,
        base >= 2,
    ensures
        capped_log(value, base, cap) <= cap,
        pow(base as int, capped_log(value, base, cap)) <= value,
        capped_log(value, base, cap) < cap ==> value < pow(
            base as int,
            capped_log(value, base, cap) + 1,
        ),
    decreases cap,
{
    reveal(pow);
    if cap > 0 && value >= base {
        let inner = value / base;
        let log = capped_log(inner, base, (cap - 1) as nat);
        lemma_fundamental_div_mod(value as int, base as int);
        lemma_div_non_zero(value as int, base as int);
        lemma_capped_log_brackets(inner, base, (cap - 1) as nat);
        let low = pow(base as int, log);
        let high = pow(base as int, log + 1);
        assert(base * low <= value) by (nonlinear_arith)
            requires
                low <= inner,
                value == base * inner + value % base,
                value % base >= 0,
                base >= 2,
        ;
        if log + 1 < cap {
            assert(value < base * high) by (nonlinear_arith)
                requires
                    inner < high,
                    value == base * inner + value % base,
                    value % base < base,
                    base >= 2,
            ;
        }
    }
}

/// The law of the ladder: a value of at least one is shown in the largest
/// unit that does not exceed it, and in the last unit where it outgrows the
/// ladder.
pub proof fn lemma_unit_brackets(value: nat, binary_units: bool)
    requires
        value >= 1,
    ensures
        unit_exponent(value, divisor(binary_units)) <= LADDER_LAST,
        unit_scale(divisor(binary_units), unit_exponent(value, divisor(binary_units))) <= value,
        unit_exponent(value, divisor(binary_units)) < LADDER_LAST ==> value < unit_scale(
            divisor(binary_units),
            unit_exponent(value, divisor(binary_units)) + 1,
        ),
{
    let base = divisor(binary_units);
    let exponent = unit_exponent(value, base);
    lemma_capped_log_brackets(value, base, LADDER_LAST as nat);
    lemma_pow_positive(base as int, exponent);
    lemma_pow_positive(base as int, exponent + 1);
}

/// The largest unit of each ladder, written out.
pub proof fn lemma_last_scale()
    ensures
        unit_scale(1024, LADDER_LAST as nat) == 0x1_0000_0000_0000_0000_0000,
        unit_scale(1000, LADDER_LAST as nat) == 1_000_000_000_000_000_000_000_000,
{
    reveal_with_fuel(pow, 9);
}

/// Round trip: the number printed for a count of at least one byte, taken
/// back to bytes through the unit printed beside it, misses the count by at
/// most half a hundredth of that unit. A count of zero is printed as it is.
pub proof fn lemma_humanize_round_trip(value: nat, binary_units: bool, display_byte_suffix: bool)
    ensures
        value == 0 ==> humanized(value as int, binary_units, display_byte_suffix) == decimal(0)
            + byte_suffix(display_byte_suffix),
        value >= 1 ==> ({
            let base = divisor(binary_units);
            let exponent = unit_exponent(value, base);
            let scale = unit_scale(base, exponent);
            let shown = scaled_hundredths(value, base);
            &&& humanized(value as int, binary_units, display_byte_suffix) == two_decimals(shown)
                + unit_prefix(exponent) + byte_suffix(display_byte_suffix)
            &&& scale >= 1
            &&& -(scale as int) <= 2 * (shown * scale - 100 * value) <= scale
        }),
{
    let base = divisor(binary_units);
    let text = humanized(value as int, binary_units, display_byte_suffix);
    if value >= 1 {
        let exponent = unit_exponent(value, base);
        let scale = unit_scale(base, exponent);
        let shown = scaled_hundredths(value, base);
        lemma_unit_brackets(value, binary_units);
        lemma_pow_positive(base as int, exponent);
        lemma_round_half_even_error(100 * value, scale);
        assert(text =~= two_decimals(shown) + unit_prefix(exponent) + byte_suffix(
            display_byte_suffix,
        ));
    }
}

/// Below one unit nothing is scaled: the only whole magnitude below one,
/// zero, is written as the number it is, without decimals and without a
/// prefix, whichever units are asked for.
pub proof fn lemma_humanize_below_one(num: int, binary_units: bool, display_byte_suffix: bool)
    requires
        abs(num) < 1,
    ensures
        num == 0,
        humanized(num, binary_units, display_byte_suffix) == seq!['0'] + byte_suffix(
            display_byte_suffix,
        ),
        humanized(num, true, display_byte_suffix) == humanized(num, false, display_byte_suffix),
{
    assert(humanized(num, binary_units, display_byte_suffix) =~= seq!['0'] + byte_suffix(
        display_byte_suffix,
    ));
}

/// A prefix is one letter, which is no digit and belongs to one index only.
proof fn lemma_prefix_tells_exponent(first: nat, second: nat)
    requires
        1 <= first <= LADDER_LAST,
        1 <= second <= LADDER_LAST,
    ensures
        unit_prefix(first).len() == 1,
        !is_digit(unit_prefix(first)[0]),
        unit_prefix(first)[0] == unit_prefix(second)[0] ==> first == second,
{
}

/// Reading back: two counts that are written the same way are shown in the
/// same unit with the same number, and so differ by no more than a
/// hundredth of that unit. Only zero is written as zero is.
pub proof fn lemma_humanize_tells_count(
    first: nat,
    second: nat,
    binary_units: bool,
    display_byte_suffix: bool,
)
    requires
        humanized(first as int, binary_units, display_byte_suffix) == humanized(
            second as int,
            binary_units,
            display_byte_suffix,
        ),
    ensures
        first == 0 <==> second == 0,
        unit_exponent(first, divisor(binary_units)) == unit_exponent(
            second,
            divisor(binary_units),
        ),
        first >= 1 ==> scaled_hundredths(first, divisor(binary_units)) == scaled_hundredths(
            second,
            divisor(binary_units),
        ),
        -unit_scale(divisor(binary_units), unit_exponent(first, divisor(binary_units))) <= 100 * (
        first - second) <= unit_scale(
            divisor(binary_units),
            unit_exponent(first, divisor(binary_units)),
        ),
{
    let base = divisor(binary_units);
    let text = humanized(first as int, binary_units, display_byte_suffix);
    let suffix = byte_suffix(display_byte_suffix);
    let e1 = unit_exponent(first, base);
    let e2 = unit_exponent(second, base);
    let h1 = scaled_hundredths(first, base);
    let h2 = scaled_hundredths(second, base);
    lemma_humanize_round_trip(first, binary_units, display_byte_suffix);
    lemma_humanize_round_trip(second, binary_units, display_byte_suffix);
    lemma_two_decimals_shape(h1);
    lemma_two_decimals_shape(h2);
    lemma_pow0(base as int);
    if first == 0 || second == 0 {
        assert(decimal(0).len() == 1);
        assert(first == 0 && second == 0);
    } else {
        lemma_unit_brackets(first, binary_units);
        lemma_unit_brackets(second, binary_units);
        let shown1 = two_decimals(h1) + unit_prefix(e1);
        let shown2 = two_decimals(h2) + unit_prefix(e2);
        assert(text == shown1 + suffix);
        assert(text == shown2 + suffix);
        assert(shown1 =~= text.subrange(0, text.len() - suffix.len()));
        assert(shown2 =~= text.subrange(0, text.len() - suffix.len()));
        if e1 >= 1 {
            lemma_prefix_tells_exponent(e1, e1);
            assert(shown1.last() == unit_prefix(e1)[0]);
        } else {
            assert(shown1.last() == two_decimals(h1).last());
        }
        if e2 >= 1 {
            lemma_prefix_tells_exponent(e2, e2);
            assert(shown2.last() == unit_prefix(e2)[0]);
        } else {
            assert(shown2.last() == two_decimals(h2).last());
        }
        if e1 >= 1 && e2 >= 1 {
            lemma_prefix_tells_exponent(e1, e2);
        }
        assert(e1 == e2);
        assert(two_decimals(h1) =~= shown1.subrange(0, shown1.len() - unit_prefix(e1).len()));
        assert(two_decimals(h2) =~= shown1.subrange(0, shown1.len() - unit_prefix(e1).len()));
        lemma_two_decimals_tell_number(h1, h2);
    }
}

/// The sign is kept and the magnitude decides the rest: a negative count is
/// written as `-` before what its magnitude is written as.
pub proof fn lemma_humanize_negative(num: int, binary_units: bool, display_byte_suffix: bool)
    requires
        num < 0,
    ensures
        humanized(num, binary_units, display_byte_suffix) == seq!['-'] + humanized(
            -num,
            binary_units,
            display_byte_suffix,
        ),
{
    assert(humanized(num, binary_units, display_byte_suffix) =~= seq!['-'] + humanized(
        -num,
        binary_units,
        display_byte_suffix,
    ));
}

/// The byte suffix changes nothing but the end of the string.
pub proof fn lemma_humanize_suffix(num: int, binary_units: bool)
    ensures
        humanized(num, binary_units, true) == humanized(num, binary_units, false).push('B'),
{
}

/// Formatting is a function of its arguments: two strings written for the
/// same count under the same flags are the same string.
pub proof fn lemma_humanize_deterministic(
    num: int,
    binary_units: bool,
    display_byte_suffix: bool,
    first: Seq<char>,
    second: Seq<char>,
)
    requires
        first == humanized(num, binary_units, display_byte_suffix),
        second == humanized(num, binary_units, display_byte_suffix),
    ensures
        first == second,
{
}

/// The tenths of a percent that are written miss the exact ratio by at most
/// a half.
pub proof fn lemma_percentage_error(used: nat, total: nat)
    requires
        total > 0,
    ensures
        percent_text(used, total) == one_decimal(round_half_even(1000 * used, total)).push('%'),
        -(total as int) <= 2 * (round_half_even(1000 * used, total) * total - 1000 * used)
            <= total,
{
    lemma_round_half_even_error(1000 * used, total);
}

} // verus!
