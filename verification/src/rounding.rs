//! Division of natural numbers rounded to the nearest integer, ties going to
//! the even neighbour.

use vstd::prelude::*;
use vstd::arithmetic::div_mod::{lemma_fundamental_div_mod, lemma_fundamental_div_mod_converse};

verus! {

/// `num / den` rounded to the nearest integer; a quotient that lies exactly
/// halfway between two integers goes to the even one.
pub open spec fn round_half_even(num: nat, den: nat) -> nat
    recommends
        den > 0,
{
    let floor = num / den;
    let rest = num % den;
    if 2 * rest < den || (2 * rest == den && floor % 2 == 0) {
        floor
    } else {
        floor + 1
    }
}

/// The rounded quotient misses the exact one by at most a half:
/// `|round_half_even(num, den) * den - num| <= den / 2`.
pub proof fn lemma_round_half_even_error(num: nat, den: nat)
    requires
        den > 0,
    ensures
        -(den as int) <= 2 * (round_half_even(num, den) * den - num) <= den,
{
    let floor = num / den;
    let rest = num % den;
    lemma_fundamental_div_mod(num as int, den as int);
    assert((floor + 1) * den == floor * den + den) by (nonlinear_arith);
}

/// Whole multiples of the divisor pass through the rounding when their count
/// is even: `round(even * den + rest, den) == even + round(rest, den)`.
pub proof fn lemma_round_half_even_split(even: nat, rest: nat, den: nat)
    requires
        den > 0,
        even % 2 == 0,
    ensures
        round_half_even(even * den + rest, den) == even + round_half_even(rest, den),
{
    let q = rest / den;
    let r = rest % den;
    lemma_fundamental_div_mod(rest as int, den as int);
    assert((even + q) * den + r == even * den + rest) by (nonlinear_arith)
        requires
            rest == den * q + r,
    ;
    lemma_fundamental_div_mod_converse((even * den + rest) as int, den as int, (even + q) as int, r as int);
}

/// Divides and rounds to the nearest integer, ties to even.
pub fn divide_rounded(num: u128, den: u128) -> (quotient: u128)
    requires
        den > 0,
    ensures
        quotient == round_half_even(num as nat, den as nat),
{
    let floor: u128 = num / den;
    let rest: u128 = num % den;
    let gap: u128 = den - rest;
    if rest < gap || (rest == gap && floor % 2 == 0) {
        floor
    } else {
        proof {
            lemma_fundamental_div_mod(num as int, den as int);
            assert(floor < u128::MAX) by (nonlinear_arith)
                requires
                    num == den * floor + rest,
                    rest >= 1,
                    den >= 2,
                    num <= u128::MAX,
            ;
        }
        floor + 1
    }
}

} // verus!
