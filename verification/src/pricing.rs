//! The pricing engine.
//!
//! The price of the next star for an account that has already received
//! `n` stars is `BASE_STAR_COST * 15^n / 10^n` — the base price grown
//! by a factor of 3/2 per star, with the division truncating. The
//! price is computed in exact arbitrary-precision arithmetic so that
//! independent executions agree bit for bit; it grows without bound,
//! which is the intended economic design.

use vstd::prelude::*;

use vstd::arithmetic::div_mod::{lemma_div_denominator, lemma_div_multiples_vanish};
use vstd::arithmetic::mul::{lemma_mul_is_associative, lemma_mul_is_commutative};
use vstd::arithmetic::power::{lemma_pow0, lemma_pow1, lemma_pow_adds, lemma_pow_distributes,
    lemma_pow_positive, pow};

use crate::natural::Natural;

verus! {

/// Price of the first star, in the smallest unit of the native value
/// (18-decimal fixed point): one tenth of one whole unit.
pub const BASE_STAR_COST: u64 = 100_000_000_000_000_000;

/// The price of the next star for a recipient holding `current_stars`
/// stars: `BASE_STAR_COST * 15^n / 10^n`, with truncating division.
pub open spec fn star_cost_spec(current_stars: nat) -> int {
    (BASE_STAR_COST * pow(15, current_stars)) / pow(10, current_stars)
}

/// `15^n / 10^n` reduces to `3^n / 2^n`: the common factor `5^n` of
/// numerator and denominator drops out of the truncating division.
proof fn lemma_cost_reduction(b: int, n: nat)
    requires
        b >= 0,
    ensures
        (b * pow(15, n)) / pow(10, n) == (b * pow(3, n)) / pow(2, n),
{
    let p2 = pow(2, n);
    let p3 = pow(3, n);
    let p5 = pow(5, n);
    lemma_pow_positive(2, n);
    lemma_pow_positive(3, n);
    lemma_pow_positive(5, n);
    lemma_pow_distributes(3, 5, n);
    lemma_pow_distributes(2, 5, n);
    assert(pow(15, n) == p3 * p5);
    assert(pow(10, n) == p2 * p5);
    lemma_mul_is_associative(b, p3, p5);
    assert(b * (p3 * p5) == (b * p3) * p5);
    lemma_mul_is_commutative(b * p3, p5);
    lemma_div_multiples_vanish(b * p3, p5);
    assert((p5 * (b * p3)) / p5 == b * p3);
    lemma_mul_is_commutative(p2, p5);
    lemma_div_denominator((b * p3) * p5, p5, p2);
    assert((((b * p3) * p5) / p5) / p2 == ((b * p3) * p5) / (p5 * p2));
    assert(b * p3 >= 0) by (nonlinear_arith)
        requires
            b >= 0,
            p3 > 0,
    ;
}

/// The star price as a function of the recipient's current star count:
/// exactly `BASE_STAR_COST * 15^n / 10^n`, computed without rounding
/// drift by multiplying by 3 and halving `n` times.
pub fn star_cost(current_stars: u64) -> (price: Natural)
    ensures
        price@ == star_cost_spec(current_stars as nat),
{
    let n = current_stars;
    let mut price = Natural::from_u64(BASE_STAR_COST);
    let mut i: u64 = 0;
    proof {
        lemma_pow0(3);
        lemma_pow0(2);
    }
    while i < n
        invariant
            i <= n,
            price@ == BASE_STAR_COST * pow(3, i as nat),
        decreases n - i,
    {
        proof {
            lemma_pow_positive(3, i as nat);
            lemma_pow1(3);
            lemma_pow_adds(3, i as nat, 1);
            lemma_mul_is_commutative(pow(3, i as nat), 3);
            assert(pow(3, (i + 1) as nat) == 3 * pow(3, i as nat));
            lemma_mul_is_associative(BASE_STAR_COST as int, pow(3, i as nat), 3);
        }
        price = price.triple();
        i += 1;
    }
    let top = Ghost(BASE_STAR_COST * pow(3, n as nat));
    let mut j: u64 = 0;
    while j < n
        invariant
            j <= n,
            top@ == BASE_STAR_COST * pow(3, n as nat),
            price@ == top@ / pow(2, j as nat),
        decreases n - j,
    {
        proof {
            lemma_pow_positive(2, j as nat);
            lemma_pow_positive(3, n as nat);
            assert(top@ >= 0) by (nonlinear_arith)
                requires
                    pow(3, n as nat) > 0,
                    top@ == BASE_STAR_COST * pow(3, n as nat),
            ;
            lemma_div_denominator(top@, pow(2, j as nat), 2);
            lemma_pow1(2);
            lemma_pow_adds(2, j as nat, 1);
            assert(pow(2, (j + 1) as nat) == pow(2, j as nat) * 2);
        }
        price = price.halve();
        j += 1;
    }
    proof {
        lemma_pow_positive(3, n as nat);
        assert(BASE_STAR_COST * pow(3, n as nat) >= 0) by (nonlinear_arith)
            requires
                pow(3, n as nat) > 0,
        ;
        lemma_cost_reduction(BASE_STAR_COST as int, n as nat);
    }
    price
}

} // verus!
