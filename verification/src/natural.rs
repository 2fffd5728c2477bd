//! Arbitrary-precision unsigned integers.
//!
//! Star prices grow without bound (see [`crate::pricing`]), so they are
//! computed in exact arbitrary-precision arithmetic rather than a
//! fixed-width type that could silently wrap. A [`Natural`] is a
//! little-endian vector of 32-bit limbs with no trailing zero limb; its
//! mathematical value is the abstraction the contracts speak of.

use vstd::prelude::*;

verus! {

/// Each limb carries 32 bits: the radix of the limb representation.
pub const LIMB_RADIX: u64 = 0x1_0000_0000;

/// `LIMB_RADIX` raised to the power `e`: the weight of limb `e`.
pub open spec fn limb_weight(e: nat) -> nat
    decreases e,
{
    if e == 0 {
        1
    } else {
        (LIMB_RADIX as nat) * limb_weight((e - 1) as nat)
    }
}

/// Value of a little-endian limb sequence: the sum of each limb times
/// its weight.
pub open spec fn limbs_value(s: Seq<u32>) -> nat
    decreases s.len(),
{
    if s.len() == 0 {
        0
    } else {
        limbs_value(s.drop_last()) + (s.last() as nat) * limb_weight((s.len() - 1) as nat)
    }
}

/// An arbitrary-precision unsigned integer. The view of a `Natural` is
/// its mathematical value, a `nat`.
pub struct Natural {
    limbs: Vec<u32>,
}

impl View for Natural {
    type V = nat;

    closed spec fn view(&self) -> nat {
        limbs_value(self.limbs@)
    }
}

pub proof fn lemma_weight_positive(e: nat)
    ensures
        limb_weight(e) >= 1,
    decreases e,
{
    if e > 0 {
        lemma_weight_positive((e - 1) as nat);
    }
}

pub proof fn lemma_weight_increases(e1: nat, e2: nat)
    requires
        e1 <= e2,
    ensures
        limb_weight(e1) <= limb_weight(e2),
    decreases e2,
{
    if e1 < e2 {
        lemma_weight_increases(e1, (e2 - 1) as nat);
        lemma_weight_positive((e2 - 1) as nat);
        assert(limb_weight(e2) == (LIMB_RADIX as nat) * limb_weight((e2 - 1) as nat));
        assert((LIMB_RADIX as nat) * limb_weight((e2 - 1) as nat) >= limb_weight((e2 - 1) as nat))
            by (nonlinear_arith)
            requires
                limb_weight((e2 - 1) as nat) >= 1,
        ;
    }
}

/// Appending a limb adds its value at the weight of the old length.
pub proof fn lemma_value_push(s: Seq<u32>, x: u32)
    ensures
        limbs_value(s.push(x)) == limbs_value(s) + (x as nat) * limb_weight(s.len()),
{
    assert(s.push(x).drop_last() =~= s);
}

/// Extending a prefix by one limb adds that limb at its weight.
pub proof fn lemma_value_take_step(s: Seq<u32>, i: int)
    requires
        0 <= i < s.len(),
    ensures
        limbs_value(s.take(i + 1)) == limbs_value(s.take(i)) + (s[i] as nat) * limb_weight(
            i as nat,
        ),
{
    assert(s.take(i + 1).drop_last() =~= s.take(i));
    assert(s.take(i + 1).last() == s[i]);
}

/// A trailing zero limb does not change the value.
pub proof fn lemma_value_drop_zero(s: Seq<u32>)
    requires
        s.len() > 0,
        s.last() == 0,
    ensures
        limbs_value(s) == limbs_value(s.drop_last()),
{
}

/// A sequence whose top limb is nonzero is at least that limb's weight.
pub proof fn lemma_value_lower_bound(s: Seq<u32>)
    requires
        s.len() > 0,
        s.last() >= 1,
    ensures
        limbs_value(s) >= limb_weight((s.len() - 1) as nat),
{
    lemma_weight_positive((s.len() - 1) as nat);
    assert((s.last() as nat) * limb_weight((s.len() - 1) as nat) >= limb_weight(
        (s.len() - 1) as nat,
    )) by (nonlinear_arith)
        requires
            s.last() >= 1,
            limb_weight((s.len() - 1) as nat) >= 1,
    ;
}

/// Pops trailing zero limbs; the value is unchanged and the result is
/// canonical.
fn trim(limbs: &mut Vec<u32>)
    ensures
        limbs_value(final(limbs)@) == limbs_value(old(limbs)@),
        final(limbs)@.len() == 0 || final(limbs)@.last() != 0,
{
    while limbs.len() > 0 && limbs[limbs.len() - 1] == 0
        invariant
            limbs_value(limbs@) == limbs_value(old(limbs)@),
        decreases limbs.len(),
    {
        proof {
            lemma_value_drop_zero(limbs@);
        }
        limbs.pop();
    }
}

impl Natural {
    /// Canonical form: no trailing zero limb, so the representation of
    /// each value is unique and the limb count measures its magnitude.
    #[verifier::type_invariant]
    closed spec fn canonical(self) -> bool {
        self.limbs@.len() == 0 || self.limbs@.last() != 0
    }

    /// The natural number `v`.
    pub fn from_u64(v: u64) -> (r: Natural)
        ensures
            r@ == v as nat,
    {
        let mut limbs: Vec<u32> = Vec::new();
        if v > 0 {
            let low: u32 = (v % LIMB_RADIX) as u32;
            let high: u32 = (v / LIMB_RADIX) as u32;
            proof {
                vstd::arithmetic::div_mod::lemma_fundamental_div_mod(
                    v as int,
                    LIMB_RADIX as int,
                );
                assert(limbs_value(limbs@) == 0);
                assert(limb_weight(0) == 1);
                assert(limb_weight(1) == LIMB_RADIX as nat);
                lemma_value_push(limbs@, low);
            }
            limbs.push(low);
            proof {
                assert(limbs_value(limbs@) == low as nat);
            }
            if high > 0 {
                proof {
                    lemma_value_push(limbs@, high);
                }
                limbs.push(high);
                proof {
                    assert(limbs_value(limbs@) == low as nat + (high as nat) * (LIMB_RADIX
                        as nat));
                    assert(v as nat == low as nat + (high as nat) * (LIMB_RADIX as nat));
                }
            } else {
                proof {
                    assert(v / LIMB_RADIX == 0);
                    assert(low as nat == v as nat);
                }
            }
        }
        Natural { limbs }
    }

    /// The value as a `u64`, or `None` where it does not fit.
    pub fn to_u64(&self) -> (r: Option<u64>)
        ensures
            match r {
                Some(v) => self@ == v as nat,
                None => self@ > u64::MAX as nat,
            },
    {
        proof {
            use_type_invariant(self);
        }
        if self.limbs.len() == 0 {
            proof {
                assert(self@ == 0);
            }
            Some(0)
        } else if self.limbs.len() == 1 {
            proof {
                assert(limbs_value(self.limbs@.drop_last()) == 0);
                assert(limb_weight(0) == 1);
                assert(self.limbs@.last() == self.limbs@[0]);
                assert(self@ == limbs_value(self.limbs@.drop_last()) + (self.limbs@.last()
                    as nat) * limb_weight(0));
            }
            Some(self.limbs[0] as u64)
        } else if self.limbs.len() == 2 {
            proof {
                assert(limbs_value(self.limbs@.drop_last().drop_last()) == 0);
                assert(self.limbs@.drop_last().last() == self.limbs@[0]);
                assert(limb_weight(0) == 1);
                assert(limb_weight(1) == LIMB_RADIX as nat);
                assert(limbs_value(self.limbs@.drop_last()) == self.limbs@[0] as nat);
                assert(self@ == self.limbs@[0] as nat + (self.limbs@[1] as nat) * (LIMB_RADIX
                    as nat));
            }
            Some((self.limbs[0] as u64) + (self.limbs[1] as u64) * LIMB_RADIX)
        } else {
            proof {
                lemma_value_lower_bound(self.limbs@);
                lemma_weight_increases(2, (self.limbs@.len() - 1) as nat);
                assert(limb_weight(0) == 1);
                assert(limb_weight(1) == LIMB_RADIX as nat);
                assert(limb_weight(2) == (LIMB_RADIX as nat) * (LIMB_RADIX as nat));
                assert((LIMB_RADIX as nat) * (LIMB_RADIX as nat) > u64::MAX as nat);
            }
            None
        }
    }

    /// Three times the value: one step of the geometric price growth.
    pub(crate) fn triple(&self) -> (r: Natural)
        ensures
            r@ == self@ * 3,
    {
        proof {
            use_type_invariant(self);
        }
        let n = self.limbs.len();
        let mut out: Vec<u32> = Vec::new();
        let mut carry: u64 = 0;
        let mut i: usize = 0;
        while i < n
            invariant
                n == self.limbs@.len(),
                i <= n,
                out@.len() == i,
                carry <= 2,
                limbs_value(out@) + (carry as nat) * limb_weight(i as nat) == 3 * limbs_value(
                    self.limbs@.take(i as int),
                ),
            decreases n - i,
        {
            let xi: u64 = self.limbs[i] as u64;
            let prod: u64 = xi * 3 + carry;
            let low: u32 = (prod % LIMB_RADIX) as u32;
            let next_carry: u64 = prod / LIMB_RADIX;
            proof {
                vstd::arithmetic::div_mod::lemma_fundamental_div_mod(
                    prod as int,
                    LIMB_RADIX as int,
                );
                lemma_value_push(out@, low);
                lemma_value_take_step(self.limbs@, i as int);
                let lw = limb_weight(i as nat) as int;
                let va = limbs_value(out@) as int;
                let t0 = limbs_value(self.limbs@.take(i as int)) as int;
                let t1 = limbs_value(self.limbs@.take(i as int + 1)) as int;
                assert(limb_weight((i + 1) as nat) == (LIMB_RADIX as nat) * limb_weight(i as nat));
                assert(va + low * lw + next_carry * ((LIMB_RADIX as int) * lw) == 3 * t1)
                    by (nonlinear_arith)
                    requires
                        prod == (LIMB_RADIX as int) * next_carry + low,
                        prod == 3 * (xi as int) + carry,
                        va + carry * lw == 3 * t0,
                        t1 == t0 + xi * lw,
                ;
            }
            out.push(low);
            carry = next_carry;
            i += 1;
        }
        proof {
            assert(self.limbs@.take(n as int) =~= self.limbs@);
        }
        if carry > 0 {
            proof {
                lemma_value_push(out@, carry as u32);
            }
            out.push(carry as u32);
        }
        trim(&mut out);
        Natural { limbs: out }
    }

    /// Half the value, rounded down: one step of the exact division by
    /// a power of two.
    pub(crate) fn halve(&self) -> (r: Natural)
        ensures
            r@ == self@ / 2,
    {
        proof {
            use_type_invariant(self);
        }
        let n = self.limbs.len();
        if n == 0 {
            return Natural { limbs: Vec::new() };
        }
        let mut out: Vec<u32> = Vec::new();
        let mut i: usize = 0;
        proof {
            assert(limbs_value(self.limbs@.take(0)) == 0);
            assert(limb_weight(0) == 1);
        }
        while i < n
            invariant
                n == self.limbs@.len(),
                0 < n,
                i <= n,
                out@.len() == i,
                2 * limbs_value(out@) + ((self.limbs@[0] % 2) as nat) == limbs_value(
                    self.limbs@.take(i as int),
                ) + (if i < n {
                    ((self.limbs@[i as int] % 2) as nat) * limb_weight(i as nat)
                } else {
                    0
                }),
            decreases n - i,
        {
            let xi: u32 = self.limbs[i];
            let next_low: u32 = if i + 1 < n {
                self.limbs[i + 1] % 2
            } else {
                0
            };
            let oi: u32 = xi / 2 + next_low * 0x8000_0000;
            proof {
                vstd::arithmetic::div_mod::lemma_fundamental_div_mod(xi as int, 2);
                lemma_value_push(out@, oi);
                lemma_value_take_step(self.limbs@, i as int);
                let lw = limb_weight(i as nat) as int;
                let va = limbs_value(out@) as int;
                let t0 = limbs_value(self.limbs@.take(i as int)) as int;
                let t1 = limbs_value(self.limbs@.take(i as int + 1)) as int;
                let r0 = (self.limbs@[0] % 2) as int;
                let nl = next_low as int;
                assert(limb_weight((i + 1) as nat) == (LIMB_RADIX as nat) * limb_weight(i as nat));
                assert(2 * (va + oi * lw) + r0 == t1 + nl * ((LIMB_RADIX as int) * lw))
                    by (nonlinear_arith)
                    requires
                        oi == xi / 2 + nl * 0x8000_0000,
                        xi == 2 * (xi as int / 2) + xi as int % 2,
                        (LIMB_RADIX as int) == 2 * 0x8000_0000,
                        2 * va + r0 == t0 + (xi as int % 2) * lw,
                        t1 == t0 + xi * lw,
                ;
            }
            out.push(oi);
            i += 1;
        }
        proof {
            assert(self.limbs@.take(n as int) =~= self.limbs@);
            vstd::arithmetic::div_mod::lemma_fundamental_div_mod_converse(
                limbs_value(self.limbs@) as int,
                2,
                limbs_value(out@) as int,
                (self.limbs@[0] % 2) as int,
            );
        }
        trim(&mut out);
        Natural { limbs: out }
    }
}

} // verus!
