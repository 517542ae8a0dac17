//! The chain of tempo filters that makes up a change of speed.
//!
//! One tempo filter takes factors from one half to two only. A larger change is
//! a chain of doublings or halvings and a rest that one filter can take. The
//! factor is held in binary, so that doubling and halving it are exact.
use vstd::arithmetic::power2::pow2;
use vstd::prelude::*;

verus! {

/// The least mantissa: a one and 52 zeros.
pub const LEAST_MANTISSA: u64 = 4503599627370496;

/// The least exponent of a double-precision number with a full mantissa.
pub const LEAST_EXPONENT: i32 = -1074;

/// The greatest exponent of a double-precision number.
pub const GREATEST_EXPONENT: i32 = 971;

/// A positive number in binary: a mantissa of 53 bits times a power of two.
#[derive(Debug, Clone, Copy, PartialEq, Eq, Structural)]
pub struct Binary {
    pub mantissa: u64,
    pub exponent: i32,
}

impl Binary {
    /// The mantissa has 53 bits, and the exponent is that of a double-precision
    /// number.
    pub open spec fn wf(self) -> bool {
        &&& LEAST_MANTISSA <= self.mantissa < 2 * LEAST_MANTISSA
        &&& LEAST_EXPONENT <= self.exponent <= GREATEST_EXPONENT
    }

    /// The number times a power of two.
    pub open spec fn scaled(self, by: int) -> Binary {
        Binary { mantissa: self.mantissa, exponent: (self.exponent + by) as i32 }
    }

    /// Whether the number is not greater than another one.
    pub open spec fn at_most(self, other: Binary) -> bool {
        if self.exponent >= other.exponent {
            self.mantissa * pow2((self.exponent - other.exponent) as nat) <= other.mantissa
        } else {
            self.mantissa <= other.mantissa * pow2((other.exponent - self.exponent) as nat)
        }
    }
}

/// The greatest factor that one filter is given: two, and a little more for
/// rounding.
pub open spec fn most() -> Binary {
    Binary { mantissa: 4503824807351865, exponent: (-51) as i32 }
}

/// The least factor that one filter is given: one half, and a little less for
/// rounding.
pub open spec fn least() -> Binary {
    Binary { mantissa: 9005397814890044, exponent: (-54) as i32 }
}

/// Full mantissas compare by their exponents first.
proof fn exponents_decide(a: Binary, b: Binary)
    requires
        a.wf(),
        b.wf(),
    ensures
        a.at_most(b) == (a.exponent < b.exponent || (a.exponent == b.exponent && a.mantissa
            <= b.mantissa)),
{
    vstd::arithmetic::power2::lemma2_to64();
    if a.exponent > b.exponent {
        let k = (a.exponent - b.exponent) as nat;
        at_least_double(a.mantissa as nat, k);
    } else if a.exponent < b.exponent {
        let k = (b.exponent - a.exponent) as nat;
        at_least_double(b.mantissa as nat, k);
    } else {
        let p = pow2((a.exponent - b.exponent) as nat);
        assert(p == 1);
        assert(a.mantissa * p == a.mantissa) by (nonlinear_arith)
            requires
                p == 1,
        ;
    }
}

/// A positive power of two at least doubles.
proof fn at_least_double(m: nat, k: nat)
    requires
        k > 0,
    ensures
        m * pow2(k) >= 2 * m,
{
    vstd::arithmetic::power2::lemma2_to64();
    if k > 1 {
        vstd::arithmetic::power2::lemma_pow2_strictly_increases(1, k);
    }
    let p = pow2(k);
    assert(p >= 2);
    assert(m * p >= 2 * m) by (nonlinear_arith)
        requires
            p >= 2,
    ;
}

/// Compares two numbers.
pub fn not_greater(a: Binary, b: Binary) -> (r: bool)
    requires
        a.wf(),
        b.wf(),
    ensures
        r == a.at_most(b),
{
    proof {
        exponents_decide(a, b);
    }
    a.exponent < b.exponent || (a.exponent == b.exponent && a.mantissa <= b.mantissa)
}

/// The positive number that the bits of a double-precision number stand for,
/// where it has a full mantissa.
pub open spec fn binary_of(bits: u64) -> Option<Binary> {
    let e = bits / LEAST_MANTISSA;
    if 1 <= e <= 2046 {
        Some(
            Binary {
                mantissa: (LEAST_MANTISSA + bits % LEAST_MANTISSA) as u64,
                exponent: (e - 1075) as i32,
            },
        )
    } else {
        None
    }
}

impl Binary {
    /// The positive number that the bits of a double-precision number stand
    /// for, where it has a full mantissa.
    pub fn from_bits(bits: u64) -> (r: Option<Binary>)
        ensures
            r == binary_of(bits),
            r matches Some(b) ==> b.wf(),
    {
        let e: u64 = bits / LEAST_MANTISSA;
        if 1 <= e && e <= 2046 {
            Some(
                Binary {
                    mantissa: LEAST_MANTISSA + bits % LEAST_MANTISSA,
                    exponent: e as i32 - 1075,
                },
            )
        } else {
            None
        }
    }

    /// The bits of the number as a double-precision number.
    pub fn to_bits(self) -> (bits: u64)
        requires
            self.wf(),
        ensures
            binary_of(bits) == Some(self),
    {
        let e: u64 = (self.exponent + 1075) as u64;
        let f: u64 = self.mantissa - LEAST_MANTISSA;
        assert(e * 4503599627370496 + f < 0x8000_0000_0000_0000) by (nonlinear_arith)
            requires
                e <= 2046,
                f < 4503599627370496,
        ;
        let bits: u64 = e * LEAST_MANTISSA + f;
        assert(bits / LEAST_MANTISSA == e && bits % LEAST_MANTISSA == f) by {
            vstd::arithmetic::div_mod::lemma_fundamental_div_mod_converse(
                bits as int,
                LEAST_MANTISSA as int,
                e as int,
                f as int,
            );
        }
        bits
    }
}

/// How a factor is made up: doublings or halvings, and a rest.
#[derive(Debug, Clone, Copy)]
pub struct TempoPlan {
    pub doublings: usize,
    pub halvings: usize,
    pub rest: Binary,
}

/// Whether a plan makes up a factor: the rest can be given to one filter, the
/// doublings or halvings make up for it, and there is none of them too many.
pub open spec fn makes_up(plan: TempoPlan, factor: Binary) -> bool {
    &&& plan.rest.wf()
    &&& plan.rest.at_most(most())
    &&& least().at_most(plan.rest)
    &&& plan.rest.mantissa == factor.mantissa
    &&& factor.exponent == plan.rest.exponent + plan.doublings - plan.halvings
    &&& plan.doublings == 0 || plan.halvings == 0
    &&& plan.doublings > 0 ==> !plan.rest.scaled(1).at_most(most())
    &&& plan.halvings > 0 ==> !least().at_most(plan.rest.scaled(-1))
}

/// Finds the chain of filters that makes up a factor.
pub fn plan_tempo(factor: Binary) -> (plan: TempoPlan)
    requires
        factor.wf(),
    ensures
        makes_up(plan, factor),
{
    let greatest = Binary { mantissa: 4503824807351865, exponent: -51 };
    let smallest = Binary { mantissa: 9005397814890044, exponent: -54 };
    let mut rest = factor;
    let mut doublings: usize = 0;
    while !not_greater(rest, greatest)
        invariant
            greatest == most(),
            factor.wf(),
            rest.wf(),
            rest.mantissa == factor.mantissa,
            factor.exponent == rest.exponent + doublings,
            doublings <= GREATEST_EXPONENT - LEAST_EXPONENT,
            doublings > 0 ==> !rest.scaled(1).at_most(most()),
        decreases rest.exponent - LEAST_EXPONENT,
    {
        proof {
            exponents_decide(rest, most());
        }
        let ghost before = rest;
        rest = Binary { mantissa: rest.mantissa, exponent: rest.exponent - 1 };
        doublings = doublings + 1;
        assert(rest.scaled(1) == before);
    }
    let mut halvings: usize = 0;
    proof {
        exponents_decide(rest, most());
        exponents_decide(least(), rest);
        if doublings > 0 {
            exponents_decide(rest.scaled(1), most());
        }
    }
    while !not_greater(smallest, rest)
        invariant
            smallest == least(),
            factor.wf(),
            rest.wf(),
            rest.mantissa == factor.mantissa,
            factor.exponent == rest.exponent + doublings - halvings,
            halvings <= GREATEST_EXPONENT - LEAST_EXPONENT,
            doublings > 0 ==> least().at_most(rest) && halvings == 0 && !rest.scaled(1).at_most(most()),
            halvings > 0 ==> !least().at_most(rest.scaled(-1)),
            rest.at_most(most()),
        decreases GREATEST_EXPONENT - rest.exponent,
    {
        proof {
            exponents_decide(least(), rest);
        }
        let ghost before = rest;
        rest = Binary { mantissa: rest.mantissa, exponent: rest.exponent + 1 };
        halvings = halvings + 1;
        proof {
            assert(rest.scaled(-1) == before);
            exponents_decide(rest, most());
        }
    }
    TempoPlan { doublings, halvings, rest }
}

// ---------------------------------------------------------------------------
// Laws
// ---------------------------------------------------------------------------

/// There is one way only to make up a factor.
pub proof fn plans_agree(a: TempoPlan, b: TempoPlan, factor: Binary)
    requires
        factor.wf(),
        makes_up(a, factor),
        makes_up(b, factor),
    ensures
        a == b,
{
    exponents_decide(a.rest, most());
    exponents_decide(least(), a.rest);
    exponents_decide(b.rest, most());
    exponents_decide(least(), b.rest);
    scaled_compare(a);
    scaled_compare(b);
}

proof fn scaled_compare(p: TempoPlan)
    requires
        p.rest.wf(),
        p.rest.at_most(most()),
        least().at_most(p.rest),
    ensures
        !p.rest.scaled(1).at_most(most()) == (p.rest.exponent + 1 > most().exponent || (
        p.rest.exponent + 1 == most().exponent && p.rest.mantissa > most().mantissa)),
        !least().at_most(p.rest.scaled(-1)) == (p.rest.exponent - 1 < least().exponent || (
        p.rest.exponent - 1 == least().exponent && p.rest.mantissa < least().mantissa)),
{
    exponents_decide(p.rest, most());
    exponents_decide(least(), p.rest);
    exponents_decide(p.rest.scaled(1), most());
    exponents_decide(least(), p.rest.scaled(-1));
}

/// A factor that one filter can take needs no doubling and no halving.
pub proof fn small_changes_need_one_filter(plan: TempoPlan, factor: Binary)
    requires
        factor.wf(),
        factor.at_most(most()),
        least().at_most(factor),
        makes_up(plan, factor),
    ensures
        plan == (TempoPlan { doublings: 0, halvings: 0, rest: factor }),
{
    plans_agree(plan, TempoPlan { doublings: 0, halvings: 0, rest: factor }, factor);
}

/// The rest of a plan is a factor that one filter takes: it lies between 0.4999
/// and 2.0001, up to rounding. There is no doubling or halving too many: where
/// the plan doubles, twice the rest is beyond the upper bound, and where it
/// halves, half of the rest is below the lower bound. The doublings and halvings
/// make the rest up to the factor.
pub proof fn rest_is_within_the_range_of_a_filter(plan: TempoPlan, factor: Binary)
    requires
        factor.wf(),
        makes_up(plan, factor),
    ensures
        ({
            // The rest, and one, in units of a great negative power of two.
            let rest = plan.rest.mantissa * pow2((plan.rest.exponent + 54) as nat);
            let one: int = 18014398509481984;
            &&& -54 <= plan.rest.exponent <= -51
            &&& 4999 * one <= 10000 * rest <= 20001 * one + 80000
            &&& plan.doublings > 0 ==> 10000 * (2 * rest) > 20001 * one
            &&& plan.halvings > 0 ==> 10000 * rest < 2 * (4999 * one + 20000)
        }),
        plan.doublings == 0 || plan.halvings == 0,
        factor.mantissa == plan.rest.mantissa,
        factor.exponent == plan.rest.exponent + plan.doublings - plan.halvings,
{
    exponents_decide(plan.rest, most());
    exponents_decide(least(), plan.rest);
    scaled_compare(plan);
    vstd::arithmetic::power2::lemma2_to64();
    let e = plan.rest.exponent;
    let m = plan.rest.mantissa;
    let p = pow2((e + 54) as nat);
    assert(p == (if e == -54 {
        1int
    } else if e == -53 {
        2
    } else if e == -52 {
        4
    } else {
        8
    }));
    assert(m * p == (if e == -54 {
        m as int
    } else if e == -53 {
        2 * m
    } else if e == -52 {
        4 * m
    } else {
        8 * m
    })) by (nonlinear_arith)
        requires
            p == (if e == -54 {
                1int
            } else if e == -53 {
                2
            } else if e == -52 {
                4
            } else {
                8
            }),
    ;
}

/// The bits of a double-precision number with a full mantissa stand for one and a
/// fraction of 52 bits, times a power of two that is biased by 1023: so the bits of
/// one stand for one, and those of a half for a half.
pub proof fn bits_stand_for_their_number(bits: u64)
    ensures
        ({
            let e = bits / 4503599627370496;
            let f = bits % 4503599627370496;
            &&& 1 <= e <= 2046 ==> binary_of(bits) == Some(
                Binary {
                    mantissa: (4503599627370496 + f) as u64,
                    exponent: (e - 1023 - 52) as i32,
                },
            )
            &&& e == 0 || e > 2046 ==> binary_of(bits) is None
        }),
        LEAST_MANTISSA == 4503599627370496,
        LEAST_EXPONENT == -1074,
        GREATEST_EXPONENT == 971,
        binary_of(0x3ff0_0000_0000_0000) == Some(
            Binary { mantissa: 4503599627370496, exponent: (-52) as i32 },
        ),
        binary_of(0x3fe0_0000_0000_0000) == Some(
            Binary { mantissa: 4503599627370496, exponent: (-53) as i32 },
        ),
{
}

/// Numbers are compared by value: by their mantissas, both taken times the same
/// power of two.
pub proof fn numbers_compare_by_value(a: Binary, b: Binary)
    requires
        a.wf(),
        b.wf(),
    ensures
        a.at_most(b) == (a.mantissa * pow2((a.exponent + 1074) as nat) <= b.mantissa * pow2(
            (b.exponent + 1074) as nat,
        )),
{
    let p = pow2((a.exponent + 1074) as nat);
    let q = pow2((b.exponent + 1074) as nat);
    vstd::arithmetic::power2::lemma_pow2_pos((a.exponent + 1074) as nat);
    vstd::arithmetic::power2::lemma_pow2_pos((b.exponent + 1074) as nat);
    if a.exponent >= b.exponent {
        let k = pow2((a.exponent - b.exponent) as nat);
        vstd::arithmetic::power2::lemma_pow2_adds(
            (a.exponent - b.exponent) as nat,
            (b.exponent + 1074) as nat,
        );
        assert(p == k * q);
        assert((a.mantissa * k <= b.mantissa) == (a.mantissa * p <= b.mantissa * q))
            by (nonlinear_arith)
            requires
                p == k * q,
                q > 0,
        ;
    } else {
        let k = pow2((b.exponent - a.exponent) as nat);
        vstd::arithmetic::power2::lemma_pow2_adds(
            (b.exponent - a.exponent) as nat,
            (a.exponent + 1074) as nat,
        );
        assert(q == k * p);
        assert((a.mantissa <= b.mantissa * k) == (a.mantissa * p <= b.mantissa * q))
            by (nonlinear_arith)
            requires
                q == k * p,
                p > 0,
        ;
    }
}

} // verus!
