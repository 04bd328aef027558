//! Canonical arithmetic for the field of the Mersenne prime `p = 2^31 - 1`.
//!
//! Every element is kept as its unique representative in `[0, p)`.  The
//! reduction entry point `Mersenne31::from_u62` accepts any accumulator
//! below `2^62`, which lets callers add many products or shifted values
//! together before reducing once.

use vstd::prelude::*;
use vstd::arithmetic::div_mod::{
    lemma_fundamental_div_mod, lemma_mod_multiples_vanish, lemma_mul_mod_noop_general,
    lemma_small_mod,
};
use vstd::arithmetic::power2::{lemma2_to64, pow2};
use vstd::bits::lemma_u64_shl_is_mul;

verus! {

/// The Mersenne prime `2^31 - 1`.
pub const P: u32 = 0x7fff_ffff;

/// Sum of `a` and `b` in the field.
pub open spec fn fadd(a: int, b: int) -> int {
    (a + b) % (P as int)
}

/// Difference of `a` and `b` in the field.
pub open spec fn fsub(a: int, b: int) -> int {
    (a - b) % (P as int)
}

/// Additive inverse of `a` in the field.
pub open spec fn fneg(a: int) -> int {
    ((P as int) - a) % (P as int)
}

/// Product of `a` and `b` in the field.
pub open spec fn fmul(a: int, b: int) -> int {
    (a * b) % (P as int)
}

/// Fifth power of `a` in the field: the nonlinear substitution.
pub open spec fn fpow5(a: int) -> int {
    (a * a * a * a * a) % (P as int)
}

/// For `0 <= x < 2m`, reducing mod `m` is at most one subtraction.
proof fn lemma_mod_of_small(x: int, m: int)
    requires
        m > 0,
        0 <= x < 2 * m,
    ensures
        x % m == if x < m {
            x
        } else {
            x - m
        },
{
    if x < m {
        lemma_small_mod(x as nat, m as nat);
    } else {
        lemma_mod_multiples_vanish(-1, x, m);
        lemma_small_mod((x - m) as nat, m as nat);
    }
}

/// A canonical element of the field: an integer in `[0, p)`.
#[derive(Clone, Copy, PartialEq, Eq, Structural, Debug)]
pub struct Mersenne31 {
    pub value: u32,
}

impl Mersenne31 {
    /// The representation invariant: the value is the canonical representative.
    pub open spec fn is_canonical(self) -> bool {
        self.value < P
    }

    pub fn new(value: u32) -> (r: Self)
        requires
            value < P,
        ensures
            r.value == value,
            r.is_canonical(),
    {
        Mersenne31 { value }
    }

    /// Reduce an accumulator below `2^62` to its canonical representative.
    ///
    /// Splitting at bit 31 maps `x = hi * 2^31 + lo` to `hi + lo`, which is
    /// congruent to `x` because `2^31 == p + 1`; two splits and one
    /// conditional subtraction land in `[0, p)`.
    pub fn from_u62(x: u64) -> (r: Self)
        requires
            x < 0x4000_0000_0000_0000,
        ensures
            r.is_canonical(),
            r.value as int == (x as int) % (P as int),
    {
        let lo: u64 = x % 0x8000_0000;
        let hi: u64 = x / 0x8000_0000;
        proof {
            lemma_fundamental_div_mod(x as int, 0x8000_0000);
            assert(hi < 0x8000_0000) by (nonlinear_arith)
                requires
                    x < 0x4000_0000_0000_0000,
                    hi == x as int / 0x8000_0000,
            ;
            assert((P as int) * (hi as int) + ((hi + lo) as int) == x as int);
            lemma_mod_multiples_vanish(hi as int, hi as int + lo as int, P as int);
        }
        let s: u64 = lo + hi;
        let lo2: u64 = s % 0x8000_0000;
        let hi2: u64 = s / 0x8000_0000;
        proof {
            lemma_fundamental_div_mod(s as int, 0x8000_0000);
            assert(hi2 <= 1) by (nonlinear_arith)
                requires
                    s < 0x1_0000_0000,
                    hi2 == s as int / 0x8000_0000,
            ;
            assert((P as int) * (hi2 as int) + ((hi2 + lo2) as int) == s as int);
            lemma_mod_multiples_vanish(hi2 as int, hi2 as int + lo2 as int, P as int);
        }
        let t: u64 = lo2 + hi2;
        proof {
            lemma_mod_of_small(t as int, P as int);
        }
        let value: u32 = if t >= P as u64 {
            (t - P as u64) as u32
        } else {
            t as u32
        };
        Mersenne31 { value }
    }

    pub fn add(self, rhs: Self) -> (r: Self)
        requires
            self.is_canonical(),
            rhs.is_canonical(),
        ensures
            r.is_canonical(),
            r.value as int == fadd(self.value as int, rhs.value as int),
    {
        let s: u32 = self.value + rhs.value;
        proof {
            lemma_mod_of_small(s as int, P as int);
        }
        let value: u32 = if s >= P {
            s - P
        } else {
            s
        };
        Mersenne31 { value }
    }

    pub fn sub(self, rhs: Self) -> (r: Self)
        requires
            self.is_canonical(),
            rhs.is_canonical(),
        ensures
            r.is_canonical(),
            r.value as int == fsub(self.value as int, rhs.value as int),
    {
        let value: u32 = if self.value >= rhs.value {
            self.value - rhs.value
        } else {
            self.value + P - rhs.value
        };
        proof {
            let d = self.value as int - rhs.value as int;
            if self.value >= rhs.value {
                lemma_small_mod(d as nat, P as nat);
            } else {
                lemma_mod_multiples_vanish(1, d, P as int);
                lemma_small_mod((d + P as int) as nat, P as nat);
            }
        }
        Mersenne31 { value }
    }

    pub fn neg(self) -> (r: Self)
        requires
            self.is_canonical(),
        ensures
            r.is_canonical(),
            r.value as int == fneg(self.value as int),
    {
        let value: u32 = if self.value == 0 {
            0
        } else {
            P - self.value
        };
        proof {
            if self.value == 0 {
                assert(P as int % P as int == 0) by {
                    lemma_mod_multiples_vanish(1, 0, P as int);
                    lemma_small_mod(0, P as nat);
                }
            } else {
                lemma_small_mod((P - self.value) as nat, P as nat);
            }
        }
        Mersenne31 { value }
    }

    pub fn mul(self, rhs: Self) -> (r: Self)
        requires
            self.is_canonical(),
            rhs.is_canonical(),
        ensures
            r.is_canonical(),
            r.value as int == fmul(self.value as int, rhs.value as int),
    {
        proof {
            assert((self.value as int) * (rhs.value as int) < 0x4000_0000_0000_0000)
                by (nonlinear_arith)
                requires
                    self.value < 0x8000_0000,
                    rhs.value < 0x8000_0000,
            ;
        }
        let prod: u64 = (self.value as u64) * (rhs.value as u64);
        Self::from_u62(prod)
    }

    /// Doubling, the special case of scaling by `2^1`.
    pub fn double(self) -> (r: Self)
        requires
            self.is_canonical(),
        ensures
            r.is_canonical(),
            r.value as int == (2 * self.value as int) % (P as int),
    {
        self.add(self)
    }

    /// Scale by `2^exp`: a left shift followed by one delayed reduction.
    pub fn mul_pow2(self, exp: u8) -> (r: Self)
        requires
            self.is_canonical(),
            exp < 31,
        ensures
            r.is_canonical(),
            r.value as int == (self.value as int * pow2(exp as nat) as int) % (P as int),
    {
        proof {
            lemma2_to64();
            if exp < 30 {
                vstd::arithmetic::power2::lemma_pow2_strictly_increases(exp as nat, 30);
            }
            assert(pow2(exp as nat) <= 0x4000_0000);
            assert((self.value as int) * (pow2(exp as nat) as int) <= 0x7fff_fffe * 0x4000_0000)
                by (nonlinear_arith)
                requires
                    self.value as int <= 0x7fff_fffe,
                    pow2(exp as nat) <= 0x4000_0000,
            ;
            lemma_u64_shl_is_mul(self.value as u64, exp as u64);
        }
        let shifted: u64 = (self.value as u64) << (exp as u64);
        Self::from_u62(shifted)
    }

    /// The nonlinear substitution `x -> x^5`.
    pub fn exp5(self) -> (r: Self)
        requires
            self.is_canonical(),
        ensures
            r.is_canonical(),
            r.value as int == fpow5(self.value as int),
    {
        let x2 = self.mul(self);
        let x4 = x2.mul(x2);
        let r = x4.mul(self);
        proof {
            let a = self.value as int;
            let m = P as int;
            lemma_mul_mod_noop_general(a * a, a * a, m);
            assert((a * a) * (a * a) == a * a * a * a) by (nonlinear_arith);
            lemma_mul_mod_noop_general(a * a * a * a, a, m);
            lemma_small_mod(a as nat, m as nat);
        }
        r
    }
}

/// The integer values of a sequence of field elements.
pub open spec fn vals(s: Seq<Mersenne31>) -> Seq<int> {
    s.map_values(|m: Mersenne31| m.value as int)
}

/// Every element of the sequence is a canonical representative.
pub open spec fn all_canonical(s: Seq<Mersenne31>) -> bool {
    forall|i: int| 0 <= i < s.len() ==> (#[trigger] s[i]).value < P
}

} // verus!
