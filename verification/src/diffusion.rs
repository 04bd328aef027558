//! The diffusion (internal) linear layer: multiplication of the state by the
//! matrix `J + diag(V)`, where `J` is the all-ones matrix and
//! `V = [-2, 2^sh[0], 2^sh[1], ...]` is the width's diagonal specification.
//!
//! Two executable paths compute the same map.  [`permute_mut`] exploits the
//! diagonal structure with delayed reduction: one wide accumulator per output
//! element, reduced exactly once.  The generic formulation in
//! [`GenericPoseidon2LinearLayersMersenne31`] uses only ring operations
//! (add, subtract, double, scale by a power of two), each reducing fully;
//! [`lemma_generic_diffusion_matches`] proves that on canonical field
//! elements the two agree.

use vstd::prelude::*;
use vstd::arithmetic::div_mod::{
    lemma_add_mod_noop, lemma_add_mod_noop_right, lemma_mod_bound, lemma_mod_multiples_vanish,
    lemma_mul_mod_noop_right, lemma_small_mod, lemma_sub_mod_noop,
};
use vstd::arithmetic::power2::{lemma2_to64, lemma_pow2_strictly_increases, pow2};
use vstd::bits::lemma_u64_shl_is_mul;
use crate::field::{all_canonical, fadd, fmul, fsub, vals, Mersenne31, P};

verus! {

/// The integer values of a sequence of shift exponents.
pub open spec fn shifts_ints(s: Seq<u8>) -> Seq<int> {
    s.map_values(|x: u8| x as int)
}

/// The diagonal specification for width 16: `V = [-2] ++ [2^e for e in this list]`.
pub open spec fn diag_shifts_16() -> Seq<int> {
    seq![0, 1, 2, 3, 4, 5, 6, 7, 8, 10, 12, 13, 14, 15, 16]
}

/// The diagonal specification for width 24.
pub open spec fn diag_shifts_24() -> Seq<int> {
    seq![0, 1, 2, 3, 4, 5, 6, 7, 8, 9, 10, 11, 12, 13, 14, 15, 16, 17, 18, 19, 20, 21, 22]
}

/// Exact integer sum of a sequence.
pub open spec fn sum_ints(s: Seq<int>) -> int
    decreases s.len(),
{
    if s.len() == 0 {
        0
    } else {
        sum_ints(s.drop_last()) + s.last()
    }
}

/// Field sum of a sequence: one reduction per addition.
pub open spec fn sum_mod(s: Seq<int>) -> int
    decreases s.len(),
{
    if s.len() == 0 {
        0
    } else {
        fadd(sum_mod(s.drop_last()), s.last())
    }
}

/// The diffusion map itself: `out[0] = sum - 2*s[0]`, and for `i >= 1`
/// `out[i] = sum + 2^sh[i-1] * s[i]`, everything reduced mod `p`.
pub open spec fn diffusion(s: Seq<int>, sh: Seq<int>) -> Seq<int> {
    Seq::new(
        s.len(),
        |i: int|
            if i == 0 {
                (sum_ints(s) - 2 * s[0]) % (P as int)
            } else {
                (sum_ints(s) + pow2(sh[i - 1] as nat) * s[i]) % (P as int)
            },
    )
}

/// The same map as the generic ring-operation path computes it: partial and
/// full sums reduced at every addition, coefficients 1 and 2 at positions 1
/// and 2 handled by plain addition and doubling.
pub open spec fn generic_diffusion(s: Seq<int>, sh: Seq<int>) -> Seq<int> {
    let part = sum_mod(s.skip(1));
    let full = fadd(part, s[0]);
    Seq::new(
        s.len(),
        |i: int|
            if i == 0 {
                fsub(part, s[0])
            } else if i == 1 {
                fadd(full, s[1])
            } else if i == 2 {
                fadd(full, (2 * s[2]) % (P as int))
            } else {
                fadd(full, (s[i] * pow2(sh[i - 1] as nat)) % (P as int))
            },
    )
}

pub proof fn lemma_sum_split_first(s: Seq<int>)
    requires
        s.len() >= 1,
    ensures
        sum_ints(s) == s[0] + sum_ints(s.skip(1)),
    decreases s.len(),
{
    if s.len() == 1 {
        assert(s.skip(1) =~= Seq::<int>::empty());
        assert(s.drop_last() =~= Seq::<int>::empty());
    } else {
        lemma_sum_split_first(s.drop_last());
        assert(s.drop_last().skip(1) =~= s.skip(1).drop_last());
        assert(s.skip(1).last() == s.last());
    }
}

/// Elementwise bounds give bounds on the sum.
pub proof fn lemma_sum_bounds(s: Seq<int>, b: int)
    requires
        forall|i: int| 0 <= i < s.len() ==> 0 <= #[trigger] s[i] <= b,
        b >= 0,
    ensures
        0 <= sum_ints(s) <= s.len() * b,
    decreases s.len(),
{
    if s.len() == 0 {
    } else {
        lemma_sum_bounds(s.drop_last(), b);
        assert((s.len() - 1) * b + b == s.len() * b) by (nonlinear_arith);
    }
}

/// The field sum is the reduced integer sum.
pub proof fn lemma_sum_mod_is_sum_ints(s: Seq<int>)
    ensures
        sum_mod(s) == sum_ints(s) % (P as int),
    decreases s.len(),
{
    if s.len() == 0 {
        lemma_small_mod(0, P as nat);
    } else {
        lemma_sum_mod_is_sum_ints(s.drop_last());
        lemma_add_mod_noop_right(s.last(), sum_ints(s.drop_last()), P as int);
    }
}

/// Diffusion by the optimized fixed-width path.
///
/// Multiplies `state`, as a column vector of canonical field elements, by
/// `J + diag([-2, 2^shifts[0], 2^shifts[1], ...])`.  The unreduced partial
/// sums stay below `2^62`, so each output element costs exactly one
/// reduction.
pub fn permute_mut<const N: usize>(state: &mut [Mersenne31; N], shifts: &[u8])
    requires
        1 <= N <= 24,
        shifts@.len() == N - 1,
        forall|i: int| 0 <= i < shifts@.len() ==> #[trigger] shifts@[i] < 31,
        all_canonical(old(state)@),
    ensures
        all_canonical(final(state)@),
        vals(final(state)@) == diffusion(vals(old(state)@), shifts_ints(shifts@)),
{
    let ghost v0 = vals(old(state)@);
    let mut part_sum: u64 = 0;
    let mut i: usize = 1;
    while i < N
        invariant
            1 <= i <= N,
            N <= 24,
            state@ == old(state)@,
            all_canonical(state@),
            v0 == vals(state@),
            part_sum == sum_ints(v0.subrange(1, i as int)),
            part_sum <= (i - 1) * 0x7fff_fffe,
        decreases N - i,
    {
        proof {
            assert(v0.subrange(1, i + 1).drop_last() =~= v0.subrange(1, i as int));
            assert(v0.subrange(1, i + 1).last() == v0[i as int]);
        }
        part_sum = part_sum + state[i].value as u64;
        i = i + 1;
    }
    proof {
        assert(v0.subrange(1, N as int) =~= v0.skip(1));
        lemma_sum_split_first(v0);
    }
    let full_sum: u64 = part_sum + state[0].value as u64;
    let neg0 = state[0].neg();
    let s0: u64 = part_sum + neg0.value as u64;
    proof {
        if v0[0] == 0 {
            assert(s0 as int == sum_ints(v0) - 2 * v0[0]);
        } else {
            lemma_mod_multiples_vanish(1, sum_ints(v0) - 2 * v0[0], P as int);
            assert(s0 as int == sum_ints(v0) - 2 * v0[0] + P as int);
        }
    }
    let new0 = Mersenne31::from_u62(s0);
    state[0] = new0;
    let ghost target = diffusion(v0, shifts_ints(shifts@));
    let mut i: usize = 1;
    while i < N
        invariant
            1 <= i <= N,
            N <= 24,
            state@.len() == N,
            full_sum == sum_ints(v0),
            0 <= full_sum <= 24 * 0x7fff_fffe,
            target == diffusion(v0, shifts_ints(shifts@)),
            target.len() == N,
            shifts@.len() == N - 1,
            forall|j: int| 0 <= j < shifts@.len() ==> #[trigger] shifts@[j] < 31,
            all_canonical(state@),
            forall|j: int| 0 <= j < i ==> vals(state@)[j] == target[j],
            forall|j: int| i <= j < N ==> state@[j] == old(state)@[j],
            v0 == vals(old(state)@),
        decreases N - i,
    {
        let sh: u8 = shifts[i - 1];
        let x: u64 = state[i].value as u64;
        proof {
            lemma2_to64();
            if sh < 30 {
                lemma_pow2_strictly_increases(sh as nat, 30);
            }
            assert(pow2(sh as nat) <= 0x4000_0000);
            assert((x as int) * (pow2(sh as nat) as int) <= 0x7fff_fffe * 0x4000_0000)
                by (nonlinear_arith)
                requires
                    x as int <= 0x7fff_fffe,
                    pow2(sh as nat) <= 0x4000_0000,
            ;
            lemma_u64_shl_is_mul(x, sh as u64);
        }
        let shifted: u64 = x << (sh as u64);
        proof {
            assert(shifted == x * pow2(sh as nat));
            assert(state@[i as int] == old(state)@[i as int]);
            assert(v0[i as int] == x as int);
        }
        let si: u64 = full_sum + shifted;
        let new_i = Mersenne31::from_u62(si);
        proof {
            assert(shifts_ints(shifts@)[i - 1] == sh as int);
            assert(target[i as int] == (sum_ints(v0) + pow2(shifts_ints(shifts@)[i - 1] as nat)
                * v0[i as int]) % (P as int));
            assert(si == full_sum + shifted);
            assert(full_sum as int == sum_ints(v0));
            assert(shifted as int == x as int * pow2(sh as nat));
            assert(x as int * pow2(sh as nat) == pow2(sh as nat) * v0[i as int])
                by (nonlinear_arith)
                requires
                    x as int == v0[i as int],
            ;
            assert(si as int == sum_ints(v0) + pow2(sh as nat) * v0[i as int]);
        }
        state[i] = new_i;
        i = i + 1;
    }
    proof {
        assert(vals(state@) =~= target);
    }
}

/// The generic formulation of the diffusion map, for values reached only
/// through ring operations.
///
/// This path serves evaluations that cannot take the delayed-reduction
/// shortcut (symbolic or extension-field values); instantiated at the base
/// field it must (and, by [`lemma_generic_diffusion_matches`], does) agree
/// with [`permute_mut`].
pub struct GenericPoseidon2LinearLayersMersenne31 {}

/// Shared body of the generic path: ring operations only, one width's
/// diagonal handed in as its shift table.
fn generic_layer_with_shifts<const N: usize>(state: &mut [Mersenne31; N], shifts: &[u8])
    requires
        3 <= N,
        shifts@.len() == N - 1,
        forall|i: int| 0 <= i < shifts@.len() ==> #[trigger] shifts@[i] < 31,
        all_canonical(old(state)@),
    ensures
        all_canonical(final(state)@),
        vals(final(state)@) == generic_diffusion(vals(old(state)@), shifts_ints(shifts@)),
{
    let ghost v0 = vals(old(state)@);
    let mut part = Mersenne31::new(0);
    let mut i: usize = 1;
    while i < N
        invariant
            1 <= i <= N,
            state@ == old(state)@,
            all_canonical(state@),
            v0 == vals(state@),
            v0.len() == N,
            part.is_canonical(),
            part.value as int == sum_mod(v0.subrange(1, i as int)),
        decreases N - i,
    {
        proof {
            assert(v0.subrange(1, i + 1).drop_last() =~= v0.subrange(1, i as int));
            assert(v0.subrange(1, i + 1).last() == v0[i as int]);
        }
        part = part.add(state[i]);
        i = i + 1;
    }
    proof {
        assert(v0.subrange(1, N as int) =~= v0.skip(1));
    }
    let full = part.add(state[0]);
    let ghost target = generic_diffusion(v0, shifts_ints(shifts@));
    let new0 = part.sub(state[0]);
    let new1 = full.add(state[1]);
    let new2 = full.add(state[2].double());
    state[0] = new0;
    state[1] = new1;
    state[2] = new2;
    let mut i: usize = 3;
    while i < N
        invariant
            3 <= i <= N,
            state@.len() == N,
            full.is_canonical(),
            full.value as int == fadd(sum_mod(v0.skip(1)), v0[0]),
            target == generic_diffusion(v0, shifts_ints(shifts@)),
            target.len() == N,
            shifts@.len() == N - 1,
            forall|j: int| 0 <= j < shifts@.len() ==> #[trigger] shifts@[j] < 31,
            all_canonical(state@),
            forall|j: int| 0 <= j < i ==> vals(state@)[j] == target[j],
            forall|j: int| i <= j < N ==> state@[j] == old(state)@[j],
            v0 == vals(old(state)@),
        decreases N - i,
    {
        let sh: u8 = shifts[i - 1];
        let scaled = state[i].mul_pow2(sh);
        let new_i = full.add(scaled);
        state[i] = new_i;
        i = i + 1;
    }
    proof {
        assert(vals(state@) =~= target);
    }
}

impl GenericPoseidon2LinearLayersMersenne31 {
    /// The generic diffusion layer for the two supported widths.
    pub fn internal_linear_layer<const N: usize>(state: &mut [Mersenne31; N])
        requires
            N == 16 || N == 24,
            all_canonical(old(state)@),
        ensures
            all_canonical(final(state)@),
            vals(final(state)@) == generic_diffusion(
                vals(old(state)@),
                if N == 16 {
                    diag_shifts_16()
                } else {
                    diag_shifts_24()
                },
            ),
    {
        if N == 16 {
            let shifts = diag_shifts_vec_16();
            generic_layer_with_shifts(state, shifts.as_slice());
        } else {
            let shifts = diag_shifts_vec_24();
            generic_layer_with_shifts(state, shifts.as_slice());
        }
    }
}

/// The width-16 diagonal specification as runtime data.
pub fn diag_shifts_vec_16() -> (r: Vec<u8>)
    ensures
        shifts_ints(r@) == diag_shifts_16(),
        r@.len() == 15,
        forall|i: int| 0 <= i < r@.len() ==> #[trigger] r@[i] < 31,
{
    let r: Vec<u8> = vec![0, 1, 2, 3, 4, 5, 6, 7, 8, 10, 12, 13, 14, 15, 16];
    proof {
        assert(shifts_ints(r@) =~= diag_shifts_16());
    }
    r
}

/// The width-24 diagonal specification as runtime data.
pub fn diag_shifts_vec_24() -> (r: Vec<u8>)
    ensures
        shifts_ints(r@) == diag_shifts_24(),
        r@.len() == 23,
        forall|i: int| 0 <= i < r@.len() ==> #[trigger] r@[i] < 31,
{
    let r: Vec<u8> = vec![
        0, 1, 2, 3, 4, 5, 6, 7, 8, 9, 10, 11, 12, 13, 14, 15, 16, 17, 18, 19, 20, 21, 22,
    ];
    proof {
        assert(shifts_ints(r@) =~= diag_shifts_24());
    }
    r
}

/// Law: the generic ring-operation formulation of the diffusion map agrees
/// with the optimized delayed-reduction formulation on every state of
/// canonical field elements, for any diagonal whose first two shift
/// exponents are 0 and 1 (as in both supported widths).
#[verifier::rlimit(50)]
pub proof fn lemma_generic_diffusion_matches(s: Seq<int>, sh: Seq<int>)
    requires
        3 <= s.len(),
        sh.len() == s.len() - 1,
        forall|i: int| 0 <= i < s.len() ==> 0 <= #[trigger] s[i] < P,
        sh[0] == 0,
        sh[1] == 1,
    ensures
        generic_diffusion(s, sh) == diffusion(s, sh),
{
    let m = P as int;
    let tail = s.skip(1);
    lemma_sum_mod_is_sum_ints(tail);
    lemma_sum_split_first(s);
    let part = sum_mod(tail);
    let full = fadd(part, s[0]);
    lemma_add_mod_noop_right(s[0], sum_ints(tail), m);
    assert(full == sum_ints(s) % m);
    lemma2_to64();
    assert forall|i: int| 0 <= i < s.len() implies generic_diffusion(s, sh)[i] == diffusion(
        s,
        sh,
    )[i] by {
        if i == 0 {
            assert(generic_diffusion(s, sh)[0] == fsub(part, s[0]));
            assert(diffusion(s, sh)[0] == (sum_ints(s) - 2 * s[0]) % m);
            lemma_small_mod(s[0] as nat, m as nat);
            lemma_sub_mod_noop(sum_ints(tail), s[0], m);
            assert(fsub(part, s[0]) == (sum_ints(tail) - s[0]) % m);
            assert(sum_ints(tail) - s[0] == sum_ints(s) - 2 * s[0]);
        } else if i == 1 {
            assert(generic_diffusion(s, sh)[1] == fadd(full, s[1]));
            lemma_add_mod_noop_right(s[1], sum_ints(s), m);
            assert(pow2(sh[0] as nat) == 1);
            assert(fadd(full, s[1]) == (sum_ints(s) + s[1]) % m);
            assert(diffusion(s, sh)[1] == (sum_ints(s) + pow2(sh[0] as nat) * s[1]) % m);
            assert(pow2(sh[0] as nat) * s[1] == s[1]) by (nonlinear_arith)
                requires
                    pow2(sh[0] as nat) == 1,
            ;
        } else if i == 2 {
            assert(generic_diffusion(s, sh)[2] == fadd(full, (2 * s[2]) % m));
            lemma_add_mod_noop_right((2 * s[2]) % m, sum_ints(s), m);
            lemma_add_mod_noop_right(sum_ints(s), 2 * s[2], m);
            assert(pow2(sh[1] as nat) == 2);
            assert(fadd(full, (2 * s[2]) % m) == (sum_ints(s) + 2 * s[2]) % m);
            assert(pow2(sh[1] as nat) * s[2] == 2 * s[2]) by (nonlinear_arith)
                requires
                    pow2(sh[1] as nat) == 2,
            ;
        } else {
            assert(generic_diffusion(s, sh)[i] == fadd(full, (s[i] * pow2(sh[i - 1] as nat)) % m));
            lemma_add_mod_noop_right((s[i] * pow2(sh[i - 1] as nat)) % m, sum_ints(s), m);
            lemma_add_mod_noop_right(sum_ints(s), s[i] * pow2(sh[i - 1] as nat), m);
            assert(fadd(full, (s[i] * pow2(sh[i - 1] as nat)) % m) == (sum_ints(s) + s[i] * pow2(
                sh[i - 1] as nat)) % m);
            assert(s[i] * pow2(sh[i - 1] as nat) == pow2(sh[i - 1] as nat) * s[i])
                by (nonlinear_arith);
        }
    }
    assert(generic_diffusion(s, sh) =~= diffusion(s, sh));
}

/// Law: the diffusion map fixes the all-zero state.
pub proof fn lemma_diffusion_zero_fixpoint(s: Seq<int>, sh: Seq<int>)
    requires
        s.len() >= 1,
        sh.len() == s.len() - 1,
        forall|i: int| 0 <= i < s.len() ==> #[trigger] s[i] == 0,
    ensures
        diffusion(s, sh) == s,
{
    lemma_sum_bounds(s, 0);
    assert forall|i: int| 0 <= i < s.len() implies diffusion(s, sh)[i] == s[i] by {
        lemma_small_mod(0, P as nat);
        if i != 0 {
            assert(pow2(sh[i - 1] as nat) * s[i] == 0);
        }
    }
    assert(diffusion(s, sh) =~= s);
}

/// Law: for both supported widths, every diagonal entry `2^e` keeps the
/// delayed-reduction accumulator `full_sum + (p - 1) * 2^e` strictly below
/// the `2^62` safe-reduction threshold.
pub proof fn lemma_diag_entries_safe()
    ensures
        forall|i: int|
            0 <= i < diag_shifts_16().len() ==> 24 * ((P - 1) as int) + ((P - 1) as int) * pow2(
                #[trigger] diag_shifts_16()[i] as nat,
            ) < 0x4000_0000_0000_0000,
        forall|i: int|
            0 <= i < diag_shifts_24().len() ==> 24 * ((P - 1) as int) + ((P - 1) as int) * pow2(
                #[trigger] diag_shifts_24()[i] as nat,
            ) < 0x4000_0000_0000_0000,
{
    lemma2_to64();
    assert forall|i: int| 0 <= i < diag_shifts_16().len() implies 24 * ((P - 1) as int) + ((P
        - 1) as int) * pow2(#[trigger] diag_shifts_16()[i] as nat) < 0x4000_0000_0000_0000 by {
        let e = diag_shifts_16()[i] as nat;
        assert(0 <= diag_shifts_16()[i] <= 22);
        if e < 22 {
            lemma_pow2_strictly_increases(e, 22);
        }
        assert(((P - 1) as int) * pow2(e) <= ((P - 1) as int) * 0x40_0000) by (nonlinear_arith)
            requires
                pow2(e) <= 0x40_0000,
        ;
    }
    assert forall|i: int| 0 <= i < diag_shifts_24().len() implies 24 * ((P - 1) as int) + ((P
        - 1) as int) * pow2(#[trigger] diag_shifts_24()[i] as nat) < 0x4000_0000_0000_0000 by {
        let e = diag_shifts_24()[i] as nat;
        assert(0 <= diag_shifts_24()[i] <= 22);
        if e < 22 {
            lemma_pow2_strictly_increases(e, 22);
        }
        assert(((P - 1) as int) * pow2(e) <= ((P - 1) as int) * 0x40_0000) by (nonlinear_arith)
            requires
                pow2(e) <= 0x40_0000,
        ;
    }
}


/// Pointwise scaling of a state by a field scalar.
pub open spec fn scale_state(a: int, s: Seq<int>) -> Seq<int> {
    Seq::new(s.len(), |i: int| fmul(a, s[i]))
}

/// Pointwise field addition of two states.
pub open spec fn add_states(x: Seq<int>, y: Seq<int>) -> Seq<int> {
    Seq::new(x.len(), |i: int| fadd(x[i], y[i]))
}

/// `(a*u mod p) + (b*v mod p)` reduces to the combination itself.
proof fn lemma_scaled_add(a: int, b: int, u: int, v: int)
    ensures
        ((a * u) % (P as int) + (b * v) % (P as int)) % (P as int) == (a * u + b * v) % (
        P as int),
{
    lemma_add_mod_noop(a * u, b * v, P as int);
}

/// Scaling two already-reduced values and adding reduces to scaling the
/// originals.
proof fn lemma_scale_of_mod(a: int, b: int, u: int, v: int)
    ensures
        ((a * (u % (P as int))) % (P as int) + (b * (v % (P as int))) % (P as int)) % (
        P as int) == (a * u + b * v) % (P as int),
{
    let m = P as int;
    lemma_mul_mod_noop_right(a, u, m);
    lemma_mul_mod_noop_right(b, v, m);
    lemma_add_mod_noop(a * u, b * v, m);
}

/// One output position of the diffusion map is linear: if the sums and the
/// entries of `z` are congruent to the combinations of those of `x` and `y`,
/// so is `sum + c * entry` for any diagonal coefficient `c`.
proof fn lemma_combo_linear(
    a: int,
    b: int,
    sx: int,
    sy: int,
    sz: int,
    xi: int,
    yi: int,
    zi: int,
    c: int,
)
    requires
        sz % (P as int) == (a * sx + b * sy) % (P as int),
        zi == (a * xi + b * yi) % (P as int),
    ensures
        (sz + c * zi) % (P as int) == (a * (sx + c * xi) + b * (sy + c * yi)) % (P as int),
{
    let m = P as int;
    lemma_add_mod_noop(sz, c * zi, m);
    lemma_mul_mod_noop_right(c, a * xi + b * yi, m);
    lemma_mod_bound(c * (a * xi + b * yi), m);
    lemma_small_mod(((c * (a * xi + b * yi)) % m) as nat, m as nat);
    lemma_add_mod_noop(a * sx + b * sy, c * (a * xi + b * yi), m);
    assert(c * (a * xi) == a * (c * xi)) by (nonlinear_arith);
    assert(c * (b * yi) == b * (c * yi)) by (nonlinear_arith);
    vstd::arithmetic::mul::lemma_mul_is_distributive_add(c, a * xi, b * yi);
    vstd::arithmetic::mul::lemma_mul_is_distributive_add(a, sx, c * xi);
    vstd::arithmetic::mul::lemma_mul_is_distributive_add(b, sy, c * yi);
}

/// The sum of a scaled combination of states is congruent to the
/// combination of the sums.
proof fn lemma_sum_linear(a: int, b: int, x: Seq<int>, y: Seq<int>)
    requires
        x.len() == y.len(),
    ensures
        sum_ints(add_states(scale_state(a, x), scale_state(b, y))) % (P as int) == (a * sum_ints(
            x,
        ) + b * sum_ints(y)) % (P as int),
    decreases x.len(),
{
    let m = P as int;
    let z = add_states(scale_state(a, x), scale_state(b, y));
    if x.len() == 0 {
        assert(z.len() == 0);
        assert(a * 0 + b * 0 == 0) by (nonlinear_arith);
    } else {
        lemma_sum_linear(a, b, x.drop_last(), y.drop_last());
        let zdl = add_states(scale_state(a, x.drop_last()), scale_state(b, y.drop_last()));
        assert(z.drop_last() =~= zdl);
        let l = z.last();
        assert(l == ((a * x.last()) % m + (b * y.last()) % m) % m);
        lemma_scaled_add(a, b, x.last(), y.last());
        lemma_mod_bound(a * x.last() + b * y.last(), m);
        lemma_small_mod(l as nat, m as nat);
        lemma_add_mod_noop(sum_ints(zdl), l, m);
        lemma_add_mod_noop(
            a * sum_ints(x.drop_last()) + b * sum_ints(y.drop_last()),
            a * x.last() + b * y.last(),
            m,
        );
        assert(a * sum_ints(x.drop_last()) + b * sum_ints(y.drop_last()) + (a * x.last() + b
            * y.last()) == a * sum_ints(x) + b * sum_ints(y)) by (nonlinear_arith)
            requires
                sum_ints(x) == sum_ints(x.drop_last()) + x.last(),
                sum_ints(y) == sum_ints(y.drop_last()) + y.last(),
        ;
    }
}

/// Law: the diffusion map is linear over the field.  For any field scalars
/// `a`, `b` and any states `x`, `y` of matching width,
/// `diffusion(a*x + b*y) == a*diffusion(x) + b*diffusion(y)`, all
/// operations taken pointwise mod `p`.
#[verifier::rlimit(60)]
pub proof fn lemma_diffusion_linear(a: int, b: int, x: Seq<int>, y: Seq<int>, sh: Seq<int>)
    requires
        x.len() == y.len(),
        x.len() >= 1,
        sh.len() == x.len() - 1,
    ensures
        diffusion(add_states(scale_state(a, x), scale_state(b, y)), sh) == add_states(
            scale_state(a, diffusion(x, sh)),
            scale_state(b, diffusion(y, sh)),
        ),
{
    let m = P as int;
    let z = add_states(scale_state(a, x), scale_state(b, y));
    let dx = diffusion(x, sh);
    let dy = diffusion(y, sh);
    let lhs = diffusion(z, sh);
    let rhs = add_states(scale_state(a, dx), scale_state(b, dy));
    lemma_sum_linear(a, b, x, y);
    assert forall|i: int| 0 <= i < x.len() implies lhs[i] == rhs[i] by {
        let c: int = if i == 0 {
            -2
        } else {
            pow2(sh[i - 1] as nat) as int
        };
        assert(z[i] == ((a * x[i]) % m + (b * y[i]) % m) % m);
        lemma_scaled_add(a, b, x[i], y[i]);
        if i == 0 {
            assert(lhs[i] == (sum_ints(z) - 2 * z[0]) % m);
            assert(sum_ints(z) + c * z[0] == sum_ints(z) - 2 * z[0]);
        } else {
            assert(lhs[i] == (sum_ints(z) + pow2(sh[i - 1] as nat) * z[i]) % m);
        }
        assert(lhs[i] == (sum_ints(z) + c * z[i]) % m);
        lemma_combo_linear(
            a,
            b,
            sum_ints(x),
            sum_ints(y),
            sum_ints(z),
            x[i],
            y[i],
            z[i],
            c,
        );
        if i == 0 {
            assert(dx[i] == (sum_ints(x) - 2 * x[0]) % m);
            assert(dy[i] == (sum_ints(y) - 2 * y[0]) % m);
            assert(sum_ints(x) + c * x[0] == sum_ints(x) - 2 * x[0]);
            assert(sum_ints(y) + c * y[0] == sum_ints(y) - 2 * y[0]);
        } else {
            assert(dx[i] == (sum_ints(x) + pow2(sh[i - 1] as nat) * x[i]) % m);
            assert(dy[i] == (sum_ints(y) + pow2(sh[i - 1] as nat) * y[i]) % m);
        }
        assert(dx[i] == (sum_ints(x) + c * x[i]) % m);
        assert(dy[i] == (sum_ints(y) + c * y[i]) % m);
        assert(rhs[i] == ((a * dx[i]) % m + (b * dy[i]) % m) % m);
        lemma_scale_of_mod(a, b, sum_ints(x) + c * x[i], sum_ints(y) + c * y[i]);
    }
    assert(lhs =~= rhs);
}

} // verus!
