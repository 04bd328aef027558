//! The external (full) rounds: add a round constant to every position,
//! apply the nonlinear substitution everywhere, then mix with the
//! block-circulant light MDS matrix built from a fixed 4x4 block.

use vstd::prelude::*;
use crate::field::{all_canonical, fadd, fpow5, vals, Mersenne31, P};

verus! {

/// Pointwise field addition of a round-constant vector.
pub open spec fn add_rc_spec(s: Seq<int>, rc: Seq<int>) -> Seq<int> {
    Seq::new(s.len(), |i: int| fadd(s[i], rc[i]))
}

/// The nonlinear substitution applied to every position.
pub open spec fn sbox_layer_spec(s: Seq<int>) -> Seq<int> {
    Seq::new(s.len(), |i: int| fpow5(s[i]))
}

/// Row `r` of the 4x4 block `[[2,3,1,1],[1,2,3,1],[1,1,2,3],[3,1,1,2]]`
/// applied to the four entries of `s` starting at `b`.
pub open spec fn mat4_row(s: Seq<int>, b: int, r: int) -> int {
    if r == 0 {
        (2 * s[b] + 3 * s[b + 1] + s[b + 2] + s[b + 3]) % (P as int)
    } else if r == 1 {
        (s[b] + 2 * s[b + 1] + 3 * s[b + 2] + s[b + 3]) % (P as int)
    } else if r == 2 {
        (s[b] + s[b + 1] + 2 * s[b + 2] + 3 * s[b + 3]) % (P as int)
    } else {
        (3 * s[b] + s[b + 1] + s[b + 2] + 2 * s[b + 3]) % (P as int)
    }
}

/// The 4x4 block applied to each aligned four-entry chunk of the state.
pub open spec fn after_mat4(s: Seq<int>) -> Seq<int> {
    Seq::new(s.len(), |i: int| mat4_row(s, 4 * (i / 4), i % 4))
}

/// Integer sum of the entries of `t` at position `k` of every four-entry
/// chunk.
pub open spec fn col_sum(t: Seq<int>, k: int) -> int
    decreases t.len(),
{
    if t.len() < 4 {
        0
    } else {
        col_sum(t.subrange(0, t.len() - 4), k) + t[t.len() - 4 + k]
    }
}

/// The light MDS mixing: the 4x4 block on each chunk, then each entry picks
/// up the sum of the entries in its position class.
pub open spec fn mds_light(s: Seq<int>) -> Seq<int> {
    let t = after_mat4(s);
    Seq::new(s.len(), |i: int| (t[i] + col_sum(t, i % 4)) % (P as int))
}

/// One external round: constants, substitution, mixing.
pub open spec fn external_round(s: Seq<int>, rc: Seq<int>) -> Seq<int> {
    mds_light(sbox_layer_spec(add_rc_spec(s, rc)))
}

/// A run of external rounds, one per constant vector, in order.
pub open spec fn external_rounds(s: Seq<int>, rcs: Seq<Seq<int>>) -> Seq<int>
    decreases rcs.len(),
{
    if rcs.len() == 0 {
        s
    } else {
        external_round(external_rounds(s, rcs.drop_last()), rcs.last())
    }
}

/// The initial half additionally mixes once before its rounds.
pub open spec fn external_initial_rounds(s: Seq<int>, rcs: Seq<Seq<int>>) -> Seq<int> {
    external_rounds(mds_light(s), rcs)
}

/// The integer values of a table of round-constant vectors.
pub open spec fn rc_vals(rcs: Seq<Vec<Mersenne31>>) -> Seq<Seq<int>> {
    rcs.map_values(|v: Vec<Mersenne31>| vals(v@))
}

/// A well-shaped table of canonical round-constant vectors for width `n`.
pub open spec fn rc_table_wf(rcs: Seq<Vec<Mersenne31>>, n: nat) -> bool {
    forall|r: int|
        0 <= r < rcs.len() ==> (#[trigger] rcs[r])@.len() == n && all_canonical(rcs[r]@)
}

/// Add one round constant and apply the substitution, for a single position.
pub fn add_rc_and_sbox(x: Mersenne31, rc: Mersenne31) -> (r: Mersenne31)
    requires
        x.is_canonical(),
        rc.is_canonical(),
    ensures
        r.is_canonical(),
        r.value as int == fpow5(fadd(x.value as int, rc.value as int)),
{
    x.add(rc).exp5()
}

/// The light MDS mixing on a state of canonical field elements.
///
/// Both phases use delayed reduction: the 4x4 block rows and the
/// position-class sums are accumulated wide and reduced once per entry.
pub fn mds_light_permutation<const N: usize>(state: &mut [Mersenne31; N])
    requires
        N % 4 == 0,
        4 <= N <= 24,
        all_canonical(old(state)@),
    ensures
        all_canonical(final(state)@),
        vals(final(state)@) == mds_light(vals(old(state)@)),
{
    let ghost v0 = vals(old(state)@);
    let mut c: usize = 0;
    while c < N
        invariant
            0 <= c <= N,
            c % 4 == 0,
            N % 4 == 0,
            4 <= N <= 24,
            state@.len() == N,
            v0 == vals(old(state)@),
            v0.len() == N,
            all_canonical(state@),
            forall|j: int| 0 <= j < c ==> vals(state@)[j] == after_mat4(v0)[j],
            forall|j: int| c <= j < N ==> state@[j] == old(state)@[j],
        decreases N - c,
    {
        let a: u64 = state[c].value as u64;
        let b: u64 = state[c + 1].value as u64;
        let d: u64 = state[c + 2].value as u64;
        let e: u64 = state[c + 3].value as u64;
        let n0 = Mersenne31::from_u62(2 * a + 3 * b + d + e);
        let n1 = Mersenne31::from_u62(a + 2 * b + 3 * d + e);
        let n2 = Mersenne31::from_u62(a + b + 2 * d + 3 * e);
        let n3 = Mersenne31::from_u62(3 * a + b + d + 2 * e);
        proof {
            assert forall|r: int| 0 <= r < 4 implies after_mat4(v0)[c + r] == mat4_row(
                v0,
                c as int,
                r,
            ) by {
                assert((c + r) / 4 == c as int / 4 && (c + r) % 4 == r);
                assert(4 * ((c + r) / 4) == c as int);
            }
        }
        state[c] = n0;
        state[c + 1] = n1;
        state[c + 2] = n2;
        state[c + 3] = n3;
        c = c + 4;
    }
    let ghost t = vals(state@);
    proof {
        assert(t =~= after_mat4(v0));
    }
    let mut s0: u64 = 0;
    let mut s1: u64 = 0;
    let mut s2: u64 = 0;
    let mut s3: u64 = 0;
    let mut j: usize = 0;
    while j < N
        invariant
            0 <= j <= N,
            j % 4 == 0,
            N % 4 == 0,
            4 <= N <= 24,
            state@.len() == N,
            t == vals(state@),
            t.len() == N,
            all_canonical(state@),
            s0 == col_sum(t.take(j as int), 0),
            s1 == col_sum(t.take(j as int), 1),
            s2 == col_sum(t.take(j as int), 2),
            s3 == col_sum(t.take(j as int), 3),
            s0 <= j * 0x7fff_fffe,
            s1 <= j * 0x7fff_fffe,
            s2 <= j * 0x7fff_fffe,
            s3 <= j * 0x7fff_fffe,
        decreases N - j,
    {
        proof {
            assert forall|k: int| 0 <= k < 4 implies col_sum(t.take(j + 4), k) == col_sum(
                t.take(j as int),
                k,
            ) + t[j + k] by {
                assert(t.take(j + 4).subrange(0, j as int) =~= t.take(j as int));
                assert(t.take(j + 4)[j + k] == t[j + k]);
            }
        }
        s0 = s0 + state[j].value as u64;
        s1 = s1 + state[j + 1].value as u64;
        s2 = s2 + state[j + 2].value as u64;
        s3 = s3 + state[j + 3].value as u64;
        j = j + 4;
    }
    proof {
        assert(t.take(N as int) =~= t);
    }
    let ghost target = mds_light(v0);
    let mut i: usize = 0;
    while i < N
        invariant
            0 <= i <= N,
            N <= 24,
            state@.len() == N,
            t.len() == N,
            v0.len() == N,
            t == after_mat4(v0),
            target == mds_light(v0),
            target.len() == N,
            all_canonical(state@),
            s0 == col_sum(t, 0) && s0 <= 24 * 0x7fff_fffe,
            s1 == col_sum(t, 1) && s1 <= 24 * 0x7fff_fffe,
            s2 == col_sum(t, 2) && s2 <= 24 * 0x7fff_fffe,
            s3 == col_sum(t, 3) && s3 <= 24 * 0x7fff_fffe,
            forall|j2: int| 0 <= j2 < i ==> vals(state@)[j2] == target[j2],
            forall|j2: int| i <= j2 < N ==> vals(state@)[j2] == t[j2],
        decreases N - i,
    {
        let r: usize = i % 4;
        let sum_k: u64 = if r == 0 {
            s0
        } else if r == 1 {
            s1
        } else if r == 2 {
            s2
        } else {
            s3
        };
        let new_i = Mersenne31::from_u62(state[i].value as u64 + sum_k);
        proof {
            assert(target[i as int] == (t[i as int] + col_sum(t, i as int % 4)) % (P as int));
        }
        state[i] = new_i;
        i = i + 1;
    }
    proof {
        assert(vals(state@) =~= target);
    }
}

/// The terminal external rounds: for each constant vector, add it, apply the
/// substitution everywhere, and mix.
pub fn external_terminal_permute_state<const N: usize>(
    state: &mut [Mersenne31; N],
    rcs: &Vec<Vec<Mersenne31>>,
)
    requires
        N % 4 == 0,
        4 <= N <= 24,
        all_canonical(old(state)@),
        rc_table_wf(rcs@, N as nat),
    ensures
        all_canonical(final(state)@),
        vals(final(state)@) == external_rounds(vals(old(state)@), rc_vals(rcs@)),
{
    let ghost v0 = vals(old(state)@);
    let n_rounds: usize = rcs.len();
    let mut r: usize = 0;
    while r < n_rounds
        invariant
            0 <= r <= n_rounds,
            n_rounds == rcs@.len(),
            N % 4 == 0,
            4 <= N <= 24,
            state@.len() == N,
            rc_table_wf(rcs@, N as nat),
            all_canonical(state@),
            v0.len() == N,
            vals(state@) == external_rounds(v0, rc_vals(rcs@).take(r as int)),
        decreases n_rounds - r,
    {
        let ghost before = vals(state@);
        let rc_row: &Vec<Mersenne31> = &rcs[r];
        let mut i: usize = 0;
        while i < N
            invariant
                0 <= i <= N,
                state@.len() == N,
                rc_row@.len() == N,
                all_canonical(rc_row@),
                all_canonical(state@),
                before.len() == N,
                forall|j: int|
                    0 <= j < i ==> vals(state@)[j] == fpow5(fadd(before[j], vals(rc_row@)[j])),
                forall|j: int| i <= j < N ==> vals(state@)[j] == before[j],
        decreases N - i,
        {
            let x = state[i];
            let rc_i = rc_row[i];
            proof {
                assert(vals(state@)[i as int] == x.value as int);
                assert(vals(rc_row@)[i as int] == rc_i.value as int);
            }
            let new_i = add_rc_and_sbox(x, rc_i);
            let ghost pre = vals(state@);
            state[i] = new_i;
            proof {
                assert(vals(state@) =~= pre.update(i as int, new_i.value as int));
            }
            i = i + 1;
        }
        proof {
            assert(vals(state@) =~= sbox_layer_spec(add_rc_spec(before, vals(rc_row@))));
        }
        mds_light_permutation(state);
        proof {
            let rv = rc_vals(rcs@);
            assert(rv[r as int] == vals(rc_row@));
            assert(rv.take(r + 1).drop_last() =~= rv.take(r as int));
            assert(rv.take(r + 1).last() == rv[r as int]);
            assert(vals(state@) == external_round(before, rv[r as int]));
        }
        r = r + 1;
    }
    proof {
        assert(rc_vals(rcs@).take(n_rounds as int) =~= rc_vals(rcs@));
    }
}

/// The initial external rounds: one mixing first, then the standard rounds.
pub fn external_initial_permute_state<const N: usize>(
    state: &mut [Mersenne31; N],
    rcs: &Vec<Vec<Mersenne31>>,
)
    requires
        N % 4 == 0,
        4 <= N <= 24,
        all_canonical(old(state)@),
        rc_table_wf(rcs@, N as nat),
    ensures
        all_canonical(final(state)@),
        vals(final(state)@) == external_initial_rounds(vals(old(state)@), rc_vals(rcs@)),
{
    mds_light_permutation(state);
    external_terminal_permute_state(state, rcs);
}

} // verus!
