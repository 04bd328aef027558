//! Assembly of the full permutation: initial external rounds, internal
//! rounds, terminal external rounds, driven by one immutable instance that
//! owns its round-constant tables and its diagonal specification.

use vstd::prelude::*;
use crate::field::{all_canonical, fadd, fpow5, vals, Mersenne31};
use crate::diffusion::{diffusion, permute_mut, shifts_ints};
use crate::external::{
    add_rc_and_sbox, external_initial_permute_state, external_initial_rounds, external_rounds,
    external_terminal_permute_state, rc_table_wf, rc_vals,
};

verus! {

/// One internal round: add the round constant to position 0, apply the
/// substitution there, then diffuse.
pub open spec fn internal_round(s: Seq<int>, c: int, sh: Seq<int>) -> Seq<int> {
    diffusion(s.update(0, fpow5(fadd(s[0], c))), sh)
}

/// A run of internal rounds, one per scalar constant, in order.
pub open spec fn internal_rounds(s: Seq<int>, cs: Seq<int>, sh: Seq<int>) -> Seq<int>
    decreases cs.len(),
{
    if cs.len() == 0 {
        s
    } else {
        internal_round(internal_rounds(s, cs.drop_last(), sh), cs.last(), sh)
    }
}

/// The internal rounds of the permutation, executed in place.
pub fn internal_permute_state<const N: usize>(
    state: &mut [Mersenne31; N],
    shifts: &[u8],
    constants: &Vec<Mersenne31>,
)
    requires
        1 <= N <= 24,
        shifts@.len() == N - 1,
        forall|i: int| 0 <= i < shifts@.len() ==> #[trigger] shifts@[i] < 31,
        all_canonical(old(state)@),
        all_canonical(constants@),
    ensures
        all_canonical(final(state)@),
        vals(final(state)@) == internal_rounds(
            vals(old(state)@),
            vals(constants@),
            shifts_ints(shifts@),
        ),
{
    let ghost v0 = vals(old(state)@);
    let ghost cv = vals(constants@);
    let ghost shi = shifts_ints(shifts@);
    let n_rounds: usize = constants.len();
    let mut r: usize = 0;
    while r < n_rounds
        invariant
            0 <= r <= n_rounds,
            n_rounds == constants@.len(),
            1 <= N <= 24,
            state@.len() == N,
            shifts@.len() == N - 1,
            forall|i: int| 0 <= i < shifts@.len() ==> #[trigger] shifts@[i] < 31,
            all_canonical(constants@),
            all_canonical(state@),
            cv == vals(constants@),
            shi == shifts_ints(shifts@),
            v0.len() == N,
            vals(state@) == internal_rounds(v0, cv.take(r as int), shi),
        decreases n_rounds - r,
    {
        let ghost before = vals(state@);
        let c = constants[r];
        let x = state[0];
        proof {
            assert(vals(state@)[0] == x.value as int);
            assert(cv[r as int] == c.value as int);
        }
        let new0 = add_rc_and_sbox(x, c);
        let ghost pre = vals(state@);
        state[0] = new0;
        proof {
            assert(vals(state@) =~= pre.update(0, new0.value as int));
        }
        permute_mut(state, shifts);
        proof {
            assert(cv.take(r + 1).drop_last() =~= cv.take(r as int));
            assert(cv.take(r + 1).last() == cv[r as int]);
            assert(vals(state@) == internal_round(before, cv[r as int], shi));
        }
        r = r + 1;
    }
    proof {
        assert(cv.take(n_rounds as int) =~= cv);
    }
}

/// A complete permutation instance for one width: the two external
/// round-constant tables, the internal round-constant table, and the
/// diagonal specification.  Immutable once constructed.
pub struct Poseidon2Mersenne31<const WIDTH: usize> {
    pub external_initial: Vec<Vec<Mersenne31>>,
    pub external_terminal: Vec<Vec<Mersenne31>>,
    pub internal: Vec<Mersenne31>,
    pub shifts: Vec<u8>,
}

impl<const WIDTH: usize> Poseidon2Mersenne31<WIDTH> {
    /// Shape invariant: tables match the width, all constants canonical,
    /// the diagonal specification has one shift per position past the first.
    pub open spec fn wf(self) -> bool {
        &&& WIDTH % 4 == 0
        &&& 4 <= WIDTH <= 24
        &&& rc_table_wf(self.external_initial@, WIDTH as nat)
        &&& rc_table_wf(self.external_terminal@, WIDTH as nat)
        &&& all_canonical(self.internal@)
        &&& self.shifts@.len() == WIDTH - 1
        &&& forall|i: int| 0 <= i < self.shifts@.len() ==> #[trigger] self.shifts@[i] < 31
    }

    /// The permutation as a function on states of field values: initial
    /// external rounds, internal rounds, terminal external rounds.
    pub open spec fn permutation(self, s: Seq<int>) -> Seq<int> {
        external_rounds(
            internal_rounds(
                external_initial_rounds(s, rc_vals(self.external_initial@)),
                vals(self.internal@),
                shifts_ints(self.shifts@),
            ),
            rc_vals(self.external_terminal@),
        )
    }

    /// Bundle round-constant tables and a diagonal specification into an
    /// instance.  The shapes are demanded up front, so construction cannot
    /// fail.
    pub fn new(
        external_initial: Vec<Vec<Mersenne31>>,
        external_terminal: Vec<Vec<Mersenne31>>,
        internal: Vec<Mersenne31>,
        shifts: Vec<u8>,
    ) -> (r: Self)
        requires
            WIDTH % 4 == 0,
            4 <= WIDTH <= 24,
            rc_table_wf(external_initial@, WIDTH as nat),
            rc_table_wf(external_terminal@, WIDTH as nat),
            all_canonical(internal@),
            shifts@.len() == WIDTH - 1,
            forall|i: int| 0 <= i < shifts@.len() ==> #[trigger] shifts@[i] < 31,
        ensures
            r.wf(),
            r.external_initial == external_initial,
            r.external_terminal == external_terminal,
            r.internal == internal,
            r.shifts == shifts,
    {
        Poseidon2Mersenne31 { external_initial, external_terminal, internal, shifts }
    }

    /// Run the full permutation on a state, in place.
    pub fn permute_mut(&self, state: &mut [Mersenne31; WIDTH])
        requires
            self.wf(),
            all_canonical(old(state)@),
        ensures
            all_canonical(final(state)@),
            vals(final(state)@) == self.permutation(vals(old(state)@)),
    {
        external_initial_permute_state(state, &self.external_initial);
        internal_permute_state(state, self.shifts.as_slice(), &self.internal);
        external_terminal_permute_state(state, &self.external_terminal);
    }

    /// How often one permutation call applies the nonlinear substitution:
    /// counted round by round, as the rounds are defined.
    pub open spec fn sbox_applications(self) -> nat {
        sbox_count_external(rc_vals(self.external_initial@), WIDTH as nat) + sbox_count_internal(
            vals(self.internal@),
        ) + sbox_count_external(rc_vals(self.external_terminal@), WIDTH as nat)
    }
}

/// Substitution count of a run of external rounds: each round applies it to
/// every one of the `w` positions.
pub open spec fn sbox_count_external(rcs: Seq<Seq<int>>, w: nat) -> nat
    decreases rcs.len(),
{
    if rcs.len() == 0 {
        0
    } else {
        sbox_count_external(rcs.drop_last(), w) + w
    }
}

/// Substitution count of a run of internal rounds: one per round, at
/// position 0 only.
pub open spec fn sbox_count_internal(cs: Seq<int>) -> nat
    decreases cs.len(),
{
    if cs.len() == 0 {
        0
    } else {
        sbox_count_internal(cs.drop_last()) + 1
    }
}

proof fn lemma_sbox_count_external_closed(rcs: Seq<Seq<int>>, w: nat)
    ensures
        sbox_count_external(rcs, w) == rcs.len() * w,
    decreases rcs.len(),
{
    if rcs.len() == 0 {
    } else {
        lemma_sbox_count_external_closed(rcs.drop_last(), w);
        assert((rcs.len() - 1) * w + w == rcs.len() * w) by (nonlinear_arith);
    }
}

proof fn lemma_sbox_count_internal_closed(cs: Seq<int>)
    ensures
        sbox_count_internal(cs) == cs.len(),
    decreases cs.len(),
{
    if cs.len() == 0 {
    } else {
        lemma_sbox_count_internal_closed(cs.drop_last());
    }
}

/// Law: the number of nonlinear-substitution applications in one
/// permutation call equals (external rounds x width) + (internal rounds x 1),
/// so a constant table whose length disagrees with the round-driving loop is
/// a detectable inconsistency.
pub proof fn lemma_sbox_round_count<const WIDTH: usize>(c: Poseidon2Mersenne31<WIDTH>)
    ensures
        c.sbox_applications() == (c.external_initial@.len() + c.external_terminal@.len()) * (
        WIDTH as nat) + c.internal@.len(),
{
    lemma_sbox_count_external_closed(rc_vals(c.external_initial@), WIDTH as nat);
    lemma_sbox_count_external_closed(rc_vals(c.external_terminal@), WIDTH as nat);
    lemma_sbox_count_internal_closed(vals(c.internal@));
    assert(c.external_initial@.len() * (WIDTH as nat) + c.external_terminal@.len() * (
    WIDTH as nat) == (c.external_initial@.len() + c.external_terminal@.len()) * (WIDTH as nat))
        by (nonlinear_arith);
}

/// Law: the permutation is deterministic.  Its output is a function of the
/// input state and the instance's tables alone; two calls on equal states
/// yield equal outputs.
pub proof fn lemma_permutation_deterministic<const WIDTH: usize>(
    c: Poseidon2Mersenne31<WIDTH>,
    s1: Seq<int>,
    s2: Seq<int>,
)
    requires
        s1 == s2,
    ensures
        c.permutation(s1) == c.permutation(s2),
{
}

} // verus!
