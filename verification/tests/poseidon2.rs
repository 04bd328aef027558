use poseidon2_m31::constants::{default_mersenne31_poseidon2_16, default_mersenne31_poseidon2_24};
use poseidon2_m31::diffusion::{diag_shifts_vec_16, diag_shifts_vec_24, permute_mut, GenericPoseidon2LinearLayersMersenne31};
use poseidon2_m31::external::mds_light_permutation;
use poseidon2_m31::field::{Mersenne31, P};
use rand_xoshiro::rand_core::{Rng, SeedableRng};
use rand_xoshiro::Xoroshiro128Plus;

fn state16(xs: [u32; 16]) -> [Mersenne31; 16] {
    let mut out = [Mersenne31::new(0); 16];
    for i in 0..16 {
        out[i] = Mersenne31::new(xs[i]);
    }
    out
}

fn state24(xs: [u32; 24]) -> [Mersenne31; 24] {
    let mut out = [Mersenne31::new(0); 24];
    for i in 0..24 {
        out[i] = Mersenne31::new(xs[i]);
    }
    out
}

const INPUT_16: [u32; 16] = [
    894848333, 1437655012, 1200606629, 1690012884, 71131202, 1749206695, 1717947831, 120589055,
    19776022, 42382981, 1831865506, 724844064, 171220207, 1299207443, 227047920, 1783754913,
];

const EXPECTED_16: [u32; 16] = [
    1124552602, 2127602268, 1834113265, 1207687593, 1891161485, 245915620, 981277919, 627265710,
    1534924153, 1580826924, 887997842, 1526280482, 547791593, 1028672510, 1803086471, 323071277,
];

const INPUT_24: [u32; 24] = [
    886409618, 1327899896, 1902407911, 591953491, 648428576, 1844789031, 1198336108, 355597330,
    1799586834, 59617783, 790334801, 1968791836, 559272107, 31054313, 1042221543, 474748436,
    135686258, 263665994, 1962340735, 1741539604, 2026927696, 449439011, 1131357108, 50869465,
];

const EXPECTED_24: [u32; 24] = [
    87189408, 212775836, 954807335, 1424761838, 1222521810, 1264950009, 1891204592, 710452896,
    957091834, 1776630156, 1091081383, 786687731, 1101902149, 1281649821, 436070674, 313565599,
    1961711763, 2002894460, 2040173120, 854107426, 25198245, 1967213543, 604802266, 2086190331,
];

#[test]
fn test_poseidon2_width_16_random() {
    let mut input = state16(INPUT_16);
    let expected = state16(EXPECTED_16);
    let perm = default_mersenne31_poseidon2_16();
    perm.permute_mut(&mut input);
    assert_eq!(input, expected);
}

#[test]
fn test_poseidon2_width_24_random() {
    let mut input = state24(INPUT_24);
    let expected = state24(EXPECTED_24);
    let perm = default_mersenne31_poseidon2_24();
    perm.permute_mut(&mut input);
    assert_eq!(input, expected);
}

/// The default tables are exactly the ones the standard seeded generator
/// produces: rebuilding the instance from that stream gives the same
/// known-answer result.
#[test]
fn test_width_16_constants_from_seeded_stream() {
    let mut rng = Xoroshiro128Plus::seed_from_u64(1);
    let mut draw = |n: usize| -> Vec<Mersenne31> {
        let mut row = Vec::new();
        while row.len() < n {
            let candidate = (rng.next_u32() >> 1) as u32;
            if candidate != P {
                row.push(Mersenne31::new(candidate));
            }
        }
        row
    };
    let mut initial = Vec::new();
    for _ in 0..4 {
        initial.push(draw(16));
    }
    let mut terminal = Vec::new();
    for _ in 0..4 {
        terminal.push(draw(16));
    }
    let internal = draw(14);
    let perm = poseidon2_m31::permutation::Poseidon2Mersenne31::<16>::new(
        initial,
        terminal,
        internal,
        diag_shifts_vec_16(),
    );
    let mut input = state16(INPUT_16);
    perm.permute_mut(&mut input);
    assert_eq!(input, state16(EXPECTED_16));
}

#[test]
fn test_default_instance_shapes() {
    let p16 = default_mersenne31_poseidon2_16();
    assert_eq!(p16.external_initial.len(), 4);
    assert_eq!(p16.external_terminal.len(), 4);
    assert_eq!(p16.internal.len(), 14);
    assert_eq!(
        p16.shifts,
        vec![0, 1, 2, 3, 4, 5, 6, 7, 8, 10, 12, 13, 14, 15, 16]
    );
    for row in &p16.external_initial {
        assert_eq!(row.len(), 16);
    }
    let p24 = default_mersenne31_poseidon2_24();
    assert_eq!(p24.external_initial.len(), 4);
    assert_eq!(p24.external_terminal.len(), 4);
    assert_eq!(p24.internal.len(), 22);
    assert_eq!(
        p24.shifts,
        vec![0, 1, 2, 3, 4, 5, 6, 7, 8, 9, 10, 11, 12, 13, 14, 15, 16, 17, 18, 19, 20, 21, 22]
    );
    for row in &p24.external_terminal {
        assert_eq!(row.len(), 24);
    }
}

/// Repeated application of the permutation to the same input always gives
/// the same output.
#[test]
fn test_permutation_deterministic() {
    let perm = default_mersenne31_poseidon2_16();
    let mut a = state16(INPUT_16);
    let mut b = state16(INPUT_16);
    perm.permute_mut(&mut a);
    perm.permute_mut(&mut b);
    assert_eq!(a, b);
}

/// The diffusion transform alone fixes the all-zero state.
#[test]
fn test_diffusion_zero_fixpoint() {
    let shifts = diag_shifts_vec_16();
    let mut state = [Mersenne31::new(0); 16];
    permute_mut(&mut state, shifts.as_slice());
    assert_eq!(state, [Mersenne31::new(0); 16]);

    let shifts = diag_shifts_vec_24();
    let mut state = [Mersenne31::new(0); 24];
    permute_mut(&mut state, shifts.as_slice());
    assert_eq!(state, [Mersenne31::new(0); 24]);
}

/// The generic ring-operation path agrees with the optimized path on the
/// same inputs, for both widths.
#[test]
fn test_generic_matches_optimized() {
    let mut a = state16(INPUT_16);
    let mut b = state16(INPUT_16);
    permute_mut(&mut a, diag_shifts_vec_16().as_slice());
    GenericPoseidon2LinearLayersMersenne31::internal_linear_layer(&mut b);
    assert_eq!(a, b);

    let mut a = state24(INPUT_24);
    let mut b = state24(INPUT_24);
    permute_mut(&mut a, diag_shifts_vec_24().as_slice());
    GenericPoseidon2LinearLayersMersenne31::internal_linear_layer(&mut b);
    assert_eq!(a, b);
}

/// The diffusion transform is linear: transform(a*x + b*y) equals
/// a*transform(x) + b*transform(y), elementwise over the field.
#[test]
fn test_diffusion_linearity() {
    let a = Mersenne31::new(2);
    let b = Mersenne31::new(1234567);
    let x = state16(INPUT_16);
    let y = state16(EXPECTED_16);
    let shifts = diag_shifts_vec_16();

    let mut combo = [Mersenne31::new(0); 16];
    for i in 0..16 {
        combo[i] = a.mul(x[i]).add(b.mul(y[i]));
    }
    permute_mut(&mut combo, shifts.as_slice());

    let mut dx = x;
    let mut dy = y;
    permute_mut(&mut dx, shifts.as_slice());
    permute_mut(&mut dy, shifts.as_slice());
    let mut rhs = [Mersenne31::new(0); 16];
    for i in 0..16 {
        rhs[i] = a.mul(dx[i]).add(b.mul(dy[i]));
    }
    assert_eq!(combo, rhs);
}

/// One diffusion call on a tiny width, checked against hand-computed
/// values: state [5, 7] with shift table [3] gives
/// [sum - 2*5, sum + 7*8] = [2, 68].
#[test]
fn test_permute_mut_small_exact() {
    let mut state = [Mersenne31::new(5), Mersenne31::new(7)];
    let shifts: [u8; 1] = [3];
    permute_mut(&mut state, &shifts);
    assert_eq!(state, [Mersenne31::new(2), Mersenne31::new(68)]);
}

/// One light-MDS call on a single 4-entry block, checked against
/// hand-computed values.
#[test]
fn test_mds_light_small_exact() {
    let mut state = [
        Mersenne31::new(1),
        Mersenne31::new(2),
        Mersenne31::new(3),
        Mersenne31::new(4),
    ];
    mds_light_permutation(&mut state);
    // mat4 gives [15, 18, 21, 16]; adding the column sums doubles each.
    assert_eq!(
        state,
        [
            Mersenne31::new(30),
            Mersenne31::new(36),
            Mersenne31::new(42),
            Mersenne31::new(32),
        ]
    );
}

#[test]
fn test_field_ops_exact() {
    let p_minus_1 = Mersenne31::new(P - 1);
    assert_eq!(p_minus_1.add(p_minus_1).value, P - 2);
    assert_eq!(p_minus_1.mul(p_minus_1).value, 1);
    assert_eq!(Mersenne31::new(0).neg().value, 0);
    assert_eq!(Mersenne31::new(5).neg().value, P - 5);
    assert_eq!(Mersenne31::new(3).sub(Mersenne31::new(5)).value, P - 2);
    assert_eq!(Mersenne31::new(7).exp5().value, 16807);
    assert_eq!(Mersenne31::new(3).mul_pow2(30).value, 1073741825);
    assert_eq!(Mersenne31::new(6).double().value, 12);
}

#[test]
fn test_from_u62_exact() {
    assert_eq!(Mersenne31::from_u62(0).value, 0);
    assert_eq!(Mersenne31::from_u62(P as u64).value, 0);
    assert_eq!(Mersenne31::from_u62(1u64 << 31).value, 1);
    assert_eq!(Mersenne31::from_u62((P as u64) + 5).value, 5);
    assert_eq!(Mersenne31::from_u62(0x3fff_ffff_ffff_ffff).value, 0);
}
