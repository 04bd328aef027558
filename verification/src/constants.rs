//! Parameter assembly: the fixed round-constant tables for the two
//! supported widths, bundled with their diagonal specifications into
//! ready-to-use permutation instances.
//!
//! The tables are opaque parameter data produced by an offline generator.
//! Each table is stated once as a specification-level sequence, and the
//! constructors' contracts pin the built instances to exactly those values.

use vstd::prelude::*;
use crate::field::{all_canonical, vals, Mersenne31, P};
use crate::diffusion::{diag_shifts_16, diag_shifts_24, diag_shifts_vec_16, diag_shifts_vec_24, shifts_ints};
use crate::external::rc_vals;
use crate::permutation::Poseidon2Mersenne31;

verus! {

/// Convert one table row of canonical raw values into field elements.
fn row_from<const N: usize>(xs: &[u32; N]) -> (r: Vec<Mersenne31>)
    requires
        forall|i: int| 0 <= i < N ==> #[trigger] xs@[i] < P,
    ensures
        r@.len() == N,
        all_canonical(r@),
        forall|i: int| 0 <= i < N ==> #[trigger] vals(r@)[i] == xs@[i] as int,
{
    let mut out: Vec<Mersenne31> = Vec::new();
    let mut i: usize = 0;
    while i < N
        invariant
            0 <= i <= N,
            out@.len() == i,
            all_canonical(out@),
            forall|j: int| 0 <= j < N ==> #[trigger] xs@[j] < P,
            forall|j: int| 0 <= j < i ==> #[trigger] vals(out@)[j] == xs@[j] as int,
        decreases N - i,
    {
        let m = Mersenne31::new(xs[i]);
        let ghost pre = vals(out@);
        out.push(m);
        proof {
            assert(vals(out@) =~= pre.push(m.value as int));
        }
        i = i + 1;
    }
    out
}

/// The width-16 external initial round constants, as field values.
pub open spec fn rc16_external_initial() -> Seq<Seq<int>> {
    seq![
        seq![
            0x27faddc6, 0x7a5db1b1, 0x33b673a5, 0x42d2f10a, 0x673f8501, 0x69f3172a, 0x3a1aacc7,
            0x331eb8f1, 0x59f4d770, 0x37a6ab46, 0x12670d59, 0x5fc1f45b, 0x5330d05e, 0x4a71d722,
            0x2bb9509f, 0x603fd075,
        ],
        seq![
            0x56e28c10, 0x1292583d, 0x7a86e245, 0x676cdcc6, 0x5d35299e, 0x155d1779, 0x24adc6d8,
            0x3cf871aa, 0x680eec9e, 0x56871ac5, 0x3c37e068, 0x1c843775, 0x3a19ec82, 0x31dd09f8,
            0x2104cdea, 0x1524a31c,
        ],
        seq![
            0x418c75fd, 0x3910d1e5, 0x45cd2ac2, 0x4e56be1e, 0x5de561e7, 0x1e7a90c3, 0x69efcab2,
            0x2c5564be, 0x30fb3400, 0x15c59742, 0x7d2e8ad3, 0x5ffef99a, 0x6a33b2f1, 0x61e641c2,
            0x39b4da8e, 0x066c5840,
        ],
        seq![
            0x12203c68, 0x3e838218, 0x27f09a5c, 0x6cc75f6a, 0x29aecefc, 0x163b0f26, 0x504af1b3,
            0x3ca3d195, 0x2974d608, 0x58e07d2e, 0x62b933c5, 0x37b07761, 0x5baccad0, 0x42d55017,
            0x4c60fe28, 0x5fea04a0,
        ],
    ]
}

/// The width-16 external terminal round constants, as field values.
pub open spec fn rc16_external_terminal() -> Seq<Seq<int>> {
    seq![
        seq![
            0x120a3490, 0x7a7e3f52, 0x00f5b66b, 0x2fcdcdb2, 0x15668866, 0x58e539c9, 0x090b66f8,
            0x0751a868, 0x2fd9e62c, 0x7fc3f22f, 0x786ab79e, 0x1a0eb734, 0x5ff7116d, 0x488bf048,
            0x6d43f9f6, 0x7f47ab30,
        ],
        seq![
            0x039ea33d, 0x0a542c0d, 0x5e2ef77b, 0x7aacdfb7, 0x6943cd03, 0x1b59071f, 0x591f2926,
            0x2981b81b, 0x15e41d00, 0x00456d49, 0x2ad73822, 0x73dd7653, 0x5b96641b, 0x5dde21db,
            0x6770c76f, 0x328c0f18,
        ],
        seq![
            0x64b56ddf, 0x0a5221bc, 0x197aacc7, 0x3bda7671, 0x7bd2207a, 0x2ea61c53, 0x67fcb669,
            0x40877690, 0x11bf83f2, 0x452be67d, 0x24e4e154, 0x64983472, 0x0237cbba, 0x7e34a5c5,
            0x6ab6443f, 0x4688f18b,
        ],
        seq![
            0x208137a6, 0x494437fb, 0x2b1ab68e, 0x72e7ab1c, 0x406b3331, 0x716fc541, 0x72fef186,
            0x05b5d20e, 0x260278f7, 0x48615db2, 0x66a58fa8, 0x6caabb2b, 0x37339907, 0x0c8f5079,
            0x635ff76c, 0x29073284,
        ],
    ]
}

/// The width-16 internal round constants, as field values.
pub open spec fn rc16_internal() -> Seq<int> {
    seq![
        0x07b0c0ef, 0x4c6facb1, 0x7779de32, 0x1feeb7c0, 0x765b150d, 0x3567db60, 0x421316ea,
        0x2e4e7398, 0x420e7c17, 0x223b99a5, 0x6cc8f5ac, 0x47384772, 0x593b6ad3, 0x633abab2,
    ]
}

/// The width-24 external initial round constants, as field values.
pub open spec fn rc24_external_initial() -> Seq<Seq<int>> {
    seq![
        seq![
            0x27faddc6, 0x7a5db1b1, 0x33b673a5, 0x42d2f10a, 0x673f8501, 0x69f3172a, 0x3a1aacc7,
            0x331eb8f1, 0x59f4d770, 0x37a6ab46, 0x12670d59, 0x5fc1f45b, 0x5330d05e, 0x4a71d722,
            0x2bb9509f, 0x603fd075, 0x56e28c10, 0x1292583d, 0x7a86e245, 0x676cdcc6, 0x5d35299e,
            0x155d1779, 0x24adc6d8, 0x3cf871aa,
        ],
        seq![
            0x680eec9e, 0x56871ac5, 0x3c37e068, 0x1c843775, 0x3a19ec82, 0x31dd09f8, 0x2104cdea,
            0x1524a31c, 0x418c75fd, 0x3910d1e5, 0x45cd2ac2, 0x4e56be1e, 0x5de561e7, 0x1e7a90c3,
            0x69efcab2, 0x2c5564be, 0x30fb3400, 0x15c59742, 0x7d2e8ad3, 0x5ffef99a, 0x6a33b2f1,
            0x61e641c2, 0x39b4da8e, 0x066c5840,
        ],
        seq![
            0x12203c68, 0x3e838218, 0x27f09a5c, 0x6cc75f6a, 0x29aecefc, 0x163b0f26, 0x504af1b3,
            0x3ca3d195, 0x2974d608, 0x58e07d2e, 0x62b933c5, 0x37b07761, 0x5baccad0, 0x42d55017,
            0x4c60fe28, 0x5fea04a0, 0x120a3490, 0x7a7e3f52, 0x00f5b66b, 0x2fcdcdb2, 0x15668866,
            0x58e539c9, 0x090b66f8, 0x0751a868,
        ],
        seq![
            0x2fd9e62c, 0x7fc3f22f, 0x786ab79e, 0x1a0eb734, 0x5ff7116d, 0x488bf048, 0x6d43f9f6,
            0x7f47ab30, 0x039ea33d, 0x0a542c0d, 0x5e2ef77b, 0x7aacdfb7, 0x6943cd03, 0x1b59071f,
            0x591f2926, 0x2981b81b, 0x15e41d00, 0x00456d49, 0x2ad73822, 0x73dd7653, 0x5b96641b,
            0x5dde21db, 0x6770c76f, 0x328c0f18,
        ],
    ]
}

/// The width-24 external terminal round constants, as field values.
pub open spec fn rc24_external_terminal() -> Seq<Seq<int>> {
    seq![
        seq![
            0x64b56ddf, 0x0a5221bc, 0x197aacc7, 0x3bda7671, 0x7bd2207a, 0x2ea61c53, 0x67fcb669,
            0x40877690, 0x11bf83f2, 0x452be67d, 0x24e4e154, 0x64983472, 0x0237cbba, 0x7e34a5c5,
            0x6ab6443f, 0x4688f18b, 0x208137a6, 0x494437fb, 0x2b1ab68e, 0x72e7ab1c, 0x406b3331,
            0x716fc541, 0x72fef186, 0x05b5d20e,
        ],
        seq![
            0x260278f7, 0x48615db2, 0x66a58fa8, 0x6caabb2b, 0x37339907, 0x0c8f5079, 0x635ff76c,
            0x29073284, 0x07b0c0ef, 0x4c6facb1, 0x7779de32, 0x1feeb7c0, 0x765b150d, 0x3567db60,
            0x421316ea, 0x2e4e7398, 0x420e7c17, 0x223b99a5, 0x6cc8f5ac, 0x47384772, 0x593b6ad3,
            0x633abab2, 0x463d2494, 0x4c0b5893,
        ],
        seq![
            0x2d932eb9, 0x27d8ceda, 0x6a08d781, 0x33d8bcae, 0x7ee5b802, 0x2c8f2fc0, 0x5a8f72c8,
            0x6f39d0d1, 0x1fae4fd3, 0x217d2b76, 0x032eb5b6, 0x3fad71c9, 0x2780b7c2, 0x311b03b9,
            0x39eb3c44, 0x131593eb, 0x1194596f, 0x533f32da, 0x7d9d2459, 0x76667c05, 0x220c3b0f,
            0x2dbe8f84, 0x48b8d0ae, 0x2c4a53f7,
        ],
        seq![
            0x151af6d7, 0x74f893c2, 0x32e9c2e0, 0x0ab7e1d1, 0x55ac7998, 0x4768294d, 0x302d5867,
            0x1bd7060e, 0x0c7429b0, 0x5d37afc3, 0x1c73b35b, 0x5c7cb0ba, 0x795798d5, 0x387f4a11,
            0x4243ba97, 0x2b143fbc, 0x61b5d0e5, 0x3024056c, 0x11b9cc2c, 0x4c8f952c, 0x57289ec1,
            0x4607f37b, 0x1aab2fbc, 0x2ec53e6a,
        ],
    ]
}

/// The width-24 internal round constants, as field values.
pub open spec fn rc24_internal() -> Seq<int> {
    seq![
        0x67827689, 0x2c88e84d, 0x32be9c1c, 0x742c464b, 0x32c77843, 0x007da752, 0x5b00ff7b,
        0x1a783817, 0x6be86406, 0x23309e36, 0x4e30c0c8, 0x6ac73ff5, 0x128f931b, 0x2971bd61,
        0x1b60890d, 0x51808a22, 0x14af15ad, 0x5894bdd4, 0x4bf2504c, 0x401594aa, 0x17e4dba9,
        0x40b12bdc,
    ]
}

/// The default width-16 instance: 4 initial and 4 terminal external
/// rounds and 14 internal rounds, carrying exactly the standard constant
/// tables for this field and the width-16 diagonal specification.
pub fn default_mersenne31_poseidon2_16() -> (r: Poseidon2Mersenne31<16>)
    ensures
        r.wf(),
        rc_vals(r.external_initial@) == rc16_external_initial(),
        rc_vals(r.external_terminal@) == rc16_external_terminal(),
        vals(r.internal@) == rc16_internal(),
        shifts_ints(r.shifts@) == diag_shifts_16(),
{
    let mut external_initial: Vec<Vec<Mersenne31>> = Vec::new();
    let mut external_terminal: Vec<Vec<Mersenne31>> = Vec::new();
    let initial_0: [u32; 16] = [
        0x27faddc6, 0x7a5db1b1, 0x33b673a5, 0x42d2f10a, 0x673f8501, 0x69f3172a, 0x3a1aacc7,
        0x331eb8f1, 0x59f4d770, 0x37a6ab46, 0x12670d59, 0x5fc1f45b, 0x5330d05e, 0x4a71d722,
        0x2bb9509f, 0x603fd075,
    ];
    external_initial.push(row_from(&initial_0));
    proof {
        assert(vals(external_initial@[0]@) =~= rc16_external_initial()[0]);
    }
    let initial_1: [u32; 16] = [
        0x56e28c10, 0x1292583d, 0x7a86e245, 0x676cdcc6, 0x5d35299e, 0x155d1779, 0x24adc6d8,
        0x3cf871aa, 0x680eec9e, 0x56871ac5, 0x3c37e068, 0x1c843775, 0x3a19ec82, 0x31dd09f8,
        0x2104cdea, 0x1524a31c,
    ];
    external_initial.push(row_from(&initial_1));
    proof {
        assert(vals(external_initial@[1]@) =~= rc16_external_initial()[1]);
    }
    let initial_2: [u32; 16] = [
        0x418c75fd, 0x3910d1e5, 0x45cd2ac2, 0x4e56be1e, 0x5de561e7, 0x1e7a90c3, 0x69efcab2,
        0x2c5564be, 0x30fb3400, 0x15c59742, 0x7d2e8ad3, 0x5ffef99a, 0x6a33b2f1, 0x61e641c2,
        0x39b4da8e, 0x066c5840,
    ];
    external_initial.push(row_from(&initial_2));
    proof {
        assert(vals(external_initial@[2]@) =~= rc16_external_initial()[2]);
    }
    let initial_3: [u32; 16] = [
        0x12203c68, 0x3e838218, 0x27f09a5c, 0x6cc75f6a, 0x29aecefc, 0x163b0f26, 0x504af1b3,
        0x3ca3d195, 0x2974d608, 0x58e07d2e, 0x62b933c5, 0x37b07761, 0x5baccad0, 0x42d55017,
        0x4c60fe28, 0x5fea04a0,
    ];
    external_initial.push(row_from(&initial_3));
    proof {
        assert(vals(external_initial@[3]@) =~= rc16_external_initial()[3]);
    }
    let terminal_0: [u32; 16] = [
        0x120a3490, 0x7a7e3f52, 0x00f5b66b, 0x2fcdcdb2, 0x15668866, 0x58e539c9, 0x090b66f8,
        0x0751a868, 0x2fd9e62c, 0x7fc3f22f, 0x786ab79e, 0x1a0eb734, 0x5ff7116d, 0x488bf048,
        0x6d43f9f6, 0x7f47ab30,
    ];
    external_terminal.push(row_from(&terminal_0));
    proof {
        assert(vals(external_terminal@[0]@) =~= rc16_external_terminal()[0]);
    }
    let terminal_1: [u32; 16] = [
        0x039ea33d, 0x0a542c0d, 0x5e2ef77b, 0x7aacdfb7, 0x6943cd03, 0x1b59071f, 0x591f2926,
        0x2981b81b, 0x15e41d00, 0x00456d49, 0x2ad73822, 0x73dd7653, 0x5b96641b, 0x5dde21db,
        0x6770c76f, 0x328c0f18,
    ];
    external_terminal.push(row_from(&terminal_1));
    proof {
        assert(vals(external_terminal@[1]@) =~= rc16_external_terminal()[1]);
    }
    let terminal_2: [u32; 16] = [
        0x64b56ddf, 0x0a5221bc, 0x197aacc7, 0x3bda7671, 0x7bd2207a, 0x2ea61c53, 0x67fcb669,
        0x40877690, 0x11bf83f2, 0x452be67d, 0x24e4e154, 0x64983472, 0x0237cbba, 0x7e34a5c5,
        0x6ab6443f, 0x4688f18b,
    ];
    external_terminal.push(row_from(&terminal_2));
    proof {
        assert(vals(external_terminal@[2]@) =~= rc16_external_terminal()[2]);
    }
    let terminal_3: [u32; 16] = [
        0x208137a6, 0x494437fb, 0x2b1ab68e, 0x72e7ab1c, 0x406b3331, 0x716fc541, 0x72fef186,
        0x05b5d20e, 0x260278f7, 0x48615db2, 0x66a58fa8, 0x6caabb2b, 0x37339907, 0x0c8f5079,
        0x635ff76c, 0x29073284,
    ];
    external_terminal.push(row_from(&terminal_3));
    proof {
        assert(vals(external_terminal@[3]@) =~= rc16_external_terminal()[3]);
    }
    let internal_raw: [u32; 14] = [
        0x07b0c0ef, 0x4c6facb1, 0x7779de32, 0x1feeb7c0, 0x765b150d, 0x3567db60, 0x421316ea,
        0x2e4e7398, 0x420e7c17, 0x223b99a5, 0x6cc8f5ac, 0x47384772, 0x593b6ad3, 0x633abab2,
    ];
    let internal = row_from(&internal_raw);
    proof {
        assert(vals(internal@) =~= rc16_internal());
        assert(rc_vals(external_initial@) =~~= rc16_external_initial());
        assert(rc_vals(external_terminal@) =~~= rc16_external_terminal());
    }
    let shifts = diag_shifts_vec_16();
    Poseidon2Mersenne31::<16>::new(external_initial, external_terminal, internal, shifts)
}

/// The default width-24 instance: 4 initial and 4 terminal external
/// rounds and 22 internal rounds, carrying exactly the standard constant
/// tables for this field and the width-24 diagonal specification.
pub fn default_mersenne31_poseidon2_24() -> (r: Poseidon2Mersenne31<24>)
    ensures
        r.wf(),
        rc_vals(r.external_initial@) == rc24_external_initial(),
        rc_vals(r.external_terminal@) == rc24_external_terminal(),
        vals(r.internal@) == rc24_internal(),
        shifts_ints(r.shifts@) == diag_shifts_24(),
{
    let mut external_initial: Vec<Vec<Mersenne31>> = Vec::new();
    let mut external_terminal: Vec<Vec<Mersenne31>> = Vec::new();
    let initial_0: [u32; 24] = [
        0x27faddc6, 0x7a5db1b1, 0x33b673a5, 0x42d2f10a, 0x673f8501, 0x69f3172a, 0x3a1aacc7,
        0x331eb8f1, 0x59f4d770, 0x37a6ab46, 0x12670d59, 0x5fc1f45b, 0x5330d05e, 0x4a71d722,
        0x2bb9509f, 0x603fd075, 0x56e28c10, 0x1292583d, 0x7a86e245, 0x676cdcc6, 0x5d35299e,
        0x155d1779, 0x24adc6d8, 0x3cf871aa,
    ];
    external_initial.push(row_from(&initial_0));
    proof {
        assert(vals(external_initial@[0]@) =~= rc24_external_initial()[0]);
    }
    let initial_1: [u32; 24] = [
        0x680eec9e, 0x56871ac5, 0x3c37e068, 0x1c843775, 0x3a19ec82, 0x31dd09f8, 0x2104cdea,
        0x1524a31c, 0x418c75fd, 0x3910d1e5, 0x45cd2ac2, 0x4e56be1e, 0x5de561e7, 0x1e7a90c3,
        0x69efcab2, 0x2c5564be, 0x30fb3400, 0x15c59742, 0x7d2e8ad3, 0x5ffef99a, 0x6a33b2f1,
        0x61e641c2, 0x39b4da8e, 0x066c5840,
    ];
    external_initial.push(row_from(&initial_1));
    proof {
        assert(vals(external_initial@[1]@) =~= rc24_external_initial()[1]);
    }
    let initial_2: [u32; 24] = [
        0x12203c68, 0x3e838218, 0x27f09a5c, 0x6cc75f6a, 0x29aecefc, 0x163b0f26, 0x504af1b3,
        0x3ca3d195, 0x2974d608, 0x58e07d2e, 0x62b933c5, 0x37b07761, 0x5baccad0, 0x42d55017,
        0x4c60fe28, 0x5fea04a0, 0x120a3490, 0x7a7e3f52, 0x00f5b66b, 0x2fcdcdb2, 0x15668866,
        0x58e539c9, 0x090b66f8, 0x0751a868,
    ];
    external_initial.push(row_from(&initial_2));
    proof {
        assert(vals(external_initial@[2]@) =~= rc24_external_initial()[2]);
    }
    let initial_3: [u32; 24] = [
        0x2fd9e62c, 0x7fc3f22f, 0x786ab79e, 0x1a0eb734, 0x5ff7116d, 0x488bf048, 0x6d43f9f6,
        0x7f47ab30, 0x039ea33d, 0x0a542c0d, 0x5e2ef77b, 0x7aacdfb7, 0x6943cd03, 0x1b59071f,
        0x591f2926, 0x2981b81b, 0x15e41d00, 0x00456d49, 0x2ad73822, 0x73dd7653, 0x5b96641b,
        0x5dde21db, 0x6770c76f, 0x328c0f18,
    ];
    external_initial.push(row_from(&initial_3));
    proof {
        assert(vals(external_initial@[3]@) =~= rc24_external_initial()[3]);
    }
    let terminal_0: [u32; 24] = [
        0x64b56ddf, 0x0a5221bc, 0x197aacc7, 0x3bda7671, 0x7bd2207a, 0x2ea61c53, 0x67fcb669,
        0x40877690, 0x11bf83f2, 0x452be67d, 0x24e4e154, 0x64983472, 0x0237cbba, 0x7e34a5c5,
        0x6ab6443f, 0x4688f18b, 0x208137a6, 0x494437fb, 0x2b1ab68e, 0x72e7ab1c, 0x406b3331,
        0x716fc541, 0x72fef186, 0x05b5d20e,
    ];
    external_terminal.push(row_from(&terminal_0));
    proof {
        assert(vals(external_terminal@[0]@) =~= rc24_external_terminal()[0]);
    }
    let terminal_1: [u32; 24] = [
        0x260278f7, 0x48615db2, 0x66a58fa8, 0x6caabb2b, 0x37339907, 0x0c8f5079, 0x635ff76c,
        0x29073284, 0x07b0c0ef, 0x4c6facb1, 0x7779de32, 0x1feeb7c0, 0x765b150d, 0x3567db60,
        0x421316ea, 0x2e4e7398, 0x420e7c17, 0x223b99a5, 0x6cc8f5ac, 0x47384772, 0x593b6ad3,
        0x633abab2, 0x463d2494, 0x4c0b5893,
    ];
    external_terminal.push(row_from(&terminal_1));
    proof {
        assert(vals(external_terminal@[1]@) =~= rc24_external_terminal()[1]);
    }
    let terminal_2: [u32; 24] = [
        0x2d932eb9, 0x27d8ceda, 0x6a08d781, 0x33d8bcae, 0x7ee5b802, 0x2c8f2fc0, 0x5a8f72c8,
        0x6f39d0d1, 0x1fae4fd3, 0x217d2b76, 0x032eb5b6, 0x3fad71c9, 0x2780b7c2, 0x311b03b9,
        0x39eb3c44, 0x131593eb, 0x1194596f, 0x533f32da, 0x7d9d2459, 0x76667c05, 0x220c3b0f,
        0x2dbe8f84, 0x48b8d0ae, 0x2c4a53f7,
    ];
    external_terminal.push(row_from(&terminal_2));
    proof {
        assert(vals(external_terminal@[2]@) =~= rc24_external_terminal()[2]);
    }
    let terminal_3: [u32; 24] = [
        0x151af6d7, 0x74f893c2, 0x32e9c2e0, 0x0ab7e1d1, 0x55ac7998, 0x4768294d, 0x302d5867,
        0x1bd7060e, 0x0c7429b0, 0x5d37afc3, 0x1c73b35b, 0x5c7cb0ba, 0x795798d5, 0x387f4a11,
        0x4243ba97, 0x2b143fbc, 0x61b5d0e5, 0x3024056c, 0x11b9cc2c, 0x4c8f952c, 0x57289ec1,
        0x4607f37b, 0x1aab2fbc, 0x2ec53e6a,
    ];
    external_terminal.push(row_from(&terminal_3));
    proof {
        assert(vals(external_terminal@[3]@) =~= rc24_external_terminal()[3]);
    }
    let internal_raw: [u32; 22] = [
        0x67827689, 0x2c88e84d, 0x32be9c1c, 0x742c464b, 0x32c77843, 0x007da752, 0x5b00ff7b,
        0x1a783817, 0x6be86406, 0x23309e36, 0x4e30c0c8, 0x6ac73ff5, 0x128f931b, 0x2971bd61,
        0x1b60890d, 0x51808a22, 0x14af15ad, 0x5894bdd4, 0x4bf2504c, 0x401594aa, 0x17e4dba9,
        0x40b12bdc,
    ];
    let internal = row_from(&internal_raw);
    proof {
        assert(vals(internal@) =~= rc24_internal());
        assert(rc_vals(external_initial@) =~~= rc24_external_initial());
        assert(rc_vals(external_terminal@) =~~= rc24_external_terminal());
    }
    let shifts = diag_shifts_vec_24();
    Poseidon2Mersenne31::<24>::new(external_initial, external_terminal, internal, shifts)
}

} // verus!
