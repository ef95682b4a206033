//! Indexed quads: four vertices and two counter-clockwise triangles each.
//!
//! A quad's corners are numbered 0 to 3 in the order in which the passes
//! emit its vertices, and the index buffer visits them as 0, 1, 2, 2, 3, 0.

use vstd::prelude::*;

verus! {

/// The most quads that 16-bit indices can address.
pub const MAX_QUADS: usize = 16384;

/// The order in which a quad's two triangles visit its corners.
pub open spec fn quad_winding() -> Seq<int> {
    seq![0, 1, 2, 2, 3, 0]
}

/// The index buffer of `quads` quads: six indices each, into the quad's own
/// block of four vertices.
pub open spec fn quad_indices(quads: nat) -> Seq<u16> {
    Seq::new(6 * quads, |k: int| (4 * (k / 6) + quad_winding()[k % 6]) as u16)
}

/// Appends the six indices of quad number `quad` to the indices of the quads
/// before it.
pub fn push_quad_indices(indices: &mut Vec<u16>, quad: usize)
    requires
        quad < MAX_QUADS,
        old(indices)@ == quad_indices(quad as nat),
    ensures
        final(indices)@ == quad_indices((quad + 1) as nat),
{
    let base: u16 = (4 * quad) as u16;
    indices.push(base);
    indices.push(base + 1);
    indices.push(base + 2);
    indices.push(base + 2);
    indices.push(base + 3);
    indices.push(base);
    proof {
        let before = quad_indices(quad as nat);
        let after = quad_indices((quad + 1) as nat);
        assert forall|k: int| 0 <= k < after.len() implies indices@[k] == after[k] by {
            if k < 6 * quad {
                assert(indices@[k] == before[k]);
            } else {
                assert(k / 6 == quad as int);
                assert(k % 6 == k - 6 * quad);
            }
        }
        assert(indices@ =~= after);
    }
}

/// Whether `bytes` are `indices` as they lie in memory, two bytes each: the
/// low byte first where `low_first`, else the high byte.
pub open spec fn lays_out(bytes: Seq<u8>, indices: Seq<u16>, low_first: bool) -> bool {
    &&& bytes.len() == 2 * indices.len()
    &&& forall|i: int|
        0 <= i < indices.len() ==> #[trigger] indices[i] == if low_first {
            bytes[2 * i] + 256 * bytes[2 * i + 1]
        } else {
            256 * bytes[2 * i] + bytes[2 * i + 1]
        }
}

/// The bytes of an index buffer, as `bytemuck::cast_slice` reads them off
/// the indices in memory: two for each index, in the byte order of the
/// machine, whichever that is.
#[verifier::external_body]
pub(crate) fn index_bytes(indices: &Vec<u16>) -> (bytes: Vec<u8>)
    ensures
        lays_out(bytes@, indices@, true) || lays_out(bytes@, indices@, false),
{
    bytemuck::cast_slice::<u16, u8>(indices.as_slice()).to_vec()
}

/// The sides of its centre on which a corner of a centred quad lies: the sign
/// along x and the sign along y.
pub open spec fn centred_corner(corner: int) -> (i8, i8) {
    (
        if corner == 0 || corner == 3 { 1i8 } else { -1i8 },
        if corner == 0 || corner == 1 { 1i8 } else { -1i8 },
    )
}

/// The sides of its centre on which a corner of a centred quad lies.
pub fn centred_corner_of(corner: usize) -> (sides: (i8, i8))
    requires
        corner < 4,
    ensures
        sides == centred_corner(corner as int),
{
    let x: i8 = if corner == 0 || corner == 3 { 1 } else { -1 };
    let y: i8 = if corner == 0 || corner == 1 { 1 } else { -1 };
    (x, y)
}

/// Twice the signed area of the triangle `a`, `b`, `c`: positive when the
/// three points turn counter-clockwise with y pointing up.
pub open spec fn turn(a: (int, int), b: (int, int), c: (int, int)) -> int {
    (b.0 - a.0) * (c.1 - a.1) - (b.1 - a.1) * (c.0 - a.0)
}

/// Both triangles of a centred quad turn counter-clockwise.
pub proof fn lemma_centred_quad_turns_counter_clockwise(triangle: int)
    requires
        0 <= triangle < 2,
    ensures
        ({
            let first = centred_corner(quad_winding()[3 * triangle]);
            let second = centred_corner(quad_winding()[3 * triangle + 1]);
            let third = centred_corner(quad_winding()[3 * triangle + 2]);
            turn(
                (first.0 as int, first.1 as int),
                (second.0 as int, second.1 as int),
                (third.0 as int, third.1 as int),
            ) > 0
        }),
{
    let winding = quad_winding();
    if triangle == 0 {
        assert(winding[0] == 0 && winding[1] == 1 && winding[2] == 2);
        assert((-1 - 1) * (-1 - 1) - (1 - 1) * (-1 - 1) == 4) by (nonlinear_arith);
    } else {
        assert(winding[3] == 2 && winding[4] == 3 && winding[5] == 0);
        assert((1 - -1) * (1 - -1) - (-1 - -1) * (1 - -1) == 4) by (nonlinear_arith);
    }
}

/// Every index of a quad points into that quad's own four vertices, and the
/// six of them follow the winding.
pub proof fn lemma_indices_stay_in_their_quad(quads: nat, k: int)
    requires
        quads <= MAX_QUADS,
        0 <= k < 6 * quads,
    ensures
        quad_indices(quads).len() == 6 * quads,
        4 * (k / 6) <= quad_indices(quads)[k] < 4 * (k / 6) + 4,
        quad_indices(quads)[k] == 4 * (k / 6) + quad_winding()[k % 6],
        quad_indices(quads)[k] < 4 * quads,
{
    let corner = quad_winding()[k % 6];
    assert(0 <= corner < 4);
    assert(k / 6 < quads);
    assert(4 * (k / 6) + corner < 65536);
}

} // verus!
