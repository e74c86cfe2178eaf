//! Index data of the demo mesh.
use vstd::prelude::*;

verus! {

/// Number of corners of the octahedron: +x, +z, -x, -z, +y, -y.
pub const OCTAHEDRON_CORNERS: u32 = 6;

/// The two triangles on side `i` of the equator, whose corners 0 to 3
/// run round it: one to the top corner 4 and one, wound the other way,
/// to the bottom corner 5.
pub open spec fn side_triangles(i: int) -> Seq<u32> {
    let j = ((i + 1) % 4) as u32;
    seq![4, i as u32, j, 5, j, i as u32]
}

/// The triangles of the first `n` sides, in order.
pub open spec fn sides(n: nat) -> Seq<u32>
    decreases n,
{
    if n == 0 {
        Seq::empty()
    } else {
        sides((n - 1) as nat) + side_triangles(n - 1)
    }
}

/// The index list of the octahedron: the triangles of its four sides.
pub fn octahedron_indices() -> (r: Vec<u32>)
    ensures
        r@ == sides(4),
        r@.len() == 24,
        forall|k: int| 0 <= k < r@.len() ==> r@[k] < OCTAHEDRON_CORNERS,
{
    let mut r: Vec<u32> = Vec::new();
    for i in 0..4u32
        invariant
            r@ == sides(i as nat),
            r@.len() == 6 * i,
            forall|k: int| 0 <= k < r@.len() ==> r@[k] < OCTAHEDRON_CORNERS,
    {
        let j = (i + 1) % 4;
        r.push(4);
        r.push(i);
        r.push(j);
        r.push(5);
        r.push(j);
        r.push(i);
        assert(r@ =~= sides((i + 1) as nat));
    }
    r
}

} // verus!
