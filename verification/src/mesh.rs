//! Turning an indexed triangle mesh into a flat one, as the renderer wants
//! it: every triangle gets its own three vertices, numbered in order.
use vstd::prelude::*;

verus! {

/// The vertices of the triangles `idx`, three per triangle, in order: the
/// vertex at position `3 * j + e` is `vtx[idx[j][e]]`.
pub fn unindex_triangles<T: Copy>(vtx: &Vec<T>, idx: &Vec<[u32; 3]>) -> (r: Vec<T>)
    requires
        forall|j: int, e: int| 0 <= j < idx@.len() && 0 <= e < 3 ==> #[trigger] idx@[j]@[e] < vtx@.len(),
        3 * idx@.len() <= usize::MAX,
    ensures
        r@.len() == 3 * idx@.len(),
        forall|j: int, e: int| 0 <= j < idx@.len() && 0 <= e < 3 ==> #[trigger] r@[3 * j + e] == vtx@[idx@[j]@[e] as int],
{
    let mut out: Vec<T> = Vec::new();
    let mut j: usize = 0;
    while j < idx.len()
        invariant
            j <= idx@.len(),
            3 * idx@.len() <= usize::MAX,
            forall|j: int, e: int| 0 <= j < idx@.len() && 0 <= e < 3 ==> #[trigger] idx@[j]@[e] < vtx@.len(),
            out@.len() == 3 * j,
            forall|l: int, e: int| 0 <= l < j && 0 <= e < 3 ==> #[trigger] out@[3 * l + e] == vtx@[idx@[l]@[e] as int],
        decreases idx@.len() - j,
    {
        let t = idx[j];
        assert(t@[0] < vtx@.len() && t@[1] < vtx@.len() && t@[2] < vtx@.len());
        let a = vtx[t[0] as usize];
        let b = vtx[t[1] as usize];
        let c = vtx[t[2] as usize];
        let ghost before = out@;
        out.push(a);
        out.push(b);
        out.push(c);
        assert forall|l: int, e: int| 0 <= l < j + 1 && 0 <= e < 3 implies #[trigger] out@[3 * l + e] == vtx@[idx@[l]@[e] as int] by {
            if l < j {
                assert(out@[3 * l + e] == before[3 * l + e]);
            }
        }
        j = j + 1;
    }
    out
}

/// The index list `0, 1, ..., m - 1` of a flat mesh, where `m` is `n` taken
/// as a 32-bit number.
pub fn sequential_indices(n: usize) -> (r: Vec<u32>)
    ensures
        r@.len() == n as u32,
        forall|i: int| 0 <= i < r@.len() ==> #[trigger] r@[i] == i,
{
    let m = n as u32;
    let mut out: Vec<u32> = Vec::new();
    let mut i: u32 = 0;
    while i < m
        invariant
            i <= m,
            out@.len() == i,
            forall|l: int| 0 <= l < i ==> #[trigger] out@[l] == l,
        decreases m - i,
    {
        out.push(i);
        i = i + 1;
    }
    out
}

} // verus!
