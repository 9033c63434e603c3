//! Repair of a mesh into a consistent indexed form.
//!
//! A mesh is consistent when its normals and texture coordinates are either
//! absent or one per vertex, and every index names a vertex. Normalisation
//! first aligns the attribute lists with the vertices. If an index then
//! points past the vertices, it keeps only the vertices that some index
//! names, renumbers the indices, drops those that named no vertex, and cuts
//! the index list to whole triangles.

use vstd::prelude::*;
use crate::model::{DaeMesh, Vec2, Vec3};
use crate::scalar::{one_bits, zero_bits, Scalar};

verus! {

/// The geometry of a mesh as plain sequences.
pub struct Geometry {
    pub vertices: Seq<Vec3>,
    pub normals: Seq<Vec3>,
    pub uvs: Seq<Vec2>,
    pub indices: Seq<u32>,
}

impl DaeMesh {
    /// The geometry of the mesh as plain sequences.
    pub open spec fn geometry(self) -> Geometry {
        Geometry {
            vertices: self.vertices@,
            normals: self.normals@,
            uvs: self.uvs@,
            indices: self.indices@,
        }
    }
}

/// The normal that pads a short normal list: straight up.
pub open spec fn up_normal() -> Vec3 {
    [Scalar { bits: zero_bits() }, Scalar { bits: one_bits() }, Scalar { bits: zero_bits() }]
}

/// The coordinate that pads a short coordinate list: the origin.
pub open spec fn origin_uv() -> Vec2 {
    [Scalar { bits: zero_bits() }, Scalar { bits: zero_bits() }]
}

/// An attribute list brought to `count` entries: an absent list stays absent,
/// a long one is cut, a short one is padded with `filler`. With no vertex the
/// list is emptied.
pub open spec fn aligned<T>(values: Seq<T>, count: nat, filler: T) -> Seq<T> {
    if count == 0 || values.len() == 0 {
        Seq::empty()
    } else if values.len() >= count {
        values.take(count as int)
    } else {
        values + Seq::new((count - values.len()) as nat, |i: int| filler)
    }
}

/// Every index names one of `count` vertices.
pub open spec fn in_bounds(indices: Seq<u32>, count: nat) -> bool {
    forall|i: int| 0 <= i < indices.len() ==> (#[trigger] indices[i] as nat) < count
}

/// Some index names the vertex `v`.
pub open spec fn refers_to(indices: Seq<u32>, v: int) -> bool {
    exists|i: int| 0 <= i < indices.len() && #[trigger] indices[i] as int == v
}

/// The vertices below `bound` that some index names, ascending.
pub open spec fn referenced(indices: Seq<u32>, bound: nat) -> Seq<int>
    decreases bound,
{
    if bound == 0 {
        Seq::empty()
    } else {
        let rest = referenced(indices, (bound - 1) as nat);
        if refers_to(indices, bound - 1) {
            rest.push(bound - 1)
        } else {
            rest
        }
    }
}

/// The new number of vertex `v`: how many named vertices stand before it.
pub open spec fn rank(indices: Seq<u32>, v: nat) -> nat {
    referenced(indices, v).len()
}

/// The entries of `values` at the positions `used`.
pub open spec fn gathered<T>(values: Seq<T>, used: Seq<int>) -> Seq<T> {
    Seq::new(used.len(), |k: int| values[used[k]])
}

/// An aligned attribute list after compaction: absent, or one entry per kept
/// vertex.
pub open spec fn gathered_attribute<T>(values: Seq<T>, used: Seq<int>) -> Seq<T> {
    if values.len() == 0 {
        Seq::empty()
    } else {
        gathered(values, used)
    }
}

/// `part`, a prefix of `all`, with each index that names one of `count`
/// vertices replaced by its new number and the others dropped.
pub open spec fn remapped(part: Seq<u32>, all: Seq<u32>, count: nat) -> Seq<u32>
    decreases part.len(),
{
    if part.len() == 0 {
        Seq::empty()
    } else {
        let rest = remapped(part.drop_last(), all, count);
        if (part.last() as nat) < count {
            rest.push(rank(all, part.last() as nat) as u32)
        } else {
            rest
        }
    }
}

/// The longest prefix that is a whole number of triangles.
pub open spec fn whole_triangles(indices: Seq<u32>) -> Seq<u32> {
    indices.take(indices.len() - indices.len() % 3)
}

/// The geometry with its attribute lists aligned with the vertices.
pub open spec fn aligned_geometry(g: Geometry) -> Geometry {
    Geometry {
        vertices: g.vertices,
        normals: aligned(g.normals, g.vertices.len(), up_normal()),
        uvs: aligned(g.uvs, g.vertices.len(), origin_uv()),
        indices: g.indices,
    }
}

/// An aligned geometry cut down to the vertices that its indices name.
pub open spec fn compacted(g: Geometry) -> Geometry {
    let used = referenced(g.indices, g.vertices.len());
    Geometry {
        vertices: gathered(g.vertices, used),
        normals: gathered_attribute(g.normals, used),
        uvs: gathered_attribute(g.uvs, used),
        indices: whole_triangles(remapped(g.indices, g.indices, g.vertices.len())),
    }
}

/// The consistent form of a geometry.
pub open spec fn normalized(g: Geometry) -> Geometry {
    let a = aligned_geometry(g);
    if in_bounds(g.indices, g.vertices.len()) {
        a
    } else {
        compacted(a)
    }
}

/// Attribute lists absent or one per vertex, and every index in bounds.
pub open spec fn consistent(g: Geometry) -> bool {
    &&& g.normals.len() == 0 || g.normals.len() == g.vertices.len()
    &&& g.uvs.len() == 0 || g.uvs.len() == g.vertices.len()
    &&& in_bounds(g.indices, g.vertices.len())
}

/// The named vertices below a bound are vertices below that bound, and no
/// more than there are.
pub proof fn lemma_referenced_bounds(indices: Seq<u32>, bound: nat)
    ensures
        referenced(indices, bound).len() <= bound,
        forall|k: int|
            0 <= k < referenced(indices, bound).len() ==> 0 <= #[trigger] referenced(
                indices,
                bound,
            )[k] < bound,
    decreases bound,
{
    if bound > 0 {
        lemma_referenced_bounds(indices, (bound - 1) as nat);
    }
}

/// The new numbers grow with the old ones, strictly across a named vertex.
pub proof fn lemma_rank_monotone(indices: Seq<u32>, a: nat, b: nat)
    requires
        a <= b,
    ensures
        rank(indices, a) <= rank(indices, b),
        a < b && refers_to(indices, a as int) ==> rank(indices, a) < rank(indices, b),
    decreases b - a,
{
    if a < b {
        lemma_rank_monotone(indices, a, (b - 1) as nat);
    }
}

/// A named vertex is found again at its new number.
pub proof fn lemma_referenced_at_rank(indices: Seq<u32>, v: nat, bound: nat)
    requires
        v < bound,
        refers_to(indices, v as int),
    ensures
        rank(indices, v) < referenced(indices, bound).len(),
        referenced(indices, bound)[rank(indices, v) as int] == v,
    decreases bound,
{
    if bound - 1 == v {
    } else {
        lemma_referenced_at_rank(indices, v, (bound - 1) as nat);
    }
}

/// Every renumbered index is below the number of kept vertices.
pub proof fn lemma_remapped_bounds(part: Seq<u32>, all: Seq<u32>, count: nat)
    requires
        forall|i: int| 0 <= i < part.len() ==> refers_to(all, #[trigger] part[i] as int),
    ensures
        remapped(part, all, count).len() <= part.len(),
        forall|k: int|
            0 <= k < remapped(part, all, count).len() ==> (#[trigger] remapped(
                part,
                all,
                count,
            )[k] as nat) < rank(all, count),
    decreases part.len(),
{
    if part.len() > 0 {
        let front = part.drop_last();
        assert forall|i: int| 0 <= i < front.len() implies refers_to(
            all,
            #[trigger] front[i] as int,
        ) by {
            assert(front[i] == part[i]);
        }
        lemma_remapped_bounds(front, all, count);
        let v = part.last() as nat;
        if v < count {
            assert(refers_to(all, part[part.len() - 1] as int));
            lemma_rank_monotone(all, v, count);
            lemma_referenced_bounds(all, count);
            lemma_referenced_bounds(all, v);
        }
    }
}

/// What normalisation promises: a consistent geometry.
pub proof fn lemma_normalized_consistent(g: Geometry)
    ensures
        consistent(normalized(g)),
{
    let n = g.vertices.len();
    let a = aligned_geometry(g);
    if in_bounds(g.indices, n) {
    } else {
        let c = compacted(a);
        let used = referenced(g.indices, n);
        let mapped = remapped(g.indices, g.indices, n);
        assert forall|i: int| 0 <= i < g.indices.len() implies refers_to(
            g.indices,
            #[trigger] g.indices[i] as int,
        ) by {}
        lemma_remapped_bounds(g.indices, g.indices, n);
        assert forall|i: int| 0 <= i < c.indices.len() implies (#[trigger] c.indices[i] as nat)
            < c.vertices.len() by {
            assert(c.indices[i] == mapped[i]);
        }
    }
}

/// Normalising a consistent geometry changes nothing.
pub proof fn lemma_normalized_fixes_consistent(g: Geometry)
    requires
        consistent(g),
    ensures
        normalized(g) == g,
{
    let n = g.vertices.len();
    assert(aligned(g.normals, n, up_normal()) =~= g.normals);
    assert(aligned(g.uvs, n, origin_uv()) =~= g.uvs);
}

/// Normalising twice gives what normalising once gives.
pub proof fn lemma_normalized_idempotent(g: Geometry)
    ensures
        normalized(normalized(g)) == normalized(g),
{
    lemma_normalized_consistent(g);
    lemma_normalized_fixes_consistent(normalized(g));
}

/// After normalisation every index names a vertex.
pub proof fn lemma_normalized_indices_in_bounds(g: Geometry, i: int)
    requires
        0 <= i < normalized(g).indices.len(),
    ensures
        (normalized(g).indices[i] as nat) < normalized(g).vertices.len(),
{
    lemma_normalized_consistent(g);
}

/// After normalisation the indices form whole triangles, provided they did
/// before or one of them pointed past the vertices.
pub proof fn lemma_normalized_whole_triangles(g: Geometry)
    requires
        g.indices.len() % 3 == 0 || !in_bounds(g.indices, g.vertices.len()),
    ensures
        normalized(g).indices.len() % 3 == 0,
{
    let n = g.vertices.len();
    if !in_bounds(g.indices, n) {
        let mapped = remapped(g.indices, g.indices, n);
        let len = mapped.len() as int;
        assert((len - len % 3) % 3 == 0);
    }
}

/// The named vertices stand in ascending order.
pub proof fn lemma_referenced_ascending(indices: Seq<u32>, bound: nat)
    ensures
        forall|j: int, k: int|
            0 <= j < k < referenced(indices, bound).len() ==> referenced(indices, bound)[j]
                < referenced(indices, bound)[k],
        forall|k: int|
            0 <= k < referenced(indices, bound).len() ==> refers_to(
                indices,
                #[trigger] referenced(indices, bound)[k],
            ),
    decreases bound,
{
    if bound > 0 {
        lemma_referenced_ascending(indices, (bound - 1) as nat);
        lemma_referenced_bounds(indices, (bound - 1) as nat);
    }
}

/// Positions as mathematical integers.
pub open spec fn positions(v: Seq<usize>) -> Seq<int> {
    v.map_values(|x: usize| x as int)
}

/// Brings `values` to `count` entries.
fn align_list<T: Copy>(values: &mut Vec<T>, count: usize, filler: T)
    ensures
        final(values)@ == aligned(old(values)@, count as nat, filler),
{
    if count == 0 || values.len() == 0 {
        values.clear();
    } else if values.len() >= count {
        values.truncate(count);
    } else {
        let ghost before = values@;
        while values.len() < count
            invariant
                before.len() <= values@.len() <= count,
                values@ == before + Seq::new(
                    (values@.len() - before.len()) as nat,
                    |i: int| filler,
                ),
            decreases count - values@.len(),
        {
            values.push(filler);
            proof {
                assert(values@ =~= before + Seq::new(
                    (values@.len() - before.len()) as nat,
                    |i: int| filler,
                ));
            }
        }
    }
}

fn all_in_bounds(indices: &Vec<u32>, count: usize) -> (r: bool)
    ensures
        r == in_bounds(indices@, count as nat),
{
    let n = indices.len();
    let mut i: usize = 0;
    while i < n
        invariant
            i <= n,
            n == indices@.len(),
            forall|k: int| 0 <= k < i ==> (#[trigger] indices@[k] as nat) < count,
        decreases n - i,
    {
        if indices[i] as usize >= count {
            return false;
        }
        i += 1;
    }
    true
}

/// The vertices below `count` that some index names, ascending.
fn referenced_vertices(indices: &Vec<u32>, count: usize) -> (r: Vec<usize>)
    ensures
        positions(r@) == referenced(indices@, count as nat),
{
    let mut marks: Vec<bool> = Vec::new();
    let mut v: usize = 0;
    while v < count
        invariant
            v <= count,
            marks@.len() == v,
            forall|k: int| 0 <= k < v ==> !#[trigger] marks@[k],
        decreases count - v,
    {
        marks.push(false);
        v += 1;
    }
    let n = indices.len();
    let mut i: usize = 0;
    while i < n
        invariant
            i <= n,
            n == indices@.len(),
            marks@.len() == count,
            forall|k: int|
                0 <= k < count ==> (#[trigger] marks@[k] <==> refers_to(
                    indices@.take(i as int),
                    k,
                )),
        decreases n - i,
    {
        let idx = indices[i] as usize;
        if idx < count {
            marks.set(idx, true);
        }
        proof {
            let prev = indices@.take(i as int);
            let next = indices@.take(i + 1);
            assert forall|k: int| 0 <= k < count implies (#[trigger] marks@[k] <==> refers_to(
                next,
                k,
            )) by {
                if refers_to(prev, k) {
                    let j = choose|j: int| 0 <= j < prev.len() && #[trigger] prev[j] as int == k;
                    assert(next[j] as int == k);
                }
                if k == idx {
                    assert(next[i as int] as int == k);
                }
                if refers_to(next, k) {
                    let j = choose|j: int| 0 <= j < next.len() && #[trigger] next[j] as int == k;
                    if j < i {
                        assert(prev[j] as int == k);
                    }
                }
            }
        }
        i += 1;
    }
    proof {
        assert(indices@.take(n as int) =~= indices@);
    }
    let mut used: Vec<usize> = Vec::new();
    let mut v: usize = 0;
    proof {
        assert(positions(used@) =~= referenced(indices@, 0));
    }
    while v < count
        invariant
            v <= count,
            marks@.len() == count,
            forall|k: int|
                0 <= k < count ==> (#[trigger] marks@[k] <==> refers_to(indices@, k)),
            positions(used@) == referenced(indices@, v as nat),
        decreases count - v,
    {
        if marks[v] {
            proof {
                assert(positions(used@.push(v)) =~= positions(used@).push(v as int));
            }
            used.push(v);
        }
        v += 1;
    }
    used
}

/// The entries of `values` at the positions `used`.
fn gather<T: Copy>(values: &Vec<T>, used: &Vec<usize>) -> (r: Vec<T>)
    requires
        forall|k: int| 0 <= k < used@.len() ==> #[trigger] used@[k] < values@.len(),
    ensures
        r@ == gathered(values@, positions(used@)),
{
    let mut out: Vec<T> = Vec::new();
    let n = used.len();
    let mut k: usize = 0;
    while k < n
        invariant
            k <= n,
            n == used@.len(),
            forall|j: int| 0 <= j < used@.len() ==> #[trigger] used@[j] < values@.len(),
            out@.len() == k,
            forall|j: int| 0 <= j < k ==> out@[j] == values@[used@[j] as int],
        decreases n - k,
    {
        out.push(values[used[k]]);
        k += 1;
    }
    proof {
        assert(out@ =~= gathered(values@, positions(used@)));
    }
    out
}

/// An aligned attribute list cut down to the kept vertices.
fn gather_attribute<T: Copy>(values: &Vec<T>, used: &Vec<usize>, count: usize) -> (r: Vec<T>)
    requires
        values@.len() == 0 || values@.len() == count,
        forall|k: int| 0 <= k < used@.len() ==> #[trigger] used@[k] < count,
    ensures
        r@ == gathered_attribute(values@, positions(used@)),
{
    if values.len() == 0 {
        Vec::new()
    } else {
        gather(values, used)
    }
}

/// The indices that name a vertex, each replaced by the new number of that
/// vertex.
fn renumber(indices: &Vec<u32>, used: &Vec<usize>, count: usize) -> (r: Vec<u32>)
    requires
        positions(used@) == referenced(indices@, count as nat),
    ensures
        r@ == remapped(indices@, indices@, count as nat),
{
    proof {
        lemma_referenced_bounds(indices@, count as nat);
        lemma_referenced_ascending(indices@, count as nat);
    }
    let mut table: Vec<u32> = Vec::new();
    let mut v: usize = 0;
    while v < count
        invariant
            v <= count,
            table@.len() == v,
        decreases count - v,
    {
        table.push(0u32);
        v += 1;
    }
    let m = used.len();
    let mut k: usize = 0;
    while k < m
        invariant
            k <= m,
            m == used@.len(),
            table@.len() == count,
            positions(used@) == referenced(indices@, count as nat),
            m <= count,
            forall|j: int| 0 <= j < m ==> 0 <= #[trigger] positions(used@)[j] < count,
            forall|i: int, j: int|
                0 <= i < j < m ==> positions(used@)[i] < positions(used@)[j],
            forall|j: int|
                0 <= j < m ==> refers_to(indices@, #[trigger] positions(used@)[j]),
            forall|j: int| 0 <= j < k ==> #[trigger] table@[used@[j] as int] as int == j,
        decreases m - k,
    {
        let target = used[k];
        proof {
            assert(positions(used@)[k as int] == target);
            assert(refers_to(indices@, target as int));
            assert(target <= u32::MAX);
            assert(k <= target) by {
                lemma_referenced_at_rank(indices@, target as nat, count as nat);
                lemma_referenced_bounds(indices@, target as nat);
                let r = rank(indices@, target as nat) as int;
                assert(positions(used@)[r] == target);
                if r < k {
                    assert(positions(used@)[r] < positions(used@)[k as int]);
                }
                if k < r {
                    assert(positions(used@)[k as int] < positions(used@)[r]);
                }
            }
        }
        let ghost before = table@;
        table.set(target, k as u32);
        proof {
            assert forall|j: int| 0 <= j < k + 1 implies #[trigger] table@[used@[j] as int] as int
                == j by {
                if j < k {
                    assert(positions(used@)[j] < positions(used@)[k as int]);
                    assert(before[used@[j] as int] as int == j);
                }
            }
        }
        k += 1;
    }
    let n = indices.len();
    let mut out: Vec<u32> = Vec::new();
    let mut i: usize = 0;
    while i < n
        invariant
            i <= n,
            n == indices@.len(),
            table@.len() == count,
            m == used@.len(),
            positions(used@) == referenced(indices@, count as nat),
            forall|j: int| 0 <= j < m ==> #[trigger] table@[used@[j] as int] as int == j,
            out@ == remapped(indices@.take(i as int), indices@, count as nat),
        decreases n - i,
    {
        let idx = indices[i] as usize;
        proof {
            assert(indices@.take(i + 1).drop_last() =~= indices@.take(i as int));
            assert(indices@.take(i + 1).last() == indices@[i as int]);
        }
        if idx < count {
            proof {
                assert(refers_to(indices@, idx as int));
                lemma_referenced_at_rank(indices@, idx as nat, count as nat);
                let r = rank(indices@, idx as nat) as int;
                assert(positions(used@)[r] == idx);
                assert(table@[used@[r] as int] as int == r);
            }
            out.push(table[idx]);
        }
        i += 1;
    }
    proof {
        assert(indices@.take(n as int) =~= indices@);
    }
    out
}

/// Aligns the normals and texture coordinates of `mesh` with its vertices.
pub fn align_attribute_data(mesh: &mut DaeMesh)
    ensures
        final(mesh).geometry() == aligned_geometry(old(mesh).geometry()),
        final(mesh).name == old(mesh).name,
        final(mesh).material_name == old(mesh).material_name,
        final(mesh).bone_influences == old(mesh).bone_influences,
{
    let count = mesh.vertices.len();
    let up: Vec3 = [Scalar::zero(), Scalar::one(), Scalar::zero()];
    let origin: Vec2 = [Scalar::zero(), Scalar::zero()];
    align_list(&mut mesh.normals, count, up);
    align_list(&mut mesh.uvs, count, origin);
}

/// Brings `mesh` into its consistent form.
pub fn optimize_mesh_data(mesh: &mut DaeMesh)
    ensures
        final(mesh).geometry() == normalized(old(mesh).geometry()),
        consistent(final(mesh).geometry()),
        final(mesh).name == old(mesh).name,
        final(mesh).material_name == old(mesh).material_name,
        final(mesh).bone_influences == old(mesh).bone_influences,
{
    proof {
        lemma_normalized_consistent(old(mesh).geometry());
    }
    align_attribute_data(mesh);
    let count = mesh.vertices.len();
    if all_in_bounds(&mesh.indices, count) {
        return ;
    }
    let used = referenced_vertices(&mesh.indices, count);
    proof {
        lemma_referenced_bounds(mesh.indices@, count as nat);
        assert forall|k: int| 0 <= k < used@.len() implies #[trigger] used@[k] < count by {
            assert(positions(used@)[k] == used@[k]);
        }
    }
    let new_vertices = gather(&mesh.vertices, &used);
    let new_normals = gather_attribute(&mesh.normals, &used, count);
    let new_uvs = gather_attribute(&mesh.uvs, &used, count);
    let mut new_indices = renumber(&mesh.indices, &used, count);
    let whole = new_indices.len() - new_indices.len() % 3;
    new_indices.truncate(whole);
    mesh.vertices = new_vertices;
    mesh.normals = new_normals;
    mesh.uvs = new_uvs;
    mesh.indices = new_indices;
}

} // verus!
