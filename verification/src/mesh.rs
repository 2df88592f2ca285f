//! Indexed triangle meshes: three position and three normal components per
//! vertex, three vertex indices per triangle.
//!
//! Components are `f32` bit patterns (`f32::to_bits`); the mesh logic only
//! stores, moves and re-indexes them.

use vstd::prelude::*;

verus! {

/// Triangle mesh data for a solid.
#[derive(Debug, Clone)]
pub struct Mesh {
    /// x, y, z per vertex.
    pub positions: Vec<u32>,
    /// nx, ny, nz per vertex.
    pub normals: Vec<u32>,
    /// Three vertex indices per triangle.
    pub indices: Vec<u32>,
}

/// The indices of `b` shifted by `offset`, for appending `b`'s vertices
/// after `offset` vertices of another mesh.
pub open spec fn shifted(b: Seq<u32>, offset: nat) -> Seq<u32> {
    b.map_values(|i: u32| (i + offset) as u32)
}

/// Every index of `b` stays within `u32` after adding `offset`.
pub open spec fn shift_fits(b: Seq<u32>, offset: nat) -> bool {
    forall|k: int| 0 <= k < b.len() ==> #[trigger] b[k] + offset <= u32::MAX
}

impl Mesh {
    pub fn new() -> (m: Self)
        ensures
            m.positions@.len() == 0,
            m.normals@.len() == 0,
            m.indices@.len() == 0,
    {
        Mesh { positions: Vec::new(), normals: Vec::new(), indices: Vec::new() }
    }

    pub fn vertex_count(&self) -> (n: usize)
        ensures
            n == self.positions@.len() / 3,
    {
        self.positions.len() / 3
    }

    /// Appends a vertex (position and normal, as `f32` bits) and returns its
    /// index.
    pub fn add_vertex(&mut self, x: u32, y: u32, z: u32, nx: u32, ny: u32, nz: u32) -> (idx: u32)
        requires
            old(self).positions@.len() / 3 <= u32::MAX,
            old(self).positions@.len() + 3 <= usize::MAX,
            old(self).normals@.len() + 3 <= usize::MAX,
        ensures
            idx == old(self).positions@.len() / 3,
            final(self).positions@ == old(self).positions@ + seq![x, y, z],
            final(self).normals@ == old(self).normals@ + seq![nx, ny, nz],
            final(self).indices@ == old(self).indices@,
    {
        let idx = (self.positions.len() / 3) as u32;
        self.positions.push(x);
        self.positions.push(y);
        self.positions.push(z);
        self.normals.push(nx);
        self.normals.push(ny);
        self.normals.push(nz);
        assert(self.positions@ =~= old(self).positions@ + seq![x, y, z]);
        assert(self.normals@ =~= old(self).normals@ + seq![nx, ny, nz]);
        idx
    }

    /// Appends the triangle `(a, b, c)`.
    pub fn add_triangle(&mut self, a: u32, b: u32, c: u32)
        requires
            old(self).indices@.len() + 3 <= usize::MAX,
        ensures
            final(self).indices@ == old(self).indices@ + seq![a, b, c],
            final(self).positions@ == old(self).positions@,
            final(self).normals@ == old(self).normals@,
    {
        self.indices.push(a);
        self.indices.push(b);
        self.indices.push(c);
        assert(self.indices@ =~= old(self).indices@ + seq![a, b, c]);
    }
}

/// One mesh holding both: `b`'s vertices follow `a`'s and `b`'s triangles
/// are re-indexed to them.
pub fn merge_meshes(a: Mesh, b: Mesh) -> (m: Mesh)
    requires
        a.positions@.len() / 3 <= u32::MAX,
        shift_fits(b.indices@, a.positions@.len() / 3),
        a.positions@.len() + b.positions@.len() <= usize::MAX,
        a.normals@.len() + b.normals@.len() <= usize::MAX,
        a.indices@.len() + b.indices@.len() <= usize::MAX,
    ensures
        m.positions@ == a.positions@ + b.positions@,
        m.normals@ == a.normals@ + b.normals@,
        m.indices@ == a.indices@ + shifted(b.indices@, a.positions@.len() / 3),
{
    let mut a = a;
    let offset = (a.positions.len() / 3) as u32;
    let ghost a_pos = a.positions@;
    let ghost a_idx = a.indices@;
    let ghost a_nrm = a.normals@;
    let ghost b_pos = b.positions@;
    let ghost b_nrm = b.normals@;
    let mut bp = b.positions;
    let mut bn = b.normals;
    a.positions.append(&mut bp);
    a.normals.append(&mut bn);
    let mut k: usize = 0;
    while k < b.indices.len()
        invariant
            offset == a_pos.len() / 3,
            a.positions@ == a_pos + b_pos,
            a.normals@ == a_nrm + b_nrm,
            shift_fits(b.indices@, offset as nat),
            a_idx.len() + b.indices@.len() <= usize::MAX,
            k <= b.indices@.len(),
            a.indices@ == a_idx + shifted(b.indices@.take(k as int), offset as nat),
        decreases b.indices@.len() - k,
    {
        let idx = b.indices[k];
        assert(b.indices@[k as int] + offset <= u32::MAX);
        a.indices.push(offset + idx);
        assert(b.indices@.take(k + 1) =~= b.indices@.take(k as int).push(idx));
        assert(a.indices@ =~= a_idx + shifted(b.indices@.take(k + 1), offset as nat));
        k = k + 1;
    }
    assert(b.indices@.take(b.indices@.len() as int) =~= b.indices@);
    a
}

/// Merging keeps every triangle on its vertices: an index of `b`, shifted
/// into the merged mesh, names the same position components it named in
/// `b`, and `a`'s indices still name `a`'s positions.
pub proof fn lemma_merge_keeps_vertices(a: Seq<u32>, b: Seq<u32>, b_idx: Seq<u32>, k: int, c: int)
    requires
        a.len() % 3 == 0,
        shift_fits(b_idx, a.len() / 3),
        0 <= k < b_idx.len(),
        0 <= c < 3,
        3 * b_idx[k] + c < b.len(),
    ensures
        (a + b)[3 * shifted(b_idx, a.len() / 3)[k] + c] == b[3 * b_idx[k] + c],
        forall|v: int| 0 <= v < a.len() ==> #[trigger] (a + b)[v] == a[v],
{
    let off = a.len() / 3;
    assert(shifted(b_idx, off)[k] == b_idx[k] + off);
    assert(3 * (b_idx[k] + off) + c == a.len() + 3 * b_idx[k] + c);
}

// ---------------------------------------------------------------------------
// Shell topology

/// An undirected edge as its two vertex indices, smaller first.
pub open spec fn edge_key(a: u32, b: u32) -> (u32, u32) {
    if a < b {
        (a, b)
    } else {
        (b, a)
    }
}

/// The edges of the first `t` triangles of `idx`, three per triangle in
/// the order (0,1), (1,2), (2,0).
pub open spec fn edge_keys(idx: Seq<u32>, t: nat) -> Seq<(u32, u32)>
    decreases t,
{
    if t == 0 {
        seq![]
    } else {
        let k = 3 * (t - 1);
        edge_keys(idx, (t - 1) as nat) + seq![
            edge_key(idx[k], idx[k + 1]),
            edge_key(idx[k + 1], idx[k + 2]),
            edge_key(idx[k + 2], idx[k]),
        ]
    }
}

/// How often `e` occurs in `es`.
pub open spec fn occurrences(es: Seq<(u32, u32)>, e: (u32, u32)) -> nat
    decreases es.len(),
{
    if es.len() == 0 {
        0
    } else {
        occurrences(es.drop_last(), e) + if es.last() == e {
            1nat
        } else {
            0
        }
    }
}

/// The first `t` triangles of `idx` with `base` added to every index and
/// their winding reversed: (a, b, c) becomes (a, c, b).
pub open spec fn inner_triangles(idx: Seq<u32>, base: u32, t: nat) -> Seq<u32>
    decreases t,
{
    if t == 0 {
        seq![]
    } else {
        let k = 3 * (t - 1);
        inner_triangles(idx, base, (t - 1) as nat) + seq![
            (base + idx[k]) as u32,
            (base + idx[k + 2]) as u32,
            (base + idx[k + 1]) as u32,
        ]
    }
}

/// The side wall of an open edge (v0, v1): two triangles joining it to its
/// copy `base` vertices further on.
pub open spec fn wall(e: (u32, u32), base: u32) -> Seq<u32> {
    seq![e.0, e.1, (base + e.0) as u32, e.1, (base + e.1) as u32, (base + e.0) as u32]
}

/// The walls of the edges among the first `n` of `es` that occur exactly
/// once in all of `es` (the open edges), in that order.
pub open spec fn walls(es: Seq<(u32, u32)>, base: u32, n: nat) -> Seq<u32>
    decreases n,
{
    if n == 0 {
        seq![]
    } else {
        walls(es, base, (n - 1) as nat) + if occurrences(es, es[n - 1]) == 1 {
            wall(es[n - 1], base)
        } else {
            seq![]
        }
    }
}

/// Every index of a complete triangle stays within `u32` when `base` is
/// added.
pub open spec fn offset_fits(idx: Seq<u32>, base: u32) -> bool {
    forall|j: int| 0 <= j < 3 * (idx.len() / 3) ==> #[trigger] idx[j] + base <= u32::MAX
}

fn count_key(es: &Vec<(u32, u32)>, e: (u32, u32)) -> (n: usize)
    ensures
        n == occurrences(es@, e),
{
    let mut n: usize = 0;
    let mut k: usize = 0;
    while k < es.len()
        invariant
            k <= es@.len(),
            n == occurrences(es@.take(k as int), e),
            n <= k,
        decreases es@.len() - k,
    {
        assert(es@.take(k + 1).drop_last() =~= es@.take(k as int));
        if es[k].0 == e.0 && es[k].1 == e.1 {
            n = n + 1;
        }
        k = k + 1;
    }
    assert(es@.take(es@.len() as int) =~= es@);
    n
}

fn key_of(a: u32, b: u32) -> (r: (u32, u32))
    ensures
        r == edge_key(a, b),
{
    if a < b {
        (a, b)
    } else {
        (b, a)
    }
}

/// The triangle indices of a hollow shell of a mesh with `base` vertices
/// whose inner copy is stored after them: the original triangles, then
/// each complete triangle of the copy with reversed winding, then a wall
/// for every open edge (an edge of exactly one triangle), in the order the
/// edges are first met.
pub fn shell_indices(indices: &Vec<u32>, base: u32) -> (r: Vec<u32>)
    requires
        offset_fits(indices@, base),
    ensures
        ({
            let t = (indices@.len() / 3) as nat;
            let es = edge_keys(indices@, t);
            r@ == indices@ + inner_triangles(indices@, base, t) + walls(es, base, es.len())
        }),
{
    let t = indices.len() / 3;
    assert(3 * t <= indices@.len()) by (nonlinear_arith)
        requires
            t == indices@.len() / 3,
    ;
    let mut r: Vec<u32> = Vec::new();
    let mut j: usize = 0;
    while j < indices.len()
        invariant
            j <= indices@.len(),
            r@ == indices@.take(j as int),
        decreases indices@.len() - j,
    {
        r.push(indices[j]);
        assert(r@ =~= indices@.take(j + 1));
        j = j + 1;
    }
    assert(indices@.take(indices@.len() as int) =~= indices@);
    let mut es: Vec<(u32, u32)> = Vec::new();
    let mut k: usize = 0;
    while k < t
        invariant
            k <= t,
            t == indices@.len() / 3,
            3 * t <= indices@.len(),
            offset_fits(indices@, base),
            r@ == indices@ + inner_triangles(indices@, base, k as nat),
            es@ == edge_keys(indices@, k as nat),
        decreases t - k,
    {
        let n = indices.len();
        assert(3 * k + 2 < n);
        let a = indices[3 * k];
        let b = indices[3 * k + 1];
        let c = indices[3 * k + 2];
        assert(a + base <= u32::MAX && b + base <= u32::MAX && c + base <= u32::MAX) by {
            assert(indices@[3 * k as int] == a);
            assert(indices@[3 * k + 1] == b);
            assert(indices@[3 * k + 2] == c);
        }
        r.push(base + a);
        r.push(base + c);
        r.push(base + b);
        es.push(key_of(a, b));
        es.push(key_of(b, c));
        es.push(key_of(c, a));
        proof {
            assert(r@ =~= indices@ + inner_triangles(indices@, base, (k + 1) as nat));
            assert(es@ =~= edge_keys(indices@, (k + 1) as nat));
        }
        k = k + 1;
    }
    let ghost head = r@;
    let mut m: usize = 0;
    while m < es.len()
        invariant
            m <= es@.len(),
            r@ == head + walls(es@, base, m as nat),
            offset_fits(indices@, base),
            es@ == edge_keys(indices@, t as nat),
            t == indices@.len() / 3,
        decreases es@.len() - m,
    {
        let e = es[m];
        if count_key(&es, e) == 1 {
            proof {
                lemma_keys_fit(indices@, base, t as nat, m as int);
            }
            r.push(e.0);
            r.push(e.1);
            r.push(base + e.0);
            r.push(e.1);
            r.push(base + e.1);
            r.push(base + e.0);
        }
        proof {
            assert(r@ =~= head + walls(es@, base, (m + 1) as nat));
        }
        m = m + 1;
    }
    r
}

proof fn lemma_keys_fit(idx: Seq<u32>, base: u32, t: nat, m: int)
    requires
        offset_fits(idx, base),
        3 * t <= idx.len(),
        0 <= m < edge_keys(idx, t).len(),
    ensures
        edge_keys(idx, t).len() == 3 * t,
        edge_keys(idx, t)[m].0 + base <= u32::MAX,
        edge_keys(idx, t)[m].1 + base <= u32::MAX,
    decreases t,
{
    lemma_keys_len(idx, t);
    let k = 3 * (t - 1);
    assert(3 * t <= 3 * (idx.len() / 3)) by (nonlinear_arith)
        requires
            3 * t <= idx.len(),
    ;
    assert(idx[k] + base <= u32::MAX && idx[k + 1] + base <= u32::MAX && idx[k + 2] + base
        <= u32::MAX);
    if m < 3 * (t - 1) {
        lemma_keys_fit(idx, base, (t - 1) as nat, m);
    }
}

proof fn lemma_keys_len(idx: Seq<u32>, t: nat)
    ensures
        edge_keys(idx, t).len() == 3 * t,
    decreases t,
{
    if t > 0 {
        lemma_keys_len(idx, (t - 1) as nat);
    }
}

} // verus!
