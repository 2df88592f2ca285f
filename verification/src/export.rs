//! The byte-level side of mesh export: the little-endian buffer of a glTF 2.0
//! document with the buffer views and accessors that describe it, and the
//! complete bytes of a binary STL file.

use vstd::prelude::*;

use crate::mesh::Mesh;

verus! {

/// glTF component type of 32-bit floats.
pub const FLOAT: u32 = 5126;

/// glTF component type of 32-bit unsigned integers.
pub const UNSIGNED_INT: u32 = 5125;

/// Buffer-view target of vertex attributes.
pub const ARRAY_BUFFER: u32 = 34962;

/// Buffer-view target of vertex indices.
pub const ELEMENT_ARRAY_BUFFER: u32 = 34963;

/// The four little-endian bytes of `v`.
pub open spec fn le4(v: u32) -> Seq<u8> {
    seq![
        (v % 256) as u8,
        ((v / 256) % 256) as u8,
        ((v / 65536) % 256) as u8,
        (v / 16777216) as u8,
    ]
}

/// The little-endian bytes of each value of `s`, in order.
pub open spec fn le_all(s: Seq<u32>) -> Seq<u8>
    decreases s.len(),
{
    if s.len() == 0 {
        seq![]
    } else {
        le_all(s.drop_last()) + le4(s.last())
    }
}

pub proof fn lemma_le_all_len(s: Seq<u32>)
    ensures
        le_all(s).len() == 4 * s.len(),
    decreases s.len(),
{
    if s.len() > 0 {
        lemma_le_all_len(s.drop_last());
    }
}

/// The mesh carries one normal per vertex (and at least one vertex).
pub open spec fn has_normals(m: Mesh) -> bool {
    m.normals@.len() == m.positions@.len() && m.normals@.len() >= 3
}

/// The glTF buffer of `m`: positions, then indices, then the normals when
/// `has_normals(m)`, each value as four little-endian bytes.
pub open spec fn buffer_bytes(m: Mesh) -> Seq<u8> {
    le_all(m.positions@) + le_all(m.indices@) + if has_normals(m) {
        le_all(m.normals@)
    } else {
        seq![]
    }
}

fn push_le(out: &mut Vec<u8>, v: u32)
    ensures
        final(out)@ == old(out)@ + le4(v),
{
    let b0 = (v & 0xff) as u8;
    let b1 = ((v >> 8) & 0xff) as u8;
    let b2 = ((v >> 16) & 0xff) as u8;
    let b3 = (v >> 24) as u8;
    assert(v & 0xff == v % 256) by (bit_vector);
    assert((v >> 8) & 0xff == (v / 256) % 256) by (bit_vector);
    assert((v >> 16) & 0xff == (v / 65536) % 256) by (bit_vector);
    assert(v >> 24 == v / 16777216) by (bit_vector);
    out.push(b0);
    out.push(b1);
    out.push(b2);
    out.push(b3);
    assert(out@ =~= old(out)@ + le4(v));
}

fn append_le_all(out: &mut Vec<u8>, s: &Vec<u32>)
    ensures
        final(out)@ == old(out)@ + le_all(s@),
{
    let mut i: usize = 0;
    while i < s.len()
        invariant
            i <= s@.len(),
            out@ == old(out)@ + le_all(s@.take(i as int)),
        decreases s@.len() - i,
    {
        push_le(out, s[i]);
        proof {
            let t = s@.take(i + 1);
            assert(t.drop_last() =~= s@.take(i as int));
            assert(out@ =~= old(out)@ + le_all(t));
        }
        i = i + 1;
    }
    assert(s@.take(s@.len() as int) =~= s@);
}

/// The glTF buffer of the mesh (see `buffer_bytes`).
pub fn gltf_buffer(mesh: &Mesh) -> (b: Vec<u8>)
    ensures
        b@ == buffer_bytes(*mesh),
{
    let mut b: Vec<u8> = Vec::new();
    append_le_all(&mut b, &mesh.positions);
    append_le_all(&mut b, &mesh.indices);
    if mesh.normals.len() == mesh.positions.len() && mesh.normals.len() >= 3 {
        append_le_all(&mut b, &mesh.normals);
    }
    assert(b@ =~= buffer_bytes(*mesh));
    b
}

/// glTF accessor types used here.
#[derive(Debug, Clone, Copy, PartialEq, Eq, Structural)]
pub enum AccessorType {
    Vec3,
    Scalar,
}

/// A contiguous slice of buffer 0.
#[derive(Debug, Clone, Copy, PartialEq, Eq, Structural)]
pub struct BufferView {
    pub byte_offset: usize,
    pub byte_length: usize,
    pub target: u32,
}

/// A typed view of a buffer view.
#[derive(Debug, Clone, Copy, PartialEq, Eq, Structural)]
pub struct Accessor {
    pub buffer_view: usize,
    pub component_type: u32,
    pub count: usize,
    pub kind: AccessorType,
}

/// Where each stream of the buffer lies: the POSITION accessor is always
/// accessor 0 on view 0; `indices` and `normal` name the accessors of the
/// index and normal streams when the mesh has them. Accessor `k` reads
/// buffer view `k`.
#[derive(Debug, Clone)]
pub struct GltfLayout {
    pub views: Vec<BufferView>,
    pub accessors: Vec<Accessor>,
    pub indices: Option<usize>,
    pub normal: Option<usize>,
}

/// The layout's byte counts fit in `usize`.
pub open spec fn layout_fits(m: Mesh) -> bool {
    4 * (m.positions@.len() + m.indices@.len() + m.normals@.len()) <= usize::MAX
}

/// The glTF layout of the mesh: positions as VEC3 floats at offset 0;
/// indices, when there are any, as SCALAR unsigned ints right after; normals,
/// when complete, as VEC3 floats after those.
pub fn gltf_layout(mesh: &Mesh) -> (l: GltfLayout)
    requires
        layout_fits(*mesh),
    ensures
        ({
            let p = mesh.positions@.len();
            let i = mesh.indices@.len();
            let n = mesh.normals@.len();
            let views = l.views@;
            let accs = l.accessors@;
            &&& views.len() == 1 + (if i > 0 { 1int } else { 0 }) + (if has_normals(*mesh) { 1int } else { 0 })
            &&& accs.len() == views.len()
            &&& views[0] == (BufferView { byte_offset: 0, byte_length: (4 * p) as usize, target: ARRAY_BUFFER })
            &&& accs[0] == (Accessor { buffer_view: 0, component_type: FLOAT, count: (p / 3) as usize, kind: AccessorType::Vec3 })
            &&& (i > 0 ==> l.indices == Some(1usize)
                && views[1] == (BufferView { byte_offset: (4 * p) as usize, byte_length: (4 * i) as usize, target: ELEMENT_ARRAY_BUFFER })
                && accs[1] == (Accessor { buffer_view: 1, component_type: UNSIGNED_INT, count: i as usize, kind: AccessorType::Scalar }))
            &&& (i == 0 ==> l.indices is None)
            &&& (has_normals(*mesh) ==> {
                let k = views.len() - 1;
                &&& l.normal == Some(k as usize)
                &&& views[k] == (BufferView { byte_offset: (4 * (p + i)) as usize, byte_length: (4 * n) as usize, target: ARRAY_BUFFER })
                &&& accs[k] == (Accessor { buffer_view: k as usize, component_type: FLOAT, count: (p / 3) as usize, kind: AccessorType::Vec3 })
            })
            &&& (!has_normals(*mesh) ==> l.normal is None)
        }),
{
    let p = mesh.positions.len();
    let i = mesh.indices.len();
    let n = mesh.normals.len();
    let mut views: Vec<BufferView> = Vec::new();
    let mut accessors: Vec<Accessor> = Vec::new();
    views.push(BufferView { byte_offset: 0, byte_length: 4 * p, target: ARRAY_BUFFER });
    accessors.push(Accessor { buffer_view: 0, component_type: FLOAT, count: p / 3, kind: AccessorType::Vec3 });
    let mut indices: Option<usize> = None;
    if i > 0 {
        views.push(BufferView { byte_offset: 4 * p, byte_length: 4 * i, target: ELEMENT_ARRAY_BUFFER });
        accessors.push(Accessor { buffer_view: 1, component_type: UNSIGNED_INT, count: i, kind: AccessorType::Scalar });
        indices = Some(1);
    }
    let mut normal: Option<usize> = None;
    if n == p && n >= 3 {
        let k = views.len();
        views.push(BufferView { byte_offset: 4 * (p + i), byte_length: 4 * n, target: ARRAY_BUFFER });
        accessors.push(Accessor { buffer_view: k, component_type: FLOAT, count: p / 3, kind: AccessorType::Vec3 });
        normal = Some(k);
    }
    GltfLayout { views, accessors, indices, normal }
}

/// The buffer holds four bytes per value of each stream it packs, so the
/// layout's views, laid end to end from offset 0, cover it exactly.
pub proof fn lemma_buffer_len(m: Mesh)
    ensures
        buffer_bytes(m).len() == 4 * (m.positions@.len() + m.indices@.len() + if has_normals(m) {
            m.normals@.len()
        } else {
            0
        }),
{
    lemma_le_all_len(m.positions@);
    lemma_le_all_len(m.indices@);
    lemma_le_all_len(m.normals@);
}

// ---------------------------------------------------------------------------
// Binary STL

/// The label at the start of the 80-byte header ("EchoCAD binary STL"); it
/// does not begin with "solid", which some readers take for ASCII STL.
pub open spec fn stl_label() -> Seq<u8> {
    seq![69u8, 99, 104, 111, 67, 65, 68, 32, 98, 105, 110, 97, 114, 121, 32, 83, 84, 76]
}

/// The 80-byte header: the label, zero-padded.
pub open spec fn stl_header() -> Seq<u8> {
    stl_label() + Seq::new(62, |i: int| 0u8)
}

/// The twelve bytes of vertex `v`'s position.
pub open spec fn stl_vertex(pos: Seq<u32>, v: u32) -> Seq<u8> {
    le4(pos[3 * v]) + le4(pos[3 * v + 1]) + le4(pos[3 * v + 2])
}

/// The 50 bytes of triangle `k`: its facet normal (three values of
/// `normals` from `3 * k`), its three vertices, and a zero attribute count.
pub open spec fn stl_facet(pos: Seq<u32>, idx: Seq<u32>, normals: Seq<u32>, k: int) -> Seq<u8> {
    le4(normals[3 * k]) + le4(normals[3 * k + 1]) + le4(normals[3 * k + 2]) + stl_vertex(
        pos,
        idx[3 * k],
    ) + stl_vertex(pos, idx[3 * k + 1]) + stl_vertex(pos, idx[3 * k + 2]) + seq![0u8, 0u8]
}

/// The facets of the first `t` triangles, in order.
pub open spec fn stl_facets(pos: Seq<u32>, idx: Seq<u32>, normals: Seq<u32>, t: nat) -> Seq<u8>
    decreases t,
{
    if t == 0 {
        seq![]
    } else {
        stl_facets(pos, idx, normals, (t - 1) as nat) + stl_facet(pos, idx, normals, t - 1)
    }
}

/// Every index of a complete triangle names a vertex of the mesh.
pub open spec fn triangles_in_bounds(m: Mesh) -> bool {
    forall|j: int|
        0 <= j < 3 * (m.indices@.len() / 3) ==> 3 * (#[trigger] m.indices@[j]) + 2 < m.positions@.len()
}

/// A binary STL file of the mesh: the header, the number of complete index
/// triples (truncated to `u32`), then a facet per complete triple; a
/// trailing partial triple is left out. `facet_normals` holds three values
/// (`f32` bits) per complete triangle.
pub fn stl_binary(mesh: &Mesh, facet_normals: &Vec<u32>) -> (b: Vec<u8>)
    requires
        facet_normals@.len() == 3 * (mesh.indices@.len() / 3),
        triangles_in_bounds(*mesh),
    ensures
        b@ == stl_header() + le4(#[verifier::truncate] ((mesh.indices@.len() / 3) as u32)) + stl_facets(
            mesh.positions@,
            mesh.indices@,
            facet_normals@,
            mesh.indices@.len() / 3,
        ),
{
    let label: [u8; 18] = [69, 99, 104, 111, 67, 65, 68, 32, 98, 105, 110, 97, 114, 121, 32, 83, 84, 76];
    let mut b: Vec<u8> = Vec::new();
    let mut i: usize = 0;
    while i < 18
        invariant
            i <= 18,
            label@ == stl_label(),
            b@ == stl_label().take(i as int),
        decreases 18 - i,
    {
        b.push(label[i]);
        proof {
            assert(b@ =~= stl_label().take(i + 1));
        }
        i = i + 1;
    }
    while i < 80
        invariant
            18 <= i <= 80,
            b@ == stl_header().take(i as int),
        decreases 80 - i,
    {
        b.push(0u8);
        proof {
            assert(b@ =~= stl_header().take(i + 1));
        }
        i = i + 1;
    }
    assert(b@ =~= stl_header());
    let t = mesh.indices.len() / 3;
    #[verifier::truncate]
    let count = t as u32;
    push_le(&mut b, count);
    let ghost head = b@;
    assert(3 * t <= mesh.indices@.len()) by (nonlinear_arith)
        requires
            t == mesh.indices@.len() / 3,
    ;
    let mut k: usize = 0;
    while k < t
        invariant
            k <= t,
            t == mesh.indices@.len() / 3,
            3 * t <= mesh.indices@.len(),
            facet_normals@.len() == 3 * t,
            triangles_in_bounds(*mesh),
            b@ == head + stl_facets(mesh.positions@, mesh.indices@, facet_normals@, k as nat),
        decreases t - k,
    {
        push_facet(&mut b, mesh, facet_normals, k);
        k = k + 1;
    }
    b
}

fn push_vertex(b: &mut Vec<u8>, pos: &Vec<u32>, v: u32)
    requires
        3 * v + 2 < pos@.len(),
    ensures
        final(b)@ == old(b)@ + stl_vertex(pos@, v),
{
    let n = pos.len();
    assert(3 * v + 2 < n);
    let base = 3 * (v as usize);
    push_le(b, pos[base]);
    push_le(b, pos[base + 1]);
    push_le(b, pos[base + 2]);
    assert(final(b)@ =~= old(b)@ + stl_vertex(pos@, v));
}

fn push_facet(b: &mut Vec<u8>, mesh: &Mesh, normals: &Vec<u32>, k: usize)
    requires
        3 * k + 2 < 3 * (mesh.indices@.len() / 3),
        3 * (mesh.indices@.len() / 3) <= mesh.indices@.len(),
        normals@.len() == 3 * (mesh.indices@.len() / 3),
        triangles_in_bounds(*mesh),
    ensures
        final(b)@ == old(b)@ + stl_facet(mesh.positions@, mesh.indices@, normals@, k as int),
{
    let n = mesh.indices.len();
    assert(3 * k + 2 < n);
    push_le(b, normals[3 * k]);
    push_le(b, normals[3 * k + 1]);
    push_le(b, normals[3 * k + 2]);
    let ghost idx = mesh.indices@;
    assert(3 * idx[3 * k as int] + 2 < mesh.positions@.len());
    assert(3 * idx[3 * k + 1] + 2 < mesh.positions@.len());
    assert(3 * idx[3 * k + 2] + 2 < mesh.positions@.len());
    push_vertex(b, &mesh.positions, mesh.indices[3 * k]);
    push_vertex(b, &mesh.positions, mesh.indices[3 * k + 1]);
    push_vertex(b, &mesh.positions, mesh.indices[3 * k + 2]);
    b.push(0u8);
    b.push(0u8);
    assert(final(b)@ =~= old(b)@ + stl_facet(mesh.positions@, mesh.indices@, normals@, k as int));
}

/// A binary STL file is 84 bytes of header and count plus 50 bytes per
/// triangle.
pub proof fn lemma_stl_len(pos: Seq<u32>, idx: Seq<u32>, normals: Seq<u32>, count: u32, t: nat)
    ensures
        (stl_header() + le4(count) + stl_facets(pos, idx, normals, t)).len() == 84 + 50 * t,
    decreases t,
{
    if t > 0 {
        lemma_stl_len(pos, idx, normals, count, (t - 1) as nat);
    }
}

/// `le4` writes the least significant byte first: reading the four bytes
/// back as base-256 digits, lowest first, gives `v`.
pub proof fn lemma_le4_reads_back(v: u32)
    ensures
        le4(v).len() == 4,
        le4(v)[0] as int + 256 * le4(v)[1] as int + 65536 * le4(v)[2] as int + 16777216
            * le4(v)[3] as int == v as int,
{
    assert(v / 16777216 < 256);
}

/// Value `j` of `s` sits in bytes `4 * j .. 4 * j + 4` of `le_all(s)`.
pub proof fn lemma_le_all_at(s: Seq<u32>, j: int)
    requires
        0 <= j < s.len(),
    ensures
        le_all(s).len() == 4 * s.len(),
        le_all(s).subrange(4 * j, 4 * j + 4) == le4(s[j]),
    decreases s.len(),
{
    lemma_le_all_len(s);
    lemma_le_all_len(s.drop_last());
    if j == s.len() - 1 {
        assert(le_all(s).subrange(4 * j, 4 * j + 4) =~= le4(s[j]));
    } else {
        lemma_le_all_at(s.drop_last(), j);
        assert(le_all(s).subrange(4 * j, 4 * j + 4) =~= le_all(s.drop_last()).subrange(
            4 * j,
            4 * j + 4,
        ));
    }
}

/// Where each value sits in the glTF buffer: position `j` at byte `4 * j`,
/// index `j` right after all positions, and normal `j` (when the mesh has
/// normals) right after all indices, each as its four little-endian bytes.
pub proof fn lemma_buffer_value_positions(m: Mesh, j: int)
    ensures
        0 <= j < m.positions@.len() ==> buffer_bytes(m).subrange(4 * j, 4 * j + 4) == le4(
            m.positions@[j],
        ),
        0 <= j < m.indices@.len() ==> buffer_bytes(m).subrange(
            4 * m.positions@.len() + 4 * j,
            4 * m.positions@.len() + 4 * j + 4,
        ) == le4(m.indices@[j]),
        has_normals(m) && 0 <= j < m.normals@.len() ==> buffer_bytes(m).subrange(
            4 * (m.positions@.len() + m.indices@.len()) + 4 * j,
            4 * (m.positions@.len() + m.indices@.len()) + 4 * j + 4,
        ) == le4(m.normals@[j]),
{
    let lp = le_all(m.positions@);
    let li = le_all(m.indices@);
    let ln = le_all(m.normals@);
    lemma_le_all_len(m.positions@);
    lemma_le_all_len(m.indices@);
    lemma_le_all_len(m.normals@);
    let b = buffer_bytes(m);
    if 0 <= j < m.positions@.len() {
        lemma_le_all_at(m.positions@, j);
        assert(b.subrange(4 * j, 4 * j + 4) =~= lp.subrange(4 * j, 4 * j + 4));
    }
    if 0 <= j < m.indices@.len() {
        lemma_le_all_at(m.indices@, j);
        let o = 4 * m.positions@.len();
        assert(b.subrange(o + 4 * j, o + 4 * j + 4) =~= li.subrange(4 * j, 4 * j + 4));
    }
    if has_normals(m) && 0 <= j < m.normals@.len() {
        lemma_le_all_at(m.normals@, j);
        let o = 4 * (m.positions@.len() + m.indices@.len());
        assert(b.subrange(o + 4 * j, o + 4 * j + 4) =~= ln.subrange(4 * j, 4 * j + 4));
    }
}

proof fn lemma_facet_len(pos: Seq<u32>, idx: Seq<u32>, normals: Seq<u32>, k: int)
    ensures
        stl_facet(pos, idx, normals, k).len() == 50,
{
}

/// Facet `k` occupies bytes `50 * k .. 50 * k + 50` of the facets.
proof fn lemma_facets_at(pos: Seq<u32>, idx: Seq<u32>, normals: Seq<u32>, t: nat, k: int)
    requires
        0 <= k < t,
    ensures
        stl_facets(pos, idx, normals, t).len() == 50 * t,
        stl_facets(pos, idx, normals, t).subrange(50 * k, 50 * k + 50) == stl_facet(
            pos,
            idx,
            normals,
            k,
        ),
    decreases t,
{
    lemma_stl_len(pos, idx, normals, 0, t);
    lemma_stl_len(pos, idx, normals, 0, (t - 1) as nat);
    lemma_facet_len(pos, idx, normals, t - 1);
    let prev = stl_facets(pos, idx, normals, (t - 1) as nat);
    if k == t - 1 {
        assert(stl_facets(pos, idx, normals, t).subrange(50 * k, 50 * k + 50) =~= stl_facet(
            pos,
            idx,
            normals,
            k,
        ));
    } else {
        lemma_facets_at(pos, idx, normals, (t - 1) as nat, k);
        assert(stl_facets(pos, idx, normals, t).subrange(50 * k, 50 * k + 50) =~= prev.subrange(
            50 * k,
            50 * k + 50,
        ));
    }
}

/// The layout of a binary STL file: 80 header bytes, the four-byte
/// triangle count, then 50 bytes per triangle `k` from byte `84 + 50 * k`:
/// the triangle's own normal (values `3k`, `3k+1`, `3k+2` of the normals),
/// the positions of its three vertices in index order, and two zero bytes.
pub proof fn lemma_stl_facet_bytes(
    pos: Seq<u32>,
    idx: Seq<u32>,
    normals: Seq<u32>,
    count: u32,
    t: nat,
    k: int,
)
    requires
        0 <= k < t,
    ensures
        ({
            let file = stl_header() + le4(count) + stl_facets(pos, idx, normals, t);
            let o = 84 + 50 * k;
            &&& file.len() == 84 + 50 * t
            &&& file.subrange(80, 84) == le4(count)
            &&& file.subrange(o, o + 12) == le4(normals[3 * k]) + le4(normals[3 * k + 1]) + le4(
                normals[3 * k + 2],
            )
            &&& file.subrange(o + 12, o + 24) == le4(pos[3 * idx[3 * k]]) + le4(
                pos[3 * idx[3 * k] + 1],
            ) + le4(pos[3 * idx[3 * k] + 2])
            &&& file.subrange(o + 24, o + 36) == le4(pos[3 * idx[3 * k + 1]]) + le4(
                pos[3 * idx[3 * k + 1] + 1],
            ) + le4(pos[3 * idx[3 * k + 1] + 2])
            &&& file.subrange(o + 36, o + 48) == le4(pos[3 * idx[3 * k + 2]]) + le4(
                pos[3 * idx[3 * k + 2] + 1],
            ) + le4(pos[3 * idx[3 * k + 2] + 2])
            &&& file[o + 48] == 0u8
            &&& file[o + 49] == 0u8
        }),
{
    let facets = stl_facets(pos, idx, normals, t);
    let file = stl_header() + le4(count) + facets;
    let o = 84 + 50 * k;
    lemma_stl_len(pos, idx, normals, count, t);
    lemma_facets_at(pos, idx, normals, t, k);
    let f = stl_facet(pos, idx, normals, k);
    assert(file.subrange(80, 84) =~= le4(count));
    assert(file.subrange(o, o + 50) =~= f);
    assert(file.subrange(o, o + 12) =~= f.subrange(0, 12));
    assert(f.subrange(0, 12) =~= le4(normals[3 * k]) + le4(normals[3 * k + 1]) + le4(
        normals[3 * k + 2],
    ));
    assert(file.subrange(o + 12, o + 24) =~= f.subrange(12, 24));
    assert(f.subrange(12, 24) =~= stl_vertex(pos, idx[3 * k]));
    assert(file.subrange(o + 24, o + 36) =~= f.subrange(24, 36));
    assert(f.subrange(24, 36) =~= stl_vertex(pos, idx[3 * k + 1]));
    assert(file.subrange(o + 36, o + 48) =~= f.subrange(36, 48));
    assert(f.subrange(36, 48) =~= stl_vertex(pos, idx[3 * k + 2]));
    assert(file[o + 48] == f[48]);
    assert(file[o + 49] == f[49]);
}

} // verus!
