//! Boundary-representation topology: kernel errors, wires (ordered loops of
//! oriented edges), the topology of extruded prisms and revolved solids,
//! the profile checks that guard them, and the resolution of a wire into the
//! vertex indices it visits.
//!
//! Only topology lives here; vertex positions and surfaces are geometry and
//! are attached by the kernel.

use vstd::prelude::*;

use crate::text::{decimal, u64_to_decimal};

verus! {

/// Errors produced by any B-rep kernel implementation.
#[derive(Debug)]
pub enum BrepError {
    Kernel(String),
    InvalidGeometry(String),
    Unsupported(String),
}

/// The human-readable text of a kernel error.
pub open spec fn brep_error_text(e: BrepError) -> Seq<char> {
    match e {
        BrepError::Kernel(m) => "kernel error: "@ + m@,
        BrepError::InvalidGeometry(m) => "invalid geometry: "@ + m@,
        BrepError::Unsupported(m) => "operation not supported: "@ + m@,
    }
}

impl BrepError {
    /// The human-readable text of the error.
    pub fn to_string(&self) -> (s: String)
        ensures
            s@ == brep_error_text(*self),
    {
        match self {
            BrepError::Kernel(m) => {
                let mut s = "kernel error: ".to_owned();
                s.append(m.as_str());
                s
            },
            BrepError::InvalidGeometry(m) => {
                let mut s = "invalid geometry: ".to_owned();
                s.append(m.as_str());
                s
            },
            BrepError::Unsupported(m) => {
                let mut s = "operation not supported: ".to_owned();
                s.append(m.as_str());
                s
            },
        }
    }
}

/// A reference to an edge within a wire, carrying orientation: forward
/// traverses the edge from its first vertex to its second.
#[derive(Debug, Clone, Copy, PartialEq, Eq, Structural)]
pub struct WireEdge {
    pub edge_idx: usize,
    pub forward: bool,
}

/// An ordered loop of wire edges forming a face boundary.
#[derive(Debug, Clone)]
pub struct Wire {
    pub edges: Vec<WireEdge>,
}

/// The vertex a wire edge starts from, given the edge's (start, end).
pub open spec fn start_vertex(we: WireEdge, e: (usize, usize)) -> usize {
    if we.forward {
        e.0
    } else {
        e.1
    }
}

/// The vertex a wire edge ends at.
pub open spec fn end_vertex(we: WireEdge, e: (usize, usize)) -> usize {
    if we.forward {
        e.1
    } else {
        e.0
    }
}

/// `w` is a closed loop over `edges`: every wire edge names an edge, and
/// each wire edge ends where the next one (cyclically) starts.
pub open spec fn is_closed_loop(w: Seq<WireEdge>, edges: Seq<(usize, usize)>) -> bool {
    &&& w.len() > 0
    &&& forall|t: int| 0 <= t < w.len() ==> #[trigger] w[t].edge_idx < edges.len()
    &&& forall|t: int|
        0 <= t < w.len() ==> end_vertex(#[trigger] w[t], edges[w[t].edge_idx as int])
            == start_vertex(w[(t + 1) % (w.len() as int)], edges[w[(t + 1) % (w.len() as int)].edge_idx as int])
}

/// Edge `k` of a prism over an `n`-gon: bottom ring edges `(i, i+1)`, then
/// top ring edges `(n+i, n+i+1)` (indices taken around the ring), then
/// vertical edges `(i, n+i)`.
pub open spec fn prism_edge(n: int, k: int) -> (usize, usize) {
    if k < n {
        (k as usize, ((k + 1) % n) as usize)
    } else if k < 2 * n {
        (k as usize, (n + (k - n + 1) % n) as usize)
    } else {
        ((k - 2 * n) as usize, (k - n) as usize)
    }
}

/// The boundary of face `f` of a prism over an `n`-gon: the bottom face
/// walks the bottom ring, the top face the top ring, and side face `2 + i`
/// walks bottom edge `i`, the vertical at `i + 1`, top edge `i` backwards
/// and the vertical at `i` backwards.
pub open spec fn prism_wire(n: int, f: int) -> Seq<WireEdge> {
    if f == 0 {
        Seq::new(n as nat, |i: int| WireEdge { edge_idx: i as usize, forward: true })
    } else if f == 1 {
        Seq::new(n as nat, |i: int| WireEdge { edge_idx: (n + i) as usize, forward: true })
    } else {
        let i = f - 2;
        let j = (i + 1) % n;
        seq![
            WireEdge { edge_idx: i as usize, forward: true },
            WireEdge { edge_idx: (2 * n + j) as usize, forward: true },
            WireEdge { edge_idx: (n + i) as usize, forward: false },
            WireEdge { edge_idx: (2 * n + i) as usize, forward: false },
        ]
    }
}

/// The edges of a prism over an `n`-gon (vertex `i` on the bottom ring,
/// `n + i` above it on the top ring).
pub fn prism_edges(n: usize) -> (r: Vec<(usize, usize)>)
    requires
        3 <= n,
        3 * n <= usize::MAX,
    ensures
        r@.len() == 3 * n,
        forall|k: int| 0 <= k < 3 * n ==> #[trigger] r@[k] == prism_edge(n as int, k),
{
    let mut r: Vec<(usize, usize)> = Vec::new();
    let mut i: usize = 0;
    while i < n
        invariant
            3 <= n,
            3 * n <= usize::MAX,
            i <= n,
            r@.len() == i,
            forall|k: int| 0 <= k < i ==> #[trigger] r@[k] == prism_edge(n as int, k),
        decreases n - i,
    {
        r.push((i, (i + 1) % n));
        i = i + 1;
    }
    let mut i: usize = 0;
    while i < n
        invariant
            3 <= n,
            3 * n <= usize::MAX,
            i <= n,
            r@.len() == n + i,
            forall|k: int| 0 <= k < n + i ==> #[trigger] r@[k] == prism_edge(n as int, k),
        decreases n - i,
    {
        r.push((n + i, n + (i + 1) % n));
        assert(((n + i) as int - n + 1) % (n as int) == ((i + 1) as int) % (n as int));
        i = i + 1;
    }
    let mut i: usize = 0;
    while i < n
        invariant
            3 <= n,
            3 * n <= usize::MAX,
            i <= n,
            r@.len() == 2 * n + i,
            forall|k: int| 0 <= k < 2 * n + i ==> #[trigger] r@[k] == prism_edge(n as int, k),
        decreases n - i,
    {
        r.push((i, n + i));
        i = i + 1;
    }
    r
}

/// The outer wires of the faces of a prism over an `n`-gon: bottom, top,
/// then one side face per profile edge.
pub fn prism_wires(n: usize) -> (r: Vec<Wire>)
    requires
        3 <= n,
        3 * n <= usize::MAX,
    ensures
        r@.len() == n + 2,
        forall|f: int| 0 <= f < n + 2 ==> (#[trigger] r@[f]).edges@ == prism_wire(n as int, f),
{
    let mut r: Vec<Wire> = Vec::new();
    let mut bottom: Vec<WireEdge> = Vec::new();
    let mut top: Vec<WireEdge> = Vec::new();
    let mut i: usize = 0;
    while i < n
        invariant
            3 <= n,
            3 * n <= usize::MAX,
            i <= n,
            bottom@ =~= Seq::new(i as nat, |k: int| WireEdge { edge_idx: k as usize, forward: true }),
            top@ =~= Seq::new(
                i as nat,
                |k: int| WireEdge { edge_idx: (n + k) as usize, forward: true },
            ),
        decreases n - i,
    {
        bottom.push(WireEdge { edge_idx: i, forward: true });
        top.push(WireEdge { edge_idx: n + i, forward: true });
        i = i + 1;
    }
    r.push(Wire { edges: bottom });
    r.push(Wire { edges: top });
    let mut i: usize = 0;
    while i < n
        invariant
            3 <= n,
            3 * n <= usize::MAX,
            i <= n,
            r@.len() == 2 + i,
            forall|f: int| 0 <= f < 2 + i ==> (#[trigger] r@[f]).edges@ == prism_wire(n as int, f),
        decreases n - i,
    {
        let j = (i + 1) % n;
        let side = vec![
            WireEdge { edge_idx: i, forward: true },
            WireEdge { edge_idx: 2 * n + j, forward: true },
            WireEdge { edge_idx: n + i, forward: false },
            WireEdge { edge_idx: 2 * n + i, forward: false },
        ];
        r.push(Wire { edges: side });
        proof {
            assert(r@[2 + i as int].edges@ =~= prism_wire(n as int, 2 + i as int));
        }
        i = i + 1;
    }
    r
}

/// Every face boundary of the prism is a closed loop over the prism's
/// edges.
pub proof fn lemma_prism_wires_closed(n: int, f: int)
    requires
        3 <= n,
        3 * n <= usize::MAX,
        0 <= f < n + 2,
    ensures
        is_closed_loop(
            prism_wire(n, f),
            Seq::new((3 * n) as nat, |k: int| prism_edge(n, k)),
        ),
{
    let w = prism_wire(n, f);
    let es = Seq::new((3 * n) as nat, |k: int| prism_edge(n, k));
    assert forall|t: int| 0 <= t < w.len() implies #[trigger] w[t].edge_idx < es.len() by {
        if f >= 2 {
            vstd::arithmetic::div_mod::lemma_mod_pos_bound(f - 1, n);
        }
    }
    assert forall|t: int| 0 <= t < w.len() implies end_vertex(#[trigger] w[t], es[w[t].edge_idx as int])
        == start_vertex(w[(t + 1) % (w.len() as int)], es[w[(t + 1) % (w.len() as int)].edge_idx as int]) by {
        if f >= 2 {
            let i = f - 2;
            vstd::arithmetic::div_mod::lemma_mod_pos_bound(i + 1, n);
            let j = (i + 1) % n;
            assert(w.len() == 4);
            assert(es[i] == prism_edge(n, i));
            assert(es[2 * n + j] == prism_edge(n, 2 * n + j));
            assert(es[n + i] == prism_edge(n, n + i));
            assert(es[2 * n + i] == prism_edge(n, 2 * n + i));
            assert(((n + i) - n + 1) % n == j);
            if t == 3 {
                assert((t + 1) % 4 == 0);
            } else {
                assert((t + 1) % 4 == t + 1);
            }
        } else {
            let s = (t + 1) % n;
            if t + 1 < n {
                vstd::arithmetic::div_mod::lemma_small_mod((t + 1) as nat, n as nat);
            } else {
                vstd::arithmetic::div_mod::lemma_mod_self_0(n);
            }
            assert(0 <= s < n);
            assert(w.len() == n);
            if f == 0 {
                assert(es[t] == prism_edge(n, t));
                assert(es[s] == prism_edge(n, s));
            } else {
                assert(es[n + t] == prism_edge(n, n + t));
                assert(es[n + s] == prism_edge(n, n + s));
                assert(((n + t) - n + 1) % n == s);
            }
        }
    }
}

/// A wire edge names an existing edge whose two vertices exist.
pub open spec fn wire_edge_valid(we: WireEdge, edges: Seq<(usize, usize)>, vertex_count: usize) -> bool {
    &&& we.edge_idx < edges.len()
    &&& edges[we.edge_idx as int].0 < vertex_count
    &&& edges[we.edge_idx as int].1 < vertex_count
}

/// Every wire edge before position `t` is valid.
pub open spec fn valid_before(
    w: Seq<WireEdge>,
    edges: Seq<(usize, usize)>,
    vertex_count: usize,
    t: int,
) -> bool {
    forall|u: int| 0 <= u < t ==> wire_edge_valid(#[trigger] w[u], edges, vertex_count)
}

/// The message reported for an invalid wire edge: a missing edge first,
/// then the edge's first vertex, then its second.
pub open spec fn walk_error_text(we: WireEdge, edges: Seq<(usize, usize)>, vertex_count: usize) -> Seq<
    char,
> {
    if we.edge_idx >= edges.len() {
        "wire references non-existent edge "@ + decimal(we.edge_idx as nat)
    } else {
        let (vi, vj) = edges[we.edge_idx as int];
        let bad = if vi >= vertex_count {
            vi
        } else {
            vj
        };
        "edge "@ + decimal(we.edge_idx as nat) + " references non-existent vertex "@ + decimal(
            bad as nat,
        )
    }
}

/// Position `t` holds the first invalid wire edge of `w`.
pub open spec fn first_invalid(
    w: Seq<WireEdge>,
    edges: Seq<(usize, usize)>,
    vertex_count: usize,
    t: int,
) -> bool {
    &&& 0 <= t < w.len()
    &&& !wire_edge_valid(w[t], edges, vertex_count)
    &&& valid_before(w, edges, vertex_count, t)
}

/// The message naming an invalid wire edge.
fn walk_error(we: WireEdge, edges: &[(usize, usize)], vertex_count: usize) -> (e: BrepError)
    requires
        !wire_edge_valid(we, edges@, vertex_count),
    ensures
        e matches BrepError::Kernel(m) && m@ == walk_error_text(we, edges@, vertex_count),
{
    if we.edge_idx >= edges.len() {
        let mut m = "wire references non-existent edge ".to_owned();
        let d = u64_to_decimal(we.edge_idx as u64);
        m.append(d.as_str());
        BrepError::Kernel(m)
    } else {
        let (vi, vj) = edges[we.edge_idx];
        let bad = if vi >= vertex_count {
            vi
        } else {
            vj
        };
        let mut m = "edge ".to_owned();
        let d = u64_to_decimal(we.edge_idx as u64);
        m.append(d.as_str());
        m.append(" references non-existent vertex ");
        let b = u64_to_decimal(bad as u64);
        m.append(b.as_str());
        BrepError::Kernel(m)
    }
}

/// The vertices a wire visits: for each wire edge the vertex it starts
/// from. `edges` holds each edge's (start, end) vertex indices. Fails at
/// the first wire edge that names a missing edge, or an edge with a missing
/// vertex.
pub fn wire_start_vertices(wire: &Wire, edges: &[(usize, usize)], vertex_count: usize) -> (r: Result<
    Vec<usize>,
    BrepError,
>)
    ensures
        r is Ok <==> valid_before(wire.edges@, edges@, vertex_count, wire.edges@.len() as int),
        r matches Ok(vs) ==> vs@ == Seq::new(
            wire.edges@.len(),
            |t: int| start_vertex(wire.edges@[t], edges@[wire.edges@[t].edge_idx as int]),
        ),
        r matches Err(e) ==> exists|t: int|
            #[trigger] first_invalid(wire.edges@, edges@, vertex_count, t) && (e matches BrepError::Kernel(
                m,
            ) && m@ == walk_error_text(wire.edges@[t], edges@, vertex_count)),
{
    let mut vs: Vec<usize> = Vec::new();
    let n = wire.edges.len();
    let mut i: usize = 0;
    while i < n
        invariant
            n == wire.edges@.len(),
            i <= n,
            valid_before(wire.edges@, edges@, vertex_count, i as int),
            vs@ == Seq::new(
                i as nat,
                |t: int| start_vertex(wire.edges@[t], edges@[wire.edges@[t].edge_idx as int]),
            ),
        decreases n - i,
    {
        let we = wire.edges[i];
        if we.edge_idx >= edges.len() || edges[we.edge_idx].0 >= vertex_count
            || edges[we.edge_idx].1 >= vertex_count {
            let e = walk_error(we, edges, vertex_count);
            assert(first_invalid(wire.edges@, edges@, vertex_count, i as int));
            return Err(e);
        }
        let (vi, vj) = edges[we.edge_idx];
        if we.forward {
            vs.push(vi);
        } else {
            vs.push(vj);
        }
        assert(vs@ =~= Seq::new(
            (i + 1) as nat,
            |t: int| start_vertex(wire.edges@[t], edges@[wire.edges@[t].edge_idx as int]),
        ));
        i = i + 1;
    }
    Ok(vs)
}

// ---------------------------------------------------------------------------
// Revolved solids

/// The profile edges of ring `r` of a revolve over an `n`-point profile:
/// `(r*n + i, r*n + (i+1) % n)` for each `i`.
pub open spec fn ring_edges(n: nat, r: nat) -> Seq<(usize, usize)> {
    Seq::new(n, |i: int| ((r * n + i) as usize, (r * n + (i + 1) % (n as int)) as usize))
}

/// The edges between ring `r` and ring `r + 1`: `(r*n + i, (r+1)*n + i)`.
pub open spec fn ring_to_ring_edges(n: nat, r: nat) -> Seq<(usize, usize)> {
    Seq::new(n, |i: int| ((r * n + i) as usize, ((r + 1) * n + i) as usize))
}

/// The profile edges of the first `rings` rings, ring by ring.
pub open spec fn all_ring_edges(n: nat, rings: nat) -> Seq<(usize, usize)>
    decreases rings,
{
    if rings == 0 {
        seq![]
    } else {
        all_ring_edges(n, (rings - 1) as nat) + ring_edges(n, (rings - 1) as nat)
    }
}

/// The ring-to-ring edges of the first `segs` angular segments.
pub open spec fn all_vertical_edges(n: nat, segs: nat) -> Seq<(usize, usize)>
    decreases segs,
{
    if segs == 0 {
        seq![]
    } else {
        all_vertical_edges(n, (segs - 1) as nat) + ring_to_ring_edges(n, (segs - 1) as nat)
    }
}

/// The edges of a revolve with `segs` angular segments: the profile edges
/// of its `segs + 1` rings, then the edges joining consecutive rings.
pub open spec fn revolve_edges_spec(n: nat, segs: nat) -> Seq<(usize, usize)> {
    all_ring_edges(n, segs + 1) + all_vertical_edges(n, segs)
}

/// The side face of profile edge `i` in segment `r`: its edge on ring `r`,
/// the joining edge at `i + 1`, its edge on ring `r + 1` backwards and the
/// joining edge at `i` backwards (joining edges are numbered after the
/// `(segs + 1) * n` ring edges).
pub open spec fn revolve_side(n: nat, segs: nat, r: nat, i: int) -> Seq<WireEdge> {
    let p = (segs + 1) * n;
    let j = (i + 1) % (n as int);
    seq![
        WireEdge { edge_idx: (r * n + i) as usize, forward: true },
        WireEdge { edge_idx: (p + r * n + j) as usize, forward: true },
        WireEdge { edge_idx: ((r + 1) * n + i) as usize, forward: false },
        WireEdge { edge_idx: (p + r * n + i) as usize, forward: false },
    ]
}

/// The side faces of the first `segs_done` segments, segment by segment.
pub open spec fn revolve_sides(n: nat, segs: nat, segs_done: nat) -> Seq<Seq<WireEdge>>
    decreases segs_done,
{
    if segs_done == 0 {
        seq![]
    } else {
        revolve_sides(n, segs, (segs_done - 1) as nat) + Seq::new(
            n,
            |i: int| revolve_side(n, segs, (segs_done - 1) as nat, i),
        )
    }
}

/// The face boundaries of a revolve: the side faces and, for a full turn,
/// a start cap walking ring 0 and an end cap walking the last ring
/// backwards.
pub open spec fn revolve_wires_spec(n: nat, segs: nat, full_turn: bool) -> Seq<Seq<WireEdge>> {
    revolve_sides(n, segs, segs) + if full_turn {
        seq![
            Seq::new(n, |i: int| WireEdge { edge_idx: i as usize, forward: true }),
            Seq::new(n, |i: int| WireEdge { edge_idx: (segs * n + i) as usize, forward: false }),
        ]
    } else {
        seq![]
    }
}

/// The edge count of a revolve fits in `usize`.
pub open spec fn revolve_fits(n: nat, segs: nat) -> bool {
    (segs + 1) * n + segs * n <= usize::MAX
}

proof fn lemma_ring_bound(n: nat, segs: nat, r: nat)
    requires
        1 <= n,
        revolve_fits(n, segs),
        r <= segs,
    ensures
        segs + 1 <= usize::MAX,
        r * n + n == (r + 1) * n,
        r * n + n <= usize::MAX,
        r < segs ==> (r + 1) * n + n <= usize::MAX,
        r < segs ==> (segs + 1) * n + r * n + n <= usize::MAX,
        segs * n + n <= usize::MAX,
{
    assert(r < segs ==> r * n + n <= segs * n) by (nonlinear_arith)
        requires
            r <= segs,
    ;
    assert(segs * n + n == (segs + 1) * n) by (nonlinear_arith);
    assert(r * n + n == (r + 1) * n) by (nonlinear_arith);
    assert(segs + 1 <= (segs + 1) * n) by (nonlinear_arith)
        requires
            1 <= n,
    ;
    assert((r + 1) * n <= (segs + 1) * n) by (nonlinear_arith)
        requires
            r <= segs,
    ;
    assert(r < segs ==> (r + 1) * n + n <= (segs + 1) * n) by (nonlinear_arith)
        requires
            r <= segs,
    ;
}

/// The edges of a revolve over an `n`-point profile with `segs` angular
/// segments (vertex `r*n + i` is profile point `i` on ring `r`).
pub fn revolve_edges(n: usize, segs: usize) -> (es: Vec<(usize, usize)>)
    requires
        1 <= n,
        revolve_fits(n as nat, segs as nat),
    ensures
        es@ == revolve_edges_spec(n as nat, segs as nat),
{
    let mut es: Vec<(usize, usize)> = Vec::new();
    let mut r: usize = 0;
    while r <= segs
        invariant
            1 <= n,
            revolve_fits(n as nat, segs as nat),
            r <= segs + 1,
            es@ == all_ring_edges(n as nat, r as nat),
        decreases segs + 1 - r,
    {
        proof {
            lemma_ring_bound(n as nat, segs as nat, r as nat);
        }
        let base = r * n;
        let ghost before = es@;
        let mut i: usize = 0;
        while i < n
            invariant
                1 <= n,
                r <= segs,
                base == r * n,
                base + n <= usize::MAX,
                segs + 1 <= usize::MAX,
                i <= n,
                es@ == before + ring_edges(n as nat, r as nat).take(i as int),
            decreases n - i,
        {
            let e = (base + i, base + (i + 1) % n);
            es.push(e);
            assert(ring_edges(n as nat, r as nat).take(i + 1) =~= ring_edges(n as nat, r as nat).take(
                i as int,
            ).push(e));
            i = i + 1;
        }
        assert(ring_edges(n as nat, r as nat).take(n as int) =~= ring_edges(n as nat, r as nat));
        r = r + 1;
    }
    let ghost rings = es@;
    let mut r: usize = 0;
    while r < segs
        invariant
            1 <= n,
            revolve_fits(n as nat, segs as nat),
            r <= segs,
            rings == all_ring_edges(n as nat, segs as nat + 1),
            es@ == rings + all_vertical_edges(n as nat, r as nat),
        decreases segs - r,
    {
        proof {
            lemma_ring_bound(n as nat, segs as nat, r as nat);
        }
        let base = r * n;
        let next = base + n;
        let ghost before = es@;
        let mut i: usize = 0;
        while i < n
            invariant
                1 <= n,
                r < segs,
                base == r * n,
                next == (r + 1) * n,
                next == base + n,
                next + n <= usize::MAX,
                i <= n,
                es@ == before + ring_to_ring_edges(n as nat, r as nat).take(i as int),
            decreases n - i,
        {
            let e = (base + i, next + i);
            es.push(e);
            assert(ring_to_ring_edges(n as nat, r as nat).take(i + 1) =~= ring_to_ring_edges(
                n as nat,
                r as nat,
            ).take(i as int).push(e));
            i = i + 1;
        }
        assert(ring_to_ring_edges(n as nat, r as nat).take(n as int) =~= ring_to_ring_edges(
            n as nat,
            r as nat,
        ));
        assert(es@ =~= rings + all_vertical_edges(n as nat, (r + 1) as nat));
        r = r + 1;
    }
    es
}

/// The face boundaries of a revolve (see `revolve_wires_spec`).
pub fn revolve_wires(n: usize, segs: usize, full_turn: bool) -> (ws: Vec<Wire>)
    requires
        1 <= n,
        revolve_fits(n as nat, segs as nat),
    ensures
        ws@.map_values(|w: Wire| w.edges@) == revolve_wires_spec(n as nat, segs as nat, full_turn),
{
    proof {
        lemma_ring_bound(n as nat, segs as nat, segs as nat);
    }
    let p = (segs + 1) * n;
    let mut ws: Vec<Wire> = Vec::new();
    let mut r: usize = 0;
    while r < segs
        invariant
            1 <= n,
            revolve_fits(n as nat, segs as nat),
            p == (segs + 1) * n,
            r <= segs,
            ws@.map_values(|w: Wire| w.edges@) == revolve_sides(n as nat, segs as nat, r as nat),
        decreases segs - r,
    {
        proof {
            lemma_ring_bound(n as nat, segs as nat, r as nat);
        }
        let base = r * n;
        let next = base + n;
        let ghost before = ws@.map_values(|w: Wire| w.edges@);
        let mut i: usize = 0;
        while i < n
            invariant
                1 <= n,
                r < segs,
                p == (segs + 1) * n,
                base == r * n,
                next == (r + 1) * n,
                next == base + n,
                p + base + n <= usize::MAX,
                next + n <= usize::MAX,
                i <= n,
                ws@.map_values(|w: Wire| w.edges@) == before + Seq::new(
                    n as nat,
                    |k: int| revolve_side(n as nat, segs as nat, r as nat, k),
                ).take(i as int),
            decreases n - i,
        {
            let j = (i + 1) % n;
            let side = vec![
                WireEdge { edge_idx: base + i, forward: true },
                WireEdge { edge_idx: p + base + j, forward: true },
                WireEdge { edge_idx: next + i, forward: false },
                WireEdge { edge_idx: p + base + i, forward: false },
            ];
            let ghost prev = ws@;
            ws.push(Wire { edges: side });
            proof {
                let sides = Seq::new(
                    n as nat,
                    |k: int| revolve_side(n as nat, segs as nat, r as nat, k),
                );
                assert(ws@.last().edges@ =~= revolve_side(n as nat, segs as nat, r as nat, i as int));
                assert(ws@.map_values(|w: Wire| w.edges@) =~= prev.map_values(|w: Wire| w.edges@).push(
                    ws@.last().edges@,
                ));
                assert(sides.take(i + 1) =~= sides.take(i as int).push(sides[i as int]));
            }
            i = i + 1;
        }
        proof {
            let sides = Seq::new(n as nat, |k: int| revolve_side(n as nat, segs as nat, r as nat, k));
            assert(sides.take(n as int) =~= sides);
        }
        r = r + 1;
    }
    if full_turn {
        let last = segs * n;
        let mut start: Vec<WireEdge> = Vec::new();
        let mut end: Vec<WireEdge> = Vec::new();
        let mut i: usize = 0;
        while i < n
            invariant
                last == segs * n,
                last + n <= usize::MAX,
                i <= n,
                start@ =~= Seq::new(i as nat, |k: int| WireEdge { edge_idx: k as usize, forward: true }),
                end@ =~= Seq::new(
                    i as nat,
                    |k: int| WireEdge { edge_idx: (segs * n + k) as usize, forward: false },
                ),
            decreases n - i,
        {
            start.push(WireEdge { edge_idx: i, forward: true });
            end.push(WireEdge { edge_idx: last + i, forward: false });
            i = i + 1;
        }
        let ghost prev = ws@.map_values(|w: Wire| w.edges@);
        ws.push(Wire { edges: start });
        ws.push(Wire { edges: end });
        assert(ws@.map_values(|w: Wire| w.edges@) =~= revolve_wires_spec(
            n as nat,
            segs as nat,
            full_turn,
        ));
    } else {
        assert(ws@.map_values(|w: Wire| w.edges@) =~= revolve_wires_spec(
            n as nat,
            segs as nat,
            full_turn,
        ));
    }
    ws
}

proof fn lemma_ring_index(n: nat, rings: nat, r: nat, i: int)
    requires
        r < rings,
        0 <= i < n,
    ensures
        all_ring_edges(n, rings).len() == rings * n,
        r * n + i < rings * n,
        all_ring_edges(n, rings)[r * n + i] == ring_edges(n, r)[i],
    decreases rings,
{
    lemma_ring_len(n, rings);
    lemma_ring_len(n, (rings - 1) as nat);
    assert(rings * n == (rings - 1) * n + n) by (nonlinear_arith)
        requires
            rings >= 1,
    ;
    if r + 1 < rings {
        lemma_ring_index(n, (rings - 1) as nat, r, i);
    } else {
        assert(r * n == (rings - 1) * n);
    }
}

proof fn lemma_ring_len(n: nat, rings: nat)
    ensures
        all_ring_edges(n, rings).len() == rings * n,
    decreases rings,
{
    if rings == 0 {
        assert(rings * n == 0) by (nonlinear_arith)
            requires
                rings == 0,
        ;
    } else {
        lemma_ring_len(n, (rings - 1) as nat);
        assert(rings * n == (rings - 1) * n + n) by (nonlinear_arith)
            requires
                rings >= 1,
        ;
    }
}

proof fn lemma_vertical_index(n: nat, segs: nat, r: nat, i: int)
    requires
        r < segs,
        0 <= i < n,
    ensures
        all_vertical_edges(n, segs).len() == segs * n,
        r * n + i < segs * n,
        all_vertical_edges(n, segs)[r * n + i] == ring_to_ring_edges(n, r)[i],
    decreases segs,
{
    lemma_vertical_len(n, segs);
    lemma_vertical_len(n, (segs - 1) as nat);
    assert(segs * n == (segs - 1) * n + n) by (nonlinear_arith)
        requires
            segs >= 1,
    ;
    if r + 1 < segs {
        lemma_vertical_index(n, (segs - 1) as nat, r, i);
    } else {
        assert(r * n == (segs - 1) * n);
    }
}

proof fn lemma_vertical_len(n: nat, segs: nat)
    ensures
        all_vertical_edges(n, segs).len() == segs * n,
    decreases segs,
{
    if segs == 0 {
        assert(segs * n == 0) by (nonlinear_arith)
            requires
                segs == 0,
        ;
    } else {
        lemma_vertical_len(n, (segs - 1) as nat);
        assert(segs * n == (segs - 1) * n + n) by (nonlinear_arith)
            requires
                segs >= 1,
        ;
    }
}

/// Every side face of a revolve is a closed loop over the revolve's
/// edges.
pub proof fn lemma_revolve_side_closed(n: nat, segs: nat, r: nat, i: int)
    requires
        2 <= n,
        revolve_fits(n, segs),
        r < segs,
        0 <= i < n,
    ensures
        is_closed_loop(revolve_side(n, segs, r, i), revolve_edges_spec(n, segs)),
{
    let es = revolve_edges_spec(n, segs);
    let j = (i + 1) % (n as int);
    lemma_ring_bound(n, segs, r);
    lemma_side_edges(n, segs, r, i, j);
    let w = revolve_side(n, segs, r, i);
    let e0 = es[w[0].edge_idx as int];
    let e1 = es[w[1].edge_idx as int];
    let e2 = es[w[2].edge_idx as int];
    let e3 = es[w[3].edge_idx as int];
    assert(end_vertex(w[0], e0) == start_vertex(w[1], e1));
    assert(end_vertex(w[1], e1) == start_vertex(w[2], e2));
    assert(end_vertex(w[2], e2) == start_vertex(w[3], e3));
    assert(end_vertex(w[3], e3) == start_vertex(w[0], e0));
    assert forall|t: int| 0 <= t < w.len() implies end_vertex(#[trigger] w[t], es[w[t].edge_idx as int])
        == start_vertex(w[(t + 1) % (w.len() as int)], es[w[(t + 1) % (w.len() as int)].edge_idx as int]) by {
        if t == 3 {
            assert((t + 1) % 4 == 0);
        } else {
            assert((t + 1) % 4 == t + 1);
        }
    }
}

proof fn lemma_side_edges(n: nat, segs: nat, r: nat, i: int, j: int)
    requires
        2 <= n,
        revolve_fits(n, segs),
        r < segs,
        0 <= i < n,
        j == (i + 1) % (n as int),
    ensures
        ({
            let es = revolve_edges_spec(n, segs);
            let w = revolve_side(n, segs, r, i);
            &&& forall|t: int| 0 <= t < w.len() ==> #[trigger] w[t].edge_idx < es.len()
            &&& es[w[0].edge_idx as int] == ((r * n + i) as usize, (r * n + j) as usize)
            &&& es[w[1].edge_idx as int] == ((r * n + j) as usize, ((r + 1) * n + j) as usize)
            &&& es[w[2].edge_idx as int] == (((r + 1) * n + i) as usize, ((r + 1) * n + j) as usize)
            &&& es[w[3].edge_idx as int] == ((r * n + i) as usize, ((r + 1) * n + i) as usize)
        }),
{
    lemma_ring_bound(n, segs, r);
    lemma_ring_len(n, segs + 1);
    lemma_vertical_len(n, segs);
    lemma_ring_index(n, segs + 1, r, i);
    lemma_ring_index(n, segs + 1, r + 1, i);
    lemma_vertical_index(n, segs, r, i);
    lemma_vertical_index(n, segs, r, j);
}

/// The start cap of a full-turn revolve is a closed loop over the
/// revolve's edges.
pub proof fn lemma_revolve_start_cap_closed(n: nat, segs: nat)
    requires
        2 <= n,
        revolve_fits(n, segs),
    ensures
        is_closed_loop(
            Seq::new(n, |k: int| WireEdge { edge_idx: k as usize, forward: true }),
            revolve_edges_spec(n, segs),
        ),
{
    let es = revolve_edges_spec(n, segs);
    lemma_ring_bound(n, segs, segs);
    let c = Seq::new(n, |k: int| WireEdge { edge_idx: k as usize, forward: true });
    assert forall|t: int| 0 <= t < c.len() implies #[trigger] c[t].edge_idx < es.len() by {
        lemma_ring_index(n, segs + 1, 0, t);
    }
    assert forall|t: int| 0 <= t < c.len() implies end_vertex(#[trigger] c[t], es[c[t].edge_idx as int])
        == start_vertex(c[(t + 1) % (c.len() as int)], es[c[(t + 1) % (c.len() as int)].edge_idx as int]) by {
        let u = (t + 1) % (n as int);
        lemma_ring_index(n, segs + 1, 0, t);
        lemma_ring_index(n, segs + 1, 0, u);
    }
}

// ---------------------------------------------------------------------------
// Profile checks

/// The topology of the prism extruded from an `n`-point profile, or the
/// error for a profile of fewer than three points.
pub fn extrude_topology(n: usize) -> (r: Result<(Vec<(usize, usize)>, Vec<Wire>), BrepError>)
    requires
        3 * n <= usize::MAX,
    ensures
        n < 3 ==> (r matches Err(BrepError::InvalidGeometry(m)) && m@
            == "profile must have at least 3 points"@),
        n >= 3 ==> (r matches Ok((es, ws)) && es@.len() == 3 * n && (forall|k: int|
            0 <= k < 3 * n ==> #[trigger] es@[k] == prism_edge(n as int, k)) && ws@.len() == n + 2
            && (forall|f: int| 0 <= f < n + 2 ==> (#[trigger] ws@[f]).edges@ == prism_wire(n as int, f))),
{
    if n < 3 {
        return Err(BrepError::InvalidGeometry("profile must have at least 3 points".to_owned()));
    }
    Ok((prism_edges(n), prism_wires(n)))
}

/// The topology of the solid revolved from an `n`-point profile in
/// `segments` angular steps (at least four are used), closed by caps when
/// it makes a full turn; or the error for a profile of fewer than two
/// points.
pub fn revolve_topology(n: usize, segments: u32, full_turn: bool) -> (r: Result<
    (Vec<(usize, usize)>, Vec<Wire>),
    BrepError,
>)
    requires
        revolve_fits(n as nat, if segments < 4 { 4nat } else { segments as nat }),
    ensures
        n < 2 ==> (r matches Err(BrepError::InvalidGeometry(m)) && m@
            == "profile must have at least 2 points for revolve"@),
        n >= 2 ==> ({
            let segs: nat = if segments < 4 { 4nat } else { segments as nat };
            r matches Ok((es, ws)) && es@ == revolve_edges_spec(n as nat, segs) && ws@.map_values(
                |w: Wire| w.edges@,
            ) == revolve_wires_spec(n as nat, segs, full_turn)
        }),
{
    if n < 2 {
        return Err(
            BrepError::InvalidGeometry("profile must have at least 2 points for revolve".to_owned()),
        );
    }
    let segs: usize = if segments < 4 {
        4
    } else {
        segments as usize
    };
    Ok((revolve_edges(n, segs), revolve_wires(n, segs, full_turn)))
}

} // verus!
