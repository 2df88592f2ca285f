//! Closed profiles of a sketch: walking the profile edges (lines, spline
//! spans, arcs) from point to point until every edge has been consumed.
//!
//! The walk only looks at which points an edge joins. Turning each walk into
//! a polygon (and dropping those with too few points) is geometry and
//! happens where the edge shapes are known.

use vstd::prelude::*;

use crate::ids::EntityId;
use crate::sketch::{lemma_increasing_listing_unique, strictly_increasing, Sketch, SketchEntity};

verus! {

/// One step of a walk: along edge `edge` from point `from` to point `to`.
#[derive(Debug, Clone, Copy, PartialEq, Eq, Structural)]
pub struct WalkStep {
    pub edge: usize,
    pub from: EntityId,
    pub to: EntityId,
}

/// A walk around a profile: the point it starts from and the edges it
/// follows. The edge that closes the loop back to `start` is consumed but is
/// not a step.
#[derive(Debug, Clone)]
pub struct LoopWalk {
    pub start: EntityId,
    pub steps: Vec<WalkStep>,
}

pub open spec fn walk_view(w: LoopWalk) -> (EntityId, Seq<WalkStep>) {
    (w.start, w.steps@)
}

/// The neighbours of point `p`: for each edge in order, its far end (with
/// the edge's index) when the edge starts at `p`, then when it ends at `p`.
pub open spec fn neighbours(edges: Seq<(EntityId, EntityId)>, p: EntityId) -> Seq<(EntityId, usize)>
    decreases edges.len(),
{
    if edges.len() == 0 {
        seq![]
    } else {
        let i = edges.len() - 1;
        let e = edges[i];
        neighbours(edges.drop_last(), p) + (if e.0 == p {
            seq![(e.1, i as usize)]
        } else {
            seq![]
        }) + (if e.1 == p {
            seq![(e.0, i as usize)]
        } else {
            seq![]
        })
    }
}

/// A neighbour can be walked to when its edge is unused and, unless it is
/// the only way on, it is not the point the walk just came from.
pub open spec fn eligible(nb: (EntityId, usize), used: Seq<bool>, prev: Option<EntityId>, deg: nat) -> bool {
    !used[nb.1 as int] && !(prev == Some(nb.0) && deg > 1)
}

/// The first eligible neighbour at or after position `k`.
pub open spec fn first_eligible(
    ns: Seq<(EntityId, usize)>,
    used: Seq<bool>,
    prev: Option<EntityId>,
    k: int,
) -> Option<(EntityId, usize)>
    decreases ns.len() - k,
{
    if k < 0 || k >= ns.len() {
        None
    } else if eligible(ns[k], used, prev, ns.len()) {
        Some(ns[k])
    } else {
        first_eligible(ns, used, prev, k + 1)
    }
}

/// Walking on from `current` (having come from `prev`, with `steps` taken
/// so far and `fuel` iterations left): take the first eligible neighbour,
/// mark its edge used, and stop at the start point, at a dead end, or when
/// the fuel runs out. Returns the used marks and the steps.
pub open spec fn walk_from(
    edges: Seq<(EntityId, EntityId)>,
    start: EntityId,
    used: Seq<bool>,
    current: EntityId,
    prev: Option<EntityId>,
    steps: Seq<WalkStep>,
    fuel: nat,
) -> (Seq<bool>, Seq<WalkStep>)
    decreases fuel,
{
    if fuel == 0 {
        (used, steps)
    } else {
        let ns = neighbours(edges, current);
        match first_eligible(ns, used, prev, 0) {
            None => (used, steps),
            Some(nb) => if nb.0 == start {
                (used.update(nb.1 as int, true), steps)
            } else {
                walk_from(
                    edges,
                    start,
                    used.update(nb.1 as int, true),
                    nb.0,
                    Some(current),
                    steps.push(WalkStep { edge: nb.1, from: current, to: nb.0 }),
                    (fuel - 1) as nat,
                )
            },
        }
    }
}

/// The number of unused edges.
pub open spec fn count_unused(used: Seq<bool>) -> nat
    decreases used.len(),
{
    if used.len() == 0 {
        0
    } else {
        count_unused(used.drop_last()) + if used.last() {
            0nat
        } else {
            1nat
        }
    }
}

/// The first unused edge at or after `k`.
pub open spec fn first_unused(used: Seq<bool>, k: int) -> Option<int>
    decreases used.len() - k,
{
    if k < 0 || k >= used.len() {
        None
    } else if !used[k] {
        Some(k)
    } else {
        first_unused(used, k + 1)
    }
}

/// `p` is a point stored in the sketch.
pub open spec fn is_stored_point(m: Map<u64, SketchEntity>, p: EntityId) -> bool {
    m.contains_key(p.0) && m[p.0] is Point
}

/// The iteration budget of one walk.
pub open spec fn walk_budget(edges: Seq<(EntityId, EntityId)>) -> nat {
    2 * edges.len() + 4
}

/// All walks, starting each time at the first unused edge's first point.
/// An edge whose first point is not a stored point is consumed without a
/// walk.
pub open spec fn walks_from(
    m: Map<u64, SketchEntity>,
    edges: Seq<(EntityId, EntityId)>,
    used: Seq<bool>,
) -> Seq<(EntityId, Seq<WalkStep>)>
    decreases count_unused(used),
{
    if used.len() != edges.len() || edges.len() > usize::MAX {
        seq![]
    } else {
        match first_unused(used, 0) {
            None => seq![],
            Some(s) => {
                let start = edges[s].0;
                if !is_stored_point(m, start) {
                    proof {
                        lemma_first_unused(used, 0);
                        lemma_count_mark(used, s);
                    }
                    walks_from(m, edges, used.update(s, true))
                } else {
                    let (u2, steps) = walk_from(
                        edges,
                        start,
                        used,
                        start,
                        None,
                        seq![],
                        walk_budget(edges),
                    );
                    proof {
                        lemma_first_unused(used, 0);
                        lemma_walk_consumes(edges, used, s);
                    }
                    seq![(start, steps)] + walks_from(m, edges, u2)
                }
            },
        }
    }
}

pub proof fn lemma_first_unused(used: Seq<bool>, k: int)
    requires
        0 <= k,
    ensures
        match first_unused(used, k) {
            Some(s) => k <= s < used.len() && !used[s],
            None => forall|j: int| k <= j < used.len() ==> #[trigger] used[j],
        },
    decreases used.len() - k,
{
    if k < used.len() && used[k] {
        lemma_first_unused(used, k + 1);
    }
}

pub proof fn lemma_count_mark(used: Seq<bool>, s: int)
    requires
        0 <= s < used.len(),
        !used[s],
    ensures
        count_unused(used.update(s, true)) + 1 == count_unused(used),
    decreases used.len(),
{
    let u = used.update(s, true);
    if s < used.len() - 1 {
        lemma_count_mark(used.drop_last(), s);
        assert(u.drop_last() =~= used.drop_last().update(s, true));
    } else {
        assert(u.drop_last() =~= used.drop_last());
    }
}

/// Marking edges used never makes the unused count grow, and marking an
/// unused one shrinks it.
proof fn lemma_count_mono(u: Seq<bool>, v: Seq<bool>)
    requires
        u.len() == v.len(),
        forall|i: int| 0 <= i < u.len() && #[trigger] u[i] ==> v[i],
    ensures
        count_unused(v) <= count_unused(u),
        (exists|i: int| 0 <= i < u.len() && !u[i] && #[trigger] v[i]) ==> count_unused(v)
            < count_unused(u),
    decreases u.len(),
{
    if u.len() > 0 {
        lemma_count_mono(u.drop_last(), v.drop_last());
        if exists|i: int| 0 <= i < u.len() && !u[i] && #[trigger] v[i] {
            let i = choose|i: int| 0 <= i < u.len() && !u[i] && #[trigger] v[i];
            if i < u.len() - 1 {
                assert(u.drop_last()[i] == u[i] && v.drop_last()[i] == v[i]);
            }
        }
    }
}

proof fn lemma_neighbours_bounded(edges: Seq<(EntityId, EntityId)>, p: EntityId)
    requires
        edges.len() <= usize::MAX,
    ensures
        forall|k: int|
            0 <= k < neighbours(edges, p).len() ==> (#[trigger] neighbours(edges, p)[k]).1
                < edges.len(),
    decreases edges.len(),
{
    if edges.len() > 0 {
        lemma_neighbours_bounded(edges.drop_last(), p);
        let i = edges.len() - 1;
        let e = edges[i];
        let a = neighbours(edges.drop_last(), p);
        let b = if e.0 == p {
            seq![(e.1, i as usize)]
        } else {
            seq![]
        };
        let c = if e.1 == p {
            seq![(e.0, i as usize)]
        } else {
            seq![]
        };
        assert(neighbours(edges, p) == a + b + c);
        assert forall|k: int| 0 <= k < (a + b + c).len() implies (#[trigger] (a + b + c)[k]).1
            < edges.len() by {
            if k < a.len() {
                assert((a + b + c)[k] == a[k]);
            } else if k < a.len() + b.len() {
                assert((a + b + c)[k] == b[k - a.len()]);
            } else {
                assert((a + b + c)[k] == c[k - a.len() - b.len()]);
            }
        }
    }
}

proof fn lemma_neighbours_has(edges: Seq<(EntityId, EntityId)>, i: int)
    requires
        0 <= i < edges.len(),
        edges.len() <= usize::MAX,
    ensures
        neighbours(edges, edges[i].0).contains((edges[i].1, i as usize)),
    decreases edges.len(),
{
    let p = edges[i].0;
    let last = edges.len() - 1;
    let a = neighbours(edges.drop_last(), p);
    let b = if edges[last].0 == p {
        seq![(edges[last].1, last as usize)]
    } else {
        seq![]
    };
    let c = if edges[last].1 == p {
        seq![(edges[last].0, last as usize)]
    } else {
        seq![]
    };
    assert(neighbours(edges, p) == a + b + c);
    if i < last {
        lemma_neighbours_has(edges.drop_last(), i);
        assert(edges.drop_last()[i] == edges[i]);
        let k = choose|k: int| 0 <= k < a.len() && a[k] == (edges[i].1, i as usize);
        assert((a + b + c)[k] == a[k]);
    } else {
        assert((a + b + c)[a.len() as int] == (edges[i].1, i as usize));
    }
}

proof fn lemma_first_eligible(ns: Seq<(EntityId, usize)>, used: Seq<bool>, prev: Option<EntityId>, k: int)
    requires
        0 <= k,
    ensures
        match first_eligible(ns, used, prev, k) {
            Some(nb) => ns.contains(nb) && eligible(nb, used, prev, ns.len()),
            None => forall|j: int| k <= j < ns.len() ==> !eligible(#[trigger] ns[j], used, prev, ns.len()),
        },
    decreases ns.len() - k,
{
    if k < ns.len() && !eligible(ns[k], used, prev, ns.len()) {
        lemma_first_eligible(ns, used, prev, k + 1);
    }
}

/// A walk only ever marks edges used; the used marks keep their length.
proof fn lemma_walk_mono(
    edges: Seq<(EntityId, EntityId)>,
    start: EntityId,
    used: Seq<bool>,
    current: EntityId,
    prev: Option<EntityId>,
    steps: Seq<WalkStep>,
    fuel: nat,
)
    requires
        used.len() == edges.len(),
        edges.len() <= usize::MAX,
    ensures
        walk_from(edges, start, used, current, prev, steps, fuel).0.len() == used.len(),
        forall|i: int|
            0 <= i < used.len() && #[trigger] used[i] ==> walk_from(
                edges,
                start,
                used,
                current,
                prev,
                steps,
                fuel,
            ).0[i],
    decreases fuel,
{
    if fuel > 0 {
        let ns = neighbours(edges, current);
        lemma_neighbours_bounded(edges, current);
        lemma_first_eligible(ns, used, prev, 0);
        match first_eligible(ns, used, prev, 0) {
            None => {},
            Some(nb) => {
                let k = choose|k: int| 0 <= k < ns.len() && ns[k] == nb;
                assert(nb.1 < edges.len());
                let u1 = used.update(nb.1 as int, true);
                assert forall|i: int| 0 <= i < used.len() && #[trigger] used[i] implies u1[i] by {}
                if nb.0 != start {
                    lemma_walk_mono(
                        edges,
                        start,
                        used.update(nb.1 as int, true),
                        nb.0,
                        Some(current),
                        steps.push(WalkStep { edge: nb.1, from: current, to: nb.0 }),
                        (fuel - 1) as nat,
                    );
                }
            },
        }
    }
}

/// A walk started at the first point of an unused edge consumes at least
/// one edge.
pub proof fn lemma_walk_consumes(edges: Seq<(EntityId, EntityId)>, used: Seq<bool>, s: int)
    requires
        used.len() == edges.len(),
        edges.len() <= usize::MAX,
        0 <= s < used.len(),
        !used[s],
    ensures
        ({
            let u2 = walk_from(edges, edges[s].0, used, edges[s].0, None, seq![], walk_budget(edges)).0;
            u2.len() == used.len() && count_unused(u2) < count_unused(used)
        }),
{
    let start = edges[s].0;
    let ns = neighbours(edges, start);
    lemma_neighbours_has(edges, s);
    lemma_neighbours_bounded(edges, start);
    lemma_first_eligible(ns, used, None, 0);
    let k = choose|k: int| 0 <= k < ns.len() && ns[k] == (edges[s].1, s as usize);
    assert(eligible(ns[k], used, None, ns.len()));
    let nb = first_eligible(ns, used, None, 0)->0;
    let j = choose|j: int| 0 <= j < ns.len() && ns[j] == nb;
    assert(nb.1 < edges.len());
    let u1 = used.update(nb.1 as int, true);
    let u2 = walk_from(edges, start, used, start, None, seq![], walk_budget(edges)).0;
    assert(u1[nb.1 as int]);
    assert(u2 == (if nb.0 == start {
        u1
    } else {
        walk_from(
            edges,
            start,
            u1,
            nb.0,
            Some(start),
            seq![].push(WalkStep { edge: nb.1, from: start, to: nb.0 }),
            (walk_budget(edges) - 1) as nat,
        ).0
    }));
    if nb.0 != start {
        lemma_walk_mono(
            edges,
            start,
            u1,
            nb.0,
            Some(start),
            seq![].push(WalkStep { edge: nb.1, from: start, to: nb.0 }),
            (walk_budget(edges) - 1) as nat,
        );
    }
    assert forall|i: int| 0 <= i < used.len() && #[trigger] used[i] implies u2[i] by {
        assert(u1[i]);
    }
    assert(u2[nb.1 as int]);
    lemma_count_mono(used, u2);
}

/// Step `k` of a walk follows an edge between its two points.
pub open spec fn follows_edge(edges: Seq<(EntityId, EntityId)>, st: WalkStep) -> bool {
    &&& st.edge < edges.len()
    &&& (edges[st.edge as int] == (st.from, st.to) || edges[st.edge as int] == (st.to, st.from))
}

/// `steps` is a connected walk from `start`: each step follows an edge and
/// starts where the previous one ended.
pub open spec fn is_chain(edges: Seq<(EntityId, EntityId)>, start: EntityId, steps: Seq<WalkStep>) -> bool {
    &&& forall|k: int| 0 <= k < steps.len() ==> follows_edge(edges, #[trigger] steps[k])
    &&& steps.len() > 0 ==> steps[0].from == start
    &&& forall|k: int| 0 < k < steps.len() ==> (#[trigger] steps[k]).from == steps[k - 1].to
}

/// Where a chain from `start` ends.
pub open spec fn chain_end(start: EntityId, steps: Seq<WalkStep>) -> EntityId {
    if steps.len() == 0 {
        start
    } else {
        steps.last().to
    }
}

/// The edges walked by a sequence of walks, in order.
pub open spec fn walked_edges(ws: Seq<(EntityId, Seq<WalkStep>)>) -> Seq<usize>
    decreases ws.len(),
{
    if ws.len() == 0 {
        seq![]
    } else {
        ws[0].1.map_values(|st: WalkStep| st.edge) + walked_edges(ws.drop_first())
    }
}

proof fn lemma_neighbour_edge(edges: Seq<(EntityId, EntityId)>, p: EntityId, k: int)
    requires
        edges.len() <= usize::MAX,
        0 <= k < neighbours(edges, p).len(),
    ensures
        ({
            let nb = neighbours(edges, p)[k];
            nb.1 < edges.len() && (edges[nb.1 as int] == (p, nb.0) || edges[nb.1 as int] == (nb.0, p))
        }),
    decreases edges.len(),
{
    let i = edges.len() - 1;
    let e = edges[i];
    let a = neighbours(edges.drop_last(), p);
    let b = if e.0 == p {
        seq![(e.1, i as usize)]
    } else {
        seq![]
    };
    let c = if e.1 == p {
        seq![(e.0, i as usize)]
    } else {
        seq![]
    };
    assert(neighbours(edges, p) == a + b + c);
    if k < a.len() {
        assert((a + b + c)[k] == a[k]);
        lemma_neighbour_edge(edges.drop_last(), p, k);
        assert(edges.drop_last()[a[k].1 as int] == edges[a[k].1 as int]);
    } else if k < a.len() + b.len() {
        assert((a + b + c)[k] == b[k - a.len()]);
    } else {
        assert((a + b + c)[k] == c[k - a.len() - b.len()]);
    }
}

/// A walk extends its chain by connected steps along edges, and every
/// step it adds uses an edge that was unused before and is used after,
/// each edge at most once.
proof fn lemma_walk_steps(
    edges: Seq<(EntityId, EntityId)>,
    start: EntityId,
    used: Seq<bool>,
    current: EntityId,
    prev: Option<EntityId>,
    steps: Seq<WalkStep>,
    fuel: nat,
)
    requires
        used.len() == edges.len(),
        edges.len() <= usize::MAX,
        is_chain(edges, start, steps),
        current == chain_end(start, steps),
    ensures
        ({
            let (u2, s2) = walk_from(edges, start, used, current, prev, steps, fuel);
            &&& is_chain(edges, start, s2)
            &&& steps.len() <= s2.len()
            &&& s2.take(steps.len() as int) == steps
            &&& forall|k: int|
                steps.len() <= k < s2.len() ==> !used[(#[trigger] s2[k]).edge as int] && u2[s2[k].edge as int]
            &&& forall|j: int, k: int|
                steps.len() <= j < k < s2.len() ==> (#[trigger] s2[j]).edge != (#[trigger] s2[k]).edge
        }),
    decreases fuel,
{
    lemma_walk_mono(edges, start, used, current, prev, steps, fuel);
    if fuel > 0 {
        let ns = neighbours(edges, current);
        lemma_neighbours_bounded(edges, current);
        lemma_first_eligible(ns, used, prev, 0);
        match first_eligible(ns, used, prev, 0) {
            None => {
                assert(steps.take(steps.len() as int) =~= steps);
            },
            Some(nb) => {
                let k0 = choose|k: int| 0 <= k < ns.len() && ns[k] == nb;
                lemma_neighbour_edge(edges, current, k0);
                if nb.0 == start {
                    assert(steps.take(steps.len() as int) =~= steps);
                } else {
                    let u1 = used.update(nb.1 as int, true);
                    let st = WalkStep { edge: nb.1, from: current, to: nb.0 };
                    let s1 = steps.push(st);
                    assert(is_chain(edges, start, s1)) by {
                        assert forall|k: int| 0 < k < s1.len() implies (#[trigger] s1[k]).from
                            == s1[k - 1].to by {
                            if k == s1.len() - 1 {
                                assert(s1[k - 1] == steps.last());
                            }
                        }
                    }
                    lemma_walk_steps(edges, start, u1, nb.0, Some(current), s1, (fuel - 1) as nat);
                    lemma_walk_mono(edges, start, u1, nb.0, Some(current), s1, (fuel - 1) as nat);
                    let (u2, s2) = walk_from(edges, start, u1, nb.0, Some(current), s1, (fuel - 1) as nat);
                    assert(u1[nb.1 as int]);
                    assert(s2[steps.len() as int] == s1.take(s1.len() as int)[steps.len() as int]);
                    assert(s2.take(steps.len() as int) =~= s1.take(s1.len() as int).take(
                        steps.len() as int,
                    ));
                    assert forall|k: int|
                        steps.len() <= k < s2.len() implies !used[(#[trigger] s2[k]).edge as int]
                        && u2[s2[k].edge as int] by {
                        if k > steps.len() {
                            assert(!u1[s2[k].edge as int]);
                        }
                    }
                    assert forall|j: int, k: int|
                        steps.len() <= j < k < s2.len() implies (#[trigger] s2[j]).edge != (
                        #[trigger] s2[k]).edge by {
                        if j == steps.len() {
                            assert(!u1[s2[k].edge as int]);
                        }
                    }
                }
            },
        }
    } else {
        assert(steps.take(steps.len() as int) =~= steps);
    }
}

/// What the walks of a profile are: each starts at a stored point of the
/// sketch and is a connected chain of steps along the profile's edges, and
/// no edge is walked twice, in one walk or across walks. Every walked edge
/// was unused at the outset.
pub proof fn lemma_walks_well_formed(
    m: Map<u64, SketchEntity>,
    edges: Seq<(EntityId, EntityId)>,
    used: Seq<bool>,
)
    ensures
        forall|w: int|
            0 <= w < walks_from(m, edges, used).len() ==> is_stored_point(
                m,
                (#[trigger] walks_from(m, edges, used)[w]).0,
            ) && is_chain(edges, walks_from(m, edges, used)[w].0, walks_from(m, edges, used)[w].1),
        walked_edges(walks_from(m, edges, used)).no_duplicates(),
        forall|k: int|
            0 <= k < walked_edges(walks_from(m, edges, used)).len() ==> #[trigger] walked_edges(
                walks_from(m, edges, used),
            )[k] < used.len() && !used[walked_edges(walks_from(m, edges, used))[k] as int],
    decreases count_unused(used),
{
    let ws = walks_from(m, edges, used);
    if used.len() != edges.len() || edges.len() > usize::MAX {
    } else {
        lemma_first_unused(used, 0);
        match first_unused(used, 0) {
            None => {},
            Some(s) => {
                let start = edges[s].0;
                if !is_stored_point(m, start) {
                    let u1 = used.update(s, true);
                    lemma_count_mark(used, s);
                    lemma_walks_well_formed(m, edges, u1);
                    assert forall|k: int| 0 <= k < walked_edges(ws).len() implies #[trigger] walked_edges(ws)[k]
                        < used.len() && !used[walked_edges(ws)[k] as int] by {
                        assert(!u1[walked_edges(ws)[k] as int]);
                    }
                } else {
                    let (u2, steps) = walk_from(edges, start, used, start, None, seq![], walk_budget(edges));
                    lemma_walk_consumes(edges, used, s);
                    lemma_walk_steps(edges, start, used, start, None, seq![], walk_budget(edges));
                    lemma_walk_mono(edges, start, used, start, None, seq![], walk_budget(edges));
                    lemma_walks_well_formed(m, edges, u2);
                    let rest = walks_from(m, edges, u2);
                    assert(ws == seq![(start, steps)] + rest);
                    assert(ws.drop_first() =~= rest);
                    let se = steps.map_values(|st: WalkStep| st.edge);
                    let re = walked_edges(rest);
                    assert(walked_edges(ws) == se + re);
                    assert forall|w: int| 0 <= w < ws.len() implies is_stored_point(m, (#[trigger] ws[w]).0)
                        && is_chain(edges, ws[w].0, ws[w].1) by {
                        if w > 0 {
                            assert(ws[w] == rest[w - 1]);
                        }
                    }
                    assert forall|k: int| 0 <= k < (se + re).len() implies #[trigger] (se + re)[k] < used.len()
                        && !used[(se + re)[k] as int] by {
                        if k < se.len() {
                            assert((se + re)[k] == se[k]);
                            assert(se[k] == steps[k].edge);
                            assert(follows_edge(edges, steps[k]));
                        } else {
                            assert((se + re)[k] == re[k - se.len()]);
                            assert(!u2[re[k - se.len()] as int]);
                        }
                    }
                    assert forall|a: int, b: int| 0 <= a < b < (se + re).len() implies (se + re)[a] != (se + re)[b] by {
                        if b < se.len() {
                            assert(se[a] == steps[a].edge && se[b] == steps[b].edge);
                        } else if a < se.len() {
                            assert(se[a] == steps[a].edge);
                            assert(u2[steps[a].edge as int]);
                            assert(!u2[re[b - se.len()] as int]);
                        } else {
                            assert(re[a - se.len()] != re[b - se.len()]);
                        }
                    }
                }
            },
        }
    }
}

fn neighbours_of(edges: &[(EntityId, EntityId)], p: EntityId) -> (r: Vec<(EntityId, usize)>)
    ensures
        r@ == neighbours(edges@, p),
{
    let mut r: Vec<(EntityId, usize)> = Vec::new();
    let mut i: usize = 0;
    while i < edges.len()
        invariant
            i <= edges@.len(),
            r@ == neighbours(edges@.take(i as int), p),
        decreases edges@.len() - i,
    {
        let e = edges[i];
        proof {
            assert(edges@.take(i + 1).drop_last() =~= edges@.take(i as int));
            assert(edges@.take(i + 1)[i as int] == e);
        }
        let ghost before = r@;
        if e.0 == p {
            r.push((e.1, i));
        }
        if e.1 == p {
            r.push((e.0, i));
        }
        proof {
            let a = if e.0 == p {
                seq![(e.1, i)]
            } else {
                seq![]
            };
            let b = if e.1 == p {
                seq![(e.0, i)]
            } else {
                seq![]
            };
            assert(r@ =~= before + a + b);
        }
        i = i + 1;
    }
    assert(edges@.take(edges@.len() as int) =~= edges@);
    r
}

fn pick_neighbour(ns: &Vec<(EntityId, usize)>, used: &Vec<bool>, prev: Option<EntityId>) -> (r: Option<
    (EntityId, usize),
>)
    requires
        forall|k: int| 0 <= k < ns@.len() ==> (#[trigger] ns@[k]).1 < used@.len(),
    ensures
        r == first_eligible(ns@, used@, prev, 0),
{
    let mut j: usize = 0;
    let deg = ns.len();
    while j < ns.len()
        invariant
            deg == ns@.len(),
            j <= ns@.len(),
            forall|k: int| 0 <= k < ns@.len() ==> (#[trigger] ns@[k]).1 < used@.len(),
            first_eligible(ns@, used@, prev, 0) == first_eligible(ns@, used@, prev, j as int),
        decreases ns@.len() - j,
    {
        let (n, ei) = ns[j];
        let came_back = match prev {
            Some(q) => q == n && deg > 1,
            None => false,
        };
        if !used[ei] && !came_back {
            return Some((n, ei));
        }
        j = j + 1;
    }
    None
}

fn first_unused_edge(used: &Vec<bool>) -> (r: Option<usize>)
    ensures
        match first_unused(used@, 0) {
            Some(s) => r == Some(s as usize),
            None => r is None,
        },
{
    let mut j: usize = 0;
    while j < used.len()
        invariant
            j <= used@.len(),
            first_unused(used@, 0) == first_unused(used@, j as int),
        decreases used@.len() - j,
    {
        if !used[j] {
            return Some(j);
        }
        j = j + 1;
    }
    None
}

fn is_stored(sketch: &Sketch, p: EntityId) -> (b: bool)
    ensures
        b == is_stored_point(sketch.entities@, p),
{
    sketch.get_point(p).is_some()
}

/// Walks the profile formed by `edges` (pairs of endpoint ids) through the
/// sketch: repeatedly from the first unused edge's first point, always on
/// along the first unused edge at the current point (not straight back,
/// unless it is the only way), until the walk returns to its start, gets
/// stuck, or exceeds `2 * edges.len() + 4` steps; every edge it follows is
/// used up. An edge whose first point is not a stored point of the sketch is
/// used up without a walk.
pub fn walk_loops(sketch: &Sketch, edges: &[(EntityId, EntityId)]) -> (r: Vec<LoopWalk>)
    requires
        2 * edges@.len() + 4 <= usize::MAX,
    ensures
        r@.map_values(|w: LoopWalk| walk_view(w)) == walks_from(
            sketch.entities@,
            edges@,
            Seq::new(edges@.len(), |i: int| false),
        ),
{
    let ghost m = sketch.entities@;
    let ghost es = edges@;
    let mut used: Vec<bool> = Vec::new();
    let mut i: usize = 0;
    while i < edges.len()
        invariant
            i <= edges@.len(),
            used@ == Seq::new(i as nat, |k: int| false),
        decreases edges@.len() - i,
    {
        used.push(false);
        assert(used@ =~= Seq::new((i + 1) as nat, |k: int| false));
        i = i + 1;
    }
    assert(used@ =~= Seq::new(edges@.len(), |i: int| false));
    let ghost all = walks_from(m, es, used@);
    let max_iterations = edges.len() * 2 + 4;
    let mut walks: Vec<LoopWalk> = Vec::new();
    assert(walks@.map_values(|w: LoopWalk| walk_view(w)) + walks_from(m, es, used@) =~= all);
    loop
        invariant_except_break
            m == sketch.entities@,
            es == edges@,
            max_iterations == walk_budget(es),
            used@.len() == es.len(),
            all == walks@.map_values(|w: LoopWalk| walk_view(w)) + walks_from(m, es, used@),
        ensures
            all == walks@.map_values(|w: LoopWalk| walk_view(w)),
        decreases count_unused(used@),
    {
        let ghost u0 = used@;
        let s = match first_unused_edge(&used) {
            Some(s) => s,
            None => {
                assert(walks_from(m, es, u0) == Seq::<(EntityId, Seq<WalkStep>)>::empty());
                assert(walks@.map_values(|w: LoopWalk| walk_view(w)) + walks_from(m, es, used@)
                    =~= walks@.map_values(|w: LoopWalk| walk_view(w)));
                break;
            },
        };
        proof {
            lemma_first_unused(u0, 0);
        }
        let start = edges[s].0;
        if !is_stored(sketch, start) {
            proof {
                lemma_count_mark(u0, s as int);
                assert(walks_from(m, es, u0) == walks_from(m, es, u0.update(s as int, true)));
            }
            used.set(s, true);
            continue;
        }
        proof {
            lemma_walk_consumes(es, u0, s as int);
        }
        let mut steps: Vec<WalkStep> = Vec::new();
        let mut current = start;
        let mut prev: Option<EntityId> = None;
        let mut iterations: usize = 0;
        loop
            invariant_except_break
                es == edges@,
                max_iterations == walk_budget(es),
                iterations <= max_iterations,
                used@.len() == es.len(),
                walk_from(es, start, u0, start, None, seq![], walk_budget(es)) == walk_from(
                    es,
                    start,
                    used@,
                    current,
                    prev,
                    steps@,
                    (max_iterations - iterations) as nat,
                ),
            ensures
                used@.len() == es.len(),
                walk_from(es, start, u0, start, None, seq![], walk_budget(es)) == (used@, steps@),
            decreases max_iterations - iterations,
        {
            if iterations == max_iterations {
                break;
            }
            iterations = iterations + 1;
            let ns = neighbours_of(edges, current);
            proof {
                lemma_neighbours_bounded(es, current);
                lemma_first_eligible(ns@, used@, prev, 0);
            }
            match pick_neighbour(&ns, &used, prev) {
                Some((n, ei)) => {
                    proof {
                        let k = choose|k: int| 0 <= k < ns@.len() && ns@[k] == (n, ei);
                    }
                    if n == start {
                        used.set(ei, true);
                        break;
                    }
                    used.set(ei, true);
                    steps.push(WalkStep { edge: ei, from: current, to: n });
                    prev = Some(current);
                    current = n;
                },
                None => {
                    break;
                },
            }
        }
        proof {
            assert(walks_from(m, es, u0) == seq![(start, steps@)] + walks_from(m, es, used@));
        }
        let ghost before = walks@.map_values(|w: LoopWalk| walk_view(w));
        walks.push(LoopWalk { start, steps });
        proof {
            assert(walks@.map_values(|w: LoopWalk| walk_view(w)) =~= before.push((start, steps@)));
            assert(before.push((start, steps@)) + walks_from(m, es, used@) =~= before + (seq![
                (start, steps@),
            ] + walks_from(m, es, used@)));
        }
    }
    walks
}

/// The walks depend on the sketch's entities only as a map from id to
/// entity: two sketches holding the same entities under the same ids give
/// the same walks over the same edge list, however their hash maps happen
/// to order the entries.
pub proof fn lemma_walks_ignore_map_order(a: Sketch, b: Sketch, edges: Seq<(EntityId, EntityId)>)
    requires
        forall|k: u64| a.entities@.contains_key(k) <==> b.entities@.contains_key(k),
        forall|k: u64| a.entities@.contains_key(k) ==> a.entities@[k] == b.entities@[k],
    ensures
        walks_from(a.entities@, edges, Seq::new(edges.len(), |i: int| false)) == walks_from(
            b.entities@,
            edges,
            Seq::new(edges.len(), |i: int| false),
        ),
{
    assert(a.entities@ =~= b.entities@);
}

/// Profile extraction visits a sketch's entities in the order that
/// `Sketch::sorted_entity_ids` lists them. Two sketches holding the same
/// entities under the same ids get the same listing, however their hash
/// maps happen to order the entries.
pub proof fn lemma_entity_order_ignores_map_order(a: Sketch, b: Sketch, ia: Seq<u64>, ib: Seq<u64>)
    requires
        forall|k: u64| a.entities@.contains_key(k) <==> b.entities@.contains_key(k),
        forall|k: u64| a.entities@.contains_key(k) ==> a.entities@[k] == b.entities@[k],
        strictly_increasing(ia),
        forall|x: u64| ia.contains(x) <==> a.entities@.contains_key(x),
        strictly_increasing(ib),
        forall|x: u64| ib.contains(x) <==> b.entities@.contains_key(x),
    ensures
        ia == ib,
{
    lemma_increasing_listing_unique(ia, ib);
}

} // verus!
