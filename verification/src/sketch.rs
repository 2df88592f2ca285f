//! 2D sketches: entities keyed by id, constraints between them, and the
//! cascading deletion that keeps a sketch free of dangling references.
//!
//! Real-valued coordinates and dimensions are carried as IEEE-754 bit
//! patterns (`f64::to_bits`); the sketch logic never does arithmetic on
//! them, it only stores and moves them.

use std::collections::HashMap;
use vstd::prelude::*;

use crate::ids::EntityId;
use vstd::std_specs::iter::IteratorSpec;

verus! {

broadcast use vstd::std_specs::hash::group_hash_axioms;

/// `HashMap::get_mut`: a mutable reference to the value under `k` when the
/// map holds `k`, through which the caller's writes reach the map; `None`,
/// with the map unchanged, when it does not.
#[verifier::external_body]
fn entity_get_mut(m: &mut HashMap<u64, SketchEntity>, k: u64) -> (r: Option<&mut SketchEntity>)
    ensures
        match r {
            Some(e) => old(m)@.contains_key(k) && *e == old(m)@[k] && final(m)@ == old(m)@.insert(
                k,
                *final(e),
            ),
            None => !old(m)@.contains_key(k) && final(m)@ == old(m)@,
        },
{
    m.get_mut(&k)
}

/// A point in 2D sketch space (coordinates as `f64` bit patterns).
#[derive(Debug, Clone, Copy)]
pub struct SketchPoint {
    pub x: u64,
    pub y: u64,
}

impl SketchPoint {
    pub fn new(x: u64, y: u64) -> (p: Self)
        ensures
            p.x == x,
            p.y == y,
    {
        SketchPoint { x, y }
    }
}

/// Geometric entity inside a sketch. Real-valued fields are `f64` bit
/// patterns.
#[derive(Debug, Clone)]
pub enum SketchEntity {
    Point(SketchPoint),
    Line { start: EntityId, end: EntityId, construction: bool },
    Circle { center: EntityId, radius: u64, construction: bool },
    Arc {
        center: EntityId,
        radius: u64,
        start_angle: u64,
        end_angle: u64,
        construction: bool,
    },
    /// Cubic spline defined by control points.
    Spline { control_points: Vec<EntityId>, construction: bool },
    /// Ellipse defined by center, major axis endpoint, and minor/major ratio.
    Ellipse { center: EntityId, major_axis_end: EntityId, ratio: u64, construction: bool },
}

/// Constraint applied to sketch entities. Real-valued dimensions are `f64`
/// bit patterns.
#[derive(Debug, Clone, Copy)]
pub enum Constraint {
    Coincident { a: EntityId, b: EntityId },
    Horizontal { line: EntityId },
    Vertical { line: EntityId },
    Distance { a: EntityId, b: EntityId, distance: u64 },
    Radius { circle: EntityId, radius: u64 },
    Parallel { line_a: EntityId, line_b: EntityId },
    Perpendicular { line_a: EntityId, line_b: EntityId },
    Tangent { line: EntityId, circle: EntityId },
    Concentric { a: EntityId, b: EntityId },
    Equal { a: EntityId, b: EntityId },
    Fix { point: EntityId },
    Midpoint { point: EntityId, line: EntityId },
    Symmetric { a: EntityId, b: EntityId, axis: EntityId },
    PointOnLine { point: EntityId, line: EntityId },
    Collinear { a: EntityId, b: EntityId, c: EntityId },
    Angle { line_a: EntityId, line_b: EntityId, angle_deg: u64 },
    Diameter { circle: EntityId, diameter: u64 },
}

/// Whether entity `e` is built on the entity `t` (line endpoints, circle,
/// arc and ellipse centers, the ellipse's axis end, spline control points).
pub open spec fn entity_refs(e: SketchEntity, t: EntityId) -> bool {
    match e {
        SketchEntity::Point(_) => false,
        SketchEntity::Line { start, end, .. } => start == t || end == t,
        SketchEntity::Circle { center, .. } => center == t,
        SketchEntity::Arc { center, .. } => center == t,
        SketchEntity::Ellipse { center, major_axis_end, .. } => center == t || major_axis_end
            == t,
        SketchEntity::Spline { control_points, .. } => control_points@.contains(t),
    }
}

/// The entities a constraint refers to.
pub open spec fn constraint_entities(c: Constraint) -> Seq<EntityId> {
    match c {
        Constraint::Coincident { a, b } => seq![a, b],
        Constraint::Horizontal { line } => seq![line],
        Constraint::Vertical { line } => seq![line],
        Constraint::Distance { a, b, .. } => seq![a, b],
        Constraint::Radius { circle, .. } => seq![circle],
        Constraint::Parallel { line_a, line_b } => seq![line_a, line_b],
        Constraint::Perpendicular { line_a, line_b } => seq![line_a, line_b],
        Constraint::Tangent { line, circle } => seq![line, circle],
        Constraint::Concentric { a, b } => seq![a, b],
        Constraint::Equal { a, b } => seq![a, b],
        Constraint::Fix { point } => seq![point],
        Constraint::Midpoint { point, line } => seq![point, line],
        Constraint::Symmetric { a, b, axis } => seq![a, b, axis],
        Constraint::PointOnLine { point, line } => seq![point, line],
        Constraint::Collinear { a, b, c } => seq![a, b, c],
        Constraint::Angle { line_a, line_b, .. } => seq![line_a, line_b],
        Constraint::Diameter { circle, .. } => seq![circle],
    }
}

/// A constraint survives the deletion of `deleted` when it refers to none of
/// the deleted entities.
pub open spec fn constraint_survives(c: Constraint, deleted: Seq<EntityId>) -> bool {
    forall|k: int|
        0 <= k < constraint_entities(c).len() ==> !deleted.contains(
            #[trigger] constraint_entities(c)[k],
        )
}

/// A 2D sketch: a collection of entities (keyed by the number inside their
/// `EntityId`) and constraints.
#[derive(Debug, Clone)]
pub struct Sketch {
    /// The id that the next `add_entity` hands out.
    pub next_id: u64,
    pub entities: HashMap<u64, SketchEntity>,
    pub constraints: Vec<Constraint>,
}

/// The deletion set computed for `id` is exactly the set of entities that
/// transitively depend on `id`: it starts with `id`, holds only entities of
/// the sketch without repetition, every member after the first is built on
/// an earlier member, and every entity built on a member is a member.
pub open spec fn is_cascade_of(m: Map<u64, SketchEntity>, id: u64, r: Seq<u64>) -> bool {
    &&& r.len() >= 1
    &&& r[0] == id
    &&& r.no_duplicates()
    &&& forall|j: int| 0 <= j < r.len() ==> m.contains_key(#[trigger] r[j])
    &&& forall|j: int|
        #![trigger r[j]]
        0 < j < r.len() ==> exists|k: int|
            0 <= k < j && entity_refs(m[r[j]], EntityId(#[trigger] r[k]))
    &&& forall|key: u64, j: int|
        m.contains_key(key) && 0 <= j < r.len() && #[trigger] entity_refs(m[key], EntityId(r[j]))
            ==> r.contains(key)
}

/// The numbers inside a sequence of entity ids.
pub open spec fn raw_ids(r: Seq<EntityId>) -> Seq<u64> {
    r.map_values(|e: EntityId| e.0)
}

fn raw_in(v: &Vec<u64>, x: u64) -> (b: bool)
    ensures
        b == v@.contains(x),
{
    let mut i: usize = 0;
    while i < v.len()
        invariant
            i <= v.len(),
            forall|j: int| 0 <= j < i ==> v@[j] != x,
        decreases v.len() - i,
    {
        if v[i] == x {
            return true;
        }
        i = i + 1;
    }
    false
}

fn id_in(v: &Vec<u64>, x: EntityId) -> (b: bool)
    ensures
        b == v@.map_values(|r: u64| EntityId(r)).contains(x),
{
    let b = raw_in(v, x.0);
    proof {
        let w = v@.map_values(|r: u64| EntityId(r));
        if b {
            let j = choose|j: int| 0 <= j < v@.len() && v@[j] == x.0;
            assert(w[j] == x);
        } else {
            assert forall|j: int| 0 <= j < w.len() implies w[j] != x by {
                assert(v@[j] != x.0);
            }
        }
    }
    b
}

fn references(e: &SketchEntity, t: EntityId) -> (b: bool)
    ensures
        b == entity_refs(*e, t),
{
    match e {
        SketchEntity::Point(_) => false,
        SketchEntity::Line { start, end, .. } => start.0 == t.0 || end.0 == t.0,
        SketchEntity::Circle { center, .. } => center.0 == t.0,
        SketchEntity::Arc { center, .. } => center.0 == t.0,
        SketchEntity::Ellipse { center, major_axis_end, .. } => center.0 == t.0
            || major_axis_end.0 == t.0,
        SketchEntity::Spline { control_points, .. } => list_has(control_points, t),
    }
}

pub(crate) fn list_has(v: &Vec<EntityId>, t: EntityId) -> (b: bool)
    ensures
        b == v@.contains(t),
{
    let mut i: usize = 0;
    while i < v.len()
        invariant
            i <= v@.len(),
            forall|j: int| 0 <= j < i ==> v@[j] != t,
        decreases v.len() - i,
    {
        if v[i].0 == t.0 {
            assert(v@[i as int] == t);
            return true;
        }
        i = i + 1;
    }
    false
}

fn constraint_ids(c: &Constraint) -> (v: Vec<EntityId>)
    ensures
        v@ == constraint_entities(*c),
{
    let v = match c {
        Constraint::Coincident { a, b } => vec![*a, *b],
        Constraint::Horizontal { line } => vec![*line],
        Constraint::Vertical { line } => vec![*line],
        Constraint::Distance { a, b, .. } => vec![*a, *b],
        Constraint::Radius { circle, .. } => vec![*circle],
        Constraint::Parallel { line_a, line_b } => vec![*line_a, *line_b],
        Constraint::Perpendicular { line_a, line_b } => vec![*line_a, *line_b],
        Constraint::Tangent { line, circle } => vec![*line, *circle],
        Constraint::Concentric { a, b } => vec![*a, *b],
        Constraint::Equal { a, b } => vec![*a, *b],
        Constraint::Fix { point } => vec![*point],
        Constraint::Midpoint { point, line } => vec![*point, *line],
        Constraint::Symmetric { a, b, axis } => vec![*a, *b, *axis],
        Constraint::PointOnLine { point, line } => vec![*point, *line],
        Constraint::Collinear { a, b, c } => vec![*a, *b, *c],
        Constraint::Angle { line_a, line_b, .. } => vec![*line_a, *line_b],
        Constraint::Diameter { circle, .. } => vec![*circle],
    };
    assert(v@ =~= constraint_entities(*c));
    v
}

fn survives(c: &Constraint, deleted: &Vec<u64>) -> (b: bool)
    ensures
        b == constraint_survives(*c, deleted@.map_values(|r: u64| EntityId(r))),
{
    let ghost d = deleted@.map_values(|r: u64| EntityId(r));
    let ids = constraint_ids(c);
    let mut i: usize = 0;
    while i < ids.len()
        invariant
            i <= ids@.len(),
            ids@ == constraint_entities(*c),
            d == deleted@.map_values(|r: u64| EntityId(r)),
            forall|k: int| 0 <= k < i ==> !d.contains(#[trigger] ids@[k]),
        decreases ids.len() - i,
    {
        if id_in(deleted, ids[i]) {
            assert(!constraint_survives(*c, d)) by {
                assert(d.contains(constraint_entities(*c)[i as int]));
            }
            return false;
        }
        i = i + 1;
    }
    true
}

/// The keys of an entity map, each once.
pub(crate) fn key_list<V>(m: &HashMap<u64, V>) -> (r: Vec<u64>)
    ensures
        r@.no_duplicates(),
        forall|k: u64| m@.contains_key(k) <==> r@.contains(k),
{
    let mut r: Vec<u64> = Vec::new();
    let ghost mut done = false;
    for k in it: m.keys()
        invariant
            r@ == it.seq().take(it.index()).map_values(|x: &u64| *x),
            it.seq() == vstd::std_specs::hash::spec_keys_iter(m).remaining(),
        ensures
            r@ == vstd::std_specs::hash::spec_keys_iter(m).remaining().unref(),
    {
        proof {
            assert(it.seq().take(it.index() + 1).map_values(|x: &u64| *x) =~= r@.push(*k));
        }
        r.push(*k);
    }
    proof {
        let s = vstd::std_specs::hash::spec_keys_iter(m).remaining();
        assert(s.unref().to_set() == m@.dom());
        assert forall|k: u64| m@.contains_key(k) <==> r@.contains(k) by {
            if m@.contains_key(k) {
                assert(s.unref().to_set().contains(k));
            }
            if r@.contains(k) {
                assert(s.unref().to_set().contains(k));
            }
        }
        assert(s.no_duplicates());
        assert forall|i: int, j: int| 0 <= i < r@.len() && 0 <= j < r@.len() && i != j implies r@[i] != r@[j] by {
            assert(s[i] != s[j]);
        }
    }
    r
}

/// `v` is strictly increasing.
pub open spec fn strictly_increasing(v: Seq<u64>) -> bool {
    forall|i: int, j: int| 0 <= i < j < v.len() ==> v[i] < v[j]
}

/// Inserts `k`, which `v` does not hold, into the strictly increasing `v`.
fn insert_sorted(v: &mut Vec<u64>, k: u64)
    requires
        strictly_increasing(old(v)@),
        !old(v)@.contains(k),
    ensures
        strictly_increasing(final(v)@),
        forall|x: u64| final(v)@.contains(x) <==> old(v)@.contains(x) || x == k,
{
    let mut j: usize = 0;
    while j < v.len()
        invariant
            j <= v@.len(),
            v@ == old(v)@,
            !v@.contains(k),
            forall|i: int| 0 <= i < j ==> v@[i] < k,
        ensures
            j <= v@.len(),
            v@ == old(v)@,
            j < v@.len() ==> v@[j as int] > k,
            forall|i: int| 0 <= i < j ==> v@[i] < k,
        decreases v@.len() - j,
    {
        if v[j] > k {
            break;
        }
        assert(v@[j as int] != k);
        j = j + 1;
    }
    let ghost before = v@;
    v.insert(j, k);
    assert(v@ == before.insert(j as int, k));
    assert forall|a: int, b: int| 0 <= a < b < v@.len() implies v@[a] < v@[b] by {
        if b < j {
        } else if b == j {
        } else if a < j {
            assert(v@[b] == before[b - 1]);
            assert(before[j as int] > k);
            if b - 1 > j {
                assert(before[j as int] < before[b - 1]);
            }
        } else if a == j {
            assert(v@[b] == before[b - 1]);
            if b - 1 > j {
                assert(before[j as int] < before[b - 1]);
            }
        } else {
            assert(v@[a] == before[a - 1] && v@[b] == before[b - 1]);
        }
    }
    assert forall|x: u64| v@.contains(x) <==> before.contains(x) || x == k by {
        if v@.contains(x) {
            let i = choose|i: int| 0 <= i < v@.len() && v@[i] == x;
            if i < j {
                assert(before[i] == x);
            } else if i > j {
                assert(before[i - 1] == x);
            }
        }
        if before.contains(x) {
            let i = choose|i: int| 0 <= i < before.len() && before[i] == x;
            if i < j {
                assert(v@[i] == x);
            } else {
                assert(v@[i + 1] == x);
            }
        }
        if x == k {
            assert(v@[j as int] == k);
        }
    }
}


/// The keys of a map in ascending order, each once.
pub(crate) fn sorted_keys<V>(m: &HashMap<u64, V>) -> (r: Vec<u64>)
    ensures
        strictly_increasing(r@),
        forall|x: u64| r@.contains(x) <==> m@.contains_key(x),
{
    let keys = key_list(m);
    let mut ids: Vec<u64> = Vec::new();
    let mut i: usize = 0;
    while i < keys.len()
        invariant
            i <= keys@.len(),
            keys@.no_duplicates(),
            strictly_increasing(ids@),
            forall|x: u64| ids@.contains(x) <==> keys@.take(i as int).contains(x),
        decreases keys@.len() - i,
    {
        let k = keys[i];
        assert(!ids@.contains(k)) by {
            if ids@.contains(k) {
                let a = choose|a: int| 0 <= a < i && keys@[a] == k;
                assert(keys@.take(i as int)[a] == k);
            }
        }
        insert_sorted(&mut ids, k);
        let ghost t0 = keys@.take(i as int);
        let ghost t1 = keys@.take(i + 1);
        assert forall|x: u64| ids@.contains(x) <==> t1.contains(x) by {
            if t1.contains(x) && x != k {
                let a = choose|a: int| 0 <= a < t1.len() && t1[a] == x;
                assert(t0[a] == x);
            }
            if t0.contains(x) {
                let a = choose|a: int| 0 <= a < t0.len() && t0[a] == x;
                assert(t1[a] == x);
            }
            if x == k {
                assert(t1[i as int] == k);
            }
        }
        i = i + 1;
    }
    assert(keys@.take(keys@.len() as int) =~= keys@);
    ids
}

/// A finite set of numbers has one strictly increasing listing: two
/// strictly increasing sequences holding the same numbers are equal.
pub proof fn lemma_increasing_listing_unique(a: Seq<u64>, b: Seq<u64>)
    requires
        strictly_increasing(a),
        strictly_increasing(b),
        forall|x: u64| a.contains(x) <==> b.contains(x),
    ensures
        a == b,
    decreases a.len(),
{
    if a.len() == 0 {
        if b.len() > 0 {
            assert(b.contains(b[0]));
        }
        assert(a =~= b);
    } else {
        assert(a.contains(a[0]));
        assert(b.len() > 0);
        assert(b.contains(b[0]));
        let i = choose|i: int| 0 <= i < b.len() && b[i] == a[0];
        let j = choose|j: int| 0 <= j < a.len() && a[j] == b[0];
        if i > 0 {
            assert(b[0] < b[i]);
            if j > 0 {
                assert(a[0] < a[j]);
            }
        }
        assert(a[0] == b[0]);
        let a1 = a.drop_first();
        let b1 = b.drop_first();
        assert forall|x: u64| a1.contains(x) <==> b1.contains(x) by {
            if a1.contains(x) {
                let p = choose|p: int| 0 <= p < a1.len() && a1[p] == x;
                assert(a[p + 1] == x && a[0] < a[p + 1]);
                assert(a.contains(x));
                let q = choose|q: int| 0 <= q < b.len() && b[q] == x;
                assert(q != 0);
                assert(b1[q - 1] == x);
            }
            if b1.contains(x) {
                let p = choose|p: int| 0 <= p < b1.len() && b1[p] == x;
                assert(b[p + 1] == x && b[0] < b[p + 1]);
                assert(b.contains(x));
                let q = choose|q: int| 0 <= q < a.len() && a[q] == x;
                assert(q != 0);
                assert(a1[q - 1] == x);
            }
        }
        lemma_increasing_listing_unique(a1, b1);
        assert(a =~= seq![a[0]] + a1);
        assert(b =~= seq![b[0]] + b1);
    }
}

proof fn lemma_unique_within_len(r: Seq<u64>, d: Set<u64>)
    requires
        r.no_duplicates(),
        d.finite(),
        forall|j: int| 0 <= j < r.len() ==> d.contains(#[trigger] r[j]),
    ensures
        r.len() <= d.len(),
{
    r.unique_seq_to_set();
    assert(r.to_set().subset_of(d));
    vstd::set_lib::lemma_len_subset(r.to_set(), d);
}

/// Breadth-first collection of everything that transitively depends on `id`,
/// visiting candidate entities in the order of `keys`.
fn collect_cascade(ents: &HashMap<u64, SketchEntity>, keys: &Vec<u64>, id: u64) -> (td: Vec<u64>)
    requires
        ents@.contains_key(id),
        keys@.no_duplicates(),
        forall|k: u64| ents@.contains_key(k) <==> keys@.contains(k),
    ensures
        is_cascade_of(ents@, id, td@),
{
    let ghost m = ents@;
    let mut td: Vec<u64> = Vec::new();
    td.push(id);
    let mut i: usize = 0;
    while i < td.len()
        invariant
            m == ents@,
            m.contains_key(id),
            keys@.no_duplicates(),
            forall|k: u64| m.contains_key(k) <==> keys@.contains(k),
            td@.len() >= 1,
            td@[0] == id,
            td@.no_duplicates(),
            forall|j: int| 0 <= j < td@.len() ==> m.contains_key(#[trigger] td@[j]),
            forall|j: int|
                #![trigger td@[j]]
                0 < j < td@.len() ==> exists|k: int|
                    0 <= k < j && entity_refs(m[td@[j]], EntityId(#[trigger] td@[k])),
            i <= td@.len(),
            forall|key: u64, j: int|
                m.contains_key(key) && 0 <= j < i && #[trigger] entity_refs(m[key], EntityId(td@[j]))
                    ==> td@.contains(key),
        decreases m.dom().len() - i,
    {
        proof {
            lemma_unique_within_len(td@, m.dom());
        }
        let target = td[i];
        let mut k: usize = 0;
        while k < keys.len()
            invariant
                m == ents@,
                keys@.no_duplicates(),
                forall|k: u64| m.contains_key(k) <==> keys@.contains(k),
                td@.len() >= 1,
                td@[0] == id,
                td@.no_duplicates(),
                forall|j: int| 0 <= j < td@.len() ==> m.contains_key(#[trigger] td@[j]),
                forall|j: int|
                    #![trigger td@[j]]
                    0 < j < td@.len() ==> exists|k: int|
                        0 <= k < j && entity_refs(m[td@[j]], EntityId(#[trigger] td@[k])),
                i < td@.len(),
                td@[i as int] == target,
                forall|key: u64, j: int|
                    m.contains_key(key) && 0 <= j < i && #[trigger] entity_refs(
                        m[key],
                        EntityId(td@[j]),
                    ) ==> td@.contains(key),
                k <= keys@.len(),
                forall|q: int|
                    0 <= q < k && #[trigger] entity_refs(m[keys@[q]], EntityId(target))
                        ==> td@.contains(keys@[q]),
            decreases keys.len() - k,
        {
            let eid = keys[k];
            if !raw_in(&td, eid) {
                assert(keys@.contains(eid));
                let e = ents.get(&eid).unwrap();
                if references(e, EntityId(target)) {
                    let ghost old_td = td@;
                    td.push(eid);
                    proof {
                        assert(td@[i as int] == target);
                        assert(entity_refs(m[td@[old_td.len() as int]], EntityId(td@[i as int])));
                        assert forall|j: int|
                            #![trigger td@[j]]
                            0 < j < td@.len() implies exists|k: int|
                                0 <= k < j && entity_refs(m[td@[j]], EntityId(#[trigger] td@[k])) by {
                            if j < old_td.len() {
                                assert(old_td[j] == td@[j]);
                                let w = choose|w: int|
                                    0 <= w < j && entity_refs(m[old_td[j]], EntityId(#[trigger] old_td[w]));
                                assert(td@[w] == old_td[w]);
                            } else {
                                assert(0 <= i < j && entity_refs(m[td@[j]], EntityId(td@[i as int])));
                            }
                        }
                        assert forall|a: int, b: int|
                            0 <= a < td@.len() && 0 <= b < td@.len() && a != b implies td@[a]
                            != td@[b] by {
                            if a < old_td.len() && b < old_td.len() {
                                assert(old_td[a] != old_td[b]);
                            } else if a < old_td.len() {
                                assert(old_td.contains(old_td[a]));
                            } else if b < old_td.len() {
                                assert(old_td.contains(old_td[b]));
                            }
                        }
                        assert forall|key: u64, j: int|
                            m.contains_key(key) && 0 <= j < i && #[trigger] entity_refs(
                                m[key],
                                EntityId(td@[j]),
                            ) implies td@.contains(key) by {
                            assert(old_td[j] == td@[j]);
                            assert(old_td.contains(key));
                            let w = choose|w: int| 0 <= w < old_td.len() && old_td[w] == key;
                            assert(td@[w] == key);
                        }
                        assert forall|q: int|
                            0 <= q < k + 1 && #[trigger] entity_refs(m[keys@[q]], EntityId(target))
                                implies td@.contains(keys@[q]) by {
                            if q < k {
                                assert(old_td.contains(keys@[q]));
                                let w = choose|w: int| 0 <= w < old_td.len() && old_td[w] == keys@[q];
                                assert(td@[w] == keys@[q]);
                            } else {
                                assert(td@[old_td.len() as int] == keys@[q]);
                            }
                        }
                    }
                }
            }
            k = k + 1;
        }
        proof {
            assert forall|key: u64, j: int|
                m.contains_key(key) && 0 <= j < i + 1 && #[trigger] entity_refs(m[key], EntityId(td@[j]))
                    implies td@.contains(key) by {
                if j == i {
                    assert(keys@.contains(key));
                    let q = choose|q: int| 0 <= q < keys@.len() && keys@[q] == key;
                    assert(entity_refs(m[keys@[q]], EntityId(target)));
                }
            }
        }
        i = i + 1;
    }
    td
}

/// The constraints of `cs` that refer to none of the `deleted` entities, in
/// their original order.
fn surviving_constraints(cs: &Vec<Constraint>, deleted: &Vec<u64>) -> (kept: Vec<Constraint>)
    ensures
        kept@ == cs@.filter(
            |c: Constraint| constraint_survives(c, deleted@.map_values(|r: u64| EntityId(r))),
        ),
{
    let ghost pred = |c: Constraint| constraint_survives(c, deleted@.map_values(|r: u64| EntityId(r)));
    let mut kept: Vec<Constraint> = Vec::new();
    let mut i: usize = 0;
    while i < cs.len()
        invariant
            i <= cs@.len(),
            pred == (|c: Constraint| constraint_survives(c, deleted@.map_values(|r: u64| EntityId(r)))),
            kept@ == cs@.take(i as int).filter(pred),
        decreases cs.len() - i,
    {
        let c = cs[i];
        proof {
            reveal_with_fuel(Seq::filter, 1);
            assert(cs@.take(i + 1).drop_last() =~= cs@.take(i as int));
        }
        if survives(&c, deleted) {
            kept.push(c);
        }
        i = i + 1;
    }
    assert(cs@.take(cs@.len() as int) =~= cs@);
    kept
}

fn to_entity_ids(v: &Vec<u64>) -> (r: Vec<EntityId>)
    ensures
        r@ == v@.map_values(|x: u64| EntityId(x)),
{
    let mut r: Vec<EntityId> = Vec::new();
    let mut i: usize = 0;
    while i < v.len()
        invariant
            i <= v@.len(),
            r@ == v@.take(i as int).map_values(|x: u64| EntityId(x)),
        decreases v.len() - i,
    {
        r.push(EntityId(v[i]));
        proof {
            assert(v@.take(i + 1).map_values(|x: u64| EntityId(x)) =~= r@);
        }
        i = i + 1;
    }
    assert(v@.take(v@.len() as int) =~= v@);
    r
}

impl Sketch {
    /// An empty sketch.
    pub fn new() -> (s: Self)
        ensures
            s.entities@ == Map::<u64, SketchEntity>::empty(),
            s.constraints@ == Seq::<Constraint>::empty(),
            s.next_id == 0,
    {
        Sketch { next_id: 0, entities: HashMap::new(), constraints: Vec::new() }
    }

    /// The ids of the sketch's entities in ascending order, each once: the
    /// order in which profile extraction visits them. It depends only on
    /// which ids the sketch holds (see `lemma_increasing_listing_unique`),
    /// not on how its hash map orders them.
    pub fn sorted_entity_ids(&self) -> (r: Vec<u64>)
        ensures
            strictly_increasing(r@),
            forall|x: u64| r@.contains(x) <==> self.entities@.contains_key(x),
    {
        sorted_keys(&self.entities)
    }

    /// Add an entity under a fresh id and return that id.
    pub fn add_entity(&mut self, entity: SketchEntity) -> (id: EntityId)
        requires
            old(self).next_id < u64::MAX,
        ensures
            id == EntityId(old(self).next_id),
            final(self).next_id == old(self).next_id + 1,
            final(self).entities@ == old(self).entities@.insert(id.0, entity),
            final(self).constraints@ == old(self).constraints@,
    {
        let id = EntityId(self.next_id);
        self.next_id = self.next_id + 1;
        self.entities.insert(id.0, entity);
        id
    }

    pub fn add_constraint(&mut self, constraint: Constraint)
        ensures
            final(self).constraints@ == old(self).constraints@.push(constraint),
            final(self).entities@ == old(self).entities@,
            final(self).next_id == old(self).next_id,
    {
        self.constraints.push(constraint);
    }

    /// The point stored under `id`, if that entity is a point.
    pub fn get_point(&self, id: EntityId) -> (r: Option<&SketchPoint>)
        ensures
            match r {
                Some(p) => self.entities@.contains_key(id.0) && self.entities@[id.0]
                    == SketchEntity::Point(*p),
                None => !self.entities@.contains_key(id.0) || !(self.entities@[id.0] is Point),
            },
    {
        match self.entities.get(&id.0) {
            Some(SketchEntity::Point(p)) => Some(p),
            _ => None,
        }
    }

    /// The point stored under `id`, if that entity is a point, for editing
    /// in place; whatever is written through it becomes the point's value.
    pub fn get_point_mut(&mut self, id: EntityId) -> (r: Option<&mut SketchPoint>)
        ensures
            final(self).constraints@ == old(self).constraints@,
            final(self).next_id == old(self).next_id,
            match r {
                Some(p) => old(self).entities@.contains_key(id.0) && old(self).entities@[id.0]
                    == SketchEntity::Point(*p) && final(self).entities@ == old(self).entities@.insert(
                    id.0,
                    SketchEntity::Point(*final(p)),
                ),
                None => (!old(self).entities@.contains_key(id.0) || !(old(self).entities@[id.0] is Point))
                    && final(self).entities@ == old(self).entities@,
            },
    {
        match entity_get_mut(&mut self.entities, id.0) {
            Some(SketchEntity::Point(p)) => Some(p),
            _ => None,
        }
    }

    pub fn add_point(&mut self, x: u64, y: u64) -> (id: EntityId)
        requires
            old(self).next_id < u64::MAX,
        ensures
            id == EntityId(old(self).next_id),
            final(self).next_id == old(self).next_id + 1,
            final(self).entities@ == old(self).entities@.insert(
                id.0,
                SketchEntity::Point(SketchPoint { x, y }),
            ),
            final(self).constraints@ == old(self).constraints@,
    {
        self.add_entity(SketchEntity::Point(SketchPoint::new(x, y)))
    }

    pub fn add_line(&mut self, start: EntityId, end: EntityId) -> (id: EntityId)
        requires
            old(self).next_id < u64::MAX,
        ensures
            id == EntityId(old(self).next_id),
            final(self).next_id == old(self).next_id + 1,
            final(self).entities@ == old(self).entities@.insert(
                id.0,
                SketchEntity::Line { start, end, construction: false },
            ),
            final(self).constraints@ == old(self).constraints@,
    {
        self.add_entity(SketchEntity::Line { start, end, construction: false })
    }

    pub fn add_circle(&mut self, center: EntityId, radius: u64) -> (id: EntityId)
        requires
            old(self).next_id < u64::MAX,
        ensures
            id == EntityId(old(self).next_id),
            final(self).next_id == old(self).next_id + 1,
            final(self).entities@ == old(self).entities@.insert(
                id.0,
                SketchEntity::Circle { center, radius, construction: false },
            ),
            final(self).constraints@ == old(self).constraints@,
    {
        self.add_entity(SketchEntity::Circle { center, radius, construction: false })
    }

    pub fn add_arc(&mut self, center: EntityId, radius: u64, start_angle: u64, end_angle: u64) -> (id:
        EntityId)
        requires
            old(self).next_id < u64::MAX,
        ensures
            id == EntityId(old(self).next_id),
            final(self).next_id == old(self).next_id + 1,
            final(self).entities@ == old(self).entities@.insert(
                id.0,
                SketchEntity::Arc { center, radius, start_angle, end_angle, construction: false },
            ),
            final(self).constraints@ == old(self).constraints@,
    {
        self.add_entity(
            SketchEntity::Arc { center, radius, start_angle, end_angle, construction: false },
        )
    }

    pub fn add_spline(&mut self, control_points: Vec<EntityId>) -> (id: EntityId)
        requires
            old(self).next_id < u64::MAX,
        ensures
            id == EntityId(old(self).next_id),
            final(self).next_id == old(self).next_id + 1,
            final(self).entities@ == old(self).entities@.insert(
                id.0,
                SketchEntity::Spline { control_points, construction: false },
            ),
            final(self).constraints@ == old(self).constraints@,
    {
        self.add_entity(SketchEntity::Spline { control_points, construction: false })
    }

    pub fn add_ellipse(&mut self, center: EntityId, major_axis_end: EntityId, ratio: u64) -> (id:
        EntityId)
        requires
            old(self).next_id < u64::MAX,
        ensures
            id == EntityId(old(self).next_id),
            final(self).next_id == old(self).next_id + 1,
            final(self).entities@ == old(self).entities@.insert(
                id.0,
                SketchEntity::Ellipse { center, major_axis_end, ratio, construction: false },
            ),
            final(self).constraints@ == old(self).constraints@,
    {
        self.add_entity(SketchEntity::Ellipse { center, major_axis_end, ratio, construction: false })
    }

    /// Delete an entity. If it is referenced by other entities (line
    /// endpoints, circle/arc centers, spline control points, ellipse axes),
    /// those dependent entities are deleted too, transitively. Constraints
    /// referencing any of the deleted entities are dropped as well.
    ///
    /// Returns the ids of all entities that were removed (starting with `id`),
    /// or nothing when `id` is not in the sketch.
    pub fn delete_entity_cascade(&mut self, id: EntityId) -> (removed: Vec<EntityId>)
        ensures
            final(self).next_id == old(self).next_id,
            !old(self).entities@.contains_key(id.0) ==> {
                &&& removed@.len() == 0
                &&& final(self).entities@ == old(self).entities@
                &&& final(self).constraints@ == old(self).constraints@
            },
            old(self).entities@.contains_key(id.0) ==> {
                &&& is_cascade_of(old(self).entities@, id.0, raw_ids(removed@))
                &&& final(self).entities@ == old(self).entities@.remove_keys(
                    raw_ids(removed@).to_set(),
                )
                &&& final(self).constraints@ == old(self).constraints@.filter(
                    |c: Constraint| constraint_survives(c, removed@),
                )
            },
    {
        if !self.entities.contains_key(&id.0) {
            return Vec::new();
        }
        let keys = key_list(&self.entities);
        let td = collect_cascade(&self.entities, &keys, id.0);
        let kept = surviving_constraints(&self.constraints, &td);
        self.constraints = kept;
        let ghost m = self.entities@;
        let ghost cs = self.constraints@;
        let ghost nid = self.next_id;
        let mut i: usize = 0;
        assert(td@.take(0).to_set() =~= Set::<u64>::empty());
        assert(m.remove_keys(Set::<u64>::empty()) =~= m);
        while i < td.len()
            invariant
                i <= td@.len(),
                self.constraints@ == cs,
                self.next_id == nid,
                self.entities@ == m.remove_keys(td@.take(i as int).to_set()),
            decreases td.len() - i,
        {
            self.entities.remove(&td[i]);
            proof {
                assert(td@.take(i + 1) =~= td@.take(i as int).push(td@[i as int]));
                td@.take(i as int).lemma_push_to_set_commute(td@[i as int]);
                assert(self.entities@ =~= m.remove_keys(td@.take(i + 1).to_set()));
            }
            i = i + 1;
        }
        let removed = to_entity_ids(&td);
        proof {
            assert(td@.take(td@.len() as int) =~= td@);
            assert(raw_ids(removed@) =~= td@);
            assert(removed@ =~= td@.map_values(|r: u64| EntityId(r)));
        }
        removed
    }
}

/// The constraints of `cs` that a deletion of `removed` keeps, in order.
pub open spec fn kept_constraints(cs: Seq<Constraint>, removed: Seq<EntityId>) -> Seq<Constraint> {
    cs.filter(|c: Constraint| constraint_survives(c, removed))
}

/// A cascading delete leaves no dangling reference: no entity that stays
/// is built on a removed entity, and no constraint that stays refers to a
/// removed entity.
pub proof fn lemma_cascade_leaves_no_dangling(
    m: Map<u64, SketchEntity>,
    id: u64,
    removed: Seq<EntityId>,
    cs: Seq<Constraint>,
)
    requires
        is_cascade_of(m, id, raw_ids(removed)),
    ensures
        forall|key: u64, j: int|
            #![trigger m.remove_keys(raw_ids(removed).to_set())[key], removed[j]]
            m.remove_keys(raw_ids(removed).to_set()).contains_key(key) && 0 <= j < removed.len()
                ==> !entity_refs(m.remove_keys(raw_ids(removed).to_set())[key], removed[j]),
        forall|k: int|
            0 <= k < kept_constraints(cs, removed).len() ==> constraint_survives(
                #[trigger] kept_constraints(cs, removed)[k],
                removed,
            ),
{
    broadcast use vstd::seq_lib::group_filter_ensures;

    let r = raw_ids(removed);
    let rest = m.remove_keys(r.to_set());
    assert forall|key: u64, j: int|
        rest.contains_key(key) && 0 <= j < removed.len() implies !entity_refs(
        #[trigger] rest[key],
        #[trigger] removed[j],
    ) by {
        assert(r[j] == removed[j].0);
        assert(EntityId(r[j]) == removed[j]);
        if entity_refs(m[key], EntityId(r[j])) {
            assert(r.contains(key));
            assert(r.to_set().contains(key));
        }
    }
}

/// After a cascading delete, no entity that stays is built on a removed
/// one, read off the entity's own fields: a kept line has neither its start
/// nor its end among the removed ids; a kept circle or arc keeps its
/// center; a kept ellipse keeps its center and its axis end; a kept spline
/// keeps all its control points.
pub proof fn lemma_cascade_keeps_no_removed_endpoint(
    m: Map<u64, SketchEntity>,
    id: u64,
    removed: Seq<EntityId>,
    key: u64,
)
    requires
        is_cascade_of(m, id, raw_ids(removed)),
        m.remove_keys(raw_ids(removed).to_set()).contains_key(key),
    ensures
        ({
            let e = m.remove_keys(raw_ids(removed).to_set())[key];
            &&& e matches SketchEntity::Line { start, end, .. } ==> !removed.contains(start)
                && !removed.contains(end)
            &&& e matches SketchEntity::Circle { center, .. } ==> !removed.contains(center)
            &&& e matches SketchEntity::Arc { center, .. } ==> !removed.contains(center)
            &&& e matches SketchEntity::Ellipse { center, major_axis_end, .. } ==> !removed.contains(
                center,
            ) && !removed.contains(major_axis_end)
            &&& e matches SketchEntity::Spline { control_points, .. } ==> forall|j: int|
                0 <= j < control_points@.len() ==> !removed.contains(#[trigger] control_points@[j])
        }),
{
    let r = raw_ids(removed);
    let rest = m.remove_keys(r.to_set());
    let e = rest[key];
    assert(!r.to_set().contains(key));
    assert(!r.contains(key));
    assert(e == m[key]);
    assert forall|t: EntityId| removed.contains(t) implies !entity_refs(e, t) by {
        let j = choose|j: int| 0 <= j < removed.len() && removed[j] == t;
        assert(r[j] == t.0);
        assert(EntityId(r[j]) == t);
        if entity_refs(m[key], EntityId(r[j])) {
            assert(r.contains(key));
        }
    }
    match e {
        SketchEntity::Spline { control_points, .. } => {
            assert forall|j: int| 0 <= j < control_points@.len() implies !removed.contains(
                #[trigger] control_points@[j],
            ) by {
                if removed.contains(control_points@[j]) {
                    assert(control_points@.contains(control_points@[j]));
                    assert(entity_refs(e, control_points@[j]));
                }
            }
        },
        _ => {},
    }
}

/// A constraint that survives a delete names none of the removed entities,
/// read off its own fields: for example a kept coincidence has neither of
/// its points removed, and a kept symmetry neither its points nor its axis.
/// Every constraint that names no removed entity survives, in order.
pub proof fn lemma_kept_constraints_name_no_removed_entity(
    cs: Seq<Constraint>,
    removed: Seq<EntityId>,
    k: int,
)
    requires
        0 <= k < kept_constraints(cs, removed).len(),
    ensures
        ({
            let g = removed;
            match kept_constraints(cs, removed)[k] {
                Constraint::Coincident { a, b } => !g.contains(a) && !g.contains(b),
                Constraint::Horizontal { line } => !g.contains(line),
                Constraint::Vertical { line } => !g.contains(line),
                Constraint::Distance { a, b, .. } => !g.contains(a) && !g.contains(b),
                Constraint::Radius { circle, .. } => !g.contains(circle),
                Constraint::Parallel { line_a, line_b } => !g.contains(line_a) && !g.contains(line_b),
                Constraint::Perpendicular { line_a, line_b } => !g.contains(line_a) && !g.contains(
                    line_b,
                ),
                Constraint::Tangent { line, circle } => !g.contains(line) && !g.contains(circle),
                Constraint::Concentric { a, b } => !g.contains(a) && !g.contains(b),
                Constraint::Equal { a, b } => !g.contains(a) && !g.contains(b),
                Constraint::Fix { point } => !g.contains(point),
                Constraint::Midpoint { point, line } => !g.contains(point) && !g.contains(line),
                Constraint::Symmetric { a, b, axis } => !g.contains(a) && !g.contains(b)
                    && !g.contains(axis),
                Constraint::PointOnLine { point, line } => !g.contains(point) && !g.contains(line),
                Constraint::Collinear { a, b, c } => !g.contains(a) && !g.contains(b) && !g.contains(
                    c,
                ),
                Constraint::Angle { line_a, line_b, .. } => !g.contains(line_a) && !g.contains(
                    line_b,
                ),
                Constraint::Diameter { circle, .. } => !g.contains(circle),
            }
        }),
{
    broadcast use vstd::seq_lib::group_filter_ensures;

    let c = kept_constraints(cs, removed)[k];
    assert(cs.filter(|c: Constraint| constraint_survives(c, removed)).contains(c));
    assert(constraint_survives(c, removed));
    let es = constraint_entities(c);
    if es.len() > 0 {
        assert(!removed.contains(es[0]));
    }
    if es.len() > 1 {
        assert(!removed.contains(es[1]));
    }
    if es.len() > 2 {
        assert(!removed.contains(es[2]));
    }
}

} // verus!
