//! The structural side of the sketch constraint solver: which sketch
//! quantities are free parameters, which entities a constraint can reach,
//! and how many residual rows each constraint contributes. The numeric
//! Gauss-Newton iteration works on these layouts; none of what is decided
//! here depends on coordinate values.

use vstd::prelude::*;

use crate::ids::EntityId;
use crate::sketch::{key_list, list_has, Constraint, Sketch, SketchEntity};
use crate::text::{decimal, u64_to_decimal};

verus! {

broadcast use vstd::std_specs::hash::group_hash_axioms;

/// The point `id` is anchored by a `Fix` constraint.
pub open spec fn is_fixed(cs: Seq<Constraint>, id: EntityId) -> bool {
    exists|k: int| 0 <= k < cs.len() && #[trigger] cs[k] == (Constraint::Fix { point: id })
}

/// The entity `id` of `s` is a point.
pub open spec fn is_point(s: Sketch, id: EntityId) -> bool {
    s.entities@.contains_key(id.0) && s.entities@[id.0] is Point
}

/// The entity `id` of `s` is a circle or an arc (carries a radius scalar).
pub open spec fn has_radius_scalar(s: Sketch, id: EntityId) -> bool {
    s.entities@.contains_key(id.0) && (s.entities@[id.0] is Circle || s.entities@[id.0] is Arc)
}

/// Coordinates of `id` are available to a residual: it is a free point or
/// a point stored in the sketch.
pub open spec fn point_available(s: Sketch, point_ids: Seq<EntityId>, id: EntityId) -> bool {
    point_ids.contains(id) || is_point(s, id)
}

/// A radius of `id` is available to a residual: a circle or arc whose
/// radius is a free parameter, or an ellipse whose center and major-axis
/// end are available points.
pub open spec fn radius_available(
    s: Sketch,
    point_ids: Seq<EntityId>,
    radius_ids: Seq<EntityId>,
    id: EntityId,
) -> bool {
    if !s.entities@.contains_key(id.0) {
        false
    } else {
        match s.entities@[id.0] {
            SketchEntity::Circle { .. } => radius_ids.contains(id),
            SketchEntity::Arc { .. } => radius_ids.contains(id),
            SketchEntity::Ellipse { center, major_axis_end, .. } => point_available(
                s,
                point_ids,
                center,
            ) && point_available(s, point_ids, major_axis_end),
            _ => false,
        }
    }
}

/// The endpoints of the line `id`, when `id` is a line.
pub open spec fn line_ends(s: Sketch, id: EntityId) -> Option<(EntityId, EntityId)> {
    if s.entities@.contains_key(id.0) {
        match s.entities@[id.0] {
            SketchEntity::Line { start, end, .. } => Some((start, end)),
            _ => None,
        }
    } else {
        None
    }
}

/// The center of the circle, arc or ellipse `id`.
pub open spec fn center_of(s: Sketch, id: EntityId) -> Option<EntityId> {
    if s.entities@.contains_key(id.0) {
        match s.entities@[id.0] {
            SketchEntity::Circle { center, .. } => Some(center),
            SketchEntity::Arc { center, .. } => Some(center),
            SketchEntity::Ellipse { center, .. } => Some(center),
            _ => None,
        }
    } else {
        None
    }
}

/// `id` is a line whose two endpoints are available.
pub open spec fn line_available(s: Sketch, p: Seq<EntityId>, id: EntityId) -> bool {
    match line_ends(s, id) {
        Some((a, b)) => point_available(s, p, a) && point_available(s, p, b),
        None => false,
    }
}

/// Number of residual rows the constraint `c` contributes: a constraint
/// whose entities cannot all be reached contributes none; a reachable one
/// contributes one row per scalar equation it imposes.
pub open spec fn residual_count(s: Sketch, p: Seq<EntityId>, r: Seq<EntityId>, c: Constraint) -> nat {
    match c {
        Constraint::Coincident { a, b } => if point_available(s, p, a) && point_available(s, p, b) {
            2
        } else {
            0
        },
        Constraint::Horizontal { line } => if line_available(s, p, line) {
            1
        } else {
            0
        },
        Constraint::Vertical { line } => if line_available(s, p, line) {
            1
        } else {
            0
        },
        Constraint::Distance { a, b, .. } => if point_available(s, p, a) && point_available(s, p, b) {
            1
        } else {
            0
        },
        Constraint::Radius { circle, .. } => if radius_available(s, p, r, circle) {
            1
        } else {
            0
        },
        Constraint::Parallel { line_a, line_b } => if line_available(s, p, line_a) && line_available(
            s,
            p,
            line_b,
        ) {
            1
        } else {
            0
        },
        Constraint::Perpendicular { line_a, line_b } => if line_available(s, p, line_a)
            && line_available(s, p, line_b) {
            1
        } else {
            0
        },
        Constraint::Tangent { line, circle } => if line_available(s, p, line) && (s.entities@.contains_key(
            circle.0,
        ) && (s.entities@[circle.0] is Circle || s.entities@[circle.0] is Arc)) {
            1
        } else {
            0
        },
        Constraint::Concentric { a, b } => match (center_of(s, a), center_of(s, b)) {
            (Some(ca), Some(cb)) => if point_available(s, p, ca) && point_available(s, p, cb) {
                2
            } else {
                0
            },
            _ => 0,
        },
        Constraint::Equal { a, b } => if line_ends(s, a) is Some && line_ends(s, b) is Some {
            if line_available(s, p, a) && line_available(s, p, b) {
                1
            } else {
                0
            }
        } else if radius_available(s, p, r, a) && radius_available(s, p, r, b) {
            1
        } else {
            0
        },
        Constraint::Fix { .. } => 0,
        Constraint::Midpoint { point, line } => if point_available(s, p, point) && line_available(
            s,
            p,
            line,
        ) {
            2
        } else {
            0
        },
        Constraint::Symmetric { a, b, axis } => if point_available(s, p, a) && point_available(
            s,
            p,
            b,
        ) && line_available(s, p, axis) {
            3
        } else {
            0
        },
        Constraint::PointOnLine { point, line } => if point_available(s, p, point)
            && line_available(s, p, line) {
            1
        } else {
            0
        },
        Constraint::Collinear { a, b, c } => if point_available(s, p, a) && point_available(s, p, b)
            && point_available(s, p, c) {
            1
        } else {
            0
        },
        Constraint::Angle { line_a, line_b, .. } => if line_available(s, p, line_a) && line_available(
            s,
            p,
            line_b,
        ) {
            1
        } else {
            0
        },
        Constraint::Diameter { circle, .. } => if radius_available(s, p, r, circle) {
            1
        } else {
            0
        },
    }
}

fn fixed_in(cs: &Vec<Constraint>, id: EntityId) -> (b: bool)
    ensures
        b == is_fixed(cs@, id),
{
    let mut k: usize = 0;
    while k < cs.len()
        invariant
            k <= cs@.len(),
            forall|j: int| 0 <= j < k ==> cs@[j] != (Constraint::Fix { point: id }),
        decreases cs.len() - k,
    {
        match cs[k] {
            Constraint::Fix { point } => {
                if point.0 == id.0 {
                    assert(cs@[k as int] == (Constraint::Fix { point: id }));
                    return true;
                }
            },
            _ => {},
        }
        k = k + 1;
    }
    false
}

/// Split the sketch's quantities into free parameters: the points that are
/// not anchored by a `Fix` constraint (two coordinates each) and the
/// circles and arcs (one radius scalar each). Both lists hold each id once.
pub fn extract_param_ids(sketch: &Sketch) -> (r: (Vec<EntityId>, Vec<EntityId>))
    ensures
        r.0@.no_duplicates(),
        r.1@.no_duplicates(),
        forall|id: EntityId| r.0@.contains(id) <==> is_point(*sketch, id) && !is_fixed(sketch.constraints@, id),
        forall|id: EntityId| r.1@.contains(id) <==> has_radius_scalar(*sketch, id),
{
    let keys = key_list(&sketch.entities);
    let mut point_ids: Vec<EntityId> = Vec::new();
    let mut radius_ids: Vec<EntityId> = Vec::new();
    let mut i: usize = 0;
    while i < keys.len()
        invariant
            i <= keys@.len(),
            keys@.no_duplicates(),
            forall|k: u64| sketch.entities@.contains_key(k) <==> keys@.contains(k),
            point_ids@.no_duplicates(),
            radius_ids@.no_duplicates(),
            forall|id: EntityId|
                #[trigger] point_ids@.contains(id) <==> keys@.take(i as int).contains(id.0) && is_point(
                    *sketch,
                    id,
                ) && !is_fixed(sketch.constraints@, id),
            forall|id: EntityId|
                #[trigger] radius_ids@.contains(id) <==> keys@.take(i as int).contains(id.0)
                    && has_radius_scalar(*sketch, id),
        decreases keys.len() - i,
    {
        let key = keys[i];
        let id = EntityId(key);
        assert(keys@.contains(key));
        let e = sketch.entities.get(&key).unwrap();
        let ghost p0 = point_ids@;
        let ghost r0 = radius_ids@;
        match e {
            SketchEntity::Point(_) => {
                if !fixed_in(&sketch.constraints, id) {
                    point_ids.push(id);
                }
            },
            SketchEntity::Circle { .. } => {
                radius_ids.push(id);
            },
            SketchEntity::Arc { .. } => {
                radius_ids.push(id);
            },
            _ => {},
        }
        proof {
            let t1 = keys@.take(i + 1);
            let t0 = keys@.take(i as int);
            assert(t1 =~= t0.push(key));
            assert forall|x: u64| t1.contains(x) <==> (t0.contains(x) || x == key) by {
                if t1.contains(x) {
                    let j = choose|j: int| 0 <= j < t1.len() && t1[j] == x;
                    if j < i {
                        assert(t0[j] == x);
                    }
                }
                if x == key {
                    assert(t1[i as int] == x);
                }
                if t0.contains(x) {
                    let j = choose|j: int| 0 <= j < t0.len() && t0[j] == x;
                    assert(t1[j] == x);
                }
            }
            assert(!t0.contains(key)) by {
                if t0.contains(key) {
                    let j = choose|j: int| 0 <= j < t0.len() && t0[j] == key;
                    assert(keys@[j] == keys@[i as int]);
                }
            }
            assert(!p0.contains(id));
            assert(!r0.contains(id));
            assert(*e == sketch.entities@[key]);
            assert(point_ids@ == p0 || point_ids@ == p0.push(id));
            assert(radius_ids@ == r0 || radius_ids@ == r0.push(id));
            assert(point_ids@ == p0.push(id) <==> (is_point(*sketch, id) && !is_fixed(
                sketch.constraints@,
                id,
            )));
            assert(radius_ids@ == r0.push(id) <==> has_radius_scalar(*sketch, id));
            assert forall|x: EntityId| #[trigger] point_ids@.contains(x) <==> t1.contains(x.0) && is_point(
                *sketch,
                x,
            ) && !is_fixed(sketch.constraints@, x) by {
                if point_ids@ == p0.push(id) {
                    if point_ids@.contains(x) && x != id {
                        let w = choose|w: int| 0 <= w < point_ids@.len() && point_ids@[w] == x;
                        assert(p0[w] == x);
                    }
                    if x == id {
                        assert(point_ids@[p0.len() as int] == x);
                    }
                    if p0.contains(x) {
                        let w = choose|w: int| 0 <= w < p0.len() && p0[w] == x;
                        assert(point_ids@[w] == x);
                    }
                }
            }
            assert forall|x: EntityId| #[trigger] radius_ids@.contains(x) <==> t1.contains(x.0)
                && has_radius_scalar(*sketch, x) by {
                if radius_ids@ == r0.push(id) {
                    if radius_ids@.contains(x) && x != id {
                        let w = choose|w: int| 0 <= w < radius_ids@.len() && radius_ids@[w] == x;
                        assert(r0[w] == x);
                    }
                    if x == id {
                        assert(radius_ids@[r0.len() as int] == x);
                    }
                    if r0.contains(x) {
                        let w = choose|w: int| 0 <= w < r0.len() && r0[w] == x;
                        assert(radius_ids@[w] == x);
                    }
                }
            }
            assert forall|a: int, b: int|
                0 <= a < point_ids@.len() && 0 <= b < point_ids@.len() && a != b implies point_ids@[a]
                != point_ids@[b] by {
                if point_ids@.len() > p0.len() {
                    if a < p0.len() && b < p0.len() {
                        assert(p0[a] != p0[b]);
                    } else if a < p0.len() {
                        assert(p0.contains(p0[a]));
                    } else if b < p0.len() {
                        assert(p0.contains(p0[b]));
                    }
                } else {
                    assert(p0[a] != p0[b]);
                }
            }
            assert forall|a: int, b: int|
                0 <= a < radius_ids@.len() && 0 <= b < radius_ids@.len() && a != b implies radius_ids@[a]
                != radius_ids@[b] by {
                if radius_ids@.len() > r0.len() {
                    if a < r0.len() && b < r0.len() {
                        assert(r0[a] != r0[b]);
                    } else if a < r0.len() {
                        assert(r0.contains(r0[a]));
                    } else if b < r0.len() {
                        assert(r0.contains(r0[b]));
                    }
                } else {
                    assert(r0[a] != r0[b]);
                }
            }
        }
        i = i + 1;
    }
    proof {
        assert(keys@.take(keys@.len() as int) =~= keys@);
    }
    (point_ids, radius_ids)
}

fn slice_has(v: &[EntityId], t: EntityId) -> (b: bool)
    ensures
        b == v@.contains(t),
{
    let mut i: usize = 0;
    while i < v.len()
        invariant
            i <= v@.len(),
            forall|j: int| 0 <= j < i ==> v@[j] != t,
        decreases v.len() - i,
    {
        if v[i].0 == t.0 {
            assert(v@[i as int] == t);
            return true;
        }
        i = i + 1;
    }
    false
}

fn point_avail(sketch: &Sketch, point_ids: &[EntityId], id: EntityId) -> (b: bool)
    ensures
        b == point_available(*sketch, point_ids@, id),
{
    if slice_has(point_ids, id) {
        return true;
    }
    match sketch.entities.get(&id.0) {
        Some(SketchEntity::Point(_)) => true,
        _ => false,
    }
}

fn line_ends_of(sketch: &Sketch, id: EntityId) -> (r: Option<(EntityId, EntityId)>)
    ensures
        r == line_ends(*sketch, id),
{
    match sketch.entities.get(&id.0) {
        Some(SketchEntity::Line { start, end, .. }) => Some((*start, *end)),
        _ => None,
    }
}

fn line_avail(sketch: &Sketch, point_ids: &[EntityId], id: EntityId) -> (b: bool)
    ensures
        b == line_available(*sketch, point_ids@, id),
{
    match line_ends_of(sketch, id) {
        Some((a, b)) => point_avail(sketch, point_ids, a) && point_avail(sketch, point_ids, b),
        None => false,
    }
}

fn radius_avail(sketch: &Sketch, point_ids: &[EntityId], radius_ids: &[EntityId], id: EntityId) -> (b:
    bool)
    ensures
        b == radius_available(*sketch, point_ids@, radius_ids@, id),
{
    match sketch.entities.get(&id.0) {
        Some(SketchEntity::Circle { .. }) => slice_has(radius_ids, id),
        Some(SketchEntity::Arc { .. }) => slice_has(radius_ids, id),
        Some(SketchEntity::Ellipse { center, major_axis_end, .. }) => point_avail(
            sketch,
            point_ids,
            *center,
        ) && point_avail(sketch, point_ids, *major_axis_end),
        _ => false,
    }
}

/// The center point of a circle, arc or ellipse entity.
pub fn get_circle_center(sketch: &Sketch, id: EntityId) -> (r: Option<EntityId>)
    ensures
        r == center_of(*sketch, id),
{
    match sketch.entities.get(&id.0) {
        Some(SketchEntity::Circle { center, .. }) => Some(*center),
        Some(SketchEntity::Arc { center, .. }) => Some(*center),
        Some(SketchEntity::Ellipse { center, .. }) => Some(*center),
        _ => None,
    }
}

fn residual_rows(sketch: &Sketch, p: &[EntityId], r: &[EntityId], c: &Constraint) -> (n: usize)
    ensures
        n == residual_count(*sketch, p@, r@, *c),
{
    match c {
        Constraint::Coincident { a, b } => if point_avail(sketch, p, *a) && point_avail(sketch, p, *b) {
            2
        } else {
            0
        },
        Constraint::Horizontal { line } => if line_avail(sketch, p, *line) {
            1
        } else {
            0
        },
        Constraint::Vertical { line } => if line_avail(sketch, p, *line) {
            1
        } else {
            0
        },
        Constraint::Distance { a, b, .. } => if point_avail(sketch, p, *a) && point_avail(
            sketch,
            p,
            *b,
        ) {
            1
        } else {
            0
        },
        Constraint::Radius { circle, .. } => if radius_avail(sketch, p, r, *circle) {
            1
        } else {
            0
        },
        Constraint::Parallel { line_a, line_b } => if line_avail(sketch, p, *line_a) && line_avail(
            sketch,
            p,
            *line_b,
        ) {
            1
        } else {
            0
        },
        Constraint::Perpendicular { line_a, line_b } => if line_avail(sketch, p, *line_a)
            && line_avail(sketch, p, *line_b) {
            1
        } else {
            0
        },
        Constraint::Tangent { line, circle } => {
            let is_curve = match sketch.entities.get(&circle.0) {
                Some(SketchEntity::Circle { .. }) => true,
                Some(SketchEntity::Arc { .. }) => true,
                _ => false,
            };
            if line_avail(sketch, p, *line) && is_curve {
                1
            } else {
                0
            }
        },
        Constraint::Concentric { a, b } => match (
            get_circle_center(sketch, *a),
            get_circle_center(sketch, *b),
        ) {
            (Some(ca), Some(cb)) => if point_avail(sketch, p, ca) && point_avail(sketch, p, cb) {
                2
            } else {
                0
            },
            _ => 0,
        },
        Constraint::Equal { a, b } => {
            if line_ends_of(sketch, *a).is_some() && line_ends_of(sketch, *b).is_some() {
                if line_avail(sketch, p, *a) && line_avail(sketch, p, *b) {
                    1
                } else {
                    0
                }
            } else if radius_avail(sketch, p, r, *a) && radius_avail(sketch, p, r, *b) {
                1
            } else {
                0
            }
        },
        Constraint::Fix { .. } => 0,
        Constraint::Midpoint { point, line } => if point_avail(sketch, p, *point) && line_avail(
            sketch,
            p,
            *line,
        ) {
            2
        } else {
            0
        },
        Constraint::Symmetric { a, b, axis } => if point_avail(sketch, p, *a) && point_avail(
            sketch,
            p,
            *b,
        ) && line_avail(sketch, p, *axis) {
            3
        } else {
            0
        },
        Constraint::PointOnLine { point, line } => if point_avail(sketch, p, *point) && line_avail(
            sketch,
            p,
            *line,
        ) {
            1
        } else {
            0
        },
        Constraint::Collinear { a, b, c } => if point_avail(sketch, p, *a) && point_avail(
            sketch,
            p,
            *b,
        ) && point_avail(sketch, p, *c) {
            1
        } else {
            0
        },
        Constraint::Angle { line_a, line_b, .. } => if line_avail(sketch, p, *line_a) && line_avail(
            sketch,
            p,
            *line_b,
        ) {
            1
        } else {
            0
        },
        Constraint::Diameter { circle, .. } => if radius_avail(sketch, p, r, *circle) {
            1
        } else {
            0
        },
    }
}

/// How many residual entries each constraint produces, in constraint order.
/// Mirrors the residual evaluation: a constraint whose entities cannot be
/// reached produces none.
pub fn count_constraint_residuals(sketch: &Sketch, point_ids: &[EntityId], radius_ids: &[EntityId]) -> (r:
    Vec<usize>)
    ensures
        r@.len() == sketch.constraints@.len(),
        forall|k: int|
            0 <= k < r@.len() ==> r@[k] == residual_count(
                *sketch,
                point_ids@,
                radius_ids@,
                #[trigger] sketch.constraints@[k],
            ),
{
    let mut r: Vec<usize> = Vec::new();
    let mut k: usize = 0;
    while k < sketch.constraints.len()
        invariant
            k <= sketch.constraints@.len(),
            r@.len() == k,
            forall|j: int|
                0 <= j < k ==> r@[j] == residual_count(
                    *sketch,
                    point_ids@,
                    radius_ids@,
                    #[trigger] sketch.constraints@[j],
                ),
        decreases sketch.constraints.len() - k,
    {
        let n = residual_rows(sketch, point_ids, radius_ids, &sketch.constraints[k]);
        r.push(n);
        k = k + 1;
    }
    r
}

/// Residual rows per constraint, in constraint order.
pub open spec fn residual_counts(s: Sketch, p: Seq<EntityId>, r: Seq<EntityId>) -> Seq<usize> {
    s.constraints@.map_values(|c: Constraint| residual_count(s, p, r, c) as usize)
}

/// `map` lists, for each residual row in order, the index of the constraint
/// that produced it: constraint `0` repeated `counts[0]` times, then
/// constraint `1` repeated `counts[1]` times, and so on.
pub open spec fn rows_of(counts: Seq<usize>) -> Seq<usize>
    decreases counts.len(),
{
    if counts.len() == 0 {
        seq![]
    } else {
        rows_of(counts.drop_last()) + Seq::new(
            counts.last() as nat,
            |x: int| (counts.len() - 1) as usize,
        )
    }
}

/// Map each residual row back to the index of the constraint that produced
/// it.
pub fn build_residual_constraint_map(sketch: &Sketch, point_ids: &[EntityId], radius_ids: &[EntityId]) -> (map:
    Vec<usize>)
    ensures
        map@ == rows_of(residual_counts(*sketch, point_ids@, radius_ids@)),
{
    let counts = count_constraint_residuals(sketch, point_ids, radius_ids);
    assert(counts@ =~= residual_counts(*sketch, point_ids@, radius_ids@));
    let mut map: Vec<usize> = Vec::new();
    let mut ci: usize = 0;
    while ci < counts.len()
        invariant
            ci <= counts@.len(),
            map@ == rows_of(counts@.take(ci as int)),
        decreases counts.len() - ci,
    {
        let ghost m0 = map@;
        let count = counts[ci];
        let mut n: usize = 0;
        while n < count
            invariant
                n <= count,
                map@ == m0 + Seq::new(n as nat, |x: int| ci),
            decreases count - n,
        {
            map.push(ci);
            proof {
                assert(map@ =~= m0 + Seq::new((n + 1) as nat, |x: int| ci));
            }
            n = n + 1;
        }
        proof {
            let t = counts@.take(ci + 1);
            assert(t.drop_last() =~= counts@.take(ci as int));
            assert(map@ =~= rows_of(t));
        }
        ci = ci + 1;
    }
    assert(counts@.take(counts@.len() as int) =~= counts@);
    map
}

/// How an entity id reads in a diagnostic: `EntityId(n)`.
pub open spec fn entity_text(e: EntityId) -> Seq<char> {
    "EntityId("@ + decimal(e.0 as nat) + ")"@
}

/// The constraint part of a diagnostic: the constraint's kind and its
/// arguments. `value` is the already formatted dimension of a `Distance`,
/// `Radius`, `Angle` or `Diameter` constraint.
pub open spec fn constraint_text(c: Constraint, value: Seq<char>) -> Seq<char> {
    match c {
        Constraint::Coincident { a, b } => pair_text("Coincident"@, a, b) + ")"@,
        Constraint::Horizontal { line } => "Horizontal("@ + entity_text(line) + ")"@,
        Constraint::Vertical { line } => "Vertical("@ + entity_text(line) + ")"@,
        Constraint::Distance { a, b, .. } => pair_text("Distance"@, a, b) + ", d="@ + value + ")"@,
        Constraint::Radius { circle, .. } => "Radius("@ + entity_text(circle) + ", r="@ + value
            + ")"@,
        Constraint::Parallel { line_a, line_b } => pair_text("Parallel"@, line_a, line_b) + ")"@,
        Constraint::Perpendicular { line_a, line_b } => pair_text("Perpendicular"@, line_a, line_b)
            + ")"@,
        Constraint::Tangent { line, circle } => pair_text("Tangent"@, line, circle) + ")"@,
        Constraint::Concentric { a, b } => pair_text("Concentric"@, a, b) + ")"@,
        Constraint::Equal { a, b } => pair_text("Equal"@, a, b) + ")"@,
        Constraint::Fix { point } => "Fix("@ + entity_text(point) + ")"@,
        Constraint::Midpoint { point, line } => pair_text("Midpoint"@, point, line) + ")"@,
        Constraint::Symmetric { a, b, axis } => pair_text("Symmetric"@, a, b) + ", axis="@
            + entity_text(axis) + ")"@,
        Constraint::PointOnLine { point, line } => pair_text("PointOnLine"@, point, line) + ")"@,
        Constraint::Collinear { a, b, c } => pair_text("Collinear"@, a, b) + ", "@ + entity_text(c)
            + ")"@,
        Constraint::Angle { line_a, line_b, .. } => pair_text("Angle"@, line_a, line_b) + ", "@
            + value + "deg)"@,
        Constraint::Diameter { circle, .. } => "Diameter("@ + entity_text(circle) + ", d="@ + value
            + ")"@,
    }
}

/// `Kind(a, b` for a constraint kind over two entities.
pub open spec fn pair_text(kind: Seq<char>, a: EntityId, b: EntityId) -> Seq<char> {
    kind + "("@ + entity_text(a) + ", "@ + entity_text(b)
}

/// A full diagnostic line: `[index] tag Kind(args)`.
pub open spec fn diagnostic_text(c: Constraint, index: usize, tag: Seq<char>, value: Seq<char>) -> Seq<
    char,
> {
    "["@ + decimal(index as nat) + "] "@ + tag + " "@ + constraint_text(c, value)
}

/// Appends `EntityId(n)` for `e`.
fn append_entity(s: &mut String, e: EntityId)
    ensures
        final(s)@ == old(s)@ + entity_text(e),
{
    s.append("EntityId(");
    let d = u64_to_decimal(e.0);
    s.append(d.as_str());
    s.append(")");
}

/// Appends `Kind(a, b` (without the closing bracket, so that callers can
/// continue the argument list).
fn append_kind_pair(s: &mut String, kind: &str, a: EntityId, b: EntityId)
    ensures
        final(s)@ == old(s)@ + pair_text(kind@, a, b),
{
    s.append(kind);
    s.append("(");
    append_entity(s, a);
    s.append(", ");
    append_entity(s, b);
}

/// Describes a constraint the rank check flagged: its index, the verdict
/// `tag` ("redundant", "conflicting", "unsatisfied"), its kind and its
/// arguments. `value` is the constraint's dimension already formatted as a
/// decimal number; only `Distance`, `Radius`, `Angle` and `Diameter` show
/// it.
pub fn describe_constraint_diagnostic(c: &Constraint, index: usize, tag: &str, value: &str) -> (s:
    String)
    ensures
        s@ == diagnostic_text(*c, index, tag@, value@),
{
    let mut body = String::new();
    match *c {
        Constraint::Coincident { a, b } => {
            append_kind_pair(&mut body, "Coincident", a, b);
            body.append(")");
            assert(body@ =~= constraint_text(*c, value@));
        },
        Constraint::Horizontal { line } => {
            body.append("Horizontal(");
            append_entity(&mut body, line);
            body.append(")");
            assert(body@ =~= constraint_text(*c, value@));
        },
        Constraint::Vertical { line } => {
            body.append("Vertical(");
            append_entity(&mut body, line);
            body.append(")");
            assert(body@ =~= constraint_text(*c, value@));
        },
        Constraint::Distance { a, b, .. } => {
            append_kind_pair(&mut body, "Distance", a, b);
            body.append(", d=");
            body.append(value);
            body.append(")");
            assert(body@ =~= constraint_text(*c, value@));
        },
        Constraint::Radius { circle, .. } => {
            body.append("Radius(");
            append_entity(&mut body, circle);
            body.append(", r=");
            body.append(value);
            body.append(")");
            assert(body@ =~= constraint_text(*c, value@));
        },
        Constraint::Parallel { line_a, line_b } => {
            append_kind_pair(&mut body, "Parallel", line_a, line_b);
            body.append(")");
            assert(body@ =~= constraint_text(*c, value@));
        },
        Constraint::Perpendicular { line_a, line_b } => {
            append_kind_pair(&mut body, "Perpendicular", line_a, line_b);
            body.append(")");
            assert(body@ =~= constraint_text(*c, value@));
        },
        Constraint::Tangent { line, circle } => {
            append_kind_pair(&mut body, "Tangent", line, circle);
            body.append(")");
            assert(body@ =~= constraint_text(*c, value@));
        },
        Constraint::Concentric { a, b } => {
            append_kind_pair(&mut body, "Concentric", a, b);
            body.append(")");
            assert(body@ =~= constraint_text(*c, value@));
        },
        Constraint::Equal { a, b } => {
            append_kind_pair(&mut body, "Equal", a, b);
            body.append(")");
            assert(body@ =~= constraint_text(*c, value@));
        },
        Constraint::Fix { point } => {
            body.append("Fix(");
            append_entity(&mut body, point);
            body.append(")");
            assert(body@ =~= constraint_text(*c, value@));
        },
        Constraint::Midpoint { point, line } => {
            append_kind_pair(&mut body, "Midpoint", point, line);
            body.append(")");
            assert(body@ =~= constraint_text(*c, value@));
        },
        Constraint::Symmetric { a, b, axis } => {
            append_kind_pair(&mut body, "Symmetric", a, b);
            body.append(", axis=");
            append_entity(&mut body, axis);
            body.append(")");
            assert(body@ =~= constraint_text(*c, value@));
        },
        Constraint::PointOnLine { point, line } => {
            append_kind_pair(&mut body, "PointOnLine", point, line);
            body.append(")");
            assert(body@ =~= constraint_text(*c, value@));
        },
        Constraint::Collinear { a, b, c: third } => {
            append_kind_pair(&mut body, "Collinear", a, b);
            body.append(", ");
            append_entity(&mut body, third);
            body.append(")");
            assert(body@ =~= constraint_text(*c, value@));
        },
        Constraint::Angle { line_a, line_b, .. } => {
            append_kind_pair(&mut body, "Angle", line_a, line_b);
            body.append(", ");
            body.append(value);
            body.append("deg)");
            assert(body@ =~= constraint_text(*c, value@));
        },
        Constraint::Diameter { circle, .. } => {
            body.append("Diameter(");
            append_entity(&mut body, circle);
            body.append(", d=");
            body.append(value);
            body.append(")");
            assert(body@ =~= constraint_text(*c, value@));
        },
    }
    let mut s = "[".to_owned();
    let d = u64_to_decimal(index as u64);
    s.append(d.as_str());
    s.append("] ");
    s.append(tag);
    s.append(" ");
    s.append(body.as_str());
    s
}

/// Rows count scalar equations. Making two points coincide imposes two
/// equations (one per coordinate) where fixing their distance imposes one,
/// and both need the same two points; once both points are reachable the
/// distance gives exactly one row.
pub proof fn lemma_point_pair_rows(s: Sketch, p: Seq<EntityId>, r: Seq<EntityId>, a: EntityId, b: EntityId, d: u64)
    ensures
        residual_count(s, p, r, Constraint::Coincident { a, b }) == 2 * residual_count(
            s,
            p,
            r,
            Constraint::Distance { a, b, distance: d },
        ),
        point_available(s, p, a) && point_available(s, p, b) ==> residual_count(
            s,
            p,
            r,
            Constraint::Distance { a, b, distance: d },
        ) == 1,
        !(point_available(s, p, a) && point_available(s, p, b)) ==> residual_count(
            s,
            p,
            r,
            Constraint::Distance { a, b, distance: d },
        ) == 0,
{
}

/// Concentric circles (or arcs, or ellipses) have coinciding centers: a
/// `Concentric` constraint gives exactly the rows of a `Coincident`
/// constraint on the two centers, and none when either entity has no
/// center.
pub proof fn lemma_concentric_rows_are_center_coincidence(
    s: Sketch,
    p: Seq<EntityId>,
    r: Seq<EntityId>,
    a: EntityId,
    b: EntityId,
)
    ensures
        center_of(s, a) is Some && center_of(s, b) is Some ==> residual_count(
            s,
            p,
            r,
            Constraint::Concentric { a, b },
        ) == residual_count(
            s,
            p,
            r,
            Constraint::Coincident { a: center_of(s, a)->0, b: center_of(s, b)->0 },
        ),
        center_of(s, a) is None || center_of(s, b) is None ==> residual_count(
            s,
            p,
            r,
            Constraint::Concentric { a, b },
        ) == 0,
{
}

/// Constraints on lines: horizontal and vertical each fix one direction
/// (one row); parallel, perpendicular and angle each relate two directions
/// (one row); a point on a line is one equation and a midpoint two (the
/// point lies on the line, and halfway); a symmetric pair three; three
/// collinear points one.
pub proof fn lemma_line_constraint_rows(
    s: Sketch,
    p: Seq<EntityId>,
    r: Seq<EntityId>,
    l: EntityId,
    m: EntityId,
    pt: EntityId,
    q: EntityId,
    deg: u64,
)
    ensures
        residual_count(s, p, r, Constraint::Horizontal { line: l }) == residual_count(
            s,
            p,
            r,
            Constraint::Vertical { line: l },
        ),
        line_available(s, p, l) ==> residual_count(s, p, r, Constraint::Horizontal { line: l })
            == 1,
        residual_count(s, p, r, Constraint::Parallel { line_a: l, line_b: m }) == residual_count(
            s,
            p,
            r,
            Constraint::Perpendicular { line_a: l, line_b: m },
        ),
        residual_count(s, p, r, Constraint::Parallel { line_a: l, line_b: m }) == residual_count(
            s,
            p,
            r,
            Constraint::Angle { line_a: l, line_b: m, angle_deg: deg },
        ),
        line_available(s, p, l) && line_available(s, p, m) ==> residual_count(
            s,
            p,
            r,
            Constraint::Parallel { line_a: l, line_b: m },
        ) == 1,
        residual_count(s, p, r, Constraint::Midpoint { point: pt, line: l }) == 2 * residual_count(
            s,
            p,
            r,
            Constraint::PointOnLine { point: pt, line: l },
        ),
        point_available(s, p, pt) && line_available(s, p, l) ==> residual_count(
            s,
            p,
            r,
            Constraint::PointOnLine { point: pt, line: l },
        ) == 1,
        point_available(s, p, pt) && point_available(s, p, q) && line_available(s, p, l)
            ==> residual_count(s, p, r, Constraint::Symmetric { a: pt, b: q, axis: l }) == 3,
        residual_count(s, p, r, Constraint::Fix { point: pt }) == 0,
{
}

/// A diameter and a radius constraint on the same circle are the same one
/// equation; each gives one row once the radius is reachable.
pub proof fn lemma_radius_constraint_rows(
    s: Sketch,
    p: Seq<EntityId>,
    r: Seq<EntityId>,
    c: EntityId,
    d: u64,
    e: u64,
)
    ensures
        residual_count(s, p, r, Constraint::Diameter { circle: c, diameter: d }) == residual_count(
            s,
            p,
            r,
            Constraint::Radius { circle: c, radius: e },
        ),
        radius_available(s, p, r, c) ==> residual_count(
            s,
            p,
            r,
            Constraint::Radius { circle: c, radius: e },
        ) == 1,
{
}

/// The remaining constraints each impose one scalar equation once their
/// entities are reachable: tangency of a line to a circle or arc, three
/// collinear points, equal lengths of two lines, equal radii of two
/// curves. A constraint on unreachable entities gives no row.
pub proof fn lemma_single_equation_rows(
    s: Sketch,
    p: Seq<EntityId>,
    r: Seq<EntityId>,
    a: EntityId,
    b: EntityId,
    c: EntityId,
)
    ensures
        line_available(s, p, a) && has_radius_scalar(s, b) ==> residual_count(
            s,
            p,
            r,
            Constraint::Tangent { line: a, circle: b },
        ) == 1,
        !line_available(s, p, a) ==> residual_count(s, p, r, Constraint::Tangent { line: a, circle: b })
            == 0,
        point_available(s, p, a) && point_available(s, p, b) && point_available(s, p, c)
            ==> residual_count(s, p, r, Constraint::Collinear { a, b, c }) == 1,
        line_available(s, p, a) && line_available(s, p, b) ==> residual_count(
            s,
            p,
            r,
            Constraint::Equal { a, b },
        ) == 1,
        line_ends(s, a) is None && radius_available(s, p, r, a) && radius_available(s, p, r, b)
            ==> residual_count(s, p, r, Constraint::Equal { a, b }) == 1,
        !point_available(s, p, a) ==> residual_count(s, p, r, Constraint::Coincident { a, b }) == 0
            && residual_count(s, p, r, Constraint::Collinear { a, b, c }) == 0,
{
}

/// Free parameters by kind: a point anchored by a `Fix` constraint is
/// fixed; a circle or an arc carries a radius scalar; a point never does,
/// nor does an ellipse (its size comes from its points).
pub proof fn lemma_param_kinds(s: Sketch, id: EntityId, k: int)
    ensures
        0 <= k < s.constraints@.len() && s.constraints@[k] == (Constraint::Fix { point: id })
            ==> is_fixed(s.constraints@, id),
        s.entities@.contains_key(id.0) && (s.entities@[id.0] is Circle || s.entities@[id.0] is Arc)
            ==> has_radius_scalar(s, id),
        is_point(s, id) ==> !has_radius_scalar(s, id),
        s.entities@.contains_key(id.0) && s.entities@[id.0] is Ellipse ==> !has_radius_scalar(s, id)
            && !is_point(s, id),
{
}

} // verus!
