//! Editing a document the way the user interface does: creating features
//! with their default names and parameters, editing and deleting them, and
//! choosing the active sketch. Undo snapshots and regeneration are the
//! caller's part; these functions decide and change the document.

use vstd::prelude::*;

use crate::document::{
    compute_dirty, depends_on, feature_pos, features_within, is_dirty_closure, lacks_id,
    is_first_parameter, lemma_first_exists, lemma_first_parameter_unique, lemma_remove_keeps_unique,
    is_child_of, lemma_filter_step, parameter_pos, unique_ids, without_children, Document,
};
use crate::feature::{
    dependency_list, kind_dependencies, kind_is_sketch, BoolOp, CustomFeatureData, ExtrudeDirection, Feature,
    FeatureKind, PlaneDefinition,
};
use crate::ids::{EntityId, FeatureId, ParameterId};
use crate::parameter::Parameter;
use crate::regen::{feature_id_string, feature_id_text};
use crate::sketch::{Constraint, Sketch, SketchEntity, SketchPoint};
use crate::text::{decimal, text_eq, u64_to_decimal};

verus! {

broadcast use vstd::std_specs::hash::group_hash_axioms;

/// The word a default feature name starts with.
pub open spec fn name_base(k: FeatureKind) -> Seq<char> {
    match k {
        FeatureKind::Sketch { .. } => "Sketch"@,
        FeatureKind::CustomSketch { .. } => "Custom"@,
        FeatureKind::Extrude { .. } => "Extrude"@,
        FeatureKind::Revolve { .. } => "Revolve"@,
        FeatureKind::Fillet { .. } => "Fillet"@,
        FeatureKind::Chamfer { .. } => "Chamfer"@,
        FeatureKind::Shell { .. } => "Shell"@,
        FeatureKind::Sweep { .. } => "Sweep"@,
        FeatureKind::Boolean { .. } => "Boolean"@,
        FeatureKind::LinearPattern { .. } => "Pattern"@,
        FeatureKind::CircularPattern { .. } => "CircPattern"@,
        FeatureKind::Mirror { .. } => "Mirror"@,
        FeatureKind::CustomSolid { .. } => "CustomSolid"@,
    }
}

/// The default name of a new feature: its kind's word and its id number.
pub open spec fn default_name(k: FeatureKind, id: FeatureId) -> Seq<char> {
    name_base(k) + decimal(id.0 as nat)
}

/// `f` is a freshly created top-level feature with this id, name and kind.
pub open spec fn is_new_feature(f: Feature, id: FeatureId, name: Seq<char>, kind: FeatureKind) -> bool {
    &&& f.id == id
    &&& f.name@ == name
    &&& !f.suppressed
    &&& f.color is None
    &&& f.parent_id is None
    &&& f.kind == kind
}

/// `d` is `old` with `f` appended and one more id handed out; the
/// parameters are unchanged.
pub open spec fn appended(old: Document, d: Document, id: FeatureId, name: Seq<char>, kind: FeatureKind) -> bool {
    &&& d.features@.len() == old.features@.len() + 1
    &&& d.features@.drop_last() == old.features@
    &&& is_new_feature(d.features@.last(), id, name, kind)
    &&& d.next_id == old.next_id + 1
    &&& d.parameters@ == old.parameters@
    &&& d.name@ == old.name@
    &&& d.format_version == old.format_version
}

/// The default name for a new feature of kind `kind` with id `id`.
pub fn default_feature_name(kind: &FeatureKind, id: FeatureId) -> (s: String)
    ensures
        s@ == default_name(*kind, id),
{
    let base = match kind {
        FeatureKind::Sketch { .. } => "Sketch",
        FeatureKind::CustomSketch { .. } => "Custom",
        FeatureKind::Extrude { .. } => "Extrude",
        FeatureKind::Revolve { .. } => "Revolve",
        FeatureKind::Fillet { .. } => "Fillet",
        FeatureKind::Chamfer { .. } => "Chamfer",
        FeatureKind::Shell { .. } => "Shell",
        FeatureKind::Sweep { .. } => "Sweep",
        FeatureKind::Boolean { .. } => "Boolean",
        FeatureKind::LinearPattern { .. } => "Pattern",
        FeatureKind::CircularPattern { .. } => "CircPattern",
        FeatureKind::Mirror { .. } => "Mirror",
        FeatureKind::CustomSolid { .. } => "CustomSolid",
    };
    let mut s = base.to_owned();
    let d = u64_to_decimal(id.0);
    s.append(d.as_str());
    s
}

/// The plane a new sketch goes on: `"yz"`, `"zx"`, and anything else the
/// XY plane.
pub fn sketch_plane_from_tag(tag: &str) -> (p: PlaneDefinition)
    ensures
        p == (if tag@ == "yz"@ {
            PlaneDefinition::YZ
        } else if tag@ == "zx"@ {
            PlaneDefinition::ZX
        } else {
            PlaneDefinition::XY
        }),
{
    proof {
        reveal_strlit("yz");
        reveal_strlit("zx");
    }
    if text_eq(tag, "yz") {
        PlaneDefinition::YZ
    } else if text_eq(tag, "zx") {
        PlaneDefinition::ZX
    } else {
        PlaneDefinition::XY
    }
}

/// The message for a base plane tag that names none of the base planes.
pub open spec fn unknown_plane_text(tag: Seq<char>) -> Seq<char> {
    "unknown base plane '"@ + tag + "' (expected xy|yz|zx)"@
}

/// The base plane an offset plane starts from; only `"xy"`, `"yz"` and
/// `"zx"` are base planes.
pub fn base_plane_from_tag(tag: &str) -> (r: Result<PlaneDefinition, String>)
    ensures
        tag@ == "yz"@ ==> (r matches Ok(p) && p == PlaneDefinition::YZ),
        tag@ == "zx"@ ==> (r matches Ok(p) && p == PlaneDefinition::ZX),
        tag@ == "xy"@ ==> (r matches Ok(p) && p == PlaneDefinition::XY),
        tag@ != "yz"@ && tag@ != "zx"@ && tag@ != "xy"@ ==> (r matches Err(m) && m@
            == unknown_plane_text(tag@)),
{
    proof {
        reveal_strlit("yz");
        reveal_strlit("zx");
        reveal_strlit("xy");
        assert("zx"@[0] != "yz"@[0]);
        assert("xy"@[0] != "yz"@[0]);
        assert("xy"@[0] != "zx"@[0]);
    }
    if text_eq(tag, "yz") {
        Ok(PlaneDefinition::YZ)
    } else if text_eq(tag, "zx") {
        Ok(PlaneDefinition::ZX)
    } else if text_eq(tag, "xy") {
        Ok(PlaneDefinition::XY)
    } else {
        let mut m = "unknown base plane '".to_owned();
        m.append(tag);
        m.append("' (expected xy|yz|zx)");
        Err(m)
    }
}

/// The boolean operation named by `op`: `"subtract"`, `"intersect"`, and
/// anything else a union.
pub fn bool_op_from_tag(op: &str) -> (b: BoolOp)
    ensures
        b == (if op@ == "subtract"@ {
            BoolOp::Subtract
        } else if op@ == "intersect"@ {
            BoolOp::Intersect
        } else {
            BoolOp::Union
        }),
{
    proof {
        reveal_strlit("subtract");
        reveal_strlit("intersect");
    }
    if text_eq(op, "subtract") {
        BoolOp::Subtract
    } else if text_eq(op, "intersect") {
        BoolOp::Intersect
    } else {
        BoolOp::Union
    }
}

/// Add a new, empty sketch on `plane`, named `Sketch<id>`.
pub fn add_sketch_feature(doc: &mut Document, plane: PlaneDefinition) -> (id: FeatureId)
    requires
        old(doc).next_id < u64::MAX,
    ensures
        id == FeatureId(old(doc).next_id),
        final(doc).features@.len() == old(doc).features@.len() + 1,
        final(doc).features@.drop_last() == old(doc).features@,
        final(doc).features@.last().id == id,
        final(doc).features@.last().name@ == "Sketch"@ + decimal(id.0 as nat),
        !final(doc).features@.last().suppressed,
        final(doc).features@.last().color is None,
        final(doc).features@.last().parent_id is None,
        final(doc).features@.last().kind matches FeatureKind::Sketch { sketch, plane: p } && p
            == plane && sketch.entities@.len() == 0 && sketch.constraints@.len() == 0,
        final(doc).next_id == old(doc).next_id + 1,
        final(doc).parameters@ == old(doc).parameters@,
{
    let id = doc.new_feature_id();
    let mut name = "Sketch".to_owned();
    let d = u64_to_decimal(id.0);
    name.append(d.as_str());
    let f = Feature::new(id, name.as_str(), FeatureKind::Sketch { sketch: Sketch::new(), plane });
    doc.add_feature(f);
    proof {
        assert(doc.features@.drop_last() =~= old(doc).features@);
    }
    id
}

/// The first of `deps`, from position `k` on, that names no feature of
/// `fs`.
pub open spec fn first_missing(fs: Seq<Feature>, deps: Seq<FeatureId>, k: int) -> Option<FeatureId>
    decreases deps.len() - k,
{
    if k < 0 || k >= deps.len() {
        None
    } else if feature_pos(fs, deps[k]) is None {
        Some(deps[k])
    } else {
        first_missing(fs, deps, k + 1)
    }
}

/// The message for a new feature whose input does not exist.
pub open spec fn missing_text(dep: FeatureId) -> Seq<char> {
    "Dependency "@ + feature_id_text(dep) + " does not exist"@
}

/// Checks that every input of a new feature of kind `kind` exists.
pub fn check_new_feature(doc: &Document, kind: &FeatureKind) -> (r: Result<(), String>)
    ensures
        match first_missing(doc.features@, kind_dependencies(*kind), 0) {
            None => r is Ok,
            Some(d) => r matches Err(m) && m@ == missing_text(d),
        },
{
    let deps = dependency_list(kind);
    let ghost ds = kind_dependencies(*kind);
    let mut i: usize = 0;
    while i < deps.len()
        invariant
            deps@ == ds,
            ds == kind_dependencies(*kind),
            i <= ds.len(),
            first_missing(doc.features@, ds, 0) == first_missing(doc.features@, ds, i as int),
        decreases ds.len() - i,
    {
        let dep = deps[i];
        if doc.get_feature(dep).is_none() {
            let mut m = "Dependency ".to_owned();
            let t = feature_id_string(dep);
            m.append(t.as_str());
            m.append(" does not exist");
            return Err(m);
        }
        i = i + 1;
    }
    Ok(())
}

/// Add a feature of kind `kind` under a fresh id with its default name,
/// unless one of its inputs does not exist (then nothing changes).
pub fn add_feature_kind(doc: &mut Document, kind: FeatureKind) -> (r: Result<FeatureId, String>)
    requires
        old(doc).next_id < u64::MAX,
    ensures
        match first_missing(old(doc).features@, kind_dependencies(kind), 0) {
            Some(d) => (r matches Err(m) && m@ == missing_text(d)) && *final(doc) == *old(doc),
            None => r == Ok::<FeatureId, String>(FeatureId(old(doc).next_id)) && appended(
                *old(doc),
                *final(doc),
                FeatureId(old(doc).next_id),
                default_name(kind, FeatureId(old(doc).next_id)),
                kind,
            ),
        },
{
    match check_new_feature(doc, &kind) {
        Ok(()) => {},
        Err(m) => {
            return Err(m);
        },
    }
    let id = doc.new_feature_id();
    let name = default_feature_name(&kind, id);
    doc.add_feature(Feature::new(id, name.as_str(), kind));
    proof {
        assert(doc.features@.drop_last() =~= old(doc).features@);
    }
    Ok(id)
}

/// A feature driven by one document parameter, before its parameter
/// exists: the parameter is created with it.
#[derive(Debug, Clone)]
pub enum ParamFeature {
    Extrude {
        sketch_id: FeatureId,
        direction: ExtrudeDirection,
        draft_angle_deg: u64,
        selected_regions: Option<Vec<usize>>,
    },
    Revolve { sketch_id: FeatureId, axis_entity_id: Option<EntityId> },
    Fillet { target_id: FeatureId, edges: Vec<(u32, u32)> },
    Chamfer { target_id: FeatureId, edges: Vec<(u32, u32)> },
    Shell { target_id: FeatureId },
}

/// The kind of the feature `req` describes, driven by parameter `pid`.
pub open spec fn param_feature_kind(req: ParamFeature, pid: ParameterId) -> FeatureKind {
    match req {
        ParamFeature::Extrude { sketch_id, direction, draft_angle_deg, selected_regions } => {
            FeatureKind::Extrude { sketch_id, distance: pid, direction, draft_angle_deg, selected_regions }
        },
        ParamFeature::Revolve { sketch_id, axis_entity_id } => FeatureKind::Revolve {
            sketch_id,
            angle: pid,
            axis_entity_id,
        },
        ParamFeature::Fillet { target_id, edges } => FeatureKind::Fillet { target_id, radius: pid, edges },
        ParamFeature::Chamfer { target_id, edges } => FeatureKind::Chamfer {
            target_id,
            distance: pid,
            edges,
        },
        ParamFeature::Shell { target_id } => FeatureKind::Shell { target_id, thickness: pid },
    }
}

fn build_param_feature(req: ParamFeature, pid: ParameterId) -> (k: FeatureKind)
    ensures
        k == param_feature_kind(req, pid),
{
    match req {
        ParamFeature::Extrude { sketch_id, direction, draft_angle_deg, selected_regions } => {
            FeatureKind::Extrude { sketch_id, distance: pid, direction, draft_angle_deg, selected_regions }
        },
        ParamFeature::Revolve { sketch_id, axis_entity_id } => FeatureKind::Revolve {
            sketch_id,
            angle: pid,
            axis_entity_id,
        },
        ParamFeature::Fillet { target_id, edges } => FeatureKind::Fillet { target_id, radius: pid, edges },
        ParamFeature::Chamfer { target_id, edges } => FeatureKind::Chamfer {
            target_id,
            distance: pid,
            edges,
        },
        ParamFeature::Shell { target_id } => FeatureKind::Shell { target_id, thickness: pid },
    }
}

/// Add a feature together with the document parameter that drives it. The
/// parameter takes the next id and is named `param_name` followed by the
/// feature's id; the feature takes the id after it and its default name.
/// Nothing changes when one of the feature's inputs does not exist.
pub fn add_feature_with_param(doc: &mut Document, param_name: &str, value: u64, req: ParamFeature) -> (r:
    Result<FeatureId, String>)
    requires
        old(doc).next_id < u64::MAX - 1,
    ensures
        ({
            let next = old(doc).next_id;
            let kind = param_feature_kind(req, ParameterId(next));
            let fid = FeatureId((next + 1) as u64);
            match first_missing(old(doc).features@, kind_dependencies(kind), 0) {
                Some(d) => (r matches Err(m) && m@ == missing_text(d)) && *final(doc) == *old(doc),
                None => {
                    &&& r == Ok::<FeatureId, String>(fid)
                    &&& final(doc).parameters@.len() == old(doc).parameters@.len() + 1
                    &&& final(doc).parameters@.drop_last() == old(doc).parameters@
                    &&& final(doc).parameters@.last().id == ParameterId(next)
                    &&& final(doc).parameters@.last().name@ == param_name@ + decimal(fid.0 as nat)
                    &&& final(doc).parameters@.last().value == value
                    &&& final(doc).features@.len() == old(doc).features@.len() + 1
                    &&& final(doc).features@.drop_last() == old(doc).features@
                    &&& is_new_feature(final(doc).features@.last(), fid, default_name(kind, fid), kind)
                    &&& final(doc).next_id == next + 2
                },
            }
        }),
{
    let next = doc.peek_next_id();
    let kind = build_param_feature(req, ParameterId(next));
    match check_new_feature(doc, &kind) {
        Ok(()) => {},
        Err(m) => {
            return Err(m);
        },
    }
    let mut pname = param_name.to_owned();
    let d = u64_to_decimal(next + 1);
    pname.append(d.as_str());
    let pid = doc.add_parameter(pname.as_str(), value);
    let id = doc.new_feature_id();
    let name = default_feature_name(&kind, id);
    doc.add_feature(Feature::new(id, name.as_str(), kind));
    proof {
        assert(doc.features@.drop_last() =~= old(doc).features@);
    }
    Ok(id)
}

/// Add the sketch a plugin generated as a plugin sketch on the XY plane,
/// named after its generator (`<generator name>_<id>`).
pub fn add_plugin_sketch_feature(
    doc: &mut Document,
    sketch: Sketch,
    custom: CustomFeatureData,
    generator_name: &str,
) -> (id: FeatureId)
    requires
        old(doc).next_id < u64::MAX,
    ensures
        id == FeatureId(old(doc).next_id),
        appended(
            *old(doc),
            *final(doc),
            id,
            generator_name@ + "_"@ + decimal(id.0 as nat),
            FeatureKind::CustomSketch { sketch, custom, plane: PlaneDefinition::XY },
        ),
{
    let id = doc.new_feature_id();
    let mut name = generator_name.to_owned();
    name.append("_");
    let d = u64_to_decimal(id.0);
    name.append(d.as_str());
    let kind = FeatureKind::CustomSketch { sketch, custom, plane: PlaneDefinition::XY };
    doc.add_feature(Feature::new(id, name.as_str(), kind));
    proof {
        assert(doc.features@.drop_last() =~= old(doc).features@);
    }
    id
}

/// `b` holds the same document as `a`.
pub open spec fn same_doc(a: Document, b: Document) -> bool {
    &&& b.features@ == a.features@
    &&& b.parameters@ == a.parameters@
    &&& b.next_id == a.next_id
    &&& b.name@ == a.name@
    &&& b.format_version == a.format_version
}

/// Whether a feature of kind `k` is driven by the parameter `pid`.
pub open spec fn kind_uses_param(k: FeatureKind, pid: ParameterId) -> bool {
    match k {
        FeatureKind::Extrude { distance, .. } => distance == pid,
        FeatureKind::Revolve { angle, .. } => angle == pid,
        FeatureKind::Fillet { radius, .. } => radius == pid,
        FeatureKind::Chamfer { distance, .. } => distance == pid,
        FeatureKind::Shell { thickness, .. } => thickness == pid,
        _ => false,
    }
}

/// Whether a feature of kind `kind` is driven by the parameter `pid`.
pub fn parameter_belongs_to(kind: &FeatureKind, pid: ParameterId) -> (b: bool)
    ensures
        b == kind_uses_param(*kind, pid),
{
    match kind {
        FeatureKind::Extrude { distance, .. } => *distance == pid,
        FeatureKind::Revolve { angle, .. } => *angle == pid,
        FeatureKind::Fillet { radius, .. } => *radius == pid,
        FeatureKind::Chamfer { distance, .. } => *distance == pid,
        FeatureKind::Shell { thickness, .. } => *thickness == pid,
        _ => false,
    }
}

/// The first feature, at or after position `k`, driven by `pid`.
pub open spec fn first_owner(fs: Seq<Feature>, pid: ParameterId, k: int) -> Option<FeatureId>
    decreases fs.len() - k,
{
    if k < 0 || k >= fs.len() {
        None
    } else if kind_uses_param(fs[k].kind, pid) {
        Some(fs[k].id)
    } else {
        first_owner(fs, pid, k + 1)
    }
}

/// The first feature driven by the parameter `pid`.
pub fn parameter_owner(doc: &Document, pid: ParameterId) -> (r: Option<FeatureId>)
    ensures
        r == first_owner(doc.features@, pid, 0),
{
    let mut i: usize = 0;
    while i < doc.features.len()
        invariant
            i <= doc.features@.len(),
            first_owner(doc.features@, pid, 0) == first_owner(doc.features@, pid, i as int),
        decreases doc.features@.len() - i,
    {
        if parameter_belongs_to(&doc.features[i].kind, pid) {
            return Some(doc.features[i].id);
        }
        i = i + 1;
    }
    None
}

/// The outcome of setting a parameter's value.
#[derive(Debug, Clone, Copy, PartialEq, Eq, Structural)]
pub enum ParamUpdate {
    /// No parameter has the id; nothing changed.
    Missing,
    /// The value was set; `owner` is the feature it drives, if any, which
    /// is what needs regenerating.
    Updated { owner: Option<FeatureId> },
}

/// Set the value of parameter `pid` and report which feature it drives.
pub fn update_parameter(doc: &mut Document, pid: ParameterId, value: u64) -> (r: ParamUpdate)
    ensures
        match parameter_pos(old(doc).parameters@, pid) {
            None => r == ParamUpdate::Missing && same_doc(*old(doc), *final(doc)),
            Some(i) => {
                &&& r == (ParamUpdate::Updated { owner: first_owner(old(doc).features@, pid, 0) })
                &&& final(doc).parameters@ == old(doc).parameters@.update(
                    i,
                    Parameter { value, ..old(doc).parameters@[i] },
                )
                &&& final(doc).features@ == old(doc).features@
                &&& final(doc).next_id == old(doc).next_id
            },
        },
{
    match doc.get_parameter_mut(pid) {
        None => {
            return ParamUpdate::Missing;
        },
        Some(p) => {
            p.value = value;
        },
    }
    ParamUpdate::Updated { owner: parameter_owner(doc, pid) }
}

/// Setting a parameter's value is read back: afterwards the parameter
/// reads the new value, and every other parameter reads as before.
pub proof fn lemma_update_then_read(ps: Seq<Parameter>, pid: ParameterId, value: u64, other: ParameterId)
    requires
        parameter_pos(ps, pid) is Some,
    ensures
        ({
            let i = parameter_pos(ps, pid)->0;
            let qs = ps.update(i, Parameter { value, ..ps[i] });
            &&& parameter_pos(qs, pid) == Some(i)
            &&& qs[i].value == value
            &&& other != pid ==> parameter_pos(qs, other) == parameter_pos(ps, other)
            &&& other != pid ==> (parameter_pos(ps, other) matches Some(j) ==> qs[j] == ps[j])
        }),
{
    let i = parameter_pos(ps, pid)->0;
    let qs = ps.update(i, Parameter { value, ..ps[i] });
    assert(is_first_parameter(ps, pid, i));
    assert forall|k: int, id: ParameterId| is_first_parameter(ps, id, k) <==> is_first_parameter(qs, id, k) by {
        if is_first_parameter(ps, id, k) {
            assert forall|j: int| 0 <= j < k implies (#[trigger] qs[j]).id != id by {
                assert(qs[j].id == ps[j].id);
            }
            assert(qs[k].id == ps[k].id);
        }
        if is_first_parameter(qs, id, k) {
            assert forall|j: int| 0 <= j < k implies (#[trigger] ps[j]).id != id by {
                assert(qs[j].id == ps[j].id);
            }
            assert(qs[k].id == ps[k].id);
        }
    }
    lemma_first_parameter_unique(qs, pid, i);
    if other != pid {
        match parameter_pos(ps, other) {
            Some(j) => {
                assert(is_first_parameter(ps, other, j));
                lemma_first_parameter_unique(qs, other, j);
                assert(j != i);
            },
            None => {
                assert forall|k: int| !is_first_parameter(qs, other, k) by {
                    if is_first_parameter(qs, other, k) {
                        assert(is_first_parameter(ps, other, k));
                    }
                }
            },
        }
    }
}

/// `a` and `b` are the same feature but for its name.
pub open spec fn renamed(a: Feature, b: Feature, name: Seq<char>) -> bool {
    &&& b.name@ == name
    &&& b.id == a.id
    &&& b.suppressed == a.suppressed
    &&& b.color == a.color
    &&& b.parent_id == a.parent_id
    &&& b.kind == a.kind
}

/// Rename the feature `id`; false (and nothing changes) when there is none.
pub fn rename_feature(doc: &mut Document, id: FeatureId, name: &str) -> (found: bool)
    ensures
        match feature_pos(old(doc).features@, id) {
            None => !found && same_doc(*old(doc), *final(doc)),
            Some(i) => {
                &&& found
                &&& final(doc).features@.len() == old(doc).features@.len()
                &&& forall|j: int|
                    0 <= j < old(doc).features@.len() && j != i ==> final(doc).features@[j]
                        == old(doc).features@[j]
                &&& renamed(old(doc).features@[i], final(doc).features@[i], name@)
                &&& final(doc).parameters@ == old(doc).parameters@
                &&& final(doc).next_id == old(doc).next_id
            },
        },
{
    match doc.get_feature_mut(id) {
        Some(f) => {
            f.set_name(name);
            true
        },
        None => false,
    }
}

/// Suppress or unsuppress the feature `id`; false when there is none.
pub fn set_feature_suppressed(doc: &mut Document, id: FeatureId, suppressed: bool) -> (found: bool)
    ensures
        match feature_pos(old(doc).features@, id) {
            None => !found && same_doc(*old(doc), *final(doc)),
            Some(i) => found && final(doc).features@ == old(doc).features@.update(
                i,
                Feature { suppressed, ..old(doc).features@[i] },
            ) && final(doc).parameters@ == old(doc).parameters@ && final(doc).next_id == old(
                doc,
            ).next_id,
        },
{
    match doc.get_feature_mut(id) {
        Some(f) => {
            f.suppressed = suppressed;
            true
        },
        None => false,
    }
}

/// Set the display color of the feature `id`.
pub fn set_feature_color(doc: &mut Document, id: FeatureId, color: Option<String>) -> (r: Result<
    (),
    String,
>)
    ensures
        match feature_pos(old(doc).features@, id) {
            None => (r matches Err(m) && m@ == "feature not found"@) && same_doc(*old(doc), *final(doc)),
            Some(i) => r is Ok && final(doc).features@ == old(doc).features@.update(
                i,
                Feature { color, ..old(doc).features@[i] },
            ) && final(doc).parameters@ == old(doc).parameters@ && final(doc).next_id == old(
                doc,
            ).next_id,
        },
{
    match doc.get_feature_mut(id) {
        Some(f) => {
            f.color = color;
            Ok(())
        },
        None => Err("feature not found".to_owned()),
    }
}

/// Change the count, spacing and direction of the linear pattern `id`.
pub fn update_linear_pattern(
    doc: &mut Document,
    id: FeatureId,
    count: u32,
    spacing: u64,
    dir_x: u64,
    dir_y: u64,
    dir_z: u64,
) -> (r: Result<(), String>)
    ensures
        match feature_pos(old(doc).features@, id) {
            None => (r matches Err(m) && m@ == "feature not found"@) && same_doc(*old(doc), *final(doc)),
            Some(i) => match old(doc).features@[i].kind {
                FeatureKind::LinearPattern { target_id, .. } => r is Ok && final(doc).features@
                    == old(doc).features@.update(
                    i,
                    Feature {
                        kind: FeatureKind::LinearPattern { target_id, dir_x, dir_y, dir_z, count, spacing },
                        ..old(doc).features@[i]
                    },
                ) && final(doc).parameters@ == old(doc).parameters@ && final(doc).next_id
                    == old(doc).next_id,
                _ => (r matches Err(m) && m@ == "feature is not a LinearPattern"@) && same_doc(*old(doc), *final(doc)),
            },
        },
{
    let f = match doc.get_feature_mut(id) {
        Some(f) => f,
        None => {
            return Err("feature not found".to_owned());
        },
    };
    let target_id = match &f.kind {
        FeatureKind::LinearPattern { target_id, .. } => *target_id,
        _ => {
            proof {
                assert(doc.features@ =~= old(doc).features@);
            }
            return Err("feature is not a LinearPattern".to_owned());
        },
    };
    f.kind = FeatureKind::LinearPattern { target_id, dir_x, dir_y, dir_z, count, spacing };
    Ok(())
}

/// Change the count, angle and axis point of the circular pattern `id`.
pub fn update_circular_pattern(
    doc: &mut Document,
    id: FeatureId,
    count: u32,
    total_angle_deg: u64,
    axis_x: u64,
    axis_y: u64,
    axis_z: u64,
) -> (r: Result<(), String>)
    ensures
        match feature_pos(old(doc).features@, id) {
            None => (r matches Err(m) && m@ == "feature not found"@) && same_doc(*old(doc), *final(doc)),
            Some(i) => match old(doc).features@[i].kind {
                FeatureKind::CircularPattern { target_id, axis_dx, axis_dy, axis_dz, .. } => r is Ok
                    && final(doc).features@ == old(doc).features@.update(
                    i,
                    Feature {
                        kind: FeatureKind::CircularPattern {
                            target_id,
                            axis_x,
                            axis_y,
                            axis_z,
                            axis_dx,
                            axis_dy,
                            axis_dz,
                            count,
                            total_angle_deg,
                        },
                        ..old(doc).features@[i]
                    },
                ) && final(doc).parameters@ == old(doc).parameters@ && final(doc).next_id
                    == old(doc).next_id,
                _ => (r matches Err(m) && m@ == "feature is not a CircularPattern"@) && same_doc(*old(doc), *final(doc)),
            },
        },
{
    let f = match doc.get_feature_mut(id) {
        Some(f) => f,
        None => {
            return Err("feature not found".to_owned());
        },
    };
    let (target_id, axis_dx, axis_dy, axis_dz) = match &f.kind {
        FeatureKind::CircularPattern { target_id, axis_dx, axis_dy, axis_dz, .. } => (
            *target_id,
            *axis_dx,
            *axis_dy,
            *axis_dz,
        ),
        _ => {
            proof {
                assert(doc.features@ =~= old(doc).features@);
            }
            return Err("feature is not a CircularPattern".to_owned());
        },
    };
    f.kind = FeatureKind::CircularPattern {
        target_id,
        axis_x,
        axis_y,
        axis_z,
        axis_dx,
        axis_dy,
        axis_dz,
        count,
        total_angle_deg,
    };
    Ok(())
}

/// Change the plane of the mirror feature `id`.
pub fn update_mirror_params(
    doc: &mut Document,
    id: FeatureId,
    plane_nx: u64,
    plane_ny: u64,
    plane_nz: u64,
    plane_px: u64,
    plane_py: u64,
    plane_pz: u64,
) -> (r: Result<(), String>)
    ensures
        match feature_pos(old(doc).features@, id) {
            None => (r matches Err(m) && m@ == "feature not found"@) && same_doc(*old(doc), *final(doc)),
            Some(i) => match old(doc).features@[i].kind {
                FeatureKind::Mirror { target_id, .. } => r is Ok && final(doc).features@ == old(
                    doc,
                ).features@.update(
                    i,
                    Feature {
                        kind: FeatureKind::Mirror {
                            target_id,
                            plane_nx,
                            plane_ny,
                            plane_nz,
                            plane_px,
                            plane_py,
                            plane_pz,
                        },
                        ..old(doc).features@[i]
                    },
                ) && final(doc).parameters@ == old(doc).parameters@ && final(doc).next_id
                    == old(doc).next_id,
                _ => (r matches Err(m) && m@ == "feature is not a Mirror"@) && same_doc(*old(doc), *final(doc)),
            },
        },
{
    let f = match doc.get_feature_mut(id) {
        Some(f) => f,
        None => {
            return Err("feature not found".to_owned());
        },
    };
    let target_id = match &f.kind {
        FeatureKind::Mirror { target_id, .. } => *target_id,
        _ => {
            proof {
                assert(doc.features@ =~= old(doc).features@);
            }
            return Err("feature is not a Mirror".to_owned());
        },
    };
    f.kind = FeatureKind::Mirror { target_id, plane_nx, plane_ny, plane_nz, plane_px, plane_py, plane_pz };
    Ok(())
}

/// The first sketch feature of `fs` at or after position `k`.
pub open spec fn first_sketch(fs: Seq<Feature>, k: int) -> Option<FeatureId>
    decreases fs.len() - k,
{
    if k < 0 || k >= fs.len() {
        None
    } else if kind_is_sketch(fs[k].kind) {
        Some(fs[k].id)
    } else {
        first_sketch(fs, k + 1)
    }
}

/// The first sketch feature of the document.
pub fn first_sketch_feature(doc: &Document) -> (r: Option<FeatureId>)
    ensures
        r == first_sketch(doc.features@, 0),
{
    let mut i: usize = 0;
    while i < doc.features.len()
        invariant
            i <= doc.features@.len(),
            first_sketch(doc.features@, 0) == first_sketch(doc.features@, i as int),
        decreases doc.features@.len() - i,
    {
        if doc.features[i].is_sketch() {
            return Some(doc.features[i].id);
        }
        i = i + 1;
    }
    None
}

/// The feature `id` exists and is a sketch (the first feature with that id
/// decides).
pub open spec fn is_sketch_feature(fs: Seq<Feature>, id: FeatureId) -> bool {
    match feature_pos(fs, id) {
        Some(i) => kind_is_sketch(fs[i].kind),
        None => false,
    }
}

/// Whether the feature `id` can become the active sketch.
pub fn can_be_active(doc: &Document, id: FeatureId) -> (b: bool)
    ensures
        b == is_sketch_feature(doc.features@, id),
{
    match doc.get_feature(id) {
        Some(f) => f.is_sketch(),
        None => false,
    }
}

/// The active sketch after the document was replaced by an undo or redo
/// step: the one recorded with the step when it is still a sketch of the
/// document, else the first sketch.
pub fn restore_active(doc: &Document, recorded: Option<FeatureId>) -> (r: Option<FeatureId>)
    ensures
        r == (match recorded {
            Some(a) => if is_sketch_feature(doc.features@, a) {
                Some(a)
            } else {
                first_sketch(doc.features@, 0)
            },
            None => first_sketch(doc.features@, 0),
        }),
{
    match recorded {
        Some(a) => {
            if can_be_active(doc, a) {
                Some(a)
            } else {
                first_sketch_feature(doc)
            }
        },
        None => first_sketch_feature(doc),
    }
}

/// `fs` without the first feature with id `id`, if there is one, and then
/// without the features nested directly under `id` (what
/// `Document::remove_feature` leaves).
pub open spec fn remove_first(fs: Seq<Feature>, id: FeatureId) -> Seq<Feature> {
    match feature_pos(fs, id) {
        Some(i) => without_children(fs.remove(i), id),
        None => fs,
    }
}

/// `fs` with the first feature of each id of `ds` removed, in order.
pub open spec fn remove_all(fs: Seq<Feature>, ds: Seq<FeatureId>) -> Seq<Feature>
    decreases ds.len(),
{
    if ds.len() == 0 {
        fs
    } else {
        remove_first(remove_all(fs, ds.drop_last()), ds.last())
    }
}

/// The names of the features `ds` refer to (each the first with its id),
/// skipping ids that name no feature.
pub open spec fn dep_names(fs: Seq<Feature>, ds: Seq<FeatureId>) -> Seq<Seq<char>>
    decreases ds.len(),
{
    if ds.len() == 0 {
        seq![]
    } else {
        dep_names(fs, ds.drop_last()) + match feature_pos(fs, ds.last()) {
            Some(i) => seq![fs[i].name@],
            None => seq![],
        }
    }
}

/// Names joined by commas.
pub open spec fn join_names(ns: Seq<Seq<char>>) -> Seq<char>
    decreases ns.len(),
{
    if ns.len() == 0 {
        seq![]
    } else if ns.len() == 1 {
        ns[0]
    } else {
        join_names(ns.drop_last()) + ","@ + ns.last()
    }
}

/// The features of `fs` that depend on `id`.
pub open spec fn dependents(fs: Seq<Feature>, id: FeatureId) -> Seq<FeatureId> {
    crate::document::ids_where(fs, |f: Feature| crate::document::depends_on(f, id))
}

/// The active sketch after deleting `id`: unchanged unless it was `id` or,
/// in a cascading delete, it is gone; then the first remaining sketch.
pub open spec fn active_after_delete(
    fs: Seq<Feature>,
    id: FeatureId,
    cascade: bool,
    active: Option<FeatureId>,
) -> Option<FeatureId> {
    let gone = match active {
        Some(a) => a == id || (cascade && feature_pos(fs, a) is None),
        None => false,
    };
    if gone {
        first_sketch(fs, 0)
    } else {
        active
    }
}

fn dependents_message(doc: &Document, ds: &Vec<FeatureId>) -> (m: String)
    ensures
        m@ == "dependents:"@ + join_names(dep_names(doc.features@, ds@)),
{
    let mut m = "dependents:".to_owned();
    let ghost prefix = m@;
    let mut k: usize = 0;
    let mut count: usize = 0;
    while k < ds.len()
        invariant
            prefix == "dependents:"@,
            k <= ds@.len(),
            count == dep_names(doc.features@, ds@.take(k as int)).len(),
            count <= k,
            m@ == prefix + join_names(dep_names(doc.features@, ds@.take(k as int))),
        decreases ds@.len() - k,
    {
        proof {
            assert(ds@.take(k + 1).drop_last() =~= ds@.take(k as int));
            assert(ds@.take(k + 1).last() == ds@[k as int]);
        }
        match doc.get_feature(ds[k]) {
            Some(f) => {
                let ghost ns = dep_names(doc.features@, ds@.take(k as int));
                if count > 0 {
                    m.append(",");
                }
                m.append(f.name.as_str());
                count = count + 1;
                proof {
                    let ns1 = dep_names(doc.features@, ds@.take(k + 1));
                    assert(ns1 =~= ns.push(f.name@));
                    assert(ns1.drop_last() =~= ns);
                    if ns.len() == 0 {
                        assert(m@ =~= prefix + join_names(ns1));
                    } else {
                        assert(m@ =~= prefix + join_names(ns1));
                    }
                }
            },
            None => {
                proof {
                    assert(dep_names(doc.features@, ds@.take(k + 1)) =~= dep_names(
                        doc.features@,
                        ds@.take(k as int),
                    ));
                }
            },
        }
        k = k + 1;
    }
    proof {
        assert(ds@.take(ds@.len() as int) =~= ds@);
    }
    m
}

/// Delete the feature `id`. Without `cascade` a feature that others depend
/// on is kept and the names of those features are reported
/// (`dependents:name,name`); with `cascade` the feature goes together with
/// everything that depends on it, directly or through others. Each removal
/// also takes the features nested directly under the removed one (see
/// `Document::remove_feature`). Returns the active sketch to use afterwards.
pub fn delete_feature(doc: &mut Document, id: FeatureId, cascade: bool, active: Option<FeatureId>) -> (r:
    Result<Option<FeatureId>, String>)
    ensures
        ({
            let fs = old(doc).features@;
            let ds = dependents(fs, id);
            if !cascade && ds.len() > 0 {
                (r matches Err(m) && m@ == "dependents:"@ + join_names(dep_names(fs, ds))) && same_doc(
                    *old(doc),
                    *final(doc),
                )
            } else {
                &&& r == Ok::<Option<FeatureId>, String>(
                    active_after_delete(final(doc).features@, id, cascade, active),
                )
                &&& cascade ==> exists|d: Seq<FeatureId>|
                    #[trigger] is_dirty_closure(fs, id, d) && final(doc).features@ == remove_all(fs, d)
                &&& !cascade ==> final(doc).features@ == remove_first(fs, id)
                &&& final(doc).parameters@ == old(doc).parameters@
                &&& final(doc).next_id == old(doc).next_id
                &&& final(doc).name@ == old(doc).name@
                &&& final(doc).format_version == old(doc).format_version
            }
        }),
{
    let ghost fs = doc.features@;
    let deps = doc.dependents_of(id);
    if deps.len() > 0 && !cascade {
        return Err(dependents_message(doc, &deps));
    }
    if cascade {
        let removed = compute_dirty(doc, id);
        let mut k: usize = 0;
        while k < removed.len()
            invariant
                k <= removed@.len(),
                is_dirty_closure(fs, id, removed@),
                doc.features@ == remove_all(fs, removed@.take(k as int)),
                doc.parameters@ == old(doc).parameters@,
                doc.next_id == old(doc).next_id,
                doc.name@ == old(doc).name@,
                doc.format_version == old(doc).format_version,
            decreases removed@.len() - k,
        {
            proof {
                assert(removed@.take(k + 1).drop_last() =~= removed@.take(k as int));
                assert(removed@.take(k + 1).last() == removed@[k as int]);
            }
            doc.remove_feature(removed[k]);
            k = k + 1;
        }
        proof {
            assert(removed@.take(removed@.len() as int) =~= removed@);
        }
    } else {
        doc.remove_feature(id);
    }
    let gone = match active {
        Some(a) => a == id || (cascade && doc.get_feature(a).is_none()),
        None => false,
    };
    if gone {
        Ok(first_sketch_feature(doc))
    } else {
        Ok(active)
    }
}

/// The sketch of the active sketch feature, for changing it: `None` when
/// no sketch is active or the active feature carries no sketch.
pub fn active_sketch_mut(doc: &mut Document, active: Option<FeatureId>) -> (r: Option<&mut Sketch>)
    ensures
        final(doc).parameters@ == old(doc).parameters@,
        final(doc).next_id == old(doc).next_id,
        match active {
            None => r is None && final(doc).features@ == old(doc).features@,
            Some(a) => match feature_pos(old(doc).features@, a) {
                None => r is None && final(doc).features@ == old(doc).features@,
                Some(i) => match old(doc).features@[i].kind {
                    FeatureKind::Sketch { sketch, plane } => r matches Some(s) && *s == sketch
                        && final(doc).features@ == old(doc).features@.update(
                        i,
                        Feature {
                            kind: FeatureKind::Sketch { sketch: *final(s), plane },
                            ..old(doc).features@[i]
                        },
                    ),
                    FeatureKind::CustomSketch { sketch, custom, plane } => r matches Some(s) && *s
                        == sketch && final(doc).features@ == old(doc).features@.update(
                        i,
                        Feature {
                            kind: FeatureKind::CustomSketch { sketch: *final(s), custom, plane },
                            ..old(doc).features@[i]
                        },
                    ),
                    _ => r is None && final(doc).features@ == old(doc).features@,
                },
            },
        },
{
    let a = match active {
        Some(a) => a,
        None => {
            return None;
        },
    };
    match doc.get_feature_mut(a) {
        Some(f) => f.sketch_mut(),
        None => None,
    }
}

/// Remove the constraint at `index`; false (nothing changes) when there is
/// none.
pub fn remove_constraint(sketch: &mut Sketch, index: usize) -> (removed: bool)
    ensures
        removed == (index < old(sketch).constraints@.len()),
        removed ==> final(sketch).constraints@ == old(sketch).constraints@.remove(index as int),
        !removed ==> final(sketch).constraints@ == old(sketch).constraints@,
        final(sketch).entities@ == old(sketch).entities@,
        final(sketch).next_id == old(sketch).next_id,
{
    if index >= sketch.constraints.len() {
        return false;
    }
    sketch.constraints.remove(index);
    true
}

/// Two constraints drive the same dimension of the same entities: both a
/// distance between the same points, a radius or a diameter of the same
/// circle, or an angle between the same lines.
pub open spec fn same_dimension(existing: Constraint, incoming: Constraint) -> bool {
    match (existing, incoming) {
        (Constraint::Distance { a: a1, b: b1, .. }, Constraint::Distance { a: a2, b: b2, .. }) => a1
            == a2 && b1 == b2,
        (Constraint::Radius { circle: c1, .. }, Constraint::Radius { circle: c2, .. }) => c1 == c2,
        (Constraint::Diameter { circle: c1, .. }, Constraint::Diameter { circle: c2, .. }) => c1
            == c2,
        (
            Constraint::Angle { line_a: a1, line_b: b1, .. },
            Constraint::Angle { line_a: a2, line_b: b2, .. },
        ) => a1 == a2 && b1 == b2,
        _ => false,
    }
}

fn is_same_dimension(existing: &Constraint, incoming: &Constraint) -> (b: bool)
    ensures
        b == same_dimension(*existing, *incoming),
{
    match (existing, incoming) {
        (Constraint::Distance { a: a1, b: b1, .. }, Constraint::Distance { a: a2, b: b2, .. }) => *a1
            == *a2 && *b1 == *b2,
        (Constraint::Radius { circle: c1, .. }, Constraint::Radius { circle: c2, .. }) => *c1 == *c2,
        (Constraint::Diameter { circle: c1, .. }, Constraint::Diameter { circle: c2, .. }) => *c1
            == *c2,
        (
            Constraint::Angle { line_a: a1, line_b: b1, .. },
            Constraint::Angle { line_a: a2, line_b: b2, .. },
        ) => *a1 == *a2 && *b1 == *b2,
        _ => false,
    }
}

/// The first constraint at or after `k` that drives the same dimension as
/// `c`.
pub open spec fn first_same_dimension(cs: Seq<Constraint>, c: Constraint, k: int) -> Option<int>
    decreases cs.len() - k,
{
    if k < 0 || k >= cs.len() {
        None
    } else if same_dimension(cs[k], c) {
        Some(k)
    } else {
        first_same_dimension(cs, c, k + 1)
    }
}

/// Set a driving dimension: the first constraint on the same dimension of
/// the same entities takes the new value; without one the constraint is
/// added.
pub fn update_constraint_value(sketch: &mut Sketch, c: Constraint)
    ensures
        match first_same_dimension(old(sketch).constraints@, c, 0) {
            Some(i) => final(sketch).constraints@ == old(sketch).constraints@.update(i, c),
            None => final(sketch).constraints@ == old(sketch).constraints@.push(c),
        },
        final(sketch).entities@ == old(sketch).entities@,
        final(sketch).next_id == old(sketch).next_id,
{
    let mut i: usize = 0;
    while i < sketch.constraints.len()
        invariant
            i <= sketch.constraints@.len(),
            sketch.constraints@ == old(sketch).constraints@,
            sketch.entities@ == old(sketch).entities@,
            sketch.next_id == old(sketch).next_id,
            first_same_dimension(old(sketch).constraints@, c, 0) == first_same_dimension(
                old(sketch).constraints@,
                c,
                i as int,
            ),
        decreases sketch.constraints@.len() - i,
    {
        if is_same_dimension(&sketch.constraints[i], &c) {
            sketch.constraints.set(i, c);
            return;
        }
        i = i + 1;
    }
    sketch.constraints.push(c);
}

/// Whether the `f64` with these bits is not zero (of either sign).
pub open spec fn f64_nonzero(bits: u64) -> bool {
    bits != 0 && bits != 0x8000_0000_0000_0000
}

/// Entity `e` with its property `prop` set to `v` (an `f64` bit pattern;
/// `construction` is set when `v` is not zero), or `None` when `e` has no
/// such editable property.
pub open spec fn with_prop(e: SketchEntity, prop: Seq<char>, v: u64) -> Option<SketchEntity> {
    match e {
        SketchEntity::Point(p) => if prop == "x"@ {
            Some(SketchEntity::Point(SketchPoint { x: v, y: p.y }))
        } else if prop == "y"@ {
            Some(SketchEntity::Point(SketchPoint { x: p.x, y: v }))
        } else {
            None
        },
        SketchEntity::Circle { center, radius, construction } => if prop == "radius"@ {
            Some(SketchEntity::Circle { center, radius: v, construction })
        } else if prop == "construction"@ {
            Some(SketchEntity::Circle { center, radius, construction: f64_nonzero(v) })
        } else {
            None
        },
        SketchEntity::Line { start, end, .. } => if prop == "construction"@ {
            Some(SketchEntity::Line { start, end, construction: f64_nonzero(v) })
        } else {
            None
        },
        SketchEntity::Arc { center, radius, start_angle, end_angle, construction } => if prop
            == "radius"@ {
            Some(SketchEntity::Arc { center, radius: v, start_angle, end_angle, construction })
        } else if prop == "start_angle"@ {
            Some(SketchEntity::Arc { center, radius, start_angle: v, end_angle, construction })
        } else if prop == "end_angle"@ {
            Some(SketchEntity::Arc { center, radius, start_angle, end_angle: v, construction })
        } else if prop == "construction"@ {
            Some(
                SketchEntity::Arc {
                    center,
                    radius,
                    start_angle,
                    end_angle,
                    construction: f64_nonzero(v),
                },
            )
        } else {
            None
        },
        SketchEntity::Spline { control_points, .. } => if prop == "construction"@ {
            Some(SketchEntity::Spline { control_points, construction: f64_nonzero(v) })
        } else {
            None
        },
        SketchEntity::Ellipse { center, major_axis_end, ratio, construction } => if prop
            == "ratio"@ {
            Some(SketchEntity::Ellipse { center, major_axis_end, ratio: v, construction })
        } else if prop == "construction"@ {
            Some(
                SketchEntity::Ellipse {
                    center,
                    major_axis_end,
                    ratio,
                    construction: f64_nonzero(v),
                },
            )
        } else {
            None
        },
    }
}

fn apply_prop(e: SketchEntity, prop: &str, v: u64) -> (r: (SketchEntity, bool))
    ensures
        match with_prop(e, prop@, v) {
            Some(e2) => r == (e2, true),
            None => r == (e, false),
        },
{
    let nz = v != 0 && v != 0x8000_0000_0000_0000;
    match e {
        SketchEntity::Point(p) => {
            if text_eq(prop, "x") {
                (SketchEntity::Point(SketchPoint { x: v, y: p.y }), true)
            } else if text_eq(prop, "y") {
                (SketchEntity::Point(SketchPoint { x: p.x, y: v }), true)
            } else {
                (SketchEntity::Point(p), false)
            }
        },
        SketchEntity::Circle { center, radius, construction } => {
            if text_eq(prop, "radius") {
                (SketchEntity::Circle { center, radius: v, construction }, true)
            } else if text_eq(prop, "construction") {
                (SketchEntity::Circle { center, radius, construction: nz }, true)
            } else {
                (SketchEntity::Circle { center, radius, construction }, false)
            }
        },
        SketchEntity::Line { start, end, construction } => {
            if text_eq(prop, "construction") {
                (SketchEntity::Line { start, end, construction: nz }, true)
            } else {
                (SketchEntity::Line { start, end, construction }, false)
            }
        },
        SketchEntity::Arc { center, radius, start_angle, end_angle, construction } => {
            if text_eq(prop, "radius") {
                (SketchEntity::Arc { center, radius: v, start_angle, end_angle, construction }, true)
            } else if text_eq(prop, "start_angle") {
                (SketchEntity::Arc { center, radius, start_angle: v, end_angle, construction }, true)
            } else if text_eq(prop, "end_angle") {
                (SketchEntity::Arc { center, radius, start_angle, end_angle: v, construction }, true)
            } else if text_eq(prop, "construction") {
                (
                    SketchEntity::Arc { center, radius, start_angle, end_angle, construction: nz },
                    true,
                )
            } else {
                (SketchEntity::Arc { center, radius, start_angle, end_angle, construction }, false)
            }
        },
        SketchEntity::Spline { control_points, construction } => {
            if text_eq(prop, "construction") {
                (SketchEntity::Spline { control_points, construction: nz }, true)
            } else {
                (SketchEntity::Spline { control_points, construction }, false)
            }
        },
        SketchEntity::Ellipse { center, major_axis_end, ratio, construction } => {
            if text_eq(prop, "ratio") {
                (SketchEntity::Ellipse { center, major_axis_end, ratio: v, construction }, true)
            } else if text_eq(prop, "construction") {
                (SketchEntity::Ellipse { center, major_axis_end, ratio, construction: nz }, true)
            } else {
                (SketchEntity::Ellipse { center, major_axis_end, ratio, construction }, false)
            }
        },
    }
}

/// Set one property of the entity `id` (`x`/`y` of a point, `radius`,
/// `start_angle`, `end_angle`, `ratio`, or `construction` where the entity
/// has it) to `value`, an `f64` bit pattern. False, with nothing changed,
/// when there is no such entity or property.
pub fn update_entity_prop(sketch: &mut Sketch, id: EntityId, prop: &str, value: u64) -> (changed:
    bool)
    ensures
        final(sketch).constraints@ == old(sketch).constraints@,
        final(sketch).next_id == old(sketch).next_id,
        match (if old(sketch).entities@.contains_key(id.0) {
            with_prop(old(sketch).entities@[id.0], prop@, value)
        } else {
            None
        }) {
            Some(e2) => changed && final(sketch).entities@ == old(sketch).entities@.insert(id.0, e2),
            None => !changed && final(sketch).entities@ == old(sketch).entities@,
        },
{
    let e = match sketch.entities.remove(&id.0) {
        Some(e) => e,
        None => {
            return false;
        },
    };
    let (e2, changed) = apply_prop(e, prop, value);
    sketch.entities.insert(id.0, e2);
    proof {
        if !changed {
            assert(sketch.entities@ =~= old(sketch).entities@);
        }
    }
    changed
}

/// Move the point `id` to (`x`, `y`) (`f64` bit patterns); nothing changes
/// when `id` is not a point.
pub fn move_point(sketch: &mut Sketch, id: EntityId, x: u64, y: u64)
    ensures
        final(sketch).constraints@ == old(sketch).constraints@,
        final(sketch).next_id == old(sketch).next_id,
        if old(sketch).entities@.contains_key(id.0) && old(sketch).entities@[id.0] is Point {
            final(sketch).entities@ == old(sketch).entities@.insert(
                id.0,
                SketchEntity::Point(SketchPoint { x, y }),
            )
        } else {
            final(sketch).entities@ == old(sketch).entities@
        },
{
    let e = match sketch.entities.remove(&id.0) {
        Some(e) => e,
        None => {
            return;
        },
    };
    match e {
        SketchEntity::Point(_) => {
            sketch.entities.insert(id.0, SketchEntity::Point(SketchPoint { x, y }));
        },
        other => {
            sketch.entities.insert(id.0, other);
            proof {
                assert(sketch.entities@ =~= old(sketch).entities@);
            }
        },
    }
}

proof fn lemma_filter_prefix_unique(x: Seq<Feature>, p: spec_fn(Feature) -> bool, k: int)
    requires
        unique_ids(x),
        0 <= k <= x.len(),
    ensures
        unique_ids(x.take(k).filter(p)),
    decreases k,
{
    if k > 0 {
        lemma_filter_prefix_unique(x, p, k - 1);
        lemma_filter_step(x, k - 1, p);
        let a = x.take(k - 1).filter(p);
        let b = x.take(k).filter(p);
        if p(x[k - 1]) {
            assert forall|i: int, j: int| 0 <= i < j < b.len() implies #[trigger] b[i].id
                != #[trigger] b[j].id by {
                if j == b.len() - 1 {
                    assert(b[i] == a[i]);
                    assert(a.contains(a[i]));
                    let t = x.take(k - 1);
                    t.lemma_filter_contains_rev(p, a[i]);
                    let m = choose|m: int| 0 <= m < t.len() && t[m] == a[i];
                    assert(x[m] == a[i]);
                    assert(b[j] == x[k - 1]);
                } else {
                    assert(b[i] == a[i] && b[j] == a[j]);
                }
            }
        }
    }
}

proof fn lemma_filter_within(x: Seq<Feature>, p: spec_fn(Feature) -> bool)
    ensures
        unique_ids(x) ==> unique_ids(x.filter(p)),
        forall|j: int| 0 <= j < x.filter(p).len() ==> x.contains(#[trigger] x.filter(p)[j]),
{
    assert forall|j: int| 0 <= j < x.filter(p).len() implies x.contains(#[trigger] x.filter(p)[j]) by {
        let e = x.filter(p)[j];
        assert(x.filter(p).contains(e));
        x.lemma_filter_contains_rev(p, e);
    }
    if unique_ids(x) {
        lemma_filter_prefix_unique(x, p, x.len() as int);
        assert(x.take(x.len() as int) =~= x);
    }
}

proof fn lemma_remove_all(fs: Seq<Feature>, d: Seq<FeatureId>)
    requires
        unique_ids(fs),
    ensures
        unique_ids(remove_all(fs, d)),
        features_within(remove_all(fs, d), fs),
        forall|k: int| 0 <= k < d.len() ==> lacks_id(remove_all(fs, d), #[trigger] d[k]),
    decreases d.len(),
{
    if d.len() > 0 {
        let r1 = remove_all(fs, d.drop_last());
        lemma_remove_all(fs, d.drop_last());
        let r = remove_all(fs, d);
        match feature_pos(r1, d.last()) {
            Some(i) => {
                assert(crate::document::is_first_feature(r1, d.last(), i));
                lemma_remove_keeps_unique(r1, i);
                let r0 = r1.remove(i);
                let p = |g: Feature| !is_child_of(g, d.last());
                assert(r == r0.filter(p));
                lemma_filter_within(r0, p);
                assert forall|j: int| 0 <= j < r0.len() implies r1.contains(#[trigger] r0[j]) by {
                    if j < i {
                        assert(r0[j] == r1[j]);
                    } else {
                        assert(r0[j] == r1[j + 1]);
                    }
                }
                assert forall|j: int| 0 <= j < r.len() implies r1.contains(#[trigger] r[j]) by {
                    assert(r0.contains(r[j]));
                }
                assert forall|j: int| 0 <= j < r.len() implies fs.contains(#[trigger] r[j]) by {
                    assert(r1.contains(r[j]));
                    let q = choose|q: int| 0 <= q < r1.len() && r1[q] == r[j];
                    assert(fs.contains(r1[q]));
                }
                assert forall|j: int| 0 <= j < r.len() implies (#[trigger] r[j]).id != d.last() by {
                    assert(r0.contains(r[j]));
                    let q = choose|q: int| 0 <= q < r0.len() && r0[q] == r[j];
                    if q < i {
                        assert(r0[q] == r1[q]);
                    } else {
                        assert(r0[q] == r1[q + 1]);
                    }
                }
            },
            None => {
                assert forall|j: int| 0 <= j < r1.len() implies (#[trigger] r1[j]).id != d.last() by {
                    if r1[j].id == d.last() {
                        lemma_first_exists(r1, d.last(), j);
                    }
                }
                assert forall|j: int| 0 <= j < r.len() implies r1.contains(#[trigger] r[j]) by {
                    assert(r[j] == r1[j]);
                }
            },
        }
        assert forall|k: int| 0 <= k < d.len() implies lacks_id(r, #[trigger] d[k]) by {
            if k < d.len() - 1 {
                assert(d.drop_last()[k] == d[k]);
                assert(lacks_id(r1, d.drop_last()[k]));
                assert forall|j: int| 0 <= j < r.len() implies (#[trigger] r[j]).id != d[k] by {
                    assert(r1.contains(r[j]));
                }
            }
        }
    }
}

/// A cascading delete, in a document whose feature ids are unique, leaves
/// neither the deleted feature nor any feature that depends on a deleted
/// one; everything that stays was there before.
pub proof fn lemma_cascade_delete_leaves_no_dependents(fs: Seq<Feature>, id: FeatureId, d: Seq<FeatureId>)
    requires
        unique_ids(fs),
        is_dirty_closure(fs, id, d),
    ensures
        lacks_id(remove_all(fs, d), id),
        features_within(remove_all(fs, d), fs),
        forall|j: int, k: int|
            0 <= j < remove_all(fs, d).len() && 0 <= k < d.len() ==> !depends_on(
                #[trigger] remove_all(fs, d)[j],
                #[trigger] d[k],
            ),
{
    lemma_remove_all(fs, d);
    let r = remove_all(fs, d);
    assert(d[0] == id);
    assert forall|j: int, k: int| 0 <= j < r.len() && 0 <= k < d.len() implies !depends_on(
        #[trigger] r[j],
        #[trigger] d[k],
    ) by {
        if depends_on(r[j], d[k]) {
            assert(fs.contains(r[j]));
            let i = choose|i: int| 0 <= i < fs.len() && fs[i] == r[j];
            assert(depends_on(fs[i], d[k]));
            assert(d.contains(fs[i].id));
            let m = choose|m: int| 0 <= m < d.len() && d[m] == fs[i].id;
            assert(lacks_id(r, d[m]));
        }
    }
}

/// The document a new session starts with: `Part1`, holding one empty
/// sketch on the XY plane, which is the active sketch.
pub fn starter_document() -> (r: (Document, FeatureId))
    ensures
        r.0.name@ == "Part1"@,
        r.0.format_version == 1,
        r.0.parameters@.len() == 0,
        r.0.next_id == 2,
        r.0.features@.len() == 1,
        is_new_feature(
            r.0.features@[0],
            r.1,
            "Sketch1"@,
            r.0.features@[0].kind,
        ),
        r.1 == FeatureId(1),
        r.0.features@[0].kind matches FeatureKind::Sketch { sketch, plane } && plane
            == PlaneDefinition::XY && sketch.entities@.len() == 0 && sketch.constraints@.len() == 0,
{
    let mut doc = Document::new("Part1");
    let id = doc.new_feature_id();
    doc.add_feature(
        Feature::new(
            id,
            "Sketch1",
            FeatureKind::Sketch { sketch: Sketch::new(), plane: PlaneDefinition::XY },
        ),
    );
    (doc, id)
}

/// How many recently opened files are remembered.
pub const MAX_RECENT: usize = 10;

/// The recent-files list after opening `path`: `path` first, then the
/// earlier entries other than `path`, at most `MAX_RECENT` in all.
pub open spec fn recent_after(files: Seq<Seq<char>>, path: Seq<char>) -> Seq<Seq<char>> {
    let all = seq![path] + files.filter(|p: Seq<char>| p != path);
    if all.len() > MAX_RECENT {
        all.take(MAX_RECENT as int)
    } else {
        all
    }
}

/// Record `path` as the most recently opened file.
pub fn push_recent_file(files: Vec<String>, path: &str) -> (r: Vec<String>)
    ensures
        r@.map_values(|s: String| s@) == recent_after(files@.map_values(|s: String| s@), path@),
{
    let ghost fv = files@.map_values(|s: String| s@);
    let ghost p = |q: Seq<char>| q != path@;
    let mut r: Vec<String> = Vec::new();
    r.push(path.to_owned());
    let mut i: usize = 0;
    while i < files.len()
        invariant
            i <= files@.len(),
            fv == files@.map_values(|s: String| s@),
            p == (|q: Seq<char>| q != path@),
            r@.map_values(|s: String| s@) == seq![path@] + fv.take(i as int).filter(p),
        decreases files@.len() - i,
    {
        proof {
            crate::document::lemma_filter_step(fv, i as int, p);
            assert(fv[i as int] == files@[i as int]@);
        }
        let ghost before = r@.map_values(|s: String| s@);
        if !text_eq(files[i].as_str(), path) {
            r.push(files[i].clone());
            proof {
                assert(r@.map_values(|s: String| s@) =~= before.push(fv[i as int]));
            }
        }
        proof {
            assert(r@.map_values(|s: String| s@) =~= seq![path@] + fv.take(i + 1).filter(p));
        }
        i = i + 1;
    }
    proof {
        assert(fv.take(fv.len() as int) =~= fv);
    }
    if r.len() > MAX_RECENT {
        r.truncate(MAX_RECENT);
        proof {
            assert(r@.map_values(|s: String| s@) =~= recent_after(fv, path@));
        }
    }
    r
}

/// Whether an autosaved session should be offered for recovery: the
/// autosave (modified at `autosave_time`) is newer than the most recently
/// opened project, or that project's time (`recent_time`) is unknown (no
/// recent-files list, an empty one, or an unreadable file). Times are any
/// common clock reading, such as nanoseconds since the Unix epoch.
pub fn recovery_available(autosave_time: u128, recent_time: Option<u128>) -> (b: bool)
    ensures
        b == match recent_time {
            Some(t) => autosave_time > t,
            None => true,
        },
{
    match recent_time {
        Some(t) => autosave_time > t,
        None => true,
    }
}

/// The dimension parameter a feature of kind `k` stores for `pid`: the
/// distance of an extrude, the angle of a revolve, the radius of a fillet,
/// the distance of a chamfer or the thickness of a shell.
pub open spec fn stores_dimension(k: FeatureKind, pid: ParameterId) -> bool {
    ||| k matches FeatureKind::Extrude { distance, .. } && distance == pid
    ||| k matches FeatureKind::Revolve { angle, .. } && angle == pid
    ||| k matches FeatureKind::Fillet { radius, .. } && radius == pid
    ||| k matches FeatureKind::Chamfer { distance, .. } && distance == pid
    ||| k matches FeatureKind::Shell { thickness, .. } && thickness == pid
}

/// The feature reported as driven by a parameter is the first one that
/// stores it as its dimension: setting the angle of a revolve, say,
/// reports that revolve unless an earlier feature stores the same
/// parameter; and no feature is reported when none stores it.
pub proof fn lemma_owner_is_first_feature_storing_param(fs: Seq<Feature>, pid: ParameterId)
    ensures
        forall|i: int|
            #![trigger fs[i]]
            0 <= i < fs.len() && stores_dimension(fs[i].kind, pid) && (forall|j: int|
                0 <= j < i ==> !stores_dimension(#[trigger] fs[j].kind, pid)) ==> first_owner(
                fs,
                pid,
                0,
            ) == Some(fs[i].id),
        (forall|j: int| 0 <= j < fs.len() ==> !stores_dimension(#[trigger] fs[j].kind, pid))
            ==> first_owner(fs, pid, 0) is None,
{
    assert forall|k: int| 0 <= k <= fs.len() implies (forall|j: int|
        k <= j < fs.len() ==> !stores_dimension(#[trigger] fs[j].kind, pid)) ==> first_owner(
        fs,
        pid,
        k,
    ) is None by {
        lemma_owner_none_from(fs, pid, k);
    }
    assert forall|i: int|
        #![trigger fs[i]]
        0 <= i < fs.len() && stores_dimension(fs[i].kind, pid) && (forall|j: int|
            0 <= j < i ==> !stores_dimension(#[trigger] fs[j].kind, pid)) implies first_owner(
        fs,
        pid,
        0,
    ) == Some(fs[i].id) by {
        lemma_owner_at(fs, pid, i, 0);
    }
    lemma_owner_none_from(fs, pid, 0);
}

proof fn lemma_uses_iff_stores(k: FeatureKind, pid: ParameterId)
    ensures
        kind_uses_param(k, pid) == stores_dimension(k, pid),
{
}

proof fn lemma_owner_none_from(fs: Seq<Feature>, pid: ParameterId, k: int)
    requires
        0 <= k,
    ensures
        (forall|j: int| k <= j < fs.len() ==> !stores_dimension(#[trigger] fs[j].kind, pid))
            ==> first_owner(fs, pid, k) is None,
    decreases fs.len() - k,
{
    if k < fs.len() {
        lemma_uses_iff_stores(fs[k].kind, pid);
        lemma_owner_none_from(fs, pid, k + 1);
    }
}

proof fn lemma_owner_at(fs: Seq<Feature>, pid: ParameterId, i: int, k: int)
    requires
        0 <= k <= i < fs.len(),
        stores_dimension(fs[i].kind, pid),
        forall|j: int| 0 <= j < i ==> !stores_dimension(#[trigger] fs[j].kind, pid),
    ensures
        first_owner(fs, pid, k) == Some(fs[i].id),
    decreases i - k,
{
    lemma_uses_iff_stores(fs[k].kind, pid);
    if k < i {
        lemma_owner_at(fs, pid, i, k + 1);
    }
}

} // verus!
