//! The bookkeeping of regeneration: which features an (incremental)
//! regeneration re-evaluates, keeps or drops, which recorded errors stay
//! valid, the dependency check every feature passes before its geometry
//! is built, and a pass (`RegenResult`) that steps through the features
//! one at a time, handing out each geometry job and recording what building
//! it gave. Building the geometry itself happens elsewhere.

use std::collections::HashMap;
use vstd::prelude::*;

use crate::document::{compute_dirty, feature_pos, is_dirty_closure, parameter_pos, Document};
use crate::feature::{kind_dependencies, BoolOp, CustomFeatureData, Feature, FeatureKind};
use crate::ids::{EntityId, FeatureId, ParameterId};
use crate::mesh::Mesh;
use crate::sketch::{key_list, sorted_keys, strictly_increasing, Sketch, SketchEntity, SketchPoint};
use crate::text::{decimal, u64_to_decimal};

verus! {

broadcast use vstd::std_specs::hash::group_hash_axioms;

/// What a regeneration pass does with a feature.
#[derive(Debug, Clone, Copy, PartialEq, Eq, Structural)]
pub enum RegenStep {
    /// Suppressed, in a full pass: nothing to do.
    Skip,
    /// Suppressed, in an incremental pass: forget its mesh and error.
    Drop,
    /// Clean, in an incremental pass: its mesh and error stay.
    Keep,
    /// Forget its mesh and error and build it again.
    Evaluate,
}

/// The step for `f` when `dirty` lists the features to re-evaluate (an
/// empty list means a full pass).
pub open spec fn regen_step_for(f: Feature, dirty: Seq<FeatureId>) -> RegenStep {
    let incremental = dirty.len() > 0;
    if f.suppressed {
        if incremental {
            RegenStep::Drop
        } else {
            RegenStep::Skip
        }
    } else if incremental && !dirty.contains(f.id) {
        RegenStep::Keep
    } else {
        RegenStep::Evaluate
    }
}

fn listed(v: &[FeatureId], id: FeatureId) -> (b: bool)
    ensures
        b == v@.contains(id),
{
    let mut i: usize = 0;
    while i < v.len()
        invariant
            i <= v@.len(),
            forall|j: int| 0 <= j < i ==> v@[j] != id,
        decreases v@.len() - i,
    {
        if v[i] == id {
            return true;
        }
        i = i + 1;
    }
    false
}

/// The step a regeneration pass takes for `f`; `dirty` lists the features
/// to re-evaluate, and is empty for a full pass.
pub fn regen_step(f: &Feature, dirty: &[FeatureId]) -> (s: RegenStep)
    ensures
        s == regen_step_for(*f, dirty@),
{
    let incremental = dirty.len() > 0;
    if f.suppressed {
        if incremental {
            RegenStep::Drop
        } else {
            RegenStep::Skip
        }
    } else if incremental && !listed(dirty, f.id) {
        RegenStep::Keep
    } else {
        RegenStep::Evaluate
    }
}

/// Whether an incremental pass keeps the error recorded for `id` by the
/// previous pass: only for a feature that is still in the document and is
/// not re-evaluated.
pub fn keeps_error(doc: &Document, dirty: &[FeatureId], id: FeatureId) -> (b: bool)
    ensures
        b == (!dirty@.contains(id) && feature_pos(doc.features@, id) is Some),
{
    !listed(dirty, id) && doc.get_feature(id).is_some()
}

/// Why a dependency keeps a feature from being built.
#[derive(Debug, Clone, Copy, PartialEq, Eq, Structural)]
pub enum DepProblem {
    Missing,
    Suppressed,
    Failed,
}

/// The problem with dependency `dep`, if any: it is not in the document,
/// it is suppressed, or its own regeneration failed (it has an error).
pub open spec fn dep_problem(fs: Seq<Feature>, failed: Map<u64, String>, dep: FeatureId) -> Option<
    DepProblem,
> {
    match feature_pos(fs, dep) {
        None => Some(DepProblem::Missing),
        Some(i) => if fs[i].suppressed {
            Some(DepProblem::Suppressed)
        } else if failed.contains_key(dep.0) {
            Some(DepProblem::Failed)
        } else {
            None
        },
    }
}

/// The first dependency in `deps`, from position `k` on, that has a problem.
pub open spec fn first_dep_problem(
    fs: Seq<Feature>,
    failed: Map<u64, String>,
    deps: Seq<FeatureId>,
    k: int,
) -> Option<(FeatureId, DepProblem)>
    decreases deps.len() - k,
{
    if k < 0 || k >= deps.len() {
        None
    } else {
        match dep_problem(fs, failed, deps[k]) {
            Some(p) => Some((deps[k], p)),
            None => first_dep_problem(fs, failed, deps, k + 1),
        }
    }
}

/// How a feature id reads in a message: `FeatureId(n)`.
pub open spec fn feature_id_text(id: FeatureId) -> Seq<char> {
    "FeatureId("@ + decimal(id.0 as nat) + ")"@
}

/// The message for a dependency problem.
pub open spec fn dep_problem_text(dep: FeatureId, p: DepProblem) -> Seq<char> {
    "dependency "@ + feature_id_text(dep) + match p {
        DepProblem::Missing => " not found"@,
        DepProblem::Suppressed => " is suppressed"@,
        DepProblem::Failed => " failed to regenerate"@,
    }
}

/// `FeatureId(n)` for `id`.
pub(crate) fn feature_id_string(id: FeatureId) -> (s: String)
    ensures
        s@ == feature_id_text(id),
{
    let mut s = "FeatureId(".to_owned();
    let d = u64_to_decimal(id.0);
    s.append(d.as_str());
    s.append(")");
    s
}

fn dep_message(dep: FeatureId, p: DepProblem) -> (m: String)
    ensures
        m@ == dep_problem_text(dep, p),
{
    let mut m = "dependency ".to_owned();
    let t = feature_id_string(dep);
    m.append(t.as_str());
    match p {
        DepProblem::Missing => m.append(" not found"),
        DepProblem::Suppressed => m.append(" is suppressed"),
        DepProblem::Failed => m.append(" failed to regenerate"),
    }
    m
}

/// Checks the dependencies of `f` in order before it is built: each must
/// be in the document, not suppressed, and not have failed (`failed` holds
/// the errors recorded so far, keyed by the number inside a `FeatureId`).
/// The first problem found is reported.
pub fn check_dependencies(f: &Feature, doc: &Document, failed: &HashMap<u64, String>) -> (r: Result<
    (),
    String,
>)
    ensures
        match first_dep_problem(doc.features@, failed@, kind_dependencies(f.kind), 0) {
            None => r is Ok,
            Some((dep, p)) => r matches Err(m) && m@ == dep_problem_text(dep, p),
        },
{
    let deps = f.dependencies();
    let ghost ds = kind_dependencies(f.kind);
    let mut i: usize = 0;
    while i < deps.len()
        invariant
            deps@ == ds,
            ds == kind_dependencies(f.kind),
            i <= ds.len(),
            first_dep_problem(doc.features@, failed@, ds, 0) == first_dep_problem(
                doc.features@,
                failed@,
                ds,
                i as int,
            ),
        decreases ds.len() - i,
    {
        let dep = deps[i];
        assert(dep == ds[i as int]);
        match doc.get_feature(dep) {
            None => {
                assert(feature_pos(doc.features@, dep) is None);
                assert(first_dep_problem(doc.features@, failed@, ds, i as int) == Some(
                    (dep, DepProblem::Missing),
                ));
                return Err(dep_message(dep, DepProblem::Missing));
            },
            Some(g) => {
                if g.suppressed {
                    return Err(dep_message(dep, DepProblem::Suppressed));
                }
            },
        }
        if failed.contains_key(&dep.0) {
            assert(dep_problem(doc.features@, failed@, dep) == Some(DepProblem::Failed));
            return Err(dep_message(dep, DepProblem::Failed));
        }
        i = i + 1;
    }
    Ok(())
}

/// The recorded regeneration errors (keyed by the number inside a
/// `FeatureId`) as a list in ascending feature id.
pub fn sorted_errors(errors: &HashMap<u64, String>) -> (r: Vec<(FeatureId, String)>)
    ensures
        forall|i: int, j: int| 0 <= i < j < r@.len() ==> r@[i].0.0 < r@[j].0.0,
        forall|i: int|
            0 <= i < r@.len() ==> errors@.contains_key((#[trigger] r@[i]).0.0) && r@[i].1
                == errors@[r@[i].0.0],
        forall|k: u64|
            errors@.contains_key(k) ==> exists|i: int| 0 <= i < r@.len() && (#[trigger] r@[i]).0.0 == k,
{
    let ids = sorted_keys(errors);
    let mut r: Vec<(FeatureId, String)> = Vec::new();
    let mut j: usize = 0;
    while j < ids.len()
        invariant
            j <= ids@.len(),
            strictly_increasing(ids@),
            forall|x: u64| ids@.contains(x) <==> errors@.contains_key(x),
            r@.len() == j,
            forall|a: int| 0 <= a < j ==> (#[trigger] r@[a]).0.0 == ids@[a],
            forall|a: int|
                0 <= a < j ==> errors@.contains_key((#[trigger] r@[a]).0.0) && r@[a].1
                    == errors@[r@[a].0.0],
        decreases ids@.len() - j,
    {
        let k = ids[j];
        assert(ids@.contains(k));
        match errors.get(&k) {
            Some(m) => {
                r.push((FeatureId(k), m.clone()));
            },
            None => {
                assert(false);
            },
        }
        j = j + 1;
    }
    assert forall|k: u64| errors@.contains_key(k) implies exists|a: int|
        0 <= a < r@.len() && (#[trigger] r@[a]).0.0 == k by {
        assert(ids@.contains(k));
        let a = choose|a: int| 0 <= a < ids@.len() && ids@[a] == k;
        assert(r@[a].0.0 == k);
    }
    r
}

// ---------------------------------------------------------------------------
// Resolving a feature's geometry inputs

/// What a feature's geometry is built from once its inputs are resolved.
/// Parameter values are `f64` bit patterns.
#[derive(Debug, Clone, Copy)]
pub enum GeometryJob {
    /// Sketch data is stored inline: there is no geometry to build.
    Nothing,
    Extrude { sketch_id: FeatureId, height: u64 },
    /// Ask the attached plugin generator for the body.
    CustomSolid,
    Fillet { target_id: FeatureId, radius: u64 },
    Chamfer { target_id: FeatureId, distance: u64 },
    LinearPattern { target_id: FeatureId },
    CircularPattern { target_id: FeatureId },
    Mirror { target_id: FeatureId },
    Sweep { profile_sketch_id: FeatureId, path_sketch_id: FeatureId },
    Shell { target_id: FeatureId, thickness: u64 },
    Boolean { op: BoolOp, target_a: FeatureId, target_b: FeatureId },
    /// `axis` holds the endpoints of the sketch line chosen as the axis,
    /// when there is one; otherwise the default axis is used.
    Revolve { sketch_id: FeatureId, angle_deg: u64, axis: Option<(SketchPoint, SketchPoint)> },
}

/// The value of the first parameter with id `id`.
pub open spec fn param_value(d: Document, id: ParameterId) -> Option<u64> {
    match parameter_pos(d.parameters@, id) {
        Some(i) => Some(d.parameters@[i].value),
        None => None,
    }
}

/// The sketch held by the first feature with id `id`, if it holds one.
pub open spec fn sketch_source(d: Document, id: FeatureId) -> Option<Sketch> {
    match feature_pos(d.features@, id) {
        Some(i) => match d.features@[i].kind {
            FeatureKind::Sketch { sketch, .. } => Some(sketch),
            FeatureKind::CustomSketch { sketch, .. } => Some(sketch),
            _ => None,
        },
        None => None,
    }
}

/// `ParameterId(n)` for `id`.
pub open spec fn parameter_id_text(id: ParameterId) -> Seq<char> {
    "ParameterId("@ + decimal(id.0 as nat) + ")"@
}

/// "`what` parameter `ParameterId(n)` not found".
pub open spec fn missing_param_text(what: Seq<char>, id: ParameterId) -> Seq<char> {
    what + " parameter "@ + parameter_id_text(id) + " not found"@
}

/// The point stored under `id` in `s`, if that entity is a point.
pub open spec fn stored_point(s: Sketch, id: EntityId) -> Option<SketchPoint> {
    if s.entities@.contains_key(id.0) {
        match s.entities@[id.0] {
            SketchEntity::Point(p) => Some(p),
            _ => None,
        }
    } else {
        None
    }
}

/// The endpoints of the axis line `axis` of a revolve sketch, when `axis`
/// names a line of `s` whose two ends are stored points.
pub open spec fn revolve_axis(s: Sketch, axis: Option<EntityId>) -> Option<(SketchPoint, SketchPoint)> {
    match axis {
        Some(a) => if s.entities@.contains_key(a.0) {
            match s.entities@[a.0] {
                SketchEntity::Line { start, end, .. } => match (stored_point(s, start), stored_point(s, end)) {
                    (Some(ps), Some(pe)) => Some((ps, pe)),
                    _ => None,
                },
                _ => None,
            }
        } else {
            None
        },
        None => None,
    }
}

/// The geometry job of `f`, or the error regeneration records for it:
/// parameters are looked up first, then source sketches and targets; a
/// target must already have a solid in `built`; a plugin solid needs a
/// generator.
pub open spec fn regen_job_spec(f: Feature, d: Document, built: Set<u64>, has_generator: bool) -> Result<
    GeometryJob,
    Seq<char>,
> {
    match f.kind {
        FeatureKind::Sketch { .. } => Ok(GeometryJob::Nothing),
        FeatureKind::CustomSketch { .. } => Ok(GeometryJob::Nothing),
        FeatureKind::Extrude { sketch_id, distance, .. } => match param_value(d, distance) {
            None => Err(missing_param_text("extrude distance"@, distance)),
            Some(h) => if sketch_source(d, sketch_id) is Some {
                Ok(GeometryJob::Extrude { sketch_id, height: h })
            } else {
                Err("extrude source is not a sketch"@)
            },
        },
        FeatureKind::CustomSolid { .. } => if has_generator {
            Ok(GeometryJob::CustomSolid)
        } else {
            Err("custom solid requires a plugin generator (none attached to regen)"@)
        },
        FeatureKind::Fillet { target_id, radius, .. } => match param_value(d, radius) {
            None => Err(missing_param_text("fillet radius"@, radius)),
            Some(r) => if built.contains(target_id.0) {
                Ok(GeometryJob::Fillet { target_id, radius: r })
            } else {
                Err("fillet target not yet evaluated"@)
            },
        },
        FeatureKind::Chamfer { target_id, distance, .. } => match param_value(d, distance) {
            None => Err(missing_param_text("chamfer distance"@, distance)),
            Some(v) => if built.contains(target_id.0) {
                Ok(GeometryJob::Chamfer { target_id, distance: v })
            } else {
                Err("chamfer target not yet evaluated"@)
            },
        },
        FeatureKind::LinearPattern { target_id, .. } => if built.contains(target_id.0) {
            Ok(GeometryJob::LinearPattern { target_id })
        } else {
            Err("pattern target not yet evaluated"@)
        },
        FeatureKind::CircularPattern { target_id, .. } => if built.contains(target_id.0) {
            Ok(GeometryJob::CircularPattern { target_id })
        } else {
            Err("pattern target not yet evaluated"@)
        },
        FeatureKind::Mirror { target_id, .. } => if built.contains(target_id.0) {
            Ok(GeometryJob::Mirror { target_id })
        } else {
            Err("mirror target not yet evaluated"@)
        },
        FeatureKind::Sweep { profile_sketch_id, path_sketch_id } => if sketch_source(
            d,
            profile_sketch_id,
        ) is None {
            Err("sweep profile is not a sketch"@)
        } else if sketch_source(d, path_sketch_id) is None {
            Err("sweep path is not a sketch"@)
        } else {
            Ok(GeometryJob::Sweep { profile_sketch_id, path_sketch_id })
        },
        FeatureKind::Shell { target_id, thickness } => match param_value(d, thickness) {
            None => Err(missing_param_text("shell thickness"@, thickness)),
            Some(t) => if built.contains(target_id.0) {
                Ok(GeometryJob::Shell { target_id, thickness: t })
            } else {
                Err("shell target not yet evaluated"@)
            },
        },
        FeatureKind::Boolean { op, target_a, target_b } => if !built.contains(target_a.0) {
            Err("boolean target_a not yet evaluated"@)
        } else if !built.contains(target_b.0) {
            Err("boolean target_b not yet evaluated"@)
        } else {
            Ok(GeometryJob::Boolean { op, target_a, target_b })
        },
        FeatureKind::Revolve { sketch_id, angle, axis_entity_id } => match param_value(d, angle) {
            None => Err(missing_param_text("revolve angle"@, angle)),
            Some(a) => match sketch_source(d, sketch_id) {
                Some(s) => Ok(
                    GeometryJob::Revolve {
                        sketch_id,
                        angle_deg: a,
                        axis: revolve_axis(s, axis_entity_id),
                    },
                ),
                None => Err("revolve source is not a sketch"@),
            },
        },
    }
}

fn param_lookup(doc: &Document, id: ParameterId) -> (r: Option<u64>)
    ensures
        r == param_value(*doc, id),
{
    match doc.get_parameter(id) {
        Some(p) => Some(p.value),
        None => None,
    }
}

fn source_sketch(doc: &Document, id: FeatureId) -> (r: Option<&Sketch>)
    ensures
        match sketch_source(*doc, id) {
            Some(s) => r == Some(&s),
            None => r is None,
        },
{
    match doc.get_feature(id) {
        Some(f) => f.sketch(),
        None => None,
    }
}

fn missing_param(what: &str, id: ParameterId) -> (m: String)
    ensures
        m@ == missing_param_text(what@, id),
{
    let mut m = what.to_owned();
    m.append(" parameter ParameterId(");
    let d = u64_to_decimal(id.0);
    m.append(d.as_str());
    m.append(") not found");
    proof {
        reveal_strlit(" parameter ParameterId(");
        reveal_strlit(" parameter ");
        reveal_strlit("ParameterId(");
        assert(" parameter ParameterId("@ =~= " parameter "@ + "ParameterId("@);
        reveal_strlit(") not found");
        reveal_strlit(")");
        reveal_strlit(" not found");
        assert(") not found"@ =~= ")"@ + " not found"@);
        assert(m@ =~= missing_param_text(what@, id));
    }
    m
}

fn axis_points(s: &Sketch, axis: Option<EntityId>) -> (r: Option<(SketchPoint, SketchPoint)>)
    ensures
        r == revolve_axis(*s, axis),
{
    let a = match axis {
        Some(a) => a,
        None => {
            return None;
        },
    };
    match s.entities.get(&a.0) {
        Some(SketchEntity::Line { start, end, .. }) => {
            match (s.get_point(*start), s.get_point(*end)) {
                (Some(ps), Some(pe)) => Some((*ps, *pe)),
                _ => None,
            }
        },
        _ => None,
    }
}

/// Resolves what `f`'s geometry is built from (see `regen_job_spec`):
/// `built` holds the solids produced so far, keyed by the number inside a
/// `FeatureId`; `has_generator` tells whether a plugin solid generator is
/// attached.
pub fn regen_job(f: &Feature, doc: &Document, built: &HashMap<u64, Mesh>, has_generator: bool) -> (r:
    Result<GeometryJob, String>)
    ensures
        match regen_job_spec(*f, *doc, built@.dom(), has_generator) {
            Ok(j) => r == Ok::<GeometryJob, String>(j),
            Err(m) => r matches Err(e) && e@ == m,
        },
{
    match &f.kind {
        FeatureKind::Sketch { .. } => Ok(GeometryJob::Nothing),
        FeatureKind::CustomSketch { .. } => Ok(GeometryJob::Nothing),
        FeatureKind::Extrude { sketch_id, distance, .. } => match param_lookup(doc, *distance) {
            None => Err(missing_param("extrude distance", *distance)),
            Some(h) => if source_sketch(doc, *sketch_id).is_some() {
                Ok(GeometryJob::Extrude { sketch_id: *sketch_id, height: h })
            } else {
                Err("extrude source is not a sketch".to_owned())
            },
        },
        FeatureKind::CustomSolid { .. } => if has_generator {
            Ok(GeometryJob::CustomSolid)
        } else {
            Err("custom solid requires a plugin generator (none attached to regen)".to_owned())
        },
        FeatureKind::Fillet { target_id, radius, .. } => match param_lookup(doc, *radius) {
            None => Err(missing_param("fillet radius", *radius)),
            Some(r) => if built.contains_key(&target_id.0) {
                Ok(GeometryJob::Fillet { target_id: *target_id, radius: r })
            } else {
                Err("fillet target not yet evaluated".to_owned())
            },
        },
        FeatureKind::Chamfer { target_id, distance, .. } => match param_lookup(doc, *distance) {
            None => Err(missing_param("chamfer distance", *distance)),
            Some(v) => if built.contains_key(&target_id.0) {
                Ok(GeometryJob::Chamfer { target_id: *target_id, distance: v })
            } else {
                Err("chamfer target not yet evaluated".to_owned())
            },
        },
        FeatureKind::LinearPattern { target_id, .. } => if built.contains_key(&target_id.0) {
            Ok(GeometryJob::LinearPattern { target_id: *target_id })
        } else {
            Err("pattern target not yet evaluated".to_owned())
        },
        FeatureKind::CircularPattern { target_id, .. } => if built.contains_key(&target_id.0) {
            Ok(GeometryJob::CircularPattern { target_id: *target_id })
        } else {
            Err("pattern target not yet evaluated".to_owned())
        },
        FeatureKind::Mirror { target_id, .. } => if built.contains_key(&target_id.0) {
            Ok(GeometryJob::Mirror { target_id: *target_id })
        } else {
            Err("mirror target not yet evaluated".to_owned())
        },
        FeatureKind::Sweep { profile_sketch_id, path_sketch_id } => {
            if source_sketch(doc, *profile_sketch_id).is_none() {
                Err("sweep profile is not a sketch".to_owned())
            } else if source_sketch(doc, *path_sketch_id).is_none() {
                Err("sweep path is not a sketch".to_owned())
            } else {
                Ok(
                    GeometryJob::Sweep {
                        profile_sketch_id: *profile_sketch_id,
                        path_sketch_id: *path_sketch_id,
                    },
                )
            }
        },
        FeatureKind::Shell { target_id, thickness } => match param_lookup(doc, *thickness) {
            None => Err(missing_param("shell thickness", *thickness)),
            Some(t) => if built.contains_key(&target_id.0) {
                Ok(GeometryJob::Shell { target_id: *target_id, thickness: t })
            } else {
                Err("shell target not yet evaluated".to_owned())
            },
        },
        FeatureKind::Boolean { op, target_a, target_b } => {
            if !built.contains_key(&target_a.0) {
                Err("boolean target_a not yet evaluated".to_owned())
            } else if !built.contains_key(&target_b.0) {
                Err("boolean target_b not yet evaluated".to_owned())
            } else {
                Ok(GeometryJob::Boolean { op: *op, target_a: *target_a, target_b: *target_b })
            }
        },
        FeatureKind::Revolve { sketch_id, angle, axis_entity_id } => match param_lookup(doc, *angle) {
            None => Err(missing_param("revolve angle", *angle)),
            Some(a) => match source_sketch(doc, *sketch_id) {
                Some(s) => Ok(
                    GeometryJob::Revolve {
                        sketch_id: *sketch_id,
                        angle_deg: a,
                        axis: axis_points(s, *axis_entity_id),
                    },
                ),
                None => Err("revolve source is not a sketch".to_owned()),
            },
        },
    }
}

/// The error recorded when a job's geometry comes back empty. Extrude,
/// sweep and revolve can produce nothing; the other jobs always fall back
/// to a mesh.
pub open spec fn empty_result_text(job: GeometryJob) -> Option<Seq<char>> {
    match job {
        GeometryJob::Extrude { .. } => Some("extrude produced no mesh (open profile or zero depth?)"@),
        GeometryJob::Sweep { .. } => Some("sweep produced no mesh"@),
        GeometryJob::Revolve { .. } => Some("revolve produced no mesh"@),
        _ => None,
    }
}

/// The message for a job whose geometry came back empty (see
/// `empty_result_text`).
pub fn empty_result_message(job: &GeometryJob) -> (m: Option<String>)
    ensures
        match empty_result_text(*job) {
            Some(t) => m matches Some(s) && s@ == t,
            None => m is None,
        },
{
    match job {
        GeometryJob::Extrude { .. } => Some("extrude produced no mesh (open profile or zero depth?)".to_owned()),
        GeometryJob::Sweep { .. } => Some("sweep produced no mesh".to_owned()),
        GeometryJob::Revolve { .. } => Some("revolve produced no mesh".to_owned()),
        _ => None,
    }
}

/// The error recorded when the plugin generator refuses a plugin solid.
pub open spec fn plugin_solid_text(custom: CustomFeatureData, e: Seq<char>) -> Seq<char> {
    "plugin solid '"@ + custom.plugin_id@ + " / "@ + custom.generator_id@ + "': "@ + e
}

/// The message for a plugin solid whose generator failed with `e`.
pub fn plugin_solid_message(custom: &CustomFeatureData, e: &str) -> (m: String)
    ensures
        m@ == plugin_solid_text(*custom, e@),
{
    let mut m = "plugin solid '".to_owned();
    m.append(custom.plugin_id.as_str());
    m.append(" / ");
    m.append(custom.generator_id.as_str());
    m.append("': ");
    m.append(e);
    m
}

/// Forgets what an earlier pass recorded for feature `id` before it is
/// rebuilt or dropped: its solid and its error.
pub fn clear_feature_results(built: &mut HashMap<u64, Mesh>, errors: &mut HashMap<u64, String>, id: FeatureId)
    ensures
        final(built)@ == old(built)@.remove(id.0),
        final(errors)@ == old(errors)@.remove(id.0),
{
    built.remove(&id.0);
    errors.remove(&id.0);
}

/// Records what building feature `id` gave: a mesh becomes its solid and
/// the current solid, an error is recorded against it, and a feature with
/// no geometry (a sketch) changes nothing.
pub fn record_outcome(
    built: &mut HashMap<u64, Mesh>,
    errors: &mut HashMap<u64, String>,
    current: &mut Option<FeatureId>,
    id: FeatureId,
    outcome: Result<Option<Mesh>, String>,
)
    ensures
        match outcome {
            Ok(Some(m)) => final(built)@ == old(built)@.insert(id.0, m) && *final(current) == Some(id)
                && final(errors)@ == old(errors)@,
            Ok(None) => final(built)@ == old(built)@ && *final(current) == *old(current)
                && final(errors)@ == old(errors)@,
            Err(e) => final(errors)@ == old(errors)@.insert(id.0, e) && final(built)@ == old(built)@
                && *final(current) == *old(current),
        },
{
    match outcome {
        Ok(Some(m)) => {
            built.insert(id.0, m);
            *current = Some(id);
        },
        Ok(None) => {},
        Err(e) => {
            errors.insert(id.0, e);
        },
    }
}

// ---------------------------------------------------------------------------
// A regeneration pass, one feature at a time

/// Whether an incremental pass over `doc` that re-evaluates `dirty` keeps
/// the error recorded for the feature numbered `k` by the previous pass.
pub open spec fn error_kept(doc: Document, dirty: Seq<FeatureId>, k: u64) -> bool {
    !dirty.contains(FeatureId(k)) && feature_pos(doc.features@, FeatureId(k)) is Some
}

/// What evaluating `f` comes to once its old results are forgotten:
/// the error it records (a dependency problem first, then a missing input),
/// or the geometry job left to build (`None` for a feature with no
/// geometry). `built` holds the solids so far and `failed` the errors.
pub open spec fn evaluation(
    f: Feature,
    doc: Document,
    built: Set<u64>,
    failed: Map<u64, String>,
    has_generator: bool,
) -> Result<Option<GeometryJob>, Seq<char>> {
    match first_dep_problem(doc.features@, failed, kind_dependencies(f.kind), 0) {
        Some((dep, p)) => Err(dep_problem_text(dep, p)),
        None => match regen_job_spec(f, doc, built, has_generator) {
            Err(m) => Err(m),
            Ok(GeometryJob::Nothing) => Ok(None),
            Ok(j) => Ok(Some(j)),
        },
    }
}

/// Drops from `errors` every entry an incremental pass over `doc` with
/// `dirty` does not keep (see `error_kept`).
fn retain_valid_errors(errors: &mut HashMap<u64, String>, doc: &Document, dirty: &[FeatureId])
    ensures
        forall|k: u64|
            #![trigger final(errors)@.contains_key(k)]
            final(errors)@.contains_key(k) == (old(errors)@.contains_key(k) && error_kept(
                *doc,
                dirty@,
                k,
            )),
        forall|k: u64| final(errors)@.contains_key(k) ==> final(errors)@[k] == old(errors)@[k],
{
    let keys = key_list(errors);
    let ghost orig = errors@;
    assert forall|j: int| 0 <= j < keys@.len() implies errors@.contains_key(#[trigger] keys@[j]) by {
        assert(keys@.contains(keys@[j]));
    }
    let mut i: usize = 0;
    while i < keys.len()
        invariant
            keys@.no_duplicates(),
            forall|k: u64| orig.contains_key(k) <==> keys@.contains(k),
            i <= keys@.len(),
            forall|j: int|
                0 <= j < i ==> (errors@.contains_key(#[trigger] keys@[j]) <==> error_kept(
                    *doc,
                    dirty@,
                    keys@[j],
                )),
            forall|j: int| i <= j < keys@.len() ==> errors@.contains_key(#[trigger] keys@[j]),
            forall|k: u64|
                #![trigger errors@.contains_key(k)]
                errors@.contains_key(k) ==> orig.contains_key(k) && errors@[k] == orig[k],
        decreases keys@.len() - i,
    {
        let k = keys[i];
        let ghost prev = errors@;
        if !keeps_error(doc, dirty, FeatureId(k)) {
            errors.remove(&k);
            assert(errors@ == prev.remove(k));
        }
        assert forall|j: int| 0 <= j < keys@.len() && j != i implies keys@[j] != k by {
            assert(keys@[i as int] == k);
        }
        assert forall|x: u64| errors@.contains_key(x) implies orig.contains_key(x) && errors@[x]
            == orig[x] by {
            assert(prev.contains_key(x));
            assert(errors@[x] == prev[x]);
        }
        i = i + 1;
    }
    assert forall|k: u64| #![trigger errors@.contains_key(k)]
        errors@.contains_key(k) == (orig.contains_key(k) && error_kept(*doc, dirty@, k)) by {
        if errors@.contains_key(k) {
            assert(orig.contains_key(k));
        }
        if orig.contains_key(k) {
            assert(keys@.contains(k));
            let j = choose|j: int| 0 <= j < keys@.len() && keys@[j] == k;
            assert(errors@.contains_key(keys@[j]) <==> error_kept(*doc, dirty@, keys@[j]));
        }
    }
}

/// The state of a regeneration pass over a document: the solids built so
/// far and the errors recorded (both keyed by the number inside a
/// `FeatureId`), the last solid built, and the features an incremental
/// pass re-evaluates (empty for a full pass).
pub struct RegenResult {
    pub solids: HashMap<u64, Mesh>,
    pub current_solid: Option<FeatureId>,
    pub errors: HashMap<u64, String>,
    pub dirty: Vec<FeatureId>,
}

impl RegenResult {
    /// A result with nothing built and no error, for a full pass.
    pub fn new() -> (r: RegenResult)
        ensures
            r.solids@ == Map::<u64, Mesh>::empty(),
            r.current_solid is None,
            r.errors@ == Map::<u64, String>::empty(),
            r.dirty@.len() == 0,
    {
        RegenResult {
            solids: HashMap::new(),
            current_solid: None,
            errors: HashMap::new(),
            dirty: Vec::new(),
        }
    }

    /// Whether the pass recorded no error.
    pub fn is_ok(&self) -> (b: bool)
        ensures
            b == (self.errors@.len() == 0),
    {
        self.errors.len() == 0
    }

    /// The features to re-evaluate after `changed` changes: `changed` and
    /// every feature depending on it, directly or transitively.
    pub fn compute_dirty(doc: &Document, changed: FeatureId) -> (dirty: Vec<FeatureId>)
        ensures
            is_dirty_closure(doc.features@, changed, dirty@),
    {
        compute_dirty(doc, changed)
    }

    /// Starts a pass over `doc`. With no previous result the pass is full
    /// and starts from nothing. Otherwise it is incremental over the
    /// previous result's `dirty` features: solids are kept, and the errors
    /// of clean features still in the document stay while all others go.
    pub fn start(previous: Option<RegenResult>, doc: &Document) -> (r: RegenResult)
        ensures
            match previous {
                None => r.solids@ == Map::<u64, Mesh>::empty() && r.current_solid is None
                    && r.errors@ == Map::<u64, String>::empty() && r.dirty@.len() == 0,
                Some(p) => {
                    &&& r.solids@ == p.solids@
                    &&& r.current_solid == p.current_solid
                    &&& r.dirty@ == p.dirty@
                    &&& forall|k: u64|
                        #![trigger r.errors@.contains_key(k)]
                        r.errors@.contains_key(k) == (p.errors@.contains_key(k) && error_kept(
                            *doc,
                            p.dirty@,
                            k,
                        ))
                    &&& forall|k: u64| r.errors@.contains_key(k) ==> r.errors@[k] == p.errors@[k]
                },
            },
    {
        match previous {
            None => RegenResult::new(),
            Some(p) => {
                let mut r = p;
                retain_valid_errors(&mut r.errors, doc, r.dirty.as_slice());
                r
            },
        }
    }

    /// Takes this pass's step for feature `f` of `doc` (see
    /// `regen_step_for`). A skipped or clean feature changes nothing; a
    /// dropped one loses its solid and error. A feature that is evaluated
    /// loses them too, and then either records the error of `evaluation`
    /// or hands back the geometry job left to build, whose outcome goes to
    /// `finish`. `has_generator` tells whether plugin solids can be built.
    pub fn step(&mut self, f: &Feature, doc: &Document, has_generator: bool) -> (job: Option<
        GeometryJob,
    >)
        ensures
            final(self).dirty@ == old(self).dirty@,
            final(self).current_solid == old(self).current_solid,
            ({
                let id = f.id.0;
                match regen_step_for(*f, old(self).dirty@) {
                    RegenStep::Skip | RegenStep::Keep => job is None && final(self).solids@ == old(
                        self,
                    ).solids@ && final(self).errors@ == old(self).errors@,
                    RegenStep::Drop => job is None && final(self).solids@ == old(self).solids@.remove(
                        id,
                    ) && final(self).errors@ == old(self).errors@.remove(id),
                    RegenStep::Evaluate => final(self).solids@ == old(self).solids@.remove(id) && match evaluation(
                        *f,
                        *doc,
                        old(self).solids@.remove(id).dom(),
                        old(self).errors@.remove(id),
                        has_generator,
                    ) {
                        Err(m) => job is None && final(self).errors@ == old(self).errors@.remove(
                            id,
                        ).insert(id, final(self).errors@[id]) && final(self).errors@[id]@ == m,
                        Ok(j) => job == j && final(self).errors@ == old(self).errors@.remove(id),
                    },
                }
            }),
    {
        match regen_step(f, self.dirty.as_slice()) {
            RegenStep::Skip | RegenStep::Keep => None,
            RegenStep::Drop => {
                clear_feature_results(&mut self.solids, &mut self.errors, f.id);
                None
            },
            RegenStep::Evaluate => {
                clear_feature_results(&mut self.solids, &mut self.errors, f.id);
                match check_dependencies(f, doc, &self.errors) {
                    Err(m) => {
                        self.errors.insert(f.id.0, m);
                        None
                    },
                    Ok(()) => match regen_job(f, doc, &self.solids, has_generator) {
                        Err(m) => {
                            self.errors.insert(f.id.0, m);
                            None
                        },
                        Ok(GeometryJob::Nothing) => None,
                        Ok(j) => Some(j),
                    },
                }
            },
        }
    }

    /// Records the outcome of building the job `step` handed back for
    /// feature `id` (see `record_outcome`).
    pub fn finish(&mut self, id: FeatureId, outcome: Result<Option<Mesh>, String>)
        ensures
            final(self).dirty@ == old(self).dirty@,
            match outcome {
                Ok(Some(m)) => final(self).solids@ == old(self).solids@.insert(id.0, m)
                    && final(self).current_solid == Some(id) && final(self).errors@ == old(
                    self,
                ).errors@,
                Ok(None) => final(self).solids@ == old(self).solids@ && final(self).current_solid
                    == old(self).current_solid && final(self).errors@ == old(self).errors@,
                Err(e) => final(self).errors@ == old(self).errors@.insert(id.0, e)
                    && final(self).solids@ == old(self).solids@ && final(self).current_solid == old(
                    self,
                ).current_solid,
            },
    {
        record_outcome(&mut self.solids, &mut self.errors, &mut self.current_solid, id, outcome);
    }
}

} // verus!
