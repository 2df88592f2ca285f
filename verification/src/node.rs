//! The feature tree as the user interface shows it: one node per feature
//! with its type label, the parameters it exposes, its plane, the feature
//! it builds on and whether anything builds on it.

use std::collections::HashMap;
use vstd::arithmetic::power2::pow2;
use vstd::prelude::*;

use crate::document::{depends_on, is_child_of, parameter_pos, Document};
use crate::feature::{Feature, FeatureKind, PlaneDefinition};
use crate::ids::{FeatureId, ParameterId};

verus! {

broadcast use vstd::std_specs::hash::group_hash_axioms;

/// One parameter shown on a feature node. `value` is an `f64` bit pattern;
/// read-only parameters are fixed properties of the feature rather than
/// document parameters.
#[derive(Debug, Clone)]
pub struct ParameterInfo {
    pub id: ParameterId,
    pub name: String,
    pub value: u64,
    pub readonly: bool,
}

/// A feature as the feature tree shows it.
#[derive(Debug, Clone)]
pub struct FeatureNode {
    pub id: FeatureId,
    pub name: String,
    pub feature_type: String,
    pub parameters: Vec<ParameterInfo>,
    pub suppressed: bool,
    pub has_dependents: bool,
    pub errors: Option<String>,
    /// For sketch features, the plane the sketch lives on.
    pub plane: Option<String>,
    /// Optional per-feature color as a hex string (e.g. "#ff8800").
    pub color: Option<String>,
    /// The primary upstream feature this feature modifies.
    pub target_id: Option<FeatureId>,
}

/// A parameter entry in plain values: id, name, value bits, read-only.
pub type InfoView = (ParameterId, Seq<char>, u64, bool);

pub open spec fn info_view(p: ParameterInfo) -> InfoView {
    (p.id, p.name@, p.value, p.readonly)
}

/// `floor(log2(c))` for `c >= 1`.
pub open spec fn floor_log2(c: nat) -> nat
    decreases c,
{
    if c < 2 {
        0
    } else {
        1 + floor_log2(c / 2)
    }
}

/// The IEEE-754 double-precision encoding of the integer `c` (exact for
/// `c < 2^53`): zero encodes as all zero bits; otherwise the biased
/// exponent is `1023 + floor(log2 c)` and the 52-bit fraction holds the
/// bits of `c` below its leading one.
pub open spec fn int_f64_bits(c: nat) -> nat {
    if c == 0 {
        0
    } else {
        let e = floor_log2(c);
        ((1023 + e) * pow2(52) + (c - pow2(e)) * pow2((52 - e) as nat)) as nat
    }
}

/// A read-only node parameter.
pub open spec fn fixed_info(name: Seq<char>, value: u64) -> InfoView {
    (ParameterId(0), name, value, true)
}

/// The document parameter `id` as a node parameter, when it exists.
pub open spec fn doc_param_infos(doc: Document, id: ParameterId) -> Seq<InfoView> {
    match parameter_pos(doc.parameters@, id) {
        Some(i) => {
            let p = doc.parameters@[i];
            seq![(p.id, p.name@, p.value, false)]
        },
        None => seq![],
    }
}

/// The parameters a feature node shows, in order.
pub open spec fn node_params(k: FeatureKind, doc: Document) -> Seq<InfoView> {
    match k {
        FeatureKind::Sketch { .. } => seq![],
        FeatureKind::CustomSketch { custom, .. } => custom.params@.map_values(
            |e: (String, u64)| fixed_info(e.0@, e.1),
        ),
        FeatureKind::Extrude { distance, .. } => doc_param_infos(doc, distance),
        FeatureKind::Revolve { angle, .. } => doc_param_infos(doc, angle),
        FeatureKind::Fillet { radius, .. } => doc_param_infos(doc, radius),
        FeatureKind::Chamfer { distance, .. } => doc_param_infos(doc, distance),
        FeatureKind::Shell { thickness, .. } => doc_param_infos(doc, thickness),
        FeatureKind::LinearPattern { dir_x, dir_y, dir_z, count, spacing, .. } => seq![
            fixed_info("count"@, int_f64_bits(count as nat) as u64),
            fixed_info("spacing"@, spacing),
            fixed_info("dir_x"@, dir_x),
            fixed_info("dir_y"@, dir_y),
            fixed_info("dir_z"@, dir_z),
        ],
        FeatureKind::CircularPattern {
            count,
            total_angle_deg,
            axis_x,
            axis_y,
            axis_z,
            axis_dx,
            axis_dy,
            axis_dz,
            ..
        } => seq![
            fixed_info("count"@, int_f64_bits(count as nat) as u64),
            fixed_info("total_angle_deg"@, total_angle_deg),
            fixed_info("axis_x"@, axis_x),
            fixed_info("axis_y"@, axis_y),
            fixed_info("axis_z"@, axis_z),
            fixed_info("axis_dx"@, axis_dx),
            fixed_info("axis_dy"@, axis_dy),
            fixed_info("axis_dz"@, axis_dz),
        ],
        FeatureKind::Mirror { plane_nx, plane_ny, plane_nz, plane_px, plane_py, plane_pz, .. } => seq![
            fixed_info("normal_x"@, plane_nx),
            fixed_info("normal_y"@, plane_ny),
            fixed_info("normal_z"@, plane_nz),
            fixed_info("point_x"@, plane_px),
            fixed_info("point_y"@, plane_py),
            fixed_info("point_z"@, plane_pz),
        ],
        FeatureKind::Sweep { .. } => seq![],
        FeatureKind::Boolean { .. } => seq![],
        FeatureKind::CustomSolid { distance, .. } => doc_param_infos(doc, distance),
    }
}

/// The type label of a node: the kind's name, and for plugin sketches the
/// owning plugin and generator.
pub open spec fn node_type(k: FeatureKind) -> Seq<char> {
    match k {
        FeatureKind::Sketch { .. } => "Sketch"@,
        FeatureKind::CustomSketch { custom, .. } => "Custom:"@ + custom.plugin_id@ + ":"@
            + custom.generator_id@,
        FeatureKind::Extrude { .. } => "Extrude"@,
        FeatureKind::Revolve { .. } => "Revolve"@,
        FeatureKind::Fillet { .. } => "Fillet"@,
        FeatureKind::Chamfer { .. } => "Chamfer"@,
        FeatureKind::Shell { .. } => "Shell"@,
        FeatureKind::LinearPattern { .. } => "LinearPattern"@,
        FeatureKind::CircularPattern { .. } => "CircularPattern"@,
        FeatureKind::Mirror { .. } => "Mirror"@,
        FeatureKind::Sweep { .. } => "Sweep"@,
        FeatureKind::Boolean { .. } => "Boolean"@,
        FeatureKind::CustomSolid { .. } => "CustomSolid"@,
    }
}

/// The short tag of a sketch plane.
pub open spec fn plane_tag(p: PlaneDefinition) -> Seq<char> {
    match p {
        PlaneDefinition::XY => "xy"@,
        PlaneDefinition::YZ => "yz"@,
        PlaneDefinition::ZX => "zx"@,
        PlaneDefinition::Offset { .. } => "offset"@,
    }
}

/// The plane a node shows: that of a sketch feature, none otherwise.
pub open spec fn node_plane(k: FeatureKind) -> Option<Seq<char>> {
    match k {
        FeatureKind::Sketch { plane, .. } => Some(plane_tag(plane)),
        FeatureKind::CustomSketch { plane, .. } => Some(plane_tag(plane)),
        _ => None,
    }
}

/// The primary upstream feature of a kind: the source sketch of an extrude,
/// revolve or sweep profile, the target of a modifier or pattern.
pub open spec fn node_target(k: FeatureKind) -> Option<FeatureId> {
    match k {
        FeatureKind::Extrude { sketch_id, .. } => Some(sketch_id),
        FeatureKind::Revolve { sketch_id, .. } => Some(sketch_id),
        FeatureKind::Fillet { target_id, .. } => Some(target_id),
        FeatureKind::Chamfer { target_id, .. } => Some(target_id),
        FeatureKind::Shell { target_id, .. } => Some(target_id),
        FeatureKind::LinearPattern { target_id, .. } => Some(target_id),
        FeatureKind::CircularPattern { target_id, .. } => Some(target_id),
        FeatureKind::Mirror { target_id, .. } => Some(target_id),
        FeatureKind::Sweep { profile_sketch_id, .. } => Some(profile_sketch_id),
        _ => None,
    }
}

/// Some feature of `fs` builds on `id` or is nested under it.
pub open spec fn has_dependents_in(fs: Seq<Feature>, id: FeatureId) -> bool {
    (exists|i: int| 0 <= i < fs.len() && depends_on(#[trigger] fs[i], id)) || (exists|i: int|
        0 <= i < fs.len() && is_child_of(#[trigger] fs[i], id))
}

/// The view of an optional string.
pub open spec fn opt_text(s: Option<String>) -> Option<Seq<char>> {
    match s {
        Some(t) => Some(t@),
        None => None,
    }
}

proof fn lemma_floor_log2_bounds(c: nat)
    requires
        c >= 1,
    ensures
        pow2(floor_log2(c)) <= c < pow2(floor_log2(c) + 1),
    decreases c,
{
    vstd::arithmetic::power2::lemma2_to64();
    if c >= 2 {
        lemma_floor_log2_bounds(c / 2);
        vstd::arithmetic::power2::lemma_pow2_unfold(floor_log2(c));
        vstd::arithmetic::power2::lemma_pow2_unfold(floor_log2(c) + 1);
    }
}

/// The bits of `c as f64`, computed on integers.
pub fn count_f64_bits(c: u32) -> (bits: u64)
    ensures
        bits == int_f64_bits(c as nat),
{
    if c == 0 {
        return 0;
    }
    proof {
        vstd::arithmetic::power2::lemma2_to64();
        vstd::arithmetic::power2::lemma2_to64_rest();
        lemma_floor_log2_bounds(c as nat);
    }
    // The exponent: halve until one is left.
    let mut q: u32 = c;
    let mut e: u64 = 0;
    while q >= 2
        invariant
            1 <= q <= c,
            floor_log2(c as nat) == e + floor_log2(q as nat),
            e < 32,
            q * pow2(e as nat) <= c,
        decreases q,
    {
        proof {
            vstd::arithmetic::power2::lemma2_to64();
            vstd::arithmetic::power2::lemma_pow2_unfold((e + 1) as nat);
            assert((q / 2) * pow2((e + 1) as nat) <= c) by (nonlinear_arith)
                requires
                    q * pow2(e as nat) <= c,
                    pow2((e + 1) as nat) == 2 * pow2(e as nat),
            ;
            assert(pow2((e + 1) as nat) <= c) by (nonlinear_arith)
                requires
                    (q / 2) * pow2((e + 1) as nat) <= c,
                    q >= 2,
            ;
            if e + 1 > 32 {
                vstd::arithmetic::power2::lemma_pow2_strictly_increases(32, (e + 1) as nat);
            }
        }
        q = q / 2;
        e = e + 1;
    }
    assert(e == floor_log2(c as nat));
    // The leading power of two.
    let mut p: u64 = 1;
    let mut i: u64 = 0;
    while i < e
        invariant
            i <= e,
            e == floor_log2(c as nat),
            pow2(e as nat) <= c,
            p == pow2(i as nat),
        decreases e - i,
    {
        proof {
            vstd::arithmetic::power2::lemma_pow2_unfold((i + 1) as nat);
            if i + 1 < e {
                vstd::arithmetic::power2::lemma_pow2_strictly_increases((i + 1) as nat, e as nat);
            }
        }
        p = p * 2;
        i = i + 1;
    }
    assert(e < 32) by {
        if e >= 32 {
            vstd::arithmetic::power2::lemma_pow2_strictly_increases(31, e as nat);
        }
    }
    // The fraction: the bits below the leading one, shifted to the top.
    let mut m: u64 = c as u64 - p;
    let mut k: u64 = e;
    proof {
        vstd::arithmetic::power2::lemma_pow2_unfold((e + 1) as nat);
        assert((c - p) * pow2(0) == c - p) by (nonlinear_arith)
            requires
                pow2(0) == 1,
        ;
    }
    while k < 52
        invariant
            e <= k <= 52,
            e == floor_log2(c as nat),
            p == pow2(e as nat),
            m == (c - p) * pow2((k - e) as nat),
            m < pow2(k as nat),
        decreases 52 - k,
    {
        proof {
            vstd::arithmetic::power2::lemma_pow2_unfold((k + 1 - e) as nat);
            vstd::arithmetic::power2::lemma_pow2_unfold((k + 1) as nat);
            vstd::arithmetic::power2::lemma2_to64_rest();
            if k + 1 < 52 {
                vstd::arithmetic::power2::lemma_pow2_strictly_increases((k + 1) as nat, 52);
            }
            assert(m * 2 == (c - p) * pow2((k + 1 - e) as nat)) by (nonlinear_arith)
                requires
                    m == (c - p) * pow2((k - e) as nat),
                    pow2((k + 1 - e) as nat) == 2 * pow2((k - e) as nat),
            ;
        }
        m = m * 2;
        k = k + 1;
    }
    (1023 + e) * 4503599627370496 + m
}

/// The document parameter `id` as a node parameter, when it exists.
pub fn parameter_info(doc: &Document, id: ParameterId) -> (r: Option<ParameterInfo>)
    ensures
        match r {
            Some(p) => doc_param_infos(*doc, id) == seq![info_view(p)],
            None => doc_param_infos(*doc, id) == Seq::<InfoView>::empty(),
        },
{
    match doc.get_parameter(id) {
        Some(p) => Some(
            ParameterInfo { id: p.id, name: p.name.clone(), value: p.value, readonly: false },
        ),
        None => None,
    }
}

fn fixed(name: &str, value: u64) -> (p: ParameterInfo)
    ensures
        info_view(p) == fixed_info(name@, value),
{
    ParameterInfo { id: ParameterId(0), name: name.to_owned(), value, readonly: true }
}

fn doc_params(doc: &Document, id: ParameterId) -> (v: Vec<ParameterInfo>)
    ensures
        v@.map_values(|p: ParameterInfo| info_view(p)) == doc_param_infos(*doc, id),
{
    let mut v: Vec<ParameterInfo> = Vec::new();
    match parameter_info(doc, id) {
        Some(p) => {
            v.push(p);
        },
        None => {},
    }
    assert(v@.map_values(|p: ParameterInfo| info_view(p)) =~= doc_param_infos(*doc, id));
    v
}

fn node_parameters(k: &FeatureKind, doc: &Document) -> (v: Vec<ParameterInfo>)
    ensures
        v@.map_values(|p: ParameterInfo| info_view(p)) == node_params(*k, *doc),
{
    let mut v: Vec<ParameterInfo> = Vec::new();
    match k {
        FeatureKind::Sketch { .. } => {},
        FeatureKind::CustomSketch { custom, .. } => {
            let mut i: usize = 0;
            while i < custom.params.len()
                invariant
                    i <= custom.params@.len(),
                    v@.map_values(|p: ParameterInfo| info_view(p)) == custom.params@.take(
                        i as int,
                    ).map_values(|e: (String, u64)| fixed_info(e.0@, e.1)),
                decreases custom.params@.len() - i,
            {
                let (name, value) = &custom.params[i];
                let ghost before = v@;
                let info = fixed(name.as_str(), *value);
                v.push(info);
                proof {
                    assert(custom.params@[i as int] == (*name, *value));
                    assert(custom.params@.take(i + 1) =~= custom.params@.take(i as int).push(
                        custom.params@[i as int],
                    ));
                    assert(v@ =~= before.push(info));
                    assert(v@.map_values(|p: ParameterInfo| info_view(p)) =~= before.map_values(
                        |p: ParameterInfo| info_view(p),
                    ).push(info_view(info)));
                    assert(custom.params@.take(i + 1).map_values(
                        |e: (String, u64)| fixed_info(e.0@, e.1),
                    ) =~= custom.params@.take(i as int).map_values(
                        |e: (String, u64)| fixed_info(e.0@, e.1),
                    ).push(fixed_info(name@, *value)));
                }
                assert(v@.map_values(|p: ParameterInfo| info_view(p)) =~= custom.params@.take(
                    i + 1,
                ).map_values(|e: (String, u64)| fixed_info(e.0@, e.1)));
                i = i + 1;
            }
            assert(custom.params@.take(custom.params@.len() as int) =~= custom.params@);
        },
        FeatureKind::Extrude { distance, .. } => {
            return doc_params(doc, *distance);
        },
        FeatureKind::Revolve { angle, .. } => {
            return doc_params(doc, *angle);
        },
        FeatureKind::Fillet { radius, .. } => {
            return doc_params(doc, *radius);
        },
        FeatureKind::Chamfer { distance, .. } => {
            return doc_params(doc, *distance);
        },
        FeatureKind::Shell { thickness, .. } => {
            return doc_params(doc, *thickness);
        },
        FeatureKind::LinearPattern { dir_x, dir_y, dir_z, count, spacing, .. } => {
            v.push(fixed("count", count_f64_bits(*count)));
            v.push(fixed("spacing", *spacing));
            v.push(fixed("dir_x", *dir_x));
            v.push(fixed("dir_y", *dir_y));
            v.push(fixed("dir_z", *dir_z));
        },
        FeatureKind::CircularPattern {
            count,
            total_angle_deg,
            axis_x,
            axis_y,
            axis_z,
            axis_dx,
            axis_dy,
            axis_dz,
            ..
        } => {
            v.push(fixed("count", count_f64_bits(*count)));
            v.push(fixed("total_angle_deg", *total_angle_deg));
            v.push(fixed("axis_x", *axis_x));
            v.push(fixed("axis_y", *axis_y));
            v.push(fixed("axis_z", *axis_z));
            v.push(fixed("axis_dx", *axis_dx));
            v.push(fixed("axis_dy", *axis_dy));
            v.push(fixed("axis_dz", *axis_dz));
        },
        FeatureKind::Mirror { plane_nx, plane_ny, plane_nz, plane_px, plane_py, plane_pz, .. } => {
            v.push(fixed("normal_x", *plane_nx));
            v.push(fixed("normal_y", *plane_ny));
            v.push(fixed("normal_z", *plane_nz));
            v.push(fixed("point_x", *plane_px));
            v.push(fixed("point_y", *plane_py));
            v.push(fixed("point_z", *plane_pz));
        },
        FeatureKind::Sweep { .. } => {},
        FeatureKind::Boolean { .. } => {},
        FeatureKind::CustomSolid { distance, .. } => {
            return doc_params(doc, *distance);
        },
    }
    assert(v@.map_values(|p: ParameterInfo| info_view(p)) =~= node_params(*k, *doc));
    v
}

fn node_type_label(k: &FeatureKind) -> (s: String)
    ensures
        s@ == node_type(*k),
{
    match k {
        FeatureKind::Sketch { .. } => "Sketch".to_owned(),
        FeatureKind::CustomSketch { custom, .. } => {
            let mut s = "Custom:".to_owned();
            s.append(custom.plugin_id.as_str());
            s.append(":");
            s.append(custom.generator_id.as_str());
            s
        },
        FeatureKind::Extrude { .. } => "Extrude".to_owned(),
        FeatureKind::Revolve { .. } => "Revolve".to_owned(),
        FeatureKind::Fillet { .. } => "Fillet".to_owned(),
        FeatureKind::Chamfer { .. } => "Chamfer".to_owned(),
        FeatureKind::Shell { .. } => "Shell".to_owned(),
        FeatureKind::LinearPattern { .. } => "LinearPattern".to_owned(),
        FeatureKind::CircularPattern { .. } => "CircularPattern".to_owned(),
        FeatureKind::Mirror { .. } => "Mirror".to_owned(),
        FeatureKind::Sweep { .. } => "Sweep".to_owned(),
        FeatureKind::Boolean { .. } => "Boolean".to_owned(),
        FeatureKind::CustomSolid { .. } => "CustomSolid".to_owned(),
    }
}

fn plane_label(p: &PlaneDefinition) -> (s: String)
    ensures
        s@ == plane_tag(*p),
{
    match p {
        PlaneDefinition::YZ => "yz".to_owned(),
        PlaneDefinition::ZX => "zx".to_owned(),
        PlaneDefinition::Offset { .. } => "offset".to_owned(),
        PlaneDefinition::XY => "xy".to_owned(),
    }
}

fn target_of(k: &FeatureKind) -> (t: Option<FeatureId>)
    ensures
        t == node_target(*k),
{
    match k {
        FeatureKind::Extrude { sketch_id, .. } => Some(*sketch_id),
        FeatureKind::Revolve { sketch_id, .. } => Some(*sketch_id),
        FeatureKind::Fillet { target_id, .. } => Some(*target_id),
        FeatureKind::Chamfer { target_id, .. } => Some(*target_id),
        FeatureKind::Shell { target_id, .. } => Some(*target_id),
        FeatureKind::LinearPattern { target_id, .. } => Some(*target_id),
        FeatureKind::CircularPattern { target_id, .. } => Some(*target_id),
        FeatureKind::Mirror { target_id, .. } => Some(*target_id),
        FeatureKind::Sweep { profile_sketch_id, .. } => Some(*profile_sketch_id),
        _ => None,
    }
}

/// Projects a feature of `doc` to its tree node. `errors` holds the
/// regeneration error of each failed feature, keyed by the number inside
/// its `FeatureId`.
pub fn feature_to_node(f: &Feature, doc: &Document, errors: &HashMap<u64, String>) -> (n:
    FeatureNode)
    ensures
        n.id == f.id,
        n.name@ == f.name@,
        n.feature_type@ == node_type(f.kind),
        n.parameters@.map_values(|p: ParameterInfo| info_view(p)) == node_params(f.kind, *doc),
        n.suppressed == f.suppressed,
        n.has_dependents == has_dependents_in(doc.features@, f.id),
        opt_text(n.errors) == (if errors@.contains_key(f.id.0) {
            Some(errors@[f.id.0]@)
        } else {
            None
        }),
        opt_text(n.plane) == node_plane(f.kind),
        opt_text(n.color) == opt_text(f.color),
        n.target_id == node_target(f.kind),
{
    let parameters = node_parameters(&f.kind, doc);
    let plane = match f.plane() {
        Some(p) => Some(plane_label(p)),
        None => None,
    };
    let err = match errors.get(&f.id.0) {
        Some(e) => Some(e.clone()),
        None => None,
    };
    let color = match &f.color {
        Some(c) => Some(c.clone()),
        None => None,
    };
    FeatureNode {
        id: f.id(),
        name: f.name.clone(),
        feature_type: node_type_label(&f.kind),
        parameters,
        suppressed: f.suppressed,
        has_dependents: doc.has_dependents(f.id()),
        errors: err,
        plane,
        color,
        target_id: target_of(&f.kind),
    }
}

} // verus!
