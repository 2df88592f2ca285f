use std::collections::HashMap;

use echocad::document::Document;
use echocad::feature::{BoolOp, CustomFeatureData, ExtrudeDirection, Feature, FeatureKind, PlaneDefinition};
use echocad::regen::{
    check_dependencies, clear_feature_results, empty_result_message, record_outcome, keeps_error, regen_job, regen_step, GeometryJob, RegenResult, RegenStep,
};
use echocad::sketch::Sketch;
use echocad::{FeatureId, ParameterId};

fn sketch(id: u64) -> Feature {
    Feature::new(FeatureId(id), "Sketch", FeatureKind::Sketch { sketch: Sketch::new(), plane: PlaneDefinition::XY })
}

fn extrude(id: u64, on: u64) -> Feature {
    Feature::new(
        FeatureId(id),
        "Extrude",
        FeatureKind::Extrude {
            sketch_id: FeatureId(on),
            distance: ParameterId(1),
            direction: ExtrudeDirection::Midplane,
            draft_angle_deg: 0,
            selected_regions: Some(vec![0]),
        },
    )
}

#[test]
fn dependency_problems_are_reported_in_order() {
    let mut doc = Document::new("d");
    doc.add_feature(sketch(1));
    doc.add_feature(extrude(2, 1));
    doc.add_feature(extrude(3, 9));
    let none: HashMap<u64, String> = HashMap::new();
    assert!(check_dependencies(&doc.features[1], &doc, &none).is_ok());
    assert_eq!(
        check_dependencies(&doc.features[2], &doc, &none).unwrap_err(),
        "dependency FeatureId(9) not found"
    );
    let mut failed = HashMap::new();
    failed.insert(1u64, "no profile".to_string());
    assert_eq!(
        check_dependencies(&doc.features[1], &doc, &failed).unwrap_err(),
        "dependency FeatureId(1) failed to regenerate"
    );
    doc.features[0].suppressed = true;
    assert_eq!(
        check_dependencies(&doc.features[1], &doc, &failed).unwrap_err(),
        "dependency FeatureId(1) is suppressed"
    );
    // Sketches depend on nothing.
    assert!(check_dependencies(&doc.features[0], &doc, &failed).is_ok());
}

#[test]
fn boolean_reports_its_second_input_too() {
    let mut doc = Document::new("d");
    doc.add_feature(sketch(1));
    let b = Feature::new(
        FeatureId(4),
        "Boolean",
        FeatureKind::Boolean { op: echocad::feature::BoolOp::Union, target_a: FeatureId(1), target_b: FeatureId(12) },
    );
    assert_eq!(
        check_dependencies(&b, &doc, &HashMap::new()).unwrap_err(),
        "dependency FeatureId(12) not found"
    );
}

#[test]
fn full_and_incremental_passes() {
    let mut doc = Document::new("d");
    doc.add_feature(sketch(1));
    doc.add_feature(extrude(2, 1));
    let mut hidden = extrude(3, 1);
    hidden.suppressed = true;
    doc.add_feature(hidden);
    // Full pass.
    assert_eq!(regen_step(&doc.features[0], &[]), RegenStep::Evaluate);
    assert_eq!(regen_step(&doc.features[2], &[]), RegenStep::Skip);
    // Incremental pass after feature 2 changed.
    let dirty = [FeatureId(2)];
    assert_eq!(regen_step(&doc.features[0], &dirty), RegenStep::Keep);
    assert_eq!(regen_step(&doc.features[1], &dirty), RegenStep::Evaluate);
    assert_eq!(regen_step(&doc.features[2], &dirty), RegenStep::Drop);
    assert!(keeps_error(&doc, &dirty, FeatureId(1)));
    assert!(!keeps_error(&doc, &dirty, FeatureId(2)));
    assert!(!keeps_error(&doc, &dirty, FeatureId(40)));
}

#[test]
fn sorted_errors_lists_errors_by_ascending_feature_id() {
    let mut errors: std::collections::HashMap<u64, String> = std::collections::HashMap::new();
    errors.insert(9, "nine".to_string());
    errors.insert(2, "two".to_string());
    errors.insert(5, "five".to_string());
    let r = echocad::regen::sorted_errors(&errors);
    let ids: Vec<u64> = r.iter().map(|(id, _)| id.0).collect();
    assert_eq!(ids, vec![2, 5, 9]);
    assert_eq!(r[0].1, "two");
    assert_eq!(r[2].1, "nine");
    assert!(echocad::regen::sorted_errors(&std::collections::HashMap::new()).is_empty());
}

fn param_doc() -> Document {
    let mut doc = Document::new("d");
    doc.parameters.push(echocad::parameter::Parameter::new(ParameterId(1), "d1", 10.0f64.to_bits()));
    doc
}

fn built(ids: &[u64]) -> HashMap<u64, echocad::mesh::Mesh> {
    ids.iter().map(|i| (*i, echocad::mesh::Mesh::new())).collect()
}

#[test]
fn regen_job_resolves_extrude_inputs() {
    let mut doc = param_doc();
    doc.add_feature(sketch(1));
    doc.add_feature(extrude(2, 1));
    doc.add_feature(extrude(3, 2));
    match regen_job(&doc.features[1], &doc, &built(&[]), false) {
        Ok(GeometryJob::Extrude { sketch_id, height }) => {
            assert_eq!(sketch_id, FeatureId(1));
            assert_eq!(f64::from_bits(height), 10.0);
        }
        other => panic!("unexpected {:?}", other),
    }
    assert_eq!(regen_job(&doc.features[2], &doc, &built(&[2]), false).unwrap_err(), "extrude source is not a sketch");
    assert!(matches!(regen_job(&doc.features[0], &doc, &built(&[]), false), Ok(GeometryJob::Nothing)));
    doc.parameters.clear();
    assert_eq!(
        regen_job(&doc.features[1], &doc, &built(&[]), false).unwrap_err(),
        "extrude distance parameter ParameterId(1) not found"
    );
}

#[test]
fn regen_job_needs_evaluated_targets_and_a_generator() {
    let mut doc = param_doc();
    doc.add_feature(sketch(1));
    doc.add_feature(Feature::new(
        FeatureId(5),
        "Fillet",
        FeatureKind::Fillet { target_id: FeatureId(2), radius: ParameterId(1), edges: Vec::new() },
    ));
    doc.add_feature(Feature::new(
        FeatureId(6),
        "Boolean",
        FeatureKind::Boolean { op: BoolOp::Subtract, target_a: FeatureId(2), target_b: FeatureId(3) },
    ));
    doc.add_feature(Feature::new(
        FeatureId(7),
        "Custom",
        FeatureKind::CustomSolid {
            sketch_id: FeatureId(1),
            distance: ParameterId(1),
            custom: CustomFeatureData { plugin_id: "p".into(), generator_id: "g".into(), params: Vec::new() },
        },
    ));
    assert_eq!(regen_job(&doc.features[1], &doc, &built(&[]), false).unwrap_err(), "fillet target not yet evaluated");
    assert!(matches!(
        regen_job(&doc.features[1], &doc, &built(&[2]), false),
        Ok(GeometryJob::Fillet { target_id: FeatureId(2), .. })
    ));
    assert_eq!(regen_job(&doc.features[2], &doc, &built(&[]), false).unwrap_err(), "boolean target_a not yet evaluated");
    assert_eq!(regen_job(&doc.features[2], &doc, &built(&[2]), false).unwrap_err(), "boolean target_b not yet evaluated");
    assert!(matches!(
        regen_job(&doc.features[2], &doc, &built(&[2, 3]), false),
        Ok(GeometryJob::Boolean { op: BoolOp::Subtract, .. })
    ));
    assert_eq!(
        regen_job(&doc.features[3], &doc, &built(&[]), false).unwrap_err(),
        "custom solid requires a plugin generator (none attached to regen)"
    );
    assert!(matches!(regen_job(&doc.features[3], &doc, &built(&[]), true), Ok(GeometryJob::CustomSolid)));
}

#[test]
fn regen_job_finds_the_revolve_axis_line() {
    let mut s = Sketch::new();
    let a = s.add_point(0.0f64.to_bits(), 0.0f64.to_bits());
    let b = s.add_point(0.0f64.to_bits(), 5.0f64.to_bits());
    let line = s.add_line(a, b);
    let mut doc = param_doc();
    doc.add_feature(Feature::new(FeatureId(1), "Sketch", FeatureKind::Sketch { sketch: s, plane: PlaneDefinition::XY }));
    let rev = |axis| {
        Feature::new(FeatureId(2), "Revolve", FeatureKind::Revolve { sketch_id: FeatureId(1), angle: ParameterId(1), axis_entity_id: axis })
    };
    match regen_job(&rev(Some(line)), &doc, &built(&[]), false) {
        Ok(GeometryJob::Revolve { axis: Some((p, q)), .. }) => {
            assert_eq!(f64::from_bits(p.y), 0.0);
            assert_eq!(f64::from_bits(q.y), 5.0);
        }
        other => panic!("unexpected {:?}", other),
    }
    // A point is no axis: the default axis is used.
    let job = regen_job(&rev(Some(a)), &doc, &built(&[]), false).unwrap();
    assert!(matches!(job, GeometryJob::Revolve { axis: None, .. }));
    assert_eq!(empty_result_message(&job).unwrap(), "revolve produced no mesh");
    assert_eq!(
        regen_job(&Feature::new(FeatureId(3), "Sweep", FeatureKind::Sweep { profile_sketch_id: FeatureId(1), path_sketch_id: FeatureId(9) }), &doc, &built(&[]), false)
            .unwrap_err(),
        "sweep path is not a sketch"
    );
}

#[test]
fn plugin_solid_message_names_plugin_and_generator() {
    let c = CustomFeatureData { plugin_id: "echi.gear".into(), generator_id: "spur_gear".into(), params: Vec::new() };
    assert_eq!(echocad::regen::plugin_solid_message(&c, "boom"), "plugin solid 'echi.gear / spur_gear': boom");
}

#[test]
fn recorded_outcomes_update_solids_errors_and_current() {
    let mut built: HashMap<u64, echocad::mesh::Mesh> = HashMap::new();
    let mut errors: HashMap<u64, String> = HashMap::new();
    let mut current = None;
    record_outcome(&mut built, &mut errors, &mut current, FeatureId(3), Ok(Some(echocad::mesh::Mesh::new())));
    assert!(built.contains_key(&3));
    assert_eq!(current, Some(FeatureId(3)));
    record_outcome(&mut built, &mut errors, &mut current, FeatureId(4), Err("boom".to_string()));
    assert_eq!(errors.get(&4).map(|s| s.as_str()), Some("boom"));
    assert_eq!(current, Some(FeatureId(3)));
    record_outcome(&mut built, &mut errors, &mut current, FeatureId(5), Ok(None));
    assert_eq!((built.len(), errors.len()), (1, 1));
    clear_feature_results(&mut built, &mut errors, FeatureId(3));
    clear_feature_results(&mut built, &mut errors, FeatureId(4));
    assert!(built.is_empty() && errors.is_empty());
}

fn extrude_by(id: u64, on: u64, depth: ParameterId) -> Feature {
    Feature::new(
        FeatureId(id),
        "Extrude",
        FeatureKind::Extrude {
            sketch_id: FeatureId(on),
            distance: depth,
            direction: ExtrudeDirection::OneSide,
            draft_angle_deg: 0,
            selected_regions: None,
        },
    )
}

fn tiny_mesh() -> echocad::mesh::Mesh {
    echocad::mesh::Mesh { positions: vec![0; 9], normals: vec![0; 9], indices: vec![0, 1, 2] }
}

#[test]
fn a_full_pass_steps_through_every_feature() {
    let mut doc = Document::new("d");
    let depth = doc.add_parameter("depth", 2.0f64.to_bits());
    doc.add_feature(sketch(10));
    doc.add_feature(extrude_by(11, 10, depth));
    doc.add_feature(extrude_by(12, 99, depth));
    let mut pass = RegenResult::start(None, &doc);
    assert!(pass.is_ok());
    assert!(pass.dirty.is_empty());
    // A sketch has no geometry to build.
    assert!(pass.step(&doc.features[0], &doc, false).is_none());
    assert!(pass.is_ok());
    // The extrude resolves its inputs and hands back its job.
    match pass.step(&doc.features[1], &doc, false) {
        Some(GeometryJob::Extrude { sketch_id, height }) => {
            assert_eq!(sketch_id, FeatureId(10));
            assert_eq!(height, 2.0f64.to_bits());
        }
        other => panic!("unexpected job {:?}", other),
    }
    pass.finish(FeatureId(11), Ok(Some(tiny_mesh())));
    assert_eq!(pass.current_solid, Some(FeatureId(11)));
    assert!(pass.solids.contains_key(&11));
    // A missing source is recorded as an error and leaves nothing to build.
    assert!(pass.step(&doc.features[2], &doc, false).is_none());
    assert_eq!(pass.errors.get(&12).map(|s| s.as_str()), Some("dependency FeatureId(99) not found"));
    assert!(!pass.is_ok());
    assert_eq!(pass.current_solid, Some(FeatureId(11)));
}

#[test]
fn a_failed_build_is_recorded_by_finish() {
    let mut pass = RegenResult::new();
    pass.finish(FeatureId(5), Err("extrude produced no mesh (open profile or zero depth?)".to_string()));
    assert_eq!(pass.errors.len(), 1);
    assert!(pass.current_solid.is_none());
    pass.finish(FeatureId(6), Ok(None));
    assert_eq!(pass.errors.len(), 1);
    assert!(pass.solids.is_empty());
}

#[test]
fn an_incremental_pass_keeps_clean_results_and_rebuilds_dirty_ones() {
    let mut doc = Document::new("d");
    let depth = doc.add_parameter("depth", 1.0f64.to_bits());
    doc.add_feature(sketch(1));
    doc.add_feature(extrude_by(2, 1, depth));
    let mut hidden = extrude_by(3, 1, depth);
    hidden.suppressed = true;
    doc.add_feature(hidden);

    let mut prev = RegenResult::new();
    prev.solids.insert(2, tiny_mesh());
    prev.solids.insert(3, tiny_mesh());
    prev.current_solid = Some(FeatureId(3));
    prev.errors.insert(1, "sketch error".to_string());
    prev.errors.insert(2, "stale".to_string());
    prev.errors.insert(40, "feature since deleted".to_string());
    prev.dirty = vec![FeatureId(2)];

    let mut pass = RegenResult::start(Some(prev), &doc);
    // Only the clean feature still in the document keeps its error.
    let mut kept: Vec<u64> = pass.errors.keys().copied().collect();
    kept.sort();
    assert_eq!(kept, vec![1]);
    assert_eq!(pass.dirty, vec![FeatureId(2)]);
    assert_eq!(pass.solids.len(), 2);

    // Clean: untouched.
    assert!(pass.step(&doc.features[0], &doc, false).is_none());
    assert_eq!(pass.errors.get(&1).map(|s| s.as_str()), Some("sketch error"));
    // Dirty: its old solid goes, and its failed dependency is reported.
    assert!(pass.step(&doc.features[1], &doc, false).is_none());
    assert!(!pass.solids.contains_key(&2));
    assert_eq!(
        pass.errors.get(&2).map(|s| s.as_str()),
        Some("dependency FeatureId(1) failed to regenerate")
    );
    // Suppressed: dropped from the result.
    assert!(pass.step(&doc.features[2], &doc, false).is_none());
    assert!(!pass.solids.contains_key(&3));
    assert_eq!(pass.current_solid, Some(FeatureId(3)));
}

#[test]
fn regen_result_compute_dirty_follows_dependents() {
    let mut doc = Document::new("d");
    doc.add_feature(sketch(1));
    doc.add_feature(extrude(2, 1));
    doc.add_feature(extrude(3, 7));
    let mut d = RegenResult::compute_dirty(&doc, FeatureId(1));
    d.sort_by_key(|f| f.0);
    assert_eq!(d, vec![FeatureId(1), FeatureId(2)]);
}
