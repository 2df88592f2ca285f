use echocad::document::Document;
use echocad::edit::{
    active_sketch_mut, add_feature_kind, add_feature_with_param, add_plugin_sketch_feature,
    add_sketch_feature, base_plane_from_tag, bool_op_from_tag, can_be_active, check_new_feature,
    default_feature_name, delete_feature, first_sketch_feature, move_point, parameter_belongs_to,
    parameter_owner, remove_constraint, rename_feature, restore_active, set_feature_color,
    set_feature_suppressed, sketch_plane_from_tag, update_circular_pattern, update_constraint_value,
    update_entity_prop, update_linear_pattern, update_mirror_params, update_parameter, ParamFeature,
    ParamUpdate, push_recent_file, starter_document, MAX_RECENT,
};
use echocad::feature::{BoolOp, CustomFeatureData, ExtrudeDirection, FeatureKind, PlaneDefinition};
use echocad::sketch::{Constraint, Sketch, SketchEntity, SketchPoint};
use echocad::{EntityId, FeatureId, ParameterId};

fn extrude_req(sketch: u64) -> ParamFeature {
    ParamFeature::Extrude {
        sketch_id: FeatureId(sketch),
        direction: ExtrudeDirection::OneSide,
        draft_angle_deg: 0,
        selected_regions: None,
    }
}

fn ids(doc: &Document) -> Vec<u64> {
    doc.features.iter().map(|f| f.id.0).collect()
}

#[test]
fn default_names_follow_the_kind() {
    let k = FeatureKind::LinearPattern { target_id: FeatureId(1), dir_x: 0, dir_y: 0, dir_z: 0, count: 2, spacing: 0 };
    assert_eq!(default_feature_name(&k, FeatureId(3)), "Pattern3");
    let k = FeatureKind::Sweep { profile_sketch_id: FeatureId(1), path_sketch_id: FeatureId(2) };
    assert_eq!(default_feature_name(&k, FeatureId(12)), "Sweep12");
    let k = FeatureKind::CircularPattern {
        target_id: FeatureId(1),
        axis_x: 0,
        axis_y: 0,
        axis_z: 0,
        axis_dx: 0,
        axis_dy: 0,
        axis_dz: 0,
        count: 4,
        total_angle_deg: 0,
    };
    assert_eq!(default_feature_name(&k, FeatureId(4)), "CircPattern4");
}

#[test]
fn tags_pick_planes_and_operations() {
    assert_eq!(sketch_plane_from_tag("yz"), PlaneDefinition::YZ);
    assert_eq!(sketch_plane_from_tag("zx"), PlaneDefinition::ZX);
    assert_eq!(sketch_plane_from_tag("anything"), PlaneDefinition::XY);
    assert_eq!(base_plane_from_tag("xy").unwrap(), PlaneDefinition::XY);
    assert_eq!(base_plane_from_tag("zx").unwrap(), PlaneDefinition::ZX);
    assert_eq!(base_plane_from_tag("top").unwrap_err(), "unknown base plane 'top' (expected xy|yz|zx)");
    assert_eq!(bool_op_from_tag("subtract"), BoolOp::Subtract);
    assert_eq!(bool_op_from_tag("intersect"), BoolOp::Intersect);
    assert_eq!(bool_op_from_tag("merge"), BoolOp::Union);
}

#[test]
fn features_are_created_with_ids_names_and_parameters() {
    let mut doc = Document::new("d");
    let s = add_sketch_feature(&mut doc, PlaneDefinition::YZ);
    assert_eq!(s, FeatureId(1));
    assert_eq!(doc.features[0].name, "Sketch1");
    assert!(matches!(doc.features[0].kind, FeatureKind::Sketch { plane: PlaneDefinition::YZ, .. }));
    let e = add_feature_with_param(&mut doc, "Extrude", 5.0f64.to_bits(), extrude_req(1)).unwrap();
    assert_eq!(e, FeatureId(3));
    assert_eq!(doc.parameters[0].id, ParameterId(2));
    assert_eq!(doc.parameters[0].name, "Extrude3");
    assert_eq!(doc.parameters[0].value, 5.0f64.to_bits());
    assert_eq!(doc.features[1].name, "Extrude3");
    assert!(matches!(doc.features[1].kind, FeatureKind::Extrude { distance: ParameterId(2), .. }));
    assert_eq!(doc.peek_next_id(), 4);
    let b = add_feature_kind(
        &mut doc,
        FeatureKind::Boolean { op: BoolOp::Union, target_a: FeatureId(3), target_b: FeatureId(1) },
    )
    .unwrap();
    assert_eq!(b, FeatureId(4));
    assert_eq!(doc.features[2].name, "Boolean4");
}

#[test]
fn features_with_missing_inputs_are_refused() {
    let mut doc = Document::new("d");
    add_sketch_feature(&mut doc, PlaneDefinition::XY);
    let err = add_feature_with_param(
        &mut doc,
        "Fillet",
        1.0f64.to_bits(),
        ParamFeature::Fillet { target_id: FeatureId(9), edges: Vec::new() },
    )
    .unwrap_err();
    assert_eq!(err, "Dependency FeatureId(9) does not exist");
    assert!(doc.parameters.is_empty());
    assert_eq!(ids(&doc), vec![1]);
    assert_eq!(doc.peek_next_id(), 2);
    let sweep = FeatureKind::Sweep { profile_sketch_id: FeatureId(1), path_sketch_id: FeatureId(7) };
    assert_eq!(check_new_feature(&doc, &sweep).unwrap_err(), "Dependency FeatureId(7) does not exist");
    assert!(add_feature_kind(&mut doc, sweep).is_err());
    assert_eq!(ids(&doc), vec![1]);
}

#[test]
fn parameter_updates_report_the_driven_feature() {
    let mut doc = Document::new("d");
    add_sketch_feature(&mut doc, PlaneDefinition::XY);
    add_feature_with_param(&mut doc, "Extrude", 1.0f64.to_bits(), extrude_req(1)).unwrap();
    let k = &doc.features[1].kind;
    assert!(parameter_belongs_to(k, ParameterId(2)));
    assert!(!parameter_belongs_to(k, ParameterId(1)));
    assert_eq!(parameter_owner(&doc, ParameterId(2)), Some(FeatureId(3)));
    assert_eq!(
        update_parameter(&mut doc, ParameterId(2), 7.0f64.to_bits()),
        ParamUpdate::Updated { owner: Some(FeatureId(3)) }
    );
    assert_eq!(doc.parameters[0].value, 7.0f64.to_bits());
    assert_eq!(update_parameter(&mut doc, ParameterId(99), 0), ParamUpdate::Missing);
}

#[test]
fn renaming_suppressing_and_coloring() {
    let mut doc = Document::new("d");
    add_sketch_feature(&mut doc, PlaneDefinition::XY);
    assert!(rename_feature(&mut doc, FeatureId(1), "Base"));
    assert_eq!(doc.features[0].name, "Base");
    assert!(!rename_feature(&mut doc, FeatureId(5), "x"));
    assert!(set_feature_suppressed(&mut doc, FeatureId(1), true));
    assert!(doc.features[0].suppressed);
    assert!(!set_feature_suppressed(&mut doc, FeatureId(5), true));
    set_feature_color(&mut doc, FeatureId(1), Some("#ff8800".to_string())).unwrap();
    assert_eq!(doc.features[0].color.as_deref(), Some("#ff8800"));
    assert_eq!(set_feature_color(&mut doc, FeatureId(5), None).unwrap_err(), "feature not found");
}

#[test]
fn pattern_and_mirror_updates_check_the_kind() {
    let mut doc = Document::new("d");
    add_sketch_feature(&mut doc, PlaneDefinition::XY);
    add_feature_with_param(&mut doc, "Extrude", 1.0f64.to_bits(), extrude_req(1)).unwrap();
    let lp = add_feature_kind(
        &mut doc,
        FeatureKind::LinearPattern { target_id: FeatureId(3), dir_x: 0, dir_y: 0, dir_z: 0, count: 2, spacing: 0 },
    )
    .unwrap();
    update_linear_pattern(&mut doc, lp, 5, 2.0f64.to_bits(), 1.0f64.to_bits(), 0, 0).unwrap();
    match doc.features[2].kind {
        FeatureKind::LinearPattern { target_id, count, spacing, dir_x, .. } => {
            assert_eq!(target_id, FeatureId(3));
            assert_eq!(count, 5);
            assert_eq!(spacing, 2.0f64.to_bits());
            assert_eq!(dir_x, 1.0f64.to_bits());
        }
        _ => panic!("kind changed"),
    }
    assert_eq!(update_linear_pattern(&mut doc, FeatureId(3), 1, 0, 0, 0, 0).unwrap_err(), "feature is not a LinearPattern");
    assert_eq!(update_circular_pattern(&mut doc, lp, 1, 0, 0, 0, 0).unwrap_err(), "feature is not a CircularPattern");
    assert_eq!(update_mirror_params(&mut doc, lp, 0, 0, 0, 0, 0, 0).unwrap_err(), "feature is not a Mirror");
    assert_eq!(update_mirror_params(&mut doc, FeatureId(50), 0, 0, 0, 0, 0, 0).unwrap_err(), "feature not found");
}

#[test]
fn delete_refuses_features_with_dependents_unless_cascading() {
    let mut doc = Document::new("d");
    add_sketch_feature(&mut doc, PlaneDefinition::XY);
    add_feature_with_param(&mut doc, "Extrude", 1.0f64.to_bits(), extrude_req(1)).unwrap();
    add_feature_with_param(&mut doc, "Fillet", 1.0f64.to_bits(), ParamFeature::Fillet { target_id: FeatureId(3), edges: Vec::new() })
        .unwrap();
    add_feature_with_param(&mut doc, "Extrude", 2.0f64.to_bits(), extrude_req(1)).unwrap();
    let s2 = add_sketch_feature(&mut doc, PlaneDefinition::XY);
    assert_eq!(ids(&doc), vec![1, 3, 5, 7, 8]);
    let err = delete_feature(&mut doc, FeatureId(1), false, Some(FeatureId(1))).unwrap_err();
    assert_eq!(err, "dependents:Extrude3,Extrude7");
    assert_eq!(ids(&doc), vec![1, 3, 5, 7, 8]);
    // Cascading removes the sketch, both extrudes and the fillet.
    let active = delete_feature(&mut doc, FeatureId(1), true, Some(FeatureId(1))).unwrap();
    assert_eq!(ids(&doc), vec![s2.0]);
    assert_eq!(active, Some(s2));
    // A leaf goes without cascade; the active sketch stays when it survives.
    let mut doc2 = Document::new("e");
    add_sketch_feature(&mut doc2, PlaneDefinition::XY);
    add_feature_with_param(&mut doc2, "Extrude", 1.0f64.to_bits(), extrude_req(1)).unwrap();
    assert_eq!(delete_feature(&mut doc2, FeatureId(3), false, Some(FeatureId(1))).unwrap(), Some(FeatureId(1)));
    assert_eq!(ids(&doc2), vec![1]);
    assert_eq!(delete_feature(&mut doc2, FeatureId(1), false, Some(FeatureId(1))).unwrap(), None);
}

#[test]
fn active_sketch_choice() {
    let mut doc = Document::new("d");
    add_sketch_feature(&mut doc, PlaneDefinition::XY);
    add_feature_with_param(&mut doc, "Extrude", 1.0f64.to_bits(), extrude_req(1)).unwrap();
    assert!(can_be_active(&doc, FeatureId(1)));
    assert!(!can_be_active(&doc, FeatureId(3)));
    assert!(!can_be_active(&doc, FeatureId(9)));
    assert_eq!(first_sketch_feature(&doc), Some(FeatureId(1)));
    assert_eq!(restore_active(&doc, Some(FeatureId(3))), Some(FeatureId(1)));
    assert_eq!(restore_active(&doc, None), Some(FeatureId(1)));
    assert_eq!(restore_active(&doc, Some(FeatureId(1))), Some(FeatureId(1)));
    let plugin = add_plugin_sketch_feature(
        &mut doc,
        Sketch::new(),
        CustomFeatureData { plugin_id: "echi.gear".to_string(), generator_id: "spur_gear".to_string(), params: Vec::new() },
        "Spur Gear",
    );
    assert_eq!(doc.features[2].name, "Spur Gear_4");
    assert_eq!(restore_active(&doc, Some(plugin)), Some(plugin));
    // Edit the active sketch in place.
    {
        let s = active_sketch_mut(&mut doc, Some(FeatureId(1))).expect("sketch");
        s.add_point(1, 2);
    }
    assert_eq!(doc.features[0].sketch().unwrap().entities.len(), 1);
    assert!(active_sketch_mut(&mut doc, Some(FeatureId(3))).is_none());
    assert!(active_sketch_mut(&mut doc, None).is_none());
}

#[test]
fn sketch_edits() {
    let mut s = Sketch::new();
    let p = s.add_point(0, 0);
    let q = s.add_point(0, 0);
    let line = s.add_line(p, q);
    let c = s.add_circle(p, 1.0f64.to_bits());
    // Dimensions replace an existing one on the same entities.
    update_constraint_value(&mut s, Constraint::Distance { a: p, b: q, distance: 3.0f64.to_bits() });
    update_constraint_value(&mut s, Constraint::Radius { circle: c, radius: 1.0f64.to_bits() });
    update_constraint_value(&mut s, Constraint::Distance { a: p, b: q, distance: 4.0f64.to_bits() });
    assert_eq!(s.constraints.len(), 2);
    assert!(matches!(s.constraints[0], Constraint::Distance { distance, .. } if distance == 4.0f64.to_bits()));
    assert!(remove_constraint(&mut s, 1));
    assert!(!remove_constraint(&mut s, 1));
    assert_eq!(s.constraints.len(), 1);
    // Properties.
    assert!(update_entity_prop(&mut s, c, "radius", 2.5f64.to_bits()));
    assert!(matches!(s.entities.get(&c.0), Some(SketchEntity::Circle { radius, .. }) if *radius == 2.5f64.to_bits()));
    assert!(update_entity_prop(&mut s, line, "construction", 1.0f64.to_bits()));
    assert!(matches!(s.entities.get(&line.0), Some(SketchEntity::Line { construction: true, .. })));
    assert!(update_entity_prop(&mut s, line, "construction", (-0.0f64).to_bits()));
    assert!(matches!(s.entities.get(&line.0), Some(SketchEntity::Line { construction: false, .. })));
    assert!(!update_entity_prop(&mut s, line, "radius", 0));
    assert!(!update_entity_prop(&mut s, EntityId(77), "x", 0));
    assert!(update_entity_prop(&mut s, p, "y", 6.0f64.to_bits()));
    // Moving points.
    move_point(&mut s, q, 1.0f64.to_bits(), 2.0f64.to_bits());
    assert!(matches!(s.entities.get(&q.0), Some(SketchEntity::Point(SketchPoint { x, y })) if *x == 1.0f64.to_bits() && *y == 2.0f64.to_bits()));
    move_point(&mut s, line, 9, 9);
    assert!(matches!(s.entities.get(&line.0), Some(SketchEntity::Line { .. })));
    assert_eq!(s.entities.len(), 4);
}

#[test]
fn a_session_starts_with_one_sketch() {
    let (doc, active) = starter_document();
    assert_eq!(doc.name, "Part1");
    assert_eq!(active, FeatureId(1));
    assert_eq!(doc.features.len(), 1);
    assert_eq!(doc.features[0].name, "Sketch1");
    assert_eq!(doc.peek_next_id(), 2);
}

#[test]
fn recent_files_keep_the_latest_first_without_repeats() {
    let files: Vec<String> = vec!["a".to_string(), "b".to_string(), "c".to_string()];
    assert_eq!(push_recent_file(files.clone(), "b"), vec!["b", "a", "c"]);
    assert_eq!(push_recent_file(files, "d"), vec!["d", "a", "b", "c"]);
    let many: Vec<String> = (0..12).map(|i| format!("f{}", i)).collect();
    let r = push_recent_file(many, "new");
    assert_eq!(r.len(), MAX_RECENT);
    assert_eq!(r[0], "new");
    assert_eq!(r[9], "f8");
    assert_eq!(push_recent_file(Vec::new(), "x"), vec!["x"]);
}

#[test]
fn a_parameter_reads_back_what_was_written() {
    let mut doc = Document::new("d");
    let a = doc.add_parameter("a", 1.0f64.to_bits());
    let b = doc.add_parameter("b", 2.0f64.to_bits());
    update_parameter(&mut doc, a, 5.5f64.to_bits());
    assert_eq!(f64::from_bits(doc.get_parameter(a).unwrap().value), 5.5);
    assert_eq!(f64::from_bits(doc.get_parameter(b).unwrap().value), 2.0);
}

#[test]
fn recovery_is_offered_for_a_newer_autosave_or_an_unknown_project_time() {
    assert!(echocad::edit::recovery_available(10, Some(5)));
    assert!(!echocad::edit::recovery_available(5, Some(5)));
    assert!(!echocad::edit::recovery_available(4, Some(5)));
    assert!(echocad::edit::recovery_available(0, None));
}
