use echocad::feature::{Feature, FeatureKind};
use echocad::{FeatureId, ParameterId};

fn fillet(target: FeatureId, radius: ParameterId, edges: Vec<(u32, u32)>) -> Feature {
    Feature::new(FeatureId(2), "Fillet1", FeatureKind::Fillet { target_id: target, radius, edges })
}

fn chamfer(target: FeatureId, distance: ParameterId, edges: Vec<(u32, u32)>) -> Feature {
    Feature::new(FeatureId(3), "Chamfer1", FeatureKind::Chamfer { target_id: target, distance, edges })
}

#[test]
fn fillet_dependencies_and_tag_with_edges() {
    let f = fillet(FeatureId(7), ParameterId(1), vec![(0, 1), (2, 3)]);
    // Dependencies ignore the edge list - only the target matters.
    assert_eq!(f.dependencies(), vec![FeatureId(7)]);
    assert_eq!(f.type_tag(), "Fillet");
}

#[test]
fn chamfer_dependencies_and_tag_with_edges() {
    let f = chamfer(FeatureId(9), ParameterId(1), vec![(4, 5)]);
    assert_eq!(f.dependencies(), vec![FeatureId(9)]);
    assert_eq!(f.type_tag(), "Chamfer");
}

#[test]
fn fillet_empty_edges_means_all() {
    let f = fillet(FeatureId(1), ParameterId(1), Vec::new());
    assert_eq!(f.dependencies(), vec![FeatureId(1)]);
}

#[test]
fn boolean_and_sweep_depend_on_both_inputs() {
    let b = Feature::new(
        FeatureId(5),
        "Boolean1",
        FeatureKind::Boolean { op: echocad::feature::BoolOp::Subtract, target_a: FeatureId(3), target_b: FeatureId(4) },
    );
    assert_eq!(b.dependencies(), vec![FeatureId(3), FeatureId(4)]);
    assert_eq!(b.type_tag(), "Boolean");
    let s = Feature::new(
        FeatureId(6),
        "Sweep1",
        FeatureKind::Sweep { profile_sketch_id: FeatureId(1), path_sketch_id: FeatureId(2) },
    );
    assert_eq!(s.dependencies(), vec![FeatureId(1), FeatureId(2)]);
    assert!(!s.is_sketch());
    assert!(s.sketch().is_none());
}

#[test]
fn new_feature_is_top_level_and_visible() {
    let mut f = fillet(FeatureId(7), ParameterId(1), Vec::new());
    assert_eq!(f.id(), FeatureId(2));
    assert_eq!(f.name(), "Fillet1");
    assert!(!f.suppressed);
    assert!(f.color.is_none());
    assert!(f.parent_id.is_none());
    f.set_name("Round");
    assert_eq!(f.name(), "Round");
    assert_eq!(f.dependencies(), vec![FeatureId(7)]);
}

#[test]
fn plane_mut_edits_the_sketch_plane_and_custom_plugin_names_the_owner() {
    let mut f = Feature::new(
        FeatureId(1),
        "Sketch1",
        FeatureKind::Sketch { sketch: echocad::sketch::Sketch::new(), plane: echocad::feature::PlaneDefinition::XY },
    );
    *f.plane_mut().unwrap() = echocad::feature::PlaneDefinition::YZ;
    assert_eq!(f.plane(), Some(&echocad::feature::PlaneDefinition::YZ));
    assert_eq!(f.custom_plugin(), None);

    let custom = echocad::feature::CustomFeatureData {
        plugin_id: "echi.gear".to_string(),
        generator_id: "spur_gear".to_string(),
        params: Vec::new(),
    };
    let mut g = Feature::new(
        FeatureId(2),
        "Gear",
        FeatureKind::CustomSolid { sketch_id: FeatureId(1), distance: ParameterId(3), custom },
    );
    assert_eq!(g.custom_plugin(), Some("echi.gear"));
    assert!(g.plane_mut().is_none());
}
