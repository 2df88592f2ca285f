use std::collections::HashMap;

use echocad::document::Document;
use echocad::feature::{CustomFeatureData, ExtrudeDirection, Feature, FeatureKind, PlaneDefinition};
use echocad::node::{count_f64_bits, feature_to_node, parameter_info};
use echocad::sketch::Sketch;
use echocad::{FeatureId, ParameterId};

#[test]
fn count_bits_match_the_float_encoding() {
    for c in [0u32, 1, 2, 3, 4, 5, 7, 8, 10, 12, 100, 1023, 1024, 65535, 1 << 20, u32::MAX - 1, u32::MAX] {
        assert_eq!(count_f64_bits(c), (c as f64).to_bits(), "count {}", c);
    }
}

fn doc_with_sketch_and_extrude() -> Document {
    let mut doc = Document::new("d");
    doc.add_feature(Feature::new(
        FeatureId(1),
        "Sketch1",
        FeatureKind::Sketch { sketch: Sketch::new(), plane: PlaneDefinition::YZ },
    ));
    let depth = doc.add_parameter("depth", 2.5f64.to_bits());
    doc.add_feature(Feature::new(
        FeatureId(3),
        "Extrude1",
        FeatureKind::Extrude {
            sketch_id: FeatureId(1),
            distance: depth,
            direction: ExtrudeDirection::OneSide,
            draft_angle_deg: 0,
            selected_regions: None,
        },
    ));
    doc
}

#[test]
fn sketch_node_shows_plane_and_dependents() {
    let doc = doc_with_sketch_and_extrude();
    let node = feature_to_node(&doc.features[0], &doc, &HashMap::new());
    assert_eq!(node.id, FeatureId(1));
    assert_eq!(node.name, "Sketch1");
    assert_eq!(node.feature_type, "Sketch");
    assert!(node.parameters.is_empty());
    assert_eq!(node.plane.as_deref(), Some("yz"));
    assert!(node.has_dependents);
    assert!(node.errors.is_none());
    assert!(node.target_id.is_none());
    assert!(node.color.is_none());
}

#[test]
fn extrude_node_shows_its_distance_parameter_and_error() {
    let mut doc = doc_with_sketch_and_extrude();
    doc.features[1].color = Some("#ff8800".to_string());
    let mut errors = HashMap::new();
    errors.insert(3u64, "no closed profile".to_string());
    let node = feature_to_node(&doc.features[1], &doc, &errors);
    assert_eq!(node.feature_type, "Extrude");
    assert_eq!(node.parameters.len(), 1);
    assert_eq!(node.parameters[0].id, ParameterId(1));
    assert_eq!(node.parameters[0].name, "depth");
    assert_eq!(node.parameters[0].value, 2.5f64.to_bits());
    assert!(!node.parameters[0].readonly);
    assert_eq!(node.target_id, Some(FeatureId(1)));
    assert!(!node.has_dependents);
    assert_eq!(node.errors.as_deref(), Some("no closed profile"));
    assert_eq!(node.color.as_deref(), Some("#ff8800"));
    assert!(node.plane.is_none());
    assert!(parameter_info(&doc, ParameterId(9)).is_none());
}

#[test]
fn pattern_node_lists_fixed_properties_in_order() {
    let doc = doc_with_sketch_and_extrude();
    let f = Feature::new(
        FeatureId(4),
        "Pattern1",
        FeatureKind::LinearPattern {
            target_id: FeatureId(3),
            dir_x: 1.0f64.to_bits(),
            dir_y: 0,
            dir_z: 0,
            count: 3,
            spacing: 5.0f64.to_bits(),
        },
    );
    let node = feature_to_node(&f, &doc, &HashMap::new());
    let names: Vec<&str> = node.parameters.iter().map(|p| p.name.as_str()).collect();
    assert_eq!(names, vec!["count", "spacing", "dir_x", "dir_y", "dir_z"]);
    assert_eq!(node.parameters[0].value, 3.0f64.to_bits());
    assert_eq!(node.parameters[1].value, 5.0f64.to_bits());
    assert!(node.parameters.iter().all(|p| p.readonly && p.id == ParameterId(0)));
    assert_eq!(node.target_id, Some(FeatureId(3)));
}

#[test]
fn custom_sketch_node_names_its_plugin() {
    let doc = Document::new("d");
    let f = Feature::new(
        FeatureId(8),
        "Gear",
        FeatureKind::CustomSketch {
            sketch: Sketch::new(),
            custom: CustomFeatureData {
                plugin_id: "gear".to_string(),
                generator_id: "spur".to_string(),
                params: vec![("teeth".to_string(), 20.0f64.to_bits()), ("module".to_string(), 2.0f64.to_bits())],
            },
            plane: PlaneDefinition::Offset { base: Box::new(PlaneDefinition::XY), distance: 1.0f64.to_bits() },
        },
    );
    let node = feature_to_node(&f, &doc, &HashMap::new());
    assert_eq!(node.feature_type, "Custom:gear:spur");
    assert_eq!(node.plane.as_deref(), Some("offset"));
    assert_eq!(node.parameters.len(), 2);
    assert_eq!(node.parameters[0].name, "teeth");
    assert_eq!(node.parameters[0].value, 20.0f64.to_bits());
    assert_eq!(node.parameters[1].name, "module");
    assert!(node.parameters[1].readonly);
}
