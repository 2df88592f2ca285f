use echocad::document::{compute_dirty, default_format_version, Document};
use echocad::feature::{ExtrudeDirection, Feature, FeatureKind, PlaneDefinition};
use echocad::sketch::Sketch;
use echocad::{FeatureId, ParameterId};

fn sketch_feature(id: u64) -> Feature {
    Feature::new(
        FeatureId(id),
        &format!("Sketch{}", id),
        FeatureKind::Sketch { sketch: Sketch::new(), plane: PlaneDefinition::XY },
    )
}

fn extrude_feature(id: u64, sketch: u64) -> Feature {
    Feature::new(
        FeatureId(id),
        &format!("Extrude{}", id),
        FeatureKind::Extrude {
            sketch_id: FeatureId(sketch),
            distance: ParameterId(1),
            direction: ExtrudeDirection::OneSide,
            draft_angle_deg: 0.0f64.to_bits(),
            selected_regions: None,
        },
    )
}

fn fillet_feature(id: u64, target: u64) -> Feature {
    Feature::new(
        FeatureId(id),
        &format!("Fillet{}", id),
        FeatureKind::Fillet { target_id: FeatureId(target), radius: ParameterId(1), edges: Vec::new() },
    )
}

fn ids(doc: &Document) -> Vec<u64> {
    doc.features.iter().map(|f| f.id.0).collect()
}

#[test]
fn dependents_of_finds_downstream() {
    let mut doc = Document::new("test");
    let s1 = sketch_feature(1);
    doc.add_feature(s1);
    doc.add_feature(Feature::new(
        FeatureId(2),
        "Extrude1",
        FeatureKind::Extrude {
            sketch_id: FeatureId(1),
            distance: ParameterId(1),
            direction: ExtrudeDirection::OneSide,
            draft_angle_deg: 0.0f64.to_bits(),
            selected_regions: None,
        },
    ));
    doc.add_parameter("depth", 1.0f64.to_bits());

    assert_eq!(doc.dependents_of(FeatureId(1)), vec![FeatureId(2)]);
    assert!(doc.has_dependents(FeatureId(1)));
    assert!(!doc.has_dependents(FeatureId(2)));
}

#[test]
fn remove_feature_returns_removed() {
    let mut doc = Document::new("test");
    doc.add_feature(sketch_feature(1));
    assert!(doc.remove_feature(FeatureId(1)).is_some());
    assert!(doc.remove_feature(FeatureId(1)).is_none());
}

#[test]
fn new_document_is_empty_at_current_version() {
    let mut doc = Document::new("part");
    assert_eq!(doc.format_version, 1);
    assert_eq!(default_format_version(), 1);
    assert_eq!(doc.name, "part");
    assert!(doc.features.is_empty());
    assert_eq!(doc.peek_next_id(), 1);
    assert_eq!(doc.new_feature_id(), FeatureId(1));
    assert_eq!(doc.add_parameter("depth", 2.5f64.to_bits()), ParameterId(2));
    assert_eq!(doc.get_parameter(ParameterId(2)).unwrap().value, 2.5f64.to_bits());
    assert!(doc.get_parameter(ParameterId(1)).is_none());
    doc.get_parameter_mut(ParameterId(2)).unwrap().value = 4.0f64.to_bits();
    assert_eq!(doc.get_parameter(ParameterId(2)).unwrap().value, 4.0f64.to_bits());
}

#[test]
fn lookups_find_the_first_feature_with_the_id() {
    let mut doc = Document::new("d");
    doc.add_feature(sketch_feature(1));
    doc.add_feature(extrude_feature(2, 1));
    assert_eq!(doc.get_feature(FeatureId(2)).unwrap().name, "Extrude2");
    assert!(doc.get_feature(FeatureId(9)).is_none());
    assert!(matches!(doc.kind_of(FeatureId(1)), Some(FeatureKind::Sketch { .. })));
    doc.get_feature_mut(FeatureId(1)).unwrap().suppressed = true;
    let active: Vec<u64> = doc.active_features().iter().map(|f| f.id.0).collect();
    assert_eq!(active, vec![2]);
}

#[test]
fn reparent_moves_child_after_parent() {
    let mut doc = Document::new("d");
    doc.add_feature(sketch_feature(1));
    doc.add_feature(extrude_feature(2, 1));
    doc.add_feature(sketch_feature(3));
    assert!(doc.reparent_to(FeatureId(3), FeatureId(1)));
    assert_eq!(ids(&doc), vec![1, 3, 2]);
    assert_eq!(doc.features[1].parent_id, Some(FeatureId(1)));
    assert_eq!(doc.children_of(FeatureId(1)), vec![FeatureId(3)]);
    assert!(doc.has_dependents(FeatureId(1)));
    // A feature that already has the parent on its chain is refused.
    assert!(!doc.reparent_to(FeatureId(3), FeatureId(1)));
    // Self-parenting and missing features are refused.
    assert!(!doc.reparent_to(FeatureId(2), FeatureId(2)));
    assert!(!doc.reparent_to(FeatureId(2), FeatureId(42)));
    assert_eq!(ids(&doc), vec![1, 3, 2]);
    assert!(doc.detach_from_parent(FeatureId(3)));
    assert!(doc.children_of(FeatureId(1)).is_empty());
    assert!(!doc.detach_from_parent(FeatureId(42)));
}

#[test]
fn reparent_later_child_lands_after_parent() {
    let mut doc = Document::new("d");
    doc.add_feature(sketch_feature(1));
    doc.add_feature(sketch_feature(2));
    doc.add_feature(sketch_feature(3));
    assert!(doc.reparent_to(FeatureId(1), FeatureId(3)));
    assert_eq!(ids(&doc), vec![2, 3, 1]);
}

#[test]
fn remove_cascade_removes_nested_first() {
    let mut doc = Document::new("d");
    doc.add_feature(sketch_feature(1));
    doc.add_feature(extrude_feature(2, 1));
    doc.add_feature(sketch_feature(3));
    doc.add_feature(sketch_feature(4));
    assert!(doc.reparent_to(FeatureId(3), FeatureId(1)));
    assert!(doc.reparent_to(FeatureId(4), FeatureId(3)));
    assert_eq!(ids(&doc), vec![1, 3, 4, 2]);
    let removed = doc.remove_feature_cascade(FeatureId(1));
    assert_eq!(removed, vec![FeatureId(4), FeatureId(3), FeatureId(1)]);
    assert_eq!(ids(&doc), vec![2]);
    assert!(doc.remove_feature_cascade(FeatureId(1)).is_empty());
}

#[test]
fn insert_after_rollback_appends() {
    let mut doc = Document::new("d");
    doc.add_feature(sketch_feature(1));
    doc.insert_after_rollback(sketch_feature(5));
    assert_eq!(ids(&doc), vec![1, 5]);
}

#[test]
fn dirty_set_is_changed_plus_transitive_dependents() {
    let mut doc = Document::new("d");
    doc.add_feature(sketch_feature(1));
    doc.add_feature(extrude_feature(2, 1));
    doc.add_feature(fillet_feature(3, 2));
    doc.add_feature(sketch_feature(4));
    doc.add_feature(extrude_feature(5, 4));
    let dirty = compute_dirty(&doc, FeatureId(1));
    assert_eq!(dirty[0], FeatureId(1));
    let mut got: Vec<u64> = dirty.iter().map(|f| f.0).collect();
    got.sort();
    assert_eq!(got, vec![1, 2, 3]);
    let leaf = compute_dirty(&doc, FeatureId(3));
    assert_eq!(leaf, vec![FeatureId(3)]);
    // An id no feature carries is still dirty itself.
    assert_eq!(compute_dirty(&doc, FeatureId(77)), vec![FeatureId(77)]);
}

#[test]
fn remove_feature_takes_its_children_along() {
    let mut doc = Document::new("test");
    doc.add_feature(sketch_feature(1));
    let mut child = sketch_feature(2);
    child.parent_id = Some(FeatureId(1));
    doc.add_feature(child);
    let mut grandchild = sketch_feature(3);
    grandchild.parent_id = Some(FeatureId(2));
    doc.add_feature(grandchild);
    doc.add_feature(sketch_feature(4));
    let removed = doc.remove_feature(FeatureId(1)).unwrap();
    assert_eq!(removed.id, FeatureId(1));
    let ids: Vec<u64> = doc.features.iter().map(|f| f.id.0).collect();
    // The direct child goes with it; the rest keeps its order.
    assert_eq!(ids, vec![3, 4]);
    assert!(doc.remove_feature(FeatureId(1)).is_none());
    assert_eq!(doc.features.len(), 2);
}
