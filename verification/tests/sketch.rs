use echocad::sketch::{Constraint, Sketch, SketchEntity};
use echocad::EntityId;

#[test]
fn delete_center_point_cascades_to_circle() {
    let mut s = Sketch::new();
    let c = s.add_point(1.0f64.to_bits(), 2.0f64.to_bits());
    let circle = s.add_circle(c, 0.5f64.to_bits());
    let removed = s.delete_entity_cascade(c);
    assert!(removed.contains(&c));
    assert!(removed.contains(&circle));
    assert!(s.entities.is_empty());
}

#[test]
fn delete_line_endpoint_cascades_and_drops_constraints() {
    let mut s = Sketch::new();
    let p1 = s.add_point(0.0f64.to_bits(), 0.0f64.to_bits());
    let p2 = s.add_point(1.0f64.to_bits(), 0.0f64.to_bits());
    let p3 = s.add_point(2.0f64.to_bits(), 0.0f64.to_bits());
    let line1 = s.add_line(p1, p2);
    let _line2 = s.add_line(p2, p3);
    s.add_constraint(Constraint::Horizontal { line: line1 });

    let removed = s.delete_entity_cascade(p1);
    assert!(removed.contains(&p1));
    assert!(removed.contains(&line1));
    assert!(!removed.contains(&p2));
    // Horizontal constraint on line1 should be dropped.
    assert!(s.constraints.is_empty());
    // p2, p3, line2 still alive.
    assert!(s.entities.contains_key(&p2.0));
    assert!(s.entities.contains_key(&p3.0));
}

#[test]
fn delete_isolated_point_removes_nothing_else() {
    let mut s = Sketch::new();
    let p1 = s.add_point(0.0f64.to_bits(), 0.0f64.to_bits());
    let p2 = s.add_point(5.0f64.to_bits(), 5.0f64.to_bits());
    let removed = s.delete_entity_cascade(p1);
    assert_eq!(removed, vec![p1]);
    assert!(s.entities.contains_key(&p2.0));
}

#[test]
fn delete_spline_control_point_cascades() {
    let mut s = Sketch::new();
    let p1 = s.add_point(0.0f64.to_bits(), 0.0f64.to_bits());
    let p2 = s.add_point(1.0f64.to_bits(), 1.0f64.to_bits());
    let p3 = s.add_point(2.0f64.to_bits(), 0.0f64.to_bits());
    let spline = s.add_spline(vec![p1, p2, p3]);
    let removed = s.delete_entity_cascade(p2);
    assert!(removed.contains(&p2));
    assert!(removed.contains(&spline));
    assert!(s.entities.contains_key(&p1.0));
    assert!(s.entities.contains_key(&p3.0));
}

#[test]
fn delete_cascades_through_two_levels() {
    let mut s = Sketch::new();
    let c = s.add_point(0.0f64.to_bits(), 0.0f64.to_bits());
    let m = s.add_point(3.0f64.to_bits(), 0.0f64.to_bits());
    let e = s.add_ellipse(c, m, 0.5f64.to_bits());
    let arc = s.add_arc(c, 1.0f64.to_bits(), 0.0f64.to_bits(), 1.0f64.to_bits());
    let other = s.add_point(9.0f64.to_bits(), 9.0f64.to_bits());
    s.add_constraint(Constraint::Fix { point: other });
    s.add_constraint(Constraint::Radius { circle: arc, radius: 1.0f64.to_bits() });
    let removed = s.delete_entity_cascade(c);
    assert_eq!(removed[0], c);
    assert_eq!(removed.len(), 3);
    assert!(removed.contains(&e));
    assert!(removed.contains(&arc));
    assert_eq!(s.entities.len(), 2);
    assert!(s.entities.contains_key(&m.0));
    assert_eq!(s.constraints.len(), 1);
    assert!(matches!(s.constraints[0], Constraint::Fix { .. }));
}

#[test]
fn delete_missing_entity_changes_nothing() {
    let mut s = Sketch::new();
    let p = s.add_point(0.0f64.to_bits(), 0.0f64.to_bits());
    let removed = s.delete_entity_cascade(echocad::EntityId(p.0 + 10));
    assert!(removed.is_empty());
    assert_eq!(s.entities.len(), 1);
}

#[test]
fn ids_are_handed_out_in_order() {
    let mut s = Sketch::new();
    let a = s.add_point(0, 0);
    let b = s.add_point(0, 0);
    let l = s.add_line(a, b);
    assert_eq!((a.0, b.0, l.0), (0, 1, 2));
    assert_eq!(s.next_id, 3);
    assert!(s.get_point(a).is_some());
    assert!(s.get_point(l).is_none());
    assert!(matches!(s.entities.get(&l.0), Some(SketchEntity::Line { construction: false, .. })));
}

#[test]
fn get_point_mut_edits_the_stored_point() {
    let mut s = Sketch::new();
    let p = s.add_point(1.0f64.to_bits(), 2.0f64.to_bits());
    let q = s.add_point(3.0f64.to_bits(), 4.0f64.to_bits());
    let l = s.add_line(p, q);
    {
        let pt = s.get_point_mut(p).unwrap();
        pt.x = 9.5f64.to_bits();
    }
    assert_eq!(f64::from_bits(s.get_point(p).unwrap().x), 9.5);
    assert_eq!(f64::from_bits(s.get_point(p).unwrap().y), 2.0);
    assert!(s.get_point_mut(l).is_none());
    assert!(s.get_point_mut(EntityId(999)).is_none());
    assert_eq!(s.entities.len(), 3);
}

#[test]
fn sorted_entity_ids_ignore_insertion_order() {
    let mut a = Sketch::new();
    let mut ids = Vec::new();
    for i in 0..40u64 {
        ids.push(a.add_point((i as f64).to_bits(), 0.0f64.to_bits()));
    }
    a.entities.remove(&7);
    a.entities.remove(&23);
    let listed = a.sorted_entity_ids();
    let expected: Vec<u64> = (0..40u64).filter(|k| *k != 7 && *k != 23).collect();
    assert_eq!(listed, expected);

    // The same entries, inserted in the opposite order into a map of another capacity.
    let mut b = Sketch::new();
    b.entities = std::collections::HashMap::with_capacity(1024);
    let mut keys: Vec<u64> = a.entities.keys().copied().collect();
    keys.sort_unstable_by(|x, y| y.cmp(x));
    for k in keys {
        b.entities.insert(k, a.entities[&k].clone());
    }
    assert_eq!(b.sorted_entity_ids(), listed);
    assert!(Sketch::new().sorted_entity_ids().is_empty());
}
