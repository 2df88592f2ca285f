use echocad::sketch::{Constraint, Sketch};
use echocad::solver::{
    build_residual_constraint_map, count_constraint_residuals, describe_constraint_diagnostic,
    extract_param_ids, get_circle_center,
};
use echocad::EntityId;

fn sorted(mut v: Vec<EntityId>) -> Vec<u64> {
    v.sort_by_key(|e| e.0);
    v.iter().map(|e| e.0).collect()
}

#[test]
fn free_parameters_skip_fixed_points() {
    let mut s = Sketch::new();
    let p0 = s.add_point(0, 0);
    let p1 = s.add_point(0, 0);
    let _line = s.add_line(p0, p1);
    let circle = s.add_circle(p0, 1.0f64.to_bits());
    let arc = s.add_arc(p1, 1.0f64.to_bits(), 0, 0);
    s.add_constraint(Constraint::Fix { point: p0 });
    let (points, radii) = extract_param_ids(&s);
    assert_eq!(sorted(points), vec![p1.0]);
    assert_eq!(sorted(radii), vec![circle.0, arc.0]);
    assert_eq!(get_circle_center(&s, circle), Some(p0));
    assert_eq!(get_circle_center(&s, arc), Some(p1));
    assert_eq!(get_circle_center(&s, p0), None);
}

#[test]
fn residual_rows_follow_the_constraints() {
    let mut s = Sketch::new();
    let p0 = s.add_point(0, 0);
    let p1 = s.add_point(0, 0);
    let line = s.add_line(p0, p1);
    let circle = s.add_circle(p0, 1.0f64.to_bits());
    s.add_constraint(Constraint::Horizontal { line });
    s.add_constraint(Constraint::Coincident { a: p0, b: p1 });
    s.add_constraint(Constraint::Fix { point: p0 });
    s.add_constraint(Constraint::Coincident { a: p0, b: EntityId(99) });
    s.add_constraint(Constraint::Radius { circle, radius: 2.0f64.to_bits() });
    s.add_constraint(Constraint::Midpoint { point: p1, line });
    let (points, radii) = extract_param_ids(&s);
    let counts = count_constraint_residuals(&s, &points, &radii);
    assert_eq!(counts, vec![1, 2, 0, 0, 1, 2]);
    let map = build_residual_constraint_map(&s, &points, &radii);
    assert_eq!(map, vec![0, 1, 1, 4, 5, 5]);
}

#[test]
fn diagnostics_name_the_constraint() {
    let c = Constraint::Coincident { a: EntityId(1), b: EntityId(2) };
    assert_eq!(
        describe_constraint_diagnostic(&c, 3, "redundant", ""),
        "[3] redundant Coincident(EntityId(1), EntityId(2))"
    );
    let d = Constraint::Distance { a: EntityId(1), b: EntityId(20), distance: 2.5f64.to_bits() };
    assert_eq!(
        describe_constraint_diagnostic(&d, 0, "conflicting", "2.5"),
        "[0] conflicting Distance(EntityId(1), EntityId(20), d=2.5)"
    );
    let a = Constraint::Angle { line_a: EntityId(4), line_b: EntityId(5), angle_deg: 90.0f64.to_bits() };
    assert_eq!(
        describe_constraint_diagnostic(&a, 12, "unsatisfied", "90"),
        "[12] unsatisfied Angle(EntityId(4), EntityId(5), 90deg)"
    );
    let sym = Constraint::Symmetric { a: EntityId(1), b: EntityId(2), axis: EntityId(3) };
    assert_eq!(
        describe_constraint_diagnostic(&sym, 1, "redundant", ""),
        "[1] redundant Symmetric(EntityId(1), EntityId(2), axis=EntityId(3))"
    );
    let col = Constraint::Collinear { a: EntityId(7), b: EntityId(8), c: EntityId(9) };
    assert_eq!(
        describe_constraint_diagnostic(&col, 2, "redundant", ""),
        "[2] redundant Collinear(EntityId(7), EntityId(8), EntityId(9))"
    );
    let r = Constraint::Radius { circle: EntityId(6), radius: 0 };
    assert_eq!(describe_constraint_diagnostic(&r, 4, "unsatisfied", "0"), "[4] unsatisfied Radius(EntityId(6), r=0)");
    let dia = Constraint::Diameter { circle: EntityId(6), diameter: 0 };
    assert_eq!(describe_constraint_diagnostic(&dia, 5, "unsatisfied", "3"), "[5] unsatisfied Diameter(EntityId(6), d=3)");
    let fix = Constraint::Fix { point: EntityId(0) };
    assert_eq!(describe_constraint_diagnostic(&fix, 6, "redundant", "x"), "[6] redundant Fix(EntityId(0))");
}
