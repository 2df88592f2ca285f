use echocad::profile::{walk_loops, WalkStep};
use echocad::sketch::{Sketch, SketchEntity, SketchPoint};
use echocad::EntityId;

fn step(edge: usize, from: EntityId, to: EntityId) -> WalkStep {
    WalkStep { edge, from, to }
}

#[test]
fn square_is_walked_once_around() {
    let mut s = Sketch::new();
    let p: Vec<EntityId> = (0..4).map(|i| s.add_point(i, i)).collect();
    let edges = vec![(p[0], p[1]), (p[1], p[2]), (p[2], p[3]), (p[3], p[0])];
    let walks = walk_loops(&s, &edges);
    assert_eq!(walks.len(), 1);
    assert_eq!(walks[0].start, p[0]);
    assert_eq!(walks[0].steps, vec![step(0, p[0], p[1]), step(1, p[1], p[2]), step(2, p[2], p[3])]);
}

#[test]
fn edges_are_followed_against_their_direction_too() {
    let mut s = Sketch::new();
    let p: Vec<EntityId> = (0..3).map(|i| s.add_point(i, 0)).collect();
    // The second edge is stored end-first.
    let edges = vec![(p[0], p[1]), (p[2], p[1]), (p[2], p[0])];
    let walks = walk_loops(&s, &edges);
    assert_eq!(walks.len(), 1);
    assert_eq!(walks[0].steps, vec![step(0, p[0], p[1]), step(1, p[1], p[2])]);
}

#[test]
fn two_separate_triangles_give_two_walks() {
    let mut s = Sketch::new();
    let p: Vec<EntityId> = (0..6).map(|i| s.add_point(i, 1)).collect();
    let edges = vec![
        (p[0], p[1]),
        (p[1], p[2]),
        (p[2], p[0]),
        (p[3], p[4]),
        (p[4], p[5]),
        (p[5], p[3]),
    ];
    let walks = walk_loops(&s, &edges);
    assert_eq!(walks.len(), 2);
    assert_eq!(walks[0].start, p[0]);
    assert_eq!(walks[1].start, p[3]);
    assert_eq!(walks[1].steps, vec![step(3, p[3], p[4]), step(4, p[4], p[5])]);
}

#[test]
fn open_chain_stops_at_its_end() {
    let mut s = Sketch::new();
    let p: Vec<EntityId> = (0..3).map(|i| s.add_point(i, 2)).collect();
    let edges = vec![(p[0], p[1]), (p[1], p[2])];
    let walks = walk_loops(&s, &edges);
    assert_eq!(walks.len(), 1);
    assert_eq!(walks[0].steps, vec![step(0, p[0], p[1]), step(1, p[1], p[2])]);
}

#[test]
fn edge_from_a_point_not_in_the_sketch_is_skipped() {
    let mut s = Sketch::new();
    let a = s.add_point(0, 0);
    let b = s.add_point(1, 0);
    let ghost_point = EntityId(1 << 63);
    let edges = vec![(ghost_point, a), (a, b)];
    let walks = walk_loops(&s, &edges);
    // The first edge is consumed without a walk; the walk from `a` then
    // cannot go back along it.
    assert_eq!(walks.len(), 1);
    assert_eq!(walks[0].start, a);
    assert_eq!(walks[0].steps, vec![step(1, a, b)]);
    assert!(walk_loops(&s, &[]).is_empty());
}

#[test]
fn walks_do_not_depend_on_the_order_entities_were_inserted() {
    let mut a = Sketch::new();
    let mut b = Sketch::new();
    for k in 0..5u64 {
        a.entities.insert(k, SketchEntity::Point(SketchPoint { x: k, y: 0 }));
    }
    for k in (0..5u64).rev() {
        b.entities.insert(k, SketchEntity::Point(SketchPoint { x: k, y: 0 }));
    }
    let e = |i: u64| EntityId(i);
    let edges = vec![(e(0), e(1)), (e(1), e(2)), (e(2), e(0)), (e(3), e(4)), (e(4), e(3))];
    let wa = walk_loops(&a, &edges);
    let wb = walk_loops(&b, &edges);
    assert_eq!(wa.len(), wb.len());
    for (x, y) in wa.iter().zip(wb.iter()) {
        assert_eq!(x.start, y.start);
        assert_eq!(x.steps, y.steps);
    }
}
