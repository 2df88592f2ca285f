use echocad::brep::{prism_edges, prism_wires, wire_start_vertices, BrepError, Wire, WireEdge};

#[test]
fn brep_error_display_and_debug() {
    let err = BrepError::InvalidGeometry("profile too small".to_string());
    assert!(err.to_string().contains("profile too small"));
    assert!(format!("{:?}", err).contains("InvalidGeometry"));
}

#[test]
fn brep_error_texts_carry_their_prefix() {
    assert_eq!(BrepError::Kernel("boom".to_string()).to_string(), "kernel error: boom");
    assert_eq!(
        BrepError::InvalidGeometry("bad".to_string()).to_string(),
        "invalid geometry: bad"
    );
    assert_eq!(
        BrepError::Unsupported("fillet".to_string()).to_string(),
        "operation not supported: fillet"
    );
}

#[test]
fn prism_over_triangle_has_expected_edges() {
    let edges = prism_edges(3);
    assert_eq!(
        edges,
        vec![(0, 1), (1, 2), (2, 0), (3, 4), (4, 5), (5, 3), (0, 3), (1, 4), (2, 5)]
    );
}

#[test]
fn prism_over_square_has_six_faces() {
    let wires = prism_wires(4);
    assert_eq!(wires.len(), 6);
    let bottom: Vec<usize> = wires[0].edges.iter().map(|we| we.edge_idx).collect();
    assert_eq!(bottom, vec![0, 1, 2, 3]);
    let top: Vec<usize> = wires[1].edges.iter().map(|we| we.edge_idx).collect();
    assert_eq!(top, vec![4, 5, 6, 7]);
    // Last side face wraps around to the vertical at vertex 0.
    let last = &wires[5].edges;
    assert_eq!(
        *last,
        vec![
            WireEdge { edge_idx: 3, forward: true },
            WireEdge { edge_idx: 8, forward: true },
            WireEdge { edge_idx: 7, forward: false },
            WireEdge { edge_idx: 11, forward: false },
        ]
    );
}

#[test]
fn side_face_walks_a_closed_quad() {
    let edges = prism_edges(4);
    let wires = prism_wires(4);
    // Side face 0: bottom 0 -> 1, up to 5, back along the top to 4, down to 0.
    let vs = wire_start_vertices(&wires[2], &edges, 8).expect("valid wire");
    assert_eq!(vs, vec![0, 1, 5, 4]);
    let bottom = wire_start_vertices(&wires[0], &edges, 8).expect("valid wire");
    assert_eq!(bottom, vec![0, 1, 2, 3]);
}

#[test]
fn wire_with_missing_edge_is_rejected() {
    let wire = Wire { edges: vec![WireEdge { edge_idx: 0, forward: true }, WireEdge { edge_idx: 7, forward: false }] };
    let edges = vec![(0usize, 1usize)];
    match wire_start_vertices(&wire, &edges, 2) {
        Err(BrepError::Kernel(m)) => assert_eq!(m, "wire references non-existent edge 7"),
        other => panic!("expected a kernel error, got {:?}", other),
    }
}

#[test]
fn wire_with_missing_vertex_is_rejected() {
    let wire = Wire { edges: vec![WireEdge { edge_idx: 1, forward: false }] };
    let edges = vec![(0usize, 1usize), (1usize, 9usize)];
    match wire_start_vertices(&wire, &edges, 2) {
        Err(BrepError::Kernel(m)) => assert_eq!(m, "edge 1 references non-existent vertex 9"),
        other => panic!("expected a kernel error, got {:?}", other),
    }
    let first_bad = vec![(0usize, 1usize), (12usize, 9usize)];
    match wire_start_vertices(&wire, &first_bad, 2) {
        Err(BrepError::Kernel(m)) => assert_eq!(m, "edge 1 references non-existent vertex 12"),
        other => panic!("expected a kernel error, got {:?}", other),
    }
}

#[test]
fn empty_wire_visits_nothing() {
    let wire = Wire { edges: Vec::new() };
    assert_eq!(wire_start_vertices(&wire, &[], 0).expect("empty wire is fine"), Vec::<usize>::new());
}

#[test]
fn revolve_topology_has_rings_joins_and_quad_sides() {
    let es = echocad::brep::revolve_edges(3, 4);
    assert_eq!(es.len(), 5 * 3 + 4 * 3);
    assert_eq!(&es[..3], &[(0, 1), (1, 2), (2, 0)]);
    assert_eq!(es[14], (14, 12));
    assert_eq!(&es[15..18], &[(0, 3), (1, 4), (2, 5)]);
    let ws = echocad::brep::revolve_wires(3, 4, false);
    assert_eq!(ws.len(), 12);
    let side: Vec<(usize, bool)> = ws[4].edges.iter().map(|e| (e.edge_idx, e.forward)).collect();
    // Segment 1, profile edge 1: ring edge 4, join at 5, ring edge 7 back, join at 4 back.
    assert_eq!(side, vec![(4, true), (15 + 5, true), (7, false), (15 + 4, false)]);
    let full = echocad::brep::revolve_wires(3, 4, true);
    assert_eq!(full.len(), 14);
    assert!(full[12].edges.iter().all(|e| e.forward) && full[12].edges.len() == 3);
    let end: Vec<usize> = full[13].edges.iter().map(|e| e.edge_idx).collect();
    assert_eq!(end, vec![12, 13, 14]);
    assert!(full[13].edges.iter().all(|e| !e.forward));
}

#[test]
fn extrude_topology_rejects_profiles_under_three_points() {
    for n in 0..3 {
        match echocad::brep::extrude_topology(n) {
            Err(BrepError::InvalidGeometry(m)) => {
                assert_eq!(m, "profile must have at least 3 points")
            }
            other => panic!("unexpected result {:?}", other.map(|_| ())),
        }
    }
}

#[test]
fn extrude_topology_builds_the_prism() {
    let (es, ws) = echocad::brep::extrude_topology(4).expect("four points suffice");
    assert_eq!(es, prism_edges(4));
    let expected = prism_wires(4);
    assert_eq!(ws.len(), expected.len());
    for (a, b) in ws.iter().zip(expected.iter()) {
        assert_eq!(a.edges, b.edges);
    }
}

#[test]
fn revolve_topology_rejects_single_point_profiles() {
    match echocad::brep::revolve_topology(1, 16, true) {
        Err(e) => assert_eq!(
            e.to_string(),
            "invalid geometry: profile must have at least 2 points for revolve"
        ),
        Ok(_) => panic!("a one-point profile cannot be revolved"),
    }
}

#[test]
fn revolve_topology_uses_at_least_four_segments() {
    let (es, ws) = echocad::brep::revolve_topology(2, 1, false).expect("two points suffice");
    assert_eq!(es, echocad::brep::revolve_edges(2, 4));
    let expected = echocad::brep::revolve_wires(2, 4, false);
    assert_eq!(ws.len(), expected.len());
    for (a, b) in ws.iter().zip(expected.iter()) {
        assert_eq!(a.edges, b.edges);
    }
}
