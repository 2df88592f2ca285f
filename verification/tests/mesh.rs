use echocad::mesh::{merge_meshes, Mesh};

fn triangle(z: f32) -> Mesh {
    let mut m = Mesh::new();
    let a = m.add_vertex(0f32.to_bits(), 0f32.to_bits(), z.to_bits(), 0, 0, 1f32.to_bits());
    let b = m.add_vertex(1f32.to_bits(), 0f32.to_bits(), z.to_bits(), 0, 0, 1f32.to_bits());
    let c = m.add_vertex(0f32.to_bits(), 1f32.to_bits(), z.to_bits(), 0, 0, 1f32.to_bits());
    m.add_triangle(a, b, c);
    m
}

#[test]
fn vertices_and_triangles_are_appended() {
    let m = triangle(0.0);
    assert_eq!(m.vertex_count(), 3);
    assert_eq!(m.positions.len(), 9);
    assert_eq!(m.normals.len(), 9);
    assert_eq!(m.indices, vec![0, 1, 2]);
}

#[test]
fn merge_reindexes_the_second_mesh() {
    let a = triangle(0.0);
    let b = triangle(2.0);
    let m = merge_meshes(a, b);
    assert_eq!(m.vertex_count(), 6);
    assert_eq!(m.indices, vec![0, 1, 2, 3, 4, 5]);
    // Vertex 3 is the first vertex of the second mesh.
    assert_eq!(f32::from_bits(m.positions[3 * 3 + 2]), 2.0);
}

#[test]
fn merge_with_empty_meshes() {
    let m = merge_meshes(Mesh::new(), triangle(1.0));
    assert_eq!(m.indices, vec![0, 1, 2]);
    let m = merge_meshes(triangle(1.0), Mesh::new());
    assert_eq!(m.indices, vec![0, 1, 2]);
    assert_eq!(m.vertex_count(), 3);
}

#[test]
fn shell_of_one_triangle_walls_every_edge() {
    let r = echocad::mesh::shell_indices(&vec![0, 1, 2], 3);
    assert_eq!(&r[..3], &[0, 1, 2]);
    assert_eq!(&r[3..6], &[3, 5, 4]);
    // Walls for (0,1), (1,2), (0,2), in that order.
    assert_eq!(&r[6..12], &[0, 1, 3, 1, 4, 3]);
    assert_eq!(&r[12..18], &[1, 2, 4, 2, 5, 4]);
    assert_eq!(&r[18..24], &[0, 2, 3, 2, 5, 3]);
    assert_eq!(r.len(), 24);
}

#[test]
fn shell_of_a_closed_tetrahedron_has_no_walls() {
    let idx = vec![0, 1, 2, 0, 3, 1, 1, 3, 2, 2, 3, 0, 9];
    let r = echocad::mesh::shell_indices(&idx, 4);
    // Outer triangles (with the stray index), then four inner ones.
    assert_eq!(r.len(), 13 + 12);
    assert_eq!(&r[13..16], &[4, 6, 5]);
}
