use graphics::mesh::{
    face_index_count, mesh_is_supported, triangle_index_list, triangulate_mesh, MeshCorner, MeshFace,
};

fn loops_of(corners: &[MeshCorner]) -> Vec<usize> {
    corners.iter().map(|c| c.loop_index).collect()
}

#[test]
fn quad_is_cut_into_two_triangles() {
    let faces = vec![MeshFace { loop_start: 0, loop_total: 4 }];
    let loop_vertices = vec![10, 11, 12, 13];
    assert!(mesh_is_supported(&faces, &loop_vertices));
    assert_eq!(face_index_count(&faces), 6);
    let corners = triangulate_mesh(&faces, &loop_vertices);
    assert_eq!(loops_of(&corners), vec![0, 1, 2, 2, 3, 0]);
    let vertices: Vec<usize> = corners.iter().map(|c| c.vertex_index).collect();
    assert_eq!(vertices, vec![10, 11, 12, 12, 13, 10]);
}

#[test]
fn triangle_stays_one_triangle() {
    let faces = vec![MeshFace { loop_start: 3, loop_total: 3 }];
    let loop_vertices = vec![0, 0, 0, 7, 8, 9];
    let corners = triangulate_mesh(&faces, &loop_vertices);
    assert_eq!(loops_of(&corners), vec![3, 4, 5]);
    assert_eq!(face_index_count(&faces), 3);
}

#[test]
fn pentagon_and_hexagon() {
    let faces = vec![
        MeshFace { loop_start: 0, loop_total: 5 },
        MeshFace { loop_start: 5, loop_total: 6 },
    ];
    let loop_vertices: Vec<i32> = (0..11).collect();
    assert_eq!(face_index_count(&faces), 6 + 9);
    let corners = triangulate_mesh(&faces, &loop_vertices);
    assert_eq!(
        loops_of(&corners),
        vec![0, 1, 2, 2, 3, 4, 5, 6, 7, 7, 8, 9, 9, 10, 5]
    );
}

#[test]
fn faces_with_fewer_than_two_loops_give_nothing() {
    let faces = vec![
        MeshFace { loop_start: 0, loop_total: 1 },
        MeshFace { loop_start: 0, loop_total: 0 },
        MeshFace { loop_start: 0, loop_total: -3 },
    ];
    let loop_vertices = vec![1];
    assert!(mesh_is_supported(&faces, &loop_vertices));
    assert_eq!(face_index_count(&faces), 0);
    assert!(triangulate_mesh(&faces, &loop_vertices).is_empty());
}

#[test]
fn edge_face_wraps_to_its_first_loop() {
    let faces = vec![MeshFace { loop_start: 1, loop_total: 2 }];
    let loop_vertices = vec![5, 6, 7];
    let corners = triangulate_mesh(&faces, &loop_vertices);
    assert_eq!(loops_of(&corners), vec![1, 2, 1]);
}

#[test]
fn negative_vertex_index_wraps_like_a_cast() {
    let faces = vec![MeshFace { loop_start: 0, loop_total: 3 }];
    let loop_vertices = vec![-1, 0, 1];
    let corners = triangulate_mesh(&faces, &loop_vertices);
    assert_eq!(corners[0].vertex_index, usize::MAX);
}

#[test]
fn loops_out_of_range_are_not_supported() {
    let loop_vertices = vec![0, 1, 2];
    assert!(!mesh_is_supported(&vec![MeshFace { loop_start: 1, loop_total: 3 }], &loop_vertices));
    assert!(!mesh_is_supported(&vec![MeshFace { loop_start: -1, loop_total: 3 }], &loop_vertices));
    assert!(mesh_is_supported(&vec![MeshFace { loop_start: 0, loop_total: 3 }], &loop_vertices));
    assert!(!mesh_is_supported(
        &vec![MeshFace { loop_start: i32::MAX, loop_total: 3 }],
        &loop_vertices
    ));
}

#[test]
fn index_list_counts_up() {
    assert!(triangle_index_list(0).is_empty());
    assert_eq!(triangle_index_list(2), vec![0, 1, 2, 3, 4, 5]);
    let largest = triangle_index_list(21845);
    assert_eq!(largest.len(), 65535);
    assert_eq!(*largest.last().unwrap(), 65534);
}
