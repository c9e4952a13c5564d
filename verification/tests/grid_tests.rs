use simplepicture3d::grid::{grid_cols, grid_rows, triangulate_grid, MAX_DIMENSION};
use simplepicture3d::mesh::{
    grid_mesh_from_samples, sample_coords, validate_depth_input, DepthInputError, MeshData,
    Vec3Bits,
};

fn v3(x: f32, y: f32, z: f32) -> Vec3Bits {
    Vec3Bits { x: x.to_bits(), y: y.to_bits(), z: z.to_bits() }
}

fn compute_face_normal(v0: [f32; 3], v1: [f32; 3], v2: [f32; 3]) -> [f32; 3] {
    let e1 = [v1[0] - v0[0], v1[1] - v0[1], v1[2] - v0[2]];
    let e2 = [v2[0] - v0[0], v2[1] - v0[1], v2[2] - v0[2]];
    let nx = e1[1] * e2[2] - e1[2] * e2[1];
    let ny = e1[2] * e2[0] - e1[0] * e2[2];
    let nz = e1[0] * e2[1] - e1[1] * e2[0];
    let len = (nx * nx + ny * ny + nz * nz).sqrt();
    if len > 1e-10 {
        [nx / len, ny / len, nz / len]
    } else {
        [0.0, 0.0, 1.0]
    }
}

#[test]
fn triangulate_grid_2x2_produces_2_triangles() {
    let indices = triangulate_grid(2, 2);
    // 1 cell -> 2 triangles -> 6 indices
    assert_eq!(indices.len(), 6);
    // Triangle 1: tl(0) -> tr(1) -> bl(2)
    assert_eq!(indices[0], 0);
    assert_eq!(indices[1], 1);
    assert_eq!(indices[2], 2);
    // Triangle 2: tr(1) -> br(3) -> bl(2)
    assert_eq!(indices[3], 1);
    assert_eq!(indices[4], 3);
    assert_eq!(indices[5], 2);
}

#[test]
fn triangulate_grid_3x3_produces_8_triangles() {
    let indices = triangulate_grid(3, 3);
    // 2x2 cells -> 4 cells -> 8 triangles -> 24 indices
    assert_eq!(indices.len(), 24);
    for &idx in &indices {
        assert!(idx < 9, "index {} out of bounds for 3x3 grid", idx);
    }
}

#[test]
fn triangulate_grid_edge_cases_empty() {
    assert!(triangulate_grid(0, 0).is_empty());
    assert!(triangulate_grid(1, 1).is_empty());
    assert!(triangulate_grid(1, 5).is_empty());
    assert!(triangulate_grid(5, 1).is_empty());
    assert!(triangulate_grid(0, 10).is_empty());
}

#[test]
fn triangulate_grid_single_row_of_cells() {
    // 2 rows, 4 cols -> 3 cells -> 6 triangles -> 18 indices
    let indices = triangulate_grid(2, 4);
    assert_eq!(indices.len(), 18);
}

#[test]
fn triangulate_grid_ccw_winding_check() {
    // For a flat mesh (all z equal), CCW winding from +Z should give +Z normals.
    let mesh = MeshData {
        positions: vec![
            v3(0.0, 0.0, 0.0), // tl (0)
            v3(1.0, 0.0, 0.0), // tr (1)
            v3(0.0, 1.0, 0.0), // bl (2)
            v3(1.0, 1.0, 0.0), // br (3)
        ],
        normals: vec![v3(0.0, 0.0, 1.0); 4],
        indices: Some(triangulate_grid(2, 2)),
    };
    let idx = mesh.indices.as_ref().unwrap();
    let fetch = |k: usize| -> [f32; 3] {
        let p = mesh.positions[idx[k] as usize];
        [f32::from_bits(p.x), f32::from_bits(p.y), f32::from_bits(p.z)]
    };
    let normal = compute_face_normal(fetch(0), fetch(1), fetch(2));
    assert!(normal[2] > 0.9, "face normal should point +Z, got {:?}", normal);
}

#[test]
fn jr2_703_very_large_mesh_math_verification() {
    // 1000x1000 grid: 999*999 cells * 2 = 1,996,002 triangles
    let num_rows = 1000usize;
    let num_cols = 1000usize;
    let expected_cells = (num_rows - 1) * (num_cols - 1);
    let expected_tris = expected_cells * 2;
    assert_eq!(expected_tris, 1_996_002);
    let expected_indices = expected_tris * 3;
    assert_eq!(expected_indices, 5_988_006);
    let expected_stl_size = 84 + expected_tris * 50;
    assert_eq!(expected_stl_size, 99_800_184);

    // Verify triangulate_grid produces correct count for a smaller representative
    let indices = triangulate_grid(100, 100);
    assert_eq!(indices.len(), 99 * 99 * 2 * 3);
}

#[test]
fn validate_rejects_zero_width() {
    let err = validate_depth_input(0, 10, 0).unwrap_err();
    assert!(err.message().contains("positive"));
}

#[test]
fn validate_rejects_length_mismatch() {
    let err = validate_depth_input(3, 3, 8).unwrap_err();
    let msg = err.message();
    assert!(msg.contains("length") || msg.contains("match"));
}

#[test]
fn validate_rejects_dimensions_over_max() {
    let w = MAX_DIMENSION + 1;
    let h = 1u32;
    let err = validate_depth_input(w, h, (w as usize) * (h as usize)).unwrap_err();
    let msg = err.message();
    assert!(msg.contains("8192") || msg.contains("dimensions"));
}

#[test]
fn edge_empty_dimensions_rejected() {
    let err = validate_depth_input(0, 0, 0).unwrap_err();
    assert!(err.message().contains("positive"));
    let err = validate_depth_input(0, 5, 0).unwrap_err();
    assert!(err.message().contains("positive"));
    let err = validate_depth_input(5, 0, 0).unwrap_err();
    assert!(err.message().contains("positive"));
}

#[test]
fn depth_input_accepts_exact_length() {
    assert!(validate_depth_input(3, 3, 9).is_ok());
    assert!(validate_depth_input(1, 1, 1).is_ok());
    assert!(validate_depth_input(8192, 1, 8192).is_ok());
}

#[test]
fn depth_input_length_mismatch_reports_both_counts() {
    let err = validate_depth_input(3, 3, 8).unwrap_err();
    assert_eq!(err, DepthInputError::LengthMismatch { len: 8, expected: 9 });
    assert_eq!(err.message(), "depth length 8 does not match width x height 9");
}

#[test]
fn grid_dims_use_ceiling_division() {
    assert_eq!(grid_cols(10, 3), 4);
    assert_eq!(grid_rows(10, 3), 4);
    assert_eq!(grid_cols(9, 3), 3);
    assert_eq!(grid_cols(1, 1), 1);
    assert_eq!(grid_cols(0, 7), 0);
    assert_eq!(grid_rows(4, 2), 2);
    assert_eq!(grid_rows(5, 2), 3);
}

#[test]
fn sample_coords_walks_row_major_with_stride() {
    let pts = sample_coords(4, 4, 2, 2);
    assert_eq!(pts.len(), 4);
    assert_eq!((pts[0].row, pts[0].col), (0, 0));
    assert_eq!((pts[1].row, pts[1].col), (0, 2));
    assert_eq!((pts[2].row, pts[2].col), (2, 0));
    assert_eq!((pts[3].row, pts[3].col), (2, 2));
}

#[test]
fn sample_coords_count_matches_ceiling_formula() {
    // ceil(5/2) * ceil(7/3) = 3 * 3 = 9
    let pts = sample_coords(7, 5, 3, 2);
    assert_eq!(pts.len(), 9);
    for p in &pts {
        assert!(p.row < 5 && p.col < 7);
    }
}

#[test]
fn grid_mesh_attaches_indices_only_for_full_grids() {
    let positions = vec![v3(0.0, 0.0, 0.0); 4];
    let normals = vec![v3(0.0, 0.0, 1.0); 4];
    let mesh = grid_mesh_from_samples(positions.clone(), normals.clone(), 2, 2);
    assert!(mesh.indices.is_some());
    assert_eq!(mesh.indices.as_ref().unwrap().len(), 6);

    let line = grid_mesh_from_samples(positions.clone(), normals.clone(), 1, 4);
    assert!(line.indices.is_none());
    let column = grid_mesh_from_samples(positions, normals, 4, 1);
    assert!(column.indices.is_none());
}
