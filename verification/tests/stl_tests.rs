use simplepicture3d::grid::{grid_cols, grid_rows, triangulate_grid};
use simplepicture3d::mesh::{grid_mesh_from_samples, sample_coords, MeshData, Vec3Bits};
use simplepicture3d::stl::{parse_stl, write_stl_binary, StlParseError, StlWriteError};
use simplepicture3d::validate::validate_mesh_for_export;

fn v3(x: f32, y: f32, z: f32) -> Vec3Bits {
    Vec3Bits { x: x.to_bits(), y: y.to_bits(), z: z.to_bits() }
}

fn to_f32(v: Vec3Bits) -> [f32; 3] {
    [f32::from_bits(v.x), f32::from_bits(v.y), f32::from_bits(v.z)]
}

/// Unit face normal of a triangle, `[0, 0, 1]` for a degenerate cross
/// product — the numeric kernel the STL writer is handed.
fn compute_face_normal(v0: [f32; 3], v1: [f32; 3], v2: [f32; 3]) -> [f32; 3] {
    let e1 = [v1[0] - v0[0], v1[1] - v0[1], v1[2] - v0[2]];
    let e2 = [v2[0] - v0[0], v2[1] - v0[1], v2[2] - v0[2]];
    let nx = e1[1] * e2[2] - e1[2] * e2[1];
    let ny = e1[2] * e2[0] - e1[0] * e2[2];
    let nz = e1[0] * e2[1] - e1[1] * e2[0];
    let len = (nx * nx + ny * ny + nz * nz).sqrt();
    if len > 1e-10 {
        [nx / len, ny / len, nz / len]
    } else {
        [0.0, 0.0, 1.0]
    }
}

/// One face normal per index triple (floor of len / 3, matching the codec).
fn face_normals(mesh: &MeshData) -> Vec<Vec3Bits> {
    let idx = match &mesh.indices {
        Some(idx) => idx,
        None => return Vec::new(),
    };
    let tri_count = idx.len() / 3;
    let mut normals = Vec::with_capacity(tri_count);
    for t in 0..tri_count {
        let i0 = idx[t * 3] as usize;
        let i1 = idx[t * 3 + 1] as usize;
        let i2 = idx[t * 3 + 2] as usize;
        if i0 >= mesh.positions.len() || i1 >= mesh.positions.len() || i2 >= mesh.positions.len() {
            normals.push(v3(0.0, 0.0, 1.0));
            continue;
        }
        let n = compute_face_normal(
            to_f32(mesh.positions[i0]),
            to_f32(mesh.positions[i1]),
            to_f32(mesh.positions[i2]),
        );
        normals.push(v3(n[0], n[1], n[2]));
    }
    normals
}

fn write_stl(mesh: &MeshData) -> Result<Vec<u8>, StlWriteError> {
    write_stl_binary(mesh, &face_normals(mesh))
}

fn sample_depth(depth: &[f32], width: usize, height: usize, row: usize, col: usize) -> f32 {
    if row >= height || col >= width {
        return 0.5;
    }
    depth.get(row * width + col).copied().unwrap_or(0.5).clamp(0.0, 1.0)
}

fn normal_from_gradient(
    depth: &[f32],
    width: usize,
    height: usize,
    row: usize,
    col: usize,
    depth_range_mm: f32,
    pixel_to_mm: f32,
) -> [f32; 3] {
    let (gx, gy) = if width >= 2 && height >= 2 {
        let col_prev = col.saturating_sub(1);
        let col_next = (col + 1).min(width - 1);
        let row_prev = row.saturating_sub(1);
        let row_next = (row + 1).min(height - 1);
        let dx = (sample_depth(depth, width, height, row, col_next)
            - sample_depth(depth, width, height, row, col_prev))
            / (if col_next > col_prev { (col_next - col_prev) as f32 } else { 1.0 });
        let dy = (sample_depth(depth, width, height, row_next, col)
            - sample_depth(depth, width, height, row_prev, col))
            / (if row_next > row_prev { (row_next - row_prev) as f32 } else { 1.0 });
        (dx, dy)
    } else {
        (0.0, 0.0)
    };
    let nx = -depth_range_mm * gx / pixel_to_mm;
    let ny = -depth_range_mm * gy / pixel_to_mm;
    let nz = 1.0;
    let len = (nx * nx + ny * ny + nz * nz).sqrt();
    if len > 1e-8 {
        [nx / len, ny / len, nz / len]
    } else {
        [0.0, 0.0, 1.0]
    }
}

/// The numeric sampling kernel around the library's grid plan: one vertex per
/// sampled pixel, z remapped into the millimeter range, gradient normals.
fn depth_to_mesh(
    depth: &[f32],
    width: u32,
    height: u32,
    step: u32,
    depth_min_mm: f32,
    depth_max_mm: f32,
    pixel_to_mm: f32,
) -> MeshData {
    let num_rows = grid_rows(height, step) as usize;
    let num_cols = grid_cols(width, step) as usize;
    let coords = sample_coords(width, height, step, step);
    let range = depth_max_mm - depth_min_mm;
    let p2m = if pixel_to_mm > 0.0 { pixel_to_mm } else { 1.0 };
    let mut positions = Vec::with_capacity(coords.len());
    let mut normals = Vec::with_capacity(coords.len());
    for pt in &coords {
        let row = pt.row as usize;
        let col = pt.col as usize;
        let d = sample_depth(depth, width as usize, height as usize, row, col);
        let x = (col as f32) * p2m;
        let y = (row as f32) * p2m;
        let z = depth_min_mm + d * range;
        positions.push(v3(x, y, z));
        let n = normal_from_gradient(depth, width as usize, height as usize, row, col, range, p2m);
        normals.push(v3(n[0], n[1], n[2]));
    }
    grid_mesh_from_samples(positions, normals, num_rows, num_cols)
}

fn quad_mesh() -> MeshData {
    MeshData {
        positions: vec![
            v3(0.0, 0.0, 0.0),
            v3(1.0, 0.0, 0.0),
            v3(0.0, 1.0, 0.0),
            v3(1.0, 1.0, 0.0),
        ],
        normals: vec![v3(0.0, 0.0, 1.0); 4],
        indices: Some(triangulate_grid(2, 2)),
    }
}

fn read_f32_at(buf: &[u8], off: usize) -> f32 {
    f32::from_le_bytes([buf[off], buf[off + 1], buf[off + 2], buf[off + 3]])
}

#[test]
fn stl_binary_write_2x2_mesh() {
    let buf = write_stl(&quad_mesh()).unwrap();
    // Expected size: 80 header + 4 tri count + 2 * 50 bytes per triangle = 184 bytes
    assert_eq!(buf.len(), 80 + 4 + 2 * 50);
    let tri_count = u32::from_le_bytes([buf[80], buf[81], buf[82], buf[83]]);
    assert_eq!(tri_count, 2);
}

#[test]
fn stl_binary_write_header_content() {
    let buf = write_stl(&quad_mesh()).unwrap();
    let header_text = &buf[..25];
    assert_eq!(header_text, b"SimplePicture3D STL Expor");
}

#[test]
fn stl_binary_write_rejects_no_indices() {
    let mesh = MeshData {
        positions: vec![v3(0.0, 0.0, 0.0)],
        normals: vec![v3(0.0, 0.0, 1.0)],
        indices: None,
    };
    let err = write_stl(&mesh).unwrap_err();
    assert!(err.message().contains("no triangle indices"));
}

#[test]
fn stl_binary_roundtrip_vertex_data() {
    // Write a simple quad, then read the first triangle's first vertex back
    let mesh = MeshData {
        positions: vec![
            v3(0.0, 0.0, 5.0),
            v3(10.0, 0.0, 5.0),
            v3(0.0, 10.0, 5.0),
            v3(10.0, 10.0, 5.0),
        ],
        normals: vec![v3(0.0, 0.0, 1.0); 4],
        indices: Some(triangulate_grid(2, 2)),
    };
    let buf = write_stl(&mesh).unwrap();
    let offset = 84; // after header + tri count
    let v0_x = read_f32_at(&buf, offset + 12);
    let v0_y = read_f32_at(&buf, offset + 16);
    let v0_z = read_f32_at(&buf, offset + 20);
    assert!((v0_x - 0.0).abs() < 1e-5);
    assert!((v0_y - 0.0).abs() < 1e-5);
    assert!((v0_z - 5.0).abs() < 1e-5);
}

#[test]
fn jr2_701_roundtrip_small_quad() {
    let mesh = MeshData {
        positions: vec![
            v3(0.0, 0.0, 5.0),
            v3(10.0, 0.0, 3.0),
            v3(0.0, 10.0, 7.0),
            v3(10.0, 10.0, 1.0),
        ],
        normals: vec![v3(0.0, 0.0, 1.0); 4],
        indices: Some(triangulate_grid(2, 2)),
    };
    let buf = write_stl(&mesh).unwrap();
    assert_eq!(buf.len(), 184);
    let tris = parse_stl(&buf).unwrap();
    assert_eq!(tris.len(), 2);

    let idx = mesh.indices.as_ref().unwrap();
    for t in 0..2 {
        let i0 = idx[t * 3] as usize;
        let i1 = idx[t * 3 + 1] as usize;
        let i2 = idx[t * 3 + 2] as usize;
        let got = [to_f32(tris[t].v0), to_f32(tris[t].v1), to_f32(tris[t].v2)];
        let want = [to_f32(mesh.positions[i0]), to_f32(mesh.positions[i1]), to_f32(
            mesh.positions[i2],
        )];
        for c in 0..3 {
            assert!(
                (got[0][c] - want[0][c]).abs() < 1e-5,
                "tri {} v0[{}] mismatch: {} vs {}",
                t,
                c,
                got[0][c],
                want[0][c]
            );
            assert!((got[1][c] - want[1][c]).abs() < 1e-5, "tri {} v1[{}] mismatch", t, c);
            assert!((got[2][c] - want[2][c]).abs() < 1e-5, "tri {} v2[{}] mismatch", t, c);
        }
        assert_eq!(tris[t].attribute, 0, "attribute byte count should be 0");
    }
}

#[test]
fn jr2_701_roundtrip_medium_grid_100x100() {
    let w = 100usize;
    let h = 100usize;
    let depth: Vec<f32> = (0..w * h).map(|i| (i as f32) / ((w * h - 1) as f32)).collect();
    let mesh = depth_to_mesh(&depth, w as u32, h as u32, 1, 2.0, 10.0, 1.0);
    assert!(mesh.indices.is_some());
    let buf = write_stl(&mesh).unwrap();
    let tris = parse_stl(&buf).unwrap();
    // 99*99 cells * 2 triangles = 19602
    assert_eq!(tris.len(), 19602);
    assert_eq!(buf.len(), 84 + 19602 * 50);
}

#[test]
fn jr2_701_stl_header_exactly_80_bytes() {
    let buf = write_stl(&quad_mesh()).unwrap();
    let header_text = b"SimplePicture3D STL Export";
    let text_len = header_text.len(); // 26 bytes
    assert_eq!(&buf[..text_len], &header_text[..]);
    for i in text_len..80 {
        assert_eq!(buf[i], 0u8, "header byte {} should be 0, got {}", i, buf[i]);
    }
}

#[test]
fn jr2_701_stl_file_size_formula() {
    for grid_size in [2usize, 3, 5, 10, 20] {
        let n = grid_size * grid_size;
        let depth: Vec<f32> = vec![0.5; n];
        let mesh = depth_to_mesh(&depth, grid_size as u32, grid_size as u32, 1, 2.0, 10.0, 1.0);
        let buf = write_stl(&mesh).unwrap();

        let expected_tris = ((grid_size - 1) * (grid_size - 1) * 2) as u32;
        let expected_size = 84 + expected_tris as usize * 50;
        assert_eq!(
            buf.len(),
            expected_size,
            "grid {}x{}: expected size {}, got {}",
            grid_size,
            grid_size,
            expected_size,
            buf.len()
        );

        let tri_count = u32::from_le_bytes([buf[80], buf[81], buf[82], buf[83]]);
        assert_eq!(
            tri_count, expected_tris,
            "grid {}x{}: expected {} tris, got {}",
            grid_size, grid_size, expected_tris, tri_count
        );
    }
}

#[test]
fn jr2_701_stl_normals_unit_length() {
    let depth: Vec<f32> = (0..25).map(|i| (i as f32) / 24.0).collect();
    let mesh = depth_to_mesh(&depth, 5, 5, 1, 2.0, 10.0, 1.0);
    let buf = write_stl(&mesh).unwrap();
    let tris = parse_stl(&buf).unwrap();
    for (t, tri) in tris.iter().enumerate() {
        let normal = to_f32(tri.normal);
        let len = (normal[0] * normal[0] + normal[1] * normal[1] + normal[2] * normal[2]).sqrt();
        assert!(
            (len - 1.0).abs() < 1e-4,
            "triangle {} normal not unit length: {:?} (len={})",
            t,
            normal,
            len
        );
    }
}

#[test]
fn jr2_701_stl_normals_point_positive_z_for_flat_mesh() {
    let buf = write_stl(&quad_mesh()).unwrap();
    let tris = parse_stl(&buf).unwrap();
    for (t, tri) in tris.iter().enumerate() {
        let normal = to_f32(tri.normal);
        assert!(normal[2] > 0.99, "triangle {} normal z should be ~1.0, got {:?}", t, normal);
        assert!(
            normal[0].abs() < 1e-5 && normal[1].abs() < 1e-5,
            "triangle {} normal x,y should be ~0, got {:?}",
            t,
            normal
        );
    }
}

#[test]
fn jr2_701_extreme_coordinates_large() {
    let mesh = MeshData {
        positions: vec![
            v3(1e6, 1e6, 1e6),
            v3(1e6 + 1.0, 1e6, 1e6),
            v3(1e6, 1e6 + 1.0, 1e6),
        ],
        normals: vec![v3(0.0, 0.0, 1.0); 3],
        indices: Some(vec![0, 1, 2]),
    };
    let buf = write_stl(&mesh).unwrap();
    let tris = parse_stl(&buf).unwrap();
    assert_eq!(tris.len(), 1);
    assert!((to_f32(tris[0].v0)[0] - 1e6).abs() < 1.0, "large coordinate round-trip failed");
}

#[test]
fn jr2_701_extreme_coordinates_small() {
    let mesh = MeshData {
        positions: vec![
            v3(1e-6, 1e-6, 1e-6),
            v3(1e-5, 1e-6, 1e-6),
            v3(1e-6, 1e-5, 1e-6),
        ],
        normals: vec![v3(0.0, 0.0, 1.0); 3],
        indices: Some(vec![0, 1, 2]),
    };
    let buf = write_stl(&mesh).unwrap();
    let tris = parse_stl(&buf).unwrap();
    assert_eq!(tris.len(), 1);
    assert!((to_f32(tris[0].v0)[0] - 1e-6).abs() < 1e-10);
}

#[test]
fn jr2_701_extreme_coordinates_negative() {
    let mesh = MeshData {
        positions: vec![
            v3(-10.0, -20.0, -5.0),
            v3(10.0, -20.0, -5.0),
            v3(-10.0, 20.0, -5.0),
        ],
        normals: vec![v3(0.0, 0.0, 1.0); 3],
        indices: Some(vec![0, 1, 2]),
    };
    let buf = write_stl(&mesh).unwrap();
    let tris = parse_stl(&buf).unwrap();
    let v0 = to_f32(tris[0].v0);
    assert!((v0[0] - (-10.0)).abs() < 1e-5);
    assert!((v0[1] - (-20.0)).abs() < 1e-5);
    assert!((v0[2] - (-5.0)).abs() < 1e-5);
}

#[test]
fn jr2_701_roundtrip_all_vertices_match() {
    let depth: Vec<f32> = vec![0.0, 0.25, 0.5, 0.75, 1.0, 0.5, 0.25, 0.75, 0.0];
    let mesh = depth_to_mesh(&depth, 3, 3, 1, 1.0, 9.0, 1.0);
    let idx = mesh.indices.as_ref().unwrap().clone();
    let buf = write_stl(&mesh).unwrap();
    let tris = parse_stl(&buf).unwrap();
    assert_eq!(tris.len(), idx.len() / 3);

    for t in 0..tris.len() {
        let i0 = idx[t * 3] as usize;
        let i1 = idx[t * 3 + 1] as usize;
        let i2 = idx[t * 3 + 2] as usize;
        let got = [to_f32(tris[t].v0), to_f32(tris[t].v1), to_f32(tris[t].v2)];
        let want = [to_f32(mesh.positions[i0]), to_f32(mesh.positions[i1]), to_f32(
            mesh.positions[i2],
        )];
        for c in 0..3 {
            assert!((got[0][c] - want[0][c]).abs() < 1e-5, "roundtrip: tri {} v0[{}]", t, c);
            assert!((got[1][c] - want[1][c]).abs() < 1e-5, "roundtrip: tri {} v1[{}]", t, c);
            assert!((got[2][c] - want[2][c]).abs() < 1e-5, "roundtrip: tri {} v2[{}]", t, c);
        }
    }
}

#[test]
fn jr2_702_programmatic_stl_format_validation() {
    // Generate STL from a realistic depth map, then perform full binary
    // format validation.
    let w = 50usize;
    let h = 50usize;
    let depth: Vec<f32> = (0..w * h)
        .map(|i| {
            let x = (i % w) as f32 / (w - 1) as f32;
            let y = (i / w) as f32 / (h - 1) as f32;
            // Gaussian bump
            let cx = x - 0.5;
            let cy = y - 0.5;
            (-(cx * cx + cy * cy) * 8.0).exp()
        })
        .collect();
    let mesh = depth_to_mesh(&depth, w as u32, h as u32, 1, 2.0, 10.0, 0.5);
    let flags = vec![false; mesh.indices.as_ref().unwrap().len() / 3];
    validate_mesh_for_export(&mesh, &flags).unwrap();

    let buf = write_stl(&mesh).unwrap();

    // 1. Header: at least the fixed prelude
    assert!(buf.len() >= 84, "buffer too short");

    // 2. Triangle count matches
    let tri_count = u32::from_le_bytes([buf[80], buf[81], buf[82], buf[83]]);
    let expected_tris = ((w - 1) * (h - 1) * 2) as u32;
    assert_eq!(tri_count, expected_tris, "triangle count: expected {}, got {}", expected_tris, tri_count);

    // 3. File size matches formula
    let expected_size = 84 + tri_count as usize * 50;
    assert_eq!(buf.len(), expected_size, "file size mismatch");

    // 4. Per-triangle validation
    for t in 0..tri_count as usize {
        let base = 84 + t * 50;
        let nx = read_f32_at(&buf, base);
        let ny = read_f32_at(&buf, base + 4);
        let nz = read_f32_at(&buf, base + 8);
        assert!(
            nx.is_finite() && ny.is_finite() && nz.is_finite(),
            "triangle {} has non-finite normal",
            t
        );
        let nlen = (nx * nx + ny * ny + nz * nz).sqrt();
        assert!((nlen - 1.0).abs() < 1e-3, "triangle {} normal not unit length (len={})", t, nlen);

        for v in 0..3 {
            for c in 0..3 {
                let val = read_f32_at(&buf, base + 12 + v * 12 + c * 4);
                assert!(
                    val.is_finite(),
                    "triangle {} vertex {} component {} is not finite: {}",
                    t,
                    v,
                    c,
                    val
                );
            }
        }

        let attr = u16::from_le_bytes([buf[base + 48], buf[base + 49]]);
        assert_eq!(attr, 0, "triangle {} attribute byte count should be 0, got {}", t, attr);
    }
}

#[test]
fn jr2_703_empty_mesh_errors_on_stl_write() {
    let mesh = MeshData {
        positions: vec![],
        normals: vec![],
        indices: None,
    };
    let err = write_stl(&mesh);
    assert!(err.is_err(), "empty mesh should fail STL write");
}

#[test]
fn jr2_703_single_triangle_succeeds() {
    let mesh = MeshData {
        positions: vec![v3(0.0, 0.0, 0.0), v3(1.0, 0.0, 0.0), v3(0.0, 1.0, 0.0)],
        normals: vec![v3(0.0, 0.0, 1.0); 3],
        indices: Some(vec![0, 1, 2]),
    };
    let flags = vec![false; 1];
    validate_mesh_for_export(&mesh, &flags).unwrap();
    let buf = write_stl(&mesh).unwrap();
    assert_eq!(buf.len(), 84 + 50); // 1 triangle
    let tri_count = u32::from_le_bytes([buf[80], buf[81], buf[82], buf[83]]);
    assert_eq!(tri_count, 1);
}

#[test]
fn jr2_703_flat_depth_map_triangulation() {
    let depth: Vec<f32> = vec![0.5; 25];
    let mesh = depth_to_mesh(&depth, 5, 5, 1, 2.0, 10.0, 1.0);
    assert!(mesh.indices.is_some());
    let idx = mesh.indices.as_ref().unwrap();
    assert_eq!(idx.len(), 32 * 3); // 4x4 cells * 2 = 32 triangles

    let z_val = to_f32(mesh.positions[0])[2];
    for p in &mesh.positions {
        assert!((to_f32(*p)[2] - z_val).abs() < 1e-5, "flat depth should give uniform z");
    }

    let flags = vec![false; idx.len() / 3];
    validate_mesh_for_export(&mesh, &flags).unwrap();

    let buf = write_stl(&mesh).unwrap();
    assert_eq!(buf.len(), 84 + 32 * 50);
}

#[test]
fn jr2_703_stl_write_rejects_non_multiple_of_3_indices() {
    let mesh = MeshData {
        positions: vec![v3(0.0, 0.0, 0.0), v3(1.0, 0.0, 0.0), v3(0.0, 1.0, 0.0)],
        normals: vec![v3(0.0, 0.0, 1.0); 3],
        indices: Some(vec![0, 1, 2, 0]), // 4 indices
    };
    let err = write_stl(&mesh);
    assert!(err.is_err(), "non-multiple-of-3 indices should fail");
}

#[test]
fn stl_write_reports_out_of_bounds_triangle() {
    let mesh = MeshData {
        positions: vec![v3(0.0, 0.0, 0.0), v3(1.0, 0.0, 0.0)],
        normals: vec![v3(0.0, 0.0, 1.0); 2],
        indices: Some(vec![0, 1, 7]),
    };
    match write_stl(&mesh) {
        Err(StlWriteError::IndexOutOfBounds { triangle_index: 0 }) => {}
        other => panic!("expected IndexOutOfBounds at triangle 0, got {:?}", other),
    }
}

#[test]
fn stl_parse_rejects_short_buffer() {
    let buf: Vec<u8> = vec![0u8; 20];
    assert_eq!(parse_stl(&buf), Err(StlParseError::TooShort));
}

#[test]
fn stl_parse_rejects_inconsistent_count() {
    // Valid prelude claiming 3 triangles but no records follow.
    let mut buf: Vec<u8> = vec![0u8; 80];
    buf.extend_from_slice(&3u32.to_le_bytes());
    assert_eq!(parse_stl(&buf), Err(StlParseError::SizeMismatch));
}

#[test]
fn stl_vertices_roundtrip_bit_exact() {
    // The written bit patterns come back unchanged, not merely close.
    let mesh = MeshData {
        positions: vec![v3(0.1, -2.75, 3.3e7), v3(1.5e-9, 42.0, -0.0), v3(7.25, 8.5, 9.125)],
        normals: vec![v3(0.0, 0.0, 1.0); 3],
        indices: Some(vec![2, 0, 1]),
    };
    let buf = write_stl(&mesh).unwrap();
    let tris = parse_stl(&buf).unwrap();
    assert_eq!(tris.len(), 1);
    assert_eq!(tris[0].v0, mesh.positions[2]);
    assert_eq!(tris[0].v1, mesh.positions[0]);
    assert_eq!(tris[0].v2, mesh.positions[1]);
}

#[test]
fn stl_write_errors_render_messages() {
    assert_eq!(
        StlWriteError::NoIndices.message(),
        "Cannot write STL: mesh has no triangle indices"
    );
    assert_eq!(StlWriteError::NoTriangles.message(), "Cannot write STL: mesh has no triangles");
    assert_eq!(StlWriteError::InvalidIndexCount.message(), "Index count must be a multiple of 3");
    assert_eq!(
        StlWriteError::IndexOutOfBounds { triangle_index: 4 }.message(),
        "Index out of bounds at triangle 4"
    );
}

#[test]
fn stl_write_rejects_empty_index_buffer() {
    let mesh = MeshData {
        positions: vec![v3(0.0, 0.0, 0.0)],
        normals: vec![v3(0.0, 0.0, 1.0)],
        indices: Some(vec![]),
    };
    match write_stl(&mesh) {
        Err(StlWriteError::NoTriangles) => {}
        other => panic!("expected NoTriangles, got {:?}", other),
    }
}
