//! Mesh data model: millimeter-space vertices with normals and optional
//! triangle topology, plus the checks on depth-field input shape.

use crate::fbits::{F32_ONE_BITS, F32_TEN_BITS, F32_TWO_BITS};
use crate::grid::{
    ceil_div, cell_triangles_ok, lemma_ceil_div, triangulation_len, MAX_DIMENSION,
};
use crate::numfmt::{spec_decimal, usize_to_string};
use vstd::prelude::*;
use vstd::string::StringExecFns;

verus! {

/// A three-component single-precision vector, each component carried as its
/// IEEE 754 bit pattern.
#[derive(Clone, Copy, Debug, PartialEq, Eq, Structural)]
pub struct Vec3Bits {
    pub x: u32,
    pub y: u32,
    pub z: u32,
}

/// Parameters for mesh generation. The millimeter values are single-precision
/// bit patterns; the steps subsample the pixel grid.
#[derive(Clone, Copy, Debug)]
pub struct MeshParams {
    /// Grid step in X: sample every `step_x` pixels. 1 = full resolution.
    pub step_x: u32,
    /// Grid step in Y. 1 = full resolution.
    pub step_y: u32,
    /// Depth range minimum in mm (bit pattern).
    pub depth_min_mm: u32,
    /// Depth range maximum in mm (bit pattern).
    pub depth_max_mm: u32,
    /// Scale from pixel to mm: 1 pixel = `pixel_to_mm` mm (bit pattern).
    pub pixel_to_mm: u32,
}

impl Default for MeshParams {
    /// Full resolution, depth range 2 mm to 10 mm, one pixel per millimeter.
    fn default() -> (r: Self)
        ensures
            r.step_x == 1,
            r.step_y == 1,
            r.depth_min_mm == F32_TWO_BITS,
            r.depth_max_mm == F32_TEN_BITS,
            r.pixel_to_mm == F32_ONE_BITS,
    {
        MeshParams {
            step_x: 1,
            step_y: 1,
            depth_min_mm: F32_TWO_BITS,
            depth_max_mm: F32_TEN_BITS,
            pixel_to_mm: F32_ONE_BITS,
        }
    }
}

/// Mesh output: vertex positions and unit normals in millimeters, and an
/// optional triangle index buffer. `indices == None` is a point cloud,
/// the legal terminal state when the sampled grid has fewer than two rows
/// or columns.
#[derive(Clone, Debug)]
pub struct MeshData {
    /// Vertex positions (x, y, z) in millimeters.
    pub positions: Vec<Vec3Bits>,
    /// Vertex normals, unit length except at documented degeneracies.
    pub normals: Vec<Vec3Bits>,
    /// Triangle index buffer; every three consecutive entries form a triangle.
    pub indices: Option<Vec<u32>>,
}

/// Rejection of a depth field before any geometry is built, checked in this
/// order: zero width, zero height, a dimension above [`MAX_DIMENSION`],
/// value count different from `width * height`.
#[derive(Clone, Copy, Debug, PartialEq, Eq, Structural)]
pub enum DepthInputError {
    ZeroWidth,
    ZeroHeight,
    DimensionsTooLarge,
    LengthMismatch { len: usize, expected: usize },
}

/// The outcome [`validate_depth_input`] must produce: the first failed check
/// wins, and a depth field passes exactly when its dimensions are positive,
/// at most [`MAX_DIMENSION`], and consistent with the value count.
pub open spec fn depth_input_check(width: u32, height: u32, depth_len: usize) -> Result<
    (),
    DepthInputError,
> {
    if width == 0 {
        Err(DepthInputError::ZeroWidth)
    } else if height == 0 {
        Err(DepthInputError::ZeroHeight)
    } else if width > MAX_DIMENSION || height > MAX_DIMENSION {
        Err(DepthInputError::DimensionsTooLarge)
    } else if depth_len != width * height {
        Err(
            DepthInputError::LengthMismatch {
                len: depth_len,
                expected: (width * height) as usize,
            },
        )
    } else {
        Ok(())
    }
}

impl DepthInputError {
    /// What each rejection means, in words.
    pub open spec fn message_spec(self) -> Seq<char> {
        match self {
            DepthInputError::ZeroWidth => "width must be positive"@,
            DepthInputError::ZeroHeight => "height must be positive"@,
            DepthInputError::DimensionsTooLarge => "dimensions must be <= 8192"@,
            DepthInputError::LengthMismatch { len, expected } => "depth length "@ + spec_decimal(
                len as nat,
            ) + " does not match width x height "@ + spec_decimal(expected as nat),
        }
    }

    /// Renders the rejection as a human-readable message.
    pub fn message(&self) -> (s: String)
        ensures
            s@ == self.message_spec(),
    {
        match self {
            DepthInputError::ZeroWidth => String::from_str("width must be positive"),
            DepthInputError::ZeroHeight => String::from_str("height must be positive"),
            DepthInputError::DimensionsTooLarge => String::from_str("dimensions must be <= 8192"),
            DepthInputError::LengthMismatch { len, expected } => {
                let mut s = String::from_str("depth length ");
                let n1 = usize_to_string(*len);
                s.append(n1.as_str());
                s.append(" does not match width x height ");
                let n2 = usize_to_string(*expected);
                s.append(n2.as_str());
                s
            },
        }
    }
}

/// Validates depth-field shape before any geometry is built: dimensions
/// positive and at most [`MAX_DIMENSION`], and `depth_len == width * height`.
pub fn validate_depth_input(width: u32, height: u32, depth_len: usize) -> (r: Result<
    (),
    DepthInputError,
>)
    ensures
        r == depth_input_check(width, height, depth_len),
        r is Ok <==> (1 <= width <= MAX_DIMENSION && 1 <= height <= MAX_DIMENSION && depth_len
            == width * height),
{
    if width == 0 {
        return Err(DepthInputError::ZeroWidth);
    }
    if height == 0 {
        return Err(DepthInputError::ZeroHeight);
    }
    if width > MAX_DIMENSION || height > MAX_DIMENSION {
        return Err(DepthInputError::DimensionsTooLarge);
    }
    proof {
        assert((width as int) * (height as int) <= (MAX_DIMENSION as int) * (MAX_DIMENSION as int))
            by (nonlinear_arith)
            requires
                1 <= width <= MAX_DIMENSION,
                1 <= height <= MAX_DIMENSION,
        ;
    }
    let expected: usize = (width as usize) * (height as usize);
    if depth_len != expected {
        return Err(DepthInputError::LengthMismatch { len: depth_len, expected });
    }
    Ok(())
}

/// A pixel of the source grid selected for sampling.
#[derive(Clone, Copy, Debug, PartialEq, Eq, Structural)]
pub struct GridPoint {
    /// Pixel row, `grid row index * step_y`.
    pub row: u32,
    /// Pixel column, `grid column index * step_x`.
    pub col: u32,
}

/// The sampling plan for a strided walk of a `width` x `height` pixel grid:
/// one entry per sampled vertex in row-major order, covering
/// `ceil(height / step_y)` rows and `ceil(width / step_x)` columns.
pub fn sample_coords(width: u32, height: u32, step_x: u32, step_y: u32) -> (r: Vec<GridPoint>)
    requires
        1 <= width <= MAX_DIMENSION,
        1 <= height <= MAX_DIMENSION,
        step_x >= 1,
        step_y >= 1,
    ensures
        r@.len() == ceil_div(height as nat, step_y as nat) * ceil_div(width as nat, step_x as nat),
        forall|ri: int, ci: int|
            0 <= ri < ceil_div(height as nat, step_y as nat) && 0 <= ci < ceil_div(
                width as nat,
                step_x as nat,
            ) ==> {
                let p = #[trigger] r@[ri * ceil_div(width as nat, step_x as nat) + ci];
                p.row == ri * step_y && p.col == ci * step_x
            },
        forall|k: int|
            0 <= k < r@.len() ==> (#[trigger] r@[k]).row < height && r@[k].col < width,
{
    let num_rows = crate::grid::grid_rows(height, step_y);
    let num_cols = crate::grid::grid_cols(width, step_x);
    proof {
        lemma_ceil_div(height as nat, step_y as nat);
        lemma_ceil_div(width as nat, step_x as nat);
        assert((num_rows as int) * (num_cols as int) <= (MAX_DIMENSION as int) * (MAX_DIMENSION
            as int)) by (nonlinear_arith)
            requires
                0 <= num_rows <= MAX_DIMENSION,
                0 <= num_cols <= MAX_DIMENSION,
        ;
    }
    let mut points: Vec<GridPoint> = Vec::new();
    let mut ri: u32 = 0;
    while ri < num_rows
        invariant
            num_rows == ceil_div(height as nat, step_y as nat),
            num_cols == ceil_div(width as nat, step_x as nat),
            1 <= width <= MAX_DIMENSION,
            1 <= height <= MAX_DIMENSION,
            step_x >= 1,
            step_y >= 1,
            num_rows >= 1,
            num_cols >= 1,
            (num_rows - 1) * step_y < height,
            (num_cols - 1) * step_x < width,
            0 <= ri <= num_rows,
            points@.len() == ri * num_cols,
            forall|rj: int, cj: int|
                0 <= rj < ri && 0 <= cj < num_cols ==> {
                    let p = #[trigger] points@[rj * (num_cols as int) + cj];
                    p.row == rj * step_y && p.col == cj * step_x
                },
            forall|k: int|
                0 <= k < points@.len() ==> (#[trigger] points@[k]).row < height && points@[k].col
                    < width,
        decreases num_rows - ri,
    {
        let mut ci: u32 = 0;
        while ci < num_cols
            invariant
                num_rows == ceil_div(height as nat, step_y as nat),
                num_cols == ceil_div(width as nat, step_x as nat),
                1 <= width <= MAX_DIMENSION,
                1 <= height <= MAX_DIMENSION,
                step_x >= 1,
                step_y >= 1,
                num_rows >= 1,
                num_cols >= 1,
                (num_rows - 1) * step_y < height,
                (num_cols - 1) * step_x < width,
                0 <= ri < num_rows,
                0 <= ci <= num_cols,
                points@.len() == ri * num_cols + ci,
                forall|rj: int, cj: int|
                    (0 <= rj < ri && 0 <= cj < num_cols) || (rj == ri && 0 <= cj < ci) ==> {
                        let p = #[trigger] points@[rj * (num_cols as int) + cj];
                        p.row == rj * step_y && p.col == cj * step_x
                    },
                forall|k: int|
                    0 <= k < points@.len() ==> (#[trigger] points@[k]).row < height
                        && points@[k].col < width,
            decreases num_cols - ci,
        {
            proof {
                assert((ri as int) * (step_y as int) <= (num_rows - 1) * (step_y as int))
                    by (nonlinear_arith)
                    requires
                        0 <= ri < num_rows,
                        step_y >= 1,
                ;
                assert((ci as int) * (step_x as int) <= (num_cols - 1) * (step_x as int))
                    by (nonlinear_arith)
                    requires
                        0 <= ci < num_cols,
                        step_x >= 1,
                ;
            }
            let row: u32 = ri * step_y;
            let col: u32 = ci * step_x;
            let ghost old_points = points@;
            points.push(GridPoint { row, col });
            proof {
                assert forall|rj: int, cj: int|
                    (0 <= rj < ri && 0 <= cj < num_cols) || (rj == ri && 0 <= cj < ci + 1) implies {
                    let p = #[trigger] points@[rj * (num_cols as int) + cj];
                    p.row == rj * step_y && p.col == cj * step_x
                } by {
                    if rj == ri && cj == ci as int {
                        assert(points@[rj * (num_cols as int) + cj] == points@[old_points.len()
                            as int]);
                    } else {
                        assert(rj * (num_cols as int) + cj < old_points.len()) by (nonlinear_arith)
                            requires
                                (0 <= rj < ri && 0 <= cj < num_cols) || (rj == ri && 0 <= cj < ci),
                                old_points.len() == ri * (num_cols as int) + ci,
                                num_cols >= 1,
                                0 <= ci,
                        ;
                        assert(points@[rj * (num_cols as int) + cj] == old_points[rj * (num_cols
                            as int) + cj]);
                    }
                }
            }
            ci = ci + 1;
        }
        proof {
            assert((ri + 1) * (num_cols as int) == ri * (num_cols as int) + num_cols)
                by (nonlinear_arith);
        }
        ri = ri + 1;
    }
    points
}

/// Assembles the mesh for a sampled grid: positions and normals as the
/// caller's numeric kernel computed them (one per grid vertex, row-major),
/// with the fixed grid triangulation attached whenever the grid has at least
/// two rows and two columns, and no topology otherwise.
pub fn grid_mesh_from_samples(
    positions: Vec<Vec3Bits>,
    normals: Vec<Vec3Bits>,
    num_rows: usize,
    num_cols: usize,
) -> (m: MeshData)
    requires
        num_rows <= MAX_DIMENSION as usize,
        num_cols <= MAX_DIMENSION as usize,
        positions@.len() == num_rows * num_cols,
        normals@.len() == positions@.len(),
    ensures
        m.positions@ == positions@,
        m.normals@ == normals@,
        m.positions@.len() == num_rows * num_cols,
        (num_rows >= 2 && num_cols >= 2) <==> m.indices is Some,
        m.indices matches Some(v) ==> {
            &&& v@.len() == triangulation_len(num_rows as int, num_cols as int)
            &&& forall|ri: int, ci: int|
                0 <= ri < num_rows - 1 && 0 <= ci < num_cols - 1 ==> #[trigger] cell_triangles_ok(
                    v@,
                    num_cols as int,
                    ri,
                    ci,
                )
            &&& forall|k: int| 0 <= k < v@.len() ==> (#[trigger] v@[k]) < m.positions@.len()
        },
{
    let indices = if num_rows >= 2 && num_cols >= 2 {
        Some(crate::grid::triangulate_grid(num_rows, num_cols))
    } else {
        None
    };
    MeshData { positions, normals, indices }
}

} // verus!
