//! Strided sampling grid over a depth field: dimensions and triangulation.

use vstd::arithmetic::div_mod::{lemma_div_pos_is_pos, lemma_fundamental_div_mod, lemma_remainder_lower, lemma_remainder_upper};
use vstd::prelude::*;

verus! {

/// Largest width or height the pipeline accepts.
pub const MAX_DIMENSION: u32 = 8192;

/// Ceiling division: the least `q` with `q * b >= a` (for `b > 0`).
pub open spec fn ceil_div(a: nat, b: nat) -> nat
    recommends
        b > 0,
{
    if a == 0 {
        0
    } else {
        (((a - 1) / (b as int)) + 1) as nat
    }
}

/// `ceil_div` is the least quotient whose multiple covers `a`.
pub proof fn lemma_ceil_div(a: nat, b: nat)
    requires
        b > 0,
    ensures
        ceil_div(a, b) * b >= a,
        a > 0 ==> (ceil_div(a, b) - 1) * b < a,
        ceil_div(a, b) <= a,
{
    if a > 0 {
        let q = (a - 1) as nat / b;
        lemma_fundamental_div_mod((a - 1) as int, b as int);
        lemma_remainder_upper((a - 1) as int, b as int);
        lemma_remainder_lower((a - 1) as int, b as int);
        lemma_div_pos_is_pos((a - 1) as int, b as int);
        assert((q + 1) * b == q * b + b) by (nonlinear_arith);
        assert(q <= q * b) by (nonlinear_arith)
            requires
                b >= 1,
                q >= 0,
        ;
    }
}

/// Number of sampled grid columns: `ceil(width / step_x)`.
pub fn grid_cols(width: u32, step_x: u32) -> (r: u32)
    requires
        step_x >= 1,
    ensures
        r == ceil_div(width as nat, step_x as nat),
{
    if width == 0 {
        0
    } else {
        1 + (width - 1) / step_x
    }
}

/// Number of sampled grid rows: `ceil(height / step_y)`.
pub fn grid_rows(height: u32, step_y: u32) -> (r: u32)
    requires
        step_y >= 1,
    ensures
        r == ceil_div(height as nat, step_y as nat),
{
    if height == 0 {
        0
    } else {
        1 + (height - 1) / step_y
    }
}

/// Length of the index buffer for a complete grid triangulation:
/// two triangles (six indices) per interior cell, none if either
/// dimension has no complete cell.
pub open spec fn triangulation_len(num_rows: int, num_cols: int) -> int {
    if num_rows < 2 || num_cols < 2 {
        0
    } else {
        6 * ((num_rows - 1) * (num_cols - 1))
    }
}

/// The six indices emitted for grid cell `(ri, ci)` stand at offset
/// `6 * (ri * (num_cols - 1) + ci)` and name the cell's corners in the
/// fixed winding: top-left, top-right, bottom-left; then top-right,
/// bottom-right, bottom-left (counter-clockwise seen from +Z).
pub open spec fn cell_triangles_ok(s: Seq<u32>, num_cols: int, ri: int, ci: int) -> bool {
    let base = 6 * (ri * (num_cols - 1) + ci);
    let tl = ri * num_cols + ci;
    let bl = (ri + 1) * num_cols + ci;
    &&& s[base + 0] as int == tl
    &&& s[base + 1] as int == tl + 1
    &&& s[base + 2] as int == bl
    &&& s[base + 3] as int == tl + 1
    &&& s[base + 4] as int == bl + 1
    &&& s[base + 5] as int == bl
}

/// Triangle index buffer for a uniform `num_rows` x `num_cols` vertex grid.
///
/// Empty when fewer than two rows or columns (no complete cell, whatever the
/// sizes); otherwise each cell contributes two triangles in the fixed
/// winding of [`cell_triangles_ok`], and every index names a vertex of the
/// grid. Grids with cells are capped at [`MAX_DIMENSION`] per side, the
/// pipeline's own limit, which keeps every vertex index within `u32`.
pub fn triangulate_grid(num_rows: usize, num_cols: usize) -> (r: Vec<u32>)
    requires
        num_rows >= 2 && num_cols >= 2 ==> num_rows <= MAX_DIMENSION as usize && num_cols
            <= MAX_DIMENSION as usize,
    ensures
        r@.len() == triangulation_len(num_rows as int, num_cols as int),
        forall|ri: int, ci: int|
            0 <= ri < num_rows - 1 && 0 <= ci < num_cols - 1 ==> #[trigger] cell_triangles_ok(
                r@,
                num_cols as int,
                ri,
                ci,
            ),
        forall|k: int| 0 <= k < r@.len() ==> (#[trigger] r@[k]) < num_rows * num_cols,
{
    let mut indices: Vec<u32> = Vec::new();
    if num_rows < 2 || num_cols < 2 {
        return indices;
    }
    let rows_m1 = num_rows - 1;
    let cols_m1 = num_cols - 1;
    let c: u32 = num_cols as u32;
    let mut ri: usize = 0;
    while ri < rows_m1
        invariant
            2 <= num_rows <= MAX_DIMENSION as usize,
            2 <= num_cols <= MAX_DIMENSION as usize,
            rows_m1 == num_rows - 1,
            cols_m1 == num_cols - 1,
            c == num_cols as u32,
            0 <= ri <= rows_m1,
            indices@.len() == 6 * (ri * cols_m1),
            forall|rj: int, cj: int|
                0 <= rj < ri && 0 <= cj < cols_m1 ==> #[trigger] cell_triangles_ok(
                    indices@,
                    num_cols as int,
                    rj,
                    cj,
                ),
            forall|k: int| 0 <= k < indices@.len() ==> (#[trigger] indices@[k]) < num_rows * num_cols,
        decreases rows_m1 - ri,
    {
        let mut ci: usize = 0;
        while ci < cols_m1
            invariant
                2 <= num_rows <= MAX_DIMENSION as usize,
                2 <= num_cols <= MAX_DIMENSION as usize,
                rows_m1 == num_rows - 1,
                cols_m1 == num_cols - 1,
                c == num_cols as u32,
                0 <= ri < rows_m1,
                0 <= ci <= cols_m1,
                indices@.len() == 6 * (ri * cols_m1 + ci),
                forall|rj: int, cj: int|
                    (0 <= rj < ri && 0 <= cj < cols_m1) || (rj == ri && 0 <= cj < ci)
                        ==> #[trigger] cell_triangles_ok(indices@, num_cols as int, rj, cj),
                forall|k: int|
                    0 <= k < indices@.len() ==> (#[trigger] indices@[k]) < num_rows * num_cols,
            decreases cols_m1 - ci,
        {
            proof {
                assert((ri + 1) * (num_cols as int) + ci + 1 < (num_rows as int) * (num_cols
                    as int)) by (nonlinear_arith)
                    requires
                        0 <= ri < num_rows - 1,
                        0 <= ci < num_cols - 1,
                        2 <= num_rows,
                        2 <= num_cols,
                ;
                assert((ri + 1) * (num_cols as int) + ci + 1 <= (MAX_DIMENSION as int) * (
                MAX_DIMENSION as int)) by (nonlinear_arith)
                    requires
                        0 <= ri,
                        ri + 1 < num_rows as int,
                        0 <= ci < num_cols as int,
                        num_rows <= MAX_DIMENSION as usize,
                        num_cols <= MAX_DIMENSION as usize,
                ;
                assert((ri as int) * (num_cols as int) + ci < (ri + 1) * (num_cols as int))
                    by (nonlinear_arith)
                    requires
                        0 <= ri,
                        0 <= ci < num_cols as int,
                ;
            }
            let tl: u32 = (ri as u32) * c + (ci as u32);
            let bl: u32 = (ri as u32 + 1) * c + (ci as u32);
            let ghost old_seq = indices@;
            indices.push(tl);
            indices.push(tl + 1);
            indices.push(bl);
            indices.push(tl + 1);
            indices.push(bl + 1);
            indices.push(bl);
            proof {
                let nc = num_cols as int;
                assert(cell_triangles_ok(indices@, nc, ri as int, ci as int));
                assert forall|rj: int, cj: int|
                    (0 <= rj < ri && 0 <= cj < cols_m1) || (rj == ri && 0 <= cj < ci)
                        implies #[trigger] cell_triangles_ok(indices@, nc, rj, cj) by {
                    assert(cell_triangles_ok(old_seq, nc, rj, cj));
                    assert(rj * (cols_m1 as int) + cj < ri * (cols_m1 as int) + ci)
                        by (nonlinear_arith)
                        requires
                            (0 <= rj < ri && 0 <= cj < cols_m1) || (rj == ri && 0 <= cj < ci),
                            0 <= ci,
                            cols_m1 >= 1,
                    ;
                    assert(6 * (rj * (nc - 1) + cj) + 5 < old_seq.len());
                }
            }
            ci += 1;
        }
        proof {
            assert((ri + 1) * cols_m1 == ri * cols_m1 + cols_m1) by (nonlinear_arith);
        }
        ri += 1;
    }
    indices
}

} // verus!
