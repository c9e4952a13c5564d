//! Pre-export mesh validation: the manufacturability gate.
//!
//! A mesh must pass every check here before a codec writes it out. The checks
//! run in a fixed order and the first failure wins. Whether a triangle is
//! degenerate (squared cross-product area below threshold) is a
//! floating-point question; the caller's numeric kernel answers it per
//! triangle and hands the answers in as flags, which this module consumes in
//! the documented order.

use crate::fbits::{f32_bits_finite, is_finite_bits};
use crate::mesh::{MeshData, Vec3Bits};
use crate::numfmt::{spec_decimal, u64_to_string, usize_to_string};
use vstd::prelude::*;
use vstd::string::StringExecFns;

verus! {

/// A fabrication-blocking defect, in the order checked: no vertices, no
/// triangles, ragged index count, an index past the vertex array, a
/// non-finite vertex component, a zero-area triangle.
#[derive(Clone, Copy, Debug, PartialEq, Eq, Structural)]
pub enum MeshValidationError {
    /// Mesh has no triangles (indices missing or empty).
    NoTriangles,
    /// Mesh has no vertices.
    NoVertices,
    /// Index count is not a multiple of 3.
    InvalidIndexCount(usize),
    /// An index references a vertex beyond the positions array.
    IndexOutOfBounds { index: u32, vertex_count: usize },
    /// A vertex position contains NaN or Inf.
    InvalidPosition { vertex_index: usize },
    /// A degenerate triangle (zero area) was found.
    DegenerateTriangle { triangle_index: usize },
}

impl MeshValidationError {
    /// What each defect means, in words.
    pub open spec fn message_spec(self) -> Seq<char> {
        match self {
            MeshValidationError::NoTriangles => "Mesh has no triangles; cannot export STL"@,
            MeshValidationError::NoVertices => "Mesh has no vertices"@,
            MeshValidationError::InvalidIndexCount(n) => "Index count ("@ + spec_decimal(n as nat)
                + ") is not a multiple of 3"@,
            MeshValidationError::IndexOutOfBounds { index, vertex_count } => "Index "@
                + spec_decimal(index as nat) + " is out of bounds (vertex count: "@ + spec_decimal(
                vertex_count as nat,
            ) + ")"@,
            MeshValidationError::InvalidPosition { vertex_index } => "Vertex "@ + spec_decimal(
                vertex_index as nat,
            ) + " has NaN or Inf position; mesh is invalid"@,
            MeshValidationError::DegenerateTriangle { triangle_index } => "Triangle "@
                + spec_decimal(triangle_index as nat) + " is degenerate (zero area); mesh may be invalid"@,
        }
    }

    /// Renders the defect as a human-readable message.
    pub fn message(&self) -> (s: String)
        ensures
            s@ == self.message_spec(),
    {
        match self {
            MeshValidationError::NoTriangles => String::from_str(
                "Mesh has no triangles; cannot export STL",
            ),
            MeshValidationError::NoVertices => String::from_str("Mesh has no vertices"),
            MeshValidationError::InvalidIndexCount(n) => {
                let mut s = String::from_str("Index count (");
                let n1 = usize_to_string(*n);
                s.append(n1.as_str());
                s.append(") is not a multiple of 3");
                s
            },
            MeshValidationError::IndexOutOfBounds { index, vertex_count } => {
                let mut s = String::from_str("Index ");
                let n1 = u64_to_string(*index as u64);
                s.append(n1.as_str());
                s.append(" is out of bounds (vertex count: ");
                let n2 = usize_to_string(*vertex_count);
                s.append(n2.as_str());
                s.append(")");
                s
            },
            MeshValidationError::InvalidPosition { vertex_index } => {
                let mut s = String::from_str("Vertex ");
                let n1 = usize_to_string(*vertex_index);
                s.append(n1.as_str());
                s.append(" has NaN or Inf position; mesh is invalid");
                s
            },
            MeshValidationError::DegenerateTriangle { triangle_index } => {
                let mut s = String::from_str("Triangle ");
                let n1 = usize_to_string(*triangle_index);
                s.append(n1.as_str());
                s.append(" is degenerate (zero area); mesh may be invalid");
                s
            },
        }
    }
}

/// All three components of a vertex are finite.
pub open spec fn vertex_finite(v: Vec3Bits) -> bool {
    f32_bits_finite(v.x) && f32_bits_finite(v.y) && f32_bits_finite(v.z)
}

/// The mesh has a nonempty index buffer.
pub open spec fn has_triangles(m: &MeshData) -> bool {
    m.indices matches Some(v) && v@.len() > 0
}

/// Every index names a vertex below `vertex_count`.
pub open spec fn indices_in_bounds(idx: Seq<u32>, vertex_count: int) -> bool {
    forall|k: int| 0 <= k < idx.len() ==> (#[trigger] idx[k]) < vertex_count
}

/// Every vertex position is finite.
pub open spec fn positions_finite(ps: Seq<Vec3Bits>) -> bool {
    forall|i: int| 0 <= i < ps.len() ==> vertex_finite(#[trigger] ps[i])
}

/// `k` is the first index into `idx` whose value is out of bounds.
pub open spec fn first_oob_at(idx: Seq<u32>, vertex_count: int, k: int) -> bool {
    &&& 0 <= k < idx.len()
    &&& idx[k] >= vertex_count
    &&& forall|j: int| 0 <= j < k ==> (#[trigger] idx[j]) < vertex_count
}

/// `i` is the first vertex with a non-finite component.
pub open spec fn first_nonfinite_at(ps: Seq<Vec3Bits>, i: int) -> bool {
    &&& 0 <= i < ps.len()
    &&& !vertex_finite(ps[i])
    &&& forall|j: int| 0 <= j < i ==> vertex_finite(#[trigger] ps[j])
}

/// `t` is the first triangle flagged degenerate.
pub open spec fn first_degenerate_at(flags: Seq<bool>, t: int) -> bool {
    &&& 0 <= t < flags.len()
    &&& flags[t]
    &&& forall|j: int| 0 <= j < t ==> !(#[trigger] flags[j])
}

/// Number of triangles the degeneracy flags must cover: one per index
/// triple, and none when the index buffer is missing or malformed (those
/// defects are reported before any triangle is inspected).
pub open spec fn spec_triangle_count(m: &MeshData) -> int {
    match m.indices {
        Some(v) => if v@.len() > 0 && v@.len() % 3 == 0 {
            v@.len() as int / 3
        } else {
            0
        },
        None => 0,
    }
}

/// Validates mesh data before export, in this fixed order (first failure
/// wins): vertices present; indices present and nonempty; index count a
/// multiple of 3; all indices in bounds; all positions finite; no triangle
/// flagged degenerate. `tri_degenerate[t]` holds when the caller's numeric
/// kernel found triangle `t` to have squared cross-product area below the
/// degeneracy threshold.
#[verifier::loop_isolation(false)]
pub fn validate_mesh_for_export(mesh: &MeshData, tri_degenerate: &Vec<bool>) -> (r: Result<
    (),
    MeshValidationError,
>)
    requires
        tri_degenerate@.len() == spec_triangle_count(mesh),
    ensures
        r is Ok <==> {
            &&& mesh.positions@.len() > 0
            &&& has_triangles(mesh)
            &&& mesh.indices->0@.len() % 3 == 0
            &&& indices_in_bounds(mesh.indices->0@, mesh.positions@.len() as int)
            &&& positions_finite(mesh.positions@)
            &&& forall|t: int| 0 <= t < tri_degenerate@.len() ==> !(#[trigger] tri_degenerate@[t])
        },
        mesh.positions@.len() == 0 ==> r == Err::<(), MeshValidationError>(
            MeshValidationError::NoVertices,
        ),
        mesh.positions@.len() > 0 && !has_triangles(mesh) ==> r == Err::<(), MeshValidationError>(
            MeshValidationError::NoTriangles,
        ),
        mesh.positions@.len() > 0 && has_triangles(mesh) && mesh.indices->0@.len() % 3 != 0 ==> r
            == Err::<(), MeshValidationError>(
            MeshValidationError::InvalidIndexCount(mesh.indices->0@.len() as usize),
        ),
        mesh.positions@.len() > 0 && has_triangles(mesh) && mesh.indices->0@.len() % 3 == 0
            && !indices_in_bounds(mesh.indices->0@, mesh.positions@.len() as int) ==> {
            &&& r matches Err(MeshValidationError::IndexOutOfBounds { index, vertex_count })
            &&& vertex_count == mesh.positions@.len()
            &&& exists|k: int|
                #[trigger] first_oob_at(mesh.indices->0@, mesh.positions@.len() as int, k)
                    && mesh.indices->0@[k] == index
        },
        mesh.positions@.len() > 0 && has_triangles(mesh) && mesh.indices->0@.len() % 3 == 0
            && indices_in_bounds(mesh.indices->0@, mesh.positions@.len() as int)
            && !positions_finite(mesh.positions@) ==> {
            &&& r matches Err(MeshValidationError::InvalidPosition { vertex_index })
            &&& first_nonfinite_at(mesh.positions@, vertex_index as int)
        },
        mesh.positions@.len() > 0 && has_triangles(mesh) && mesh.indices->0@.len() % 3 == 0
            && indices_in_bounds(mesh.indices->0@, mesh.positions@.len() as int)
            && positions_finite(mesh.positions@) && !(forall|t: int|
            0 <= t < tri_degenerate@.len() ==> !(#[trigger] tri_degenerate@[t])) ==> {
            &&& r matches Err(MeshValidationError::DegenerateTriangle { triangle_index })
            &&& first_degenerate_at(tri_degenerate@, triangle_index as int)
        },
{
    if mesh.positions.len() == 0 {
        return Err(MeshValidationError::NoVertices);
    }
    let indices: &Vec<u32> = match &mesh.indices {
        Some(idx) => {
            if idx.len() == 0 {
                return Err(MeshValidationError::NoTriangles);
            }
            idx
        },
        None => {
            return Err(MeshValidationError::NoTriangles);
        },
    };
    if indices.len() % 3 != 0 {
        return Err(MeshValidationError::InvalidIndexCount(indices.len()));
    }
    let vertex_count = mesh.positions.len();
    let mut k: usize = 0;
    while k < indices.len()
        invariant
            0 <= k <= indices@.len(),
            vertex_count == mesh.positions@.len(),
            forall|j: int| 0 <= j < k ==> (#[trigger] indices@[j]) < vertex_count,
        decreases indices@.len() - k,
    {
        if indices[k] as usize >= vertex_count {
            proof {
                assert(first_oob_at(mesh.indices->0@, mesh.positions@.len() as int, k as int));
            }
            return Err(
                MeshValidationError::IndexOutOfBounds { index: indices[k], vertex_count },
            );
        }
        k += 1;
    }
    let mut i: usize = 0;
    while i < mesh.positions.len()
        invariant
            0 <= i <= mesh.positions@.len(),
            forall|j: int| 0 <= j < i ==> vertex_finite(#[trigger] mesh.positions@[j]),
        decreases mesh.positions@.len() - i,
    {
        let p = &mesh.positions[i];
        if !(is_finite_bits(p.x) && is_finite_bits(p.y) && is_finite_bits(p.z)) {
            return Err(MeshValidationError::InvalidPosition { vertex_index: i });
        }
        i += 1;
    }
    let mut t: usize = 0;
    while t < tri_degenerate.len()
        invariant
            0 <= t <= tri_degenerate@.len(),
            forall|j: int| 0 <= j < t ==> !(#[trigger] tri_degenerate@[j]),
        decreases tri_degenerate@.len() - t,
    {
        if tri_degenerate[t] {
            return Err(MeshValidationError::DegenerateTriangle { triangle_index: t });
        }
        t += 1;
    }
    Ok(())
}

} // verus!
