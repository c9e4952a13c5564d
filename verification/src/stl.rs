//! Binary STL codec: bit-exact serialization of a triangulated mesh, and a
//! parser over the same layout for checking what was written.
//!
//! Wire format, little-endian throughout: an 80-byte header (ASCII banner,
//! zero-padded), a `u32` triangle count, then one 50-byte record per
//! triangle: face normal, three vertices (three `u32` bit patterns each),
//! and a `u16` attribute byte count fixed at zero. The face normal is a
//! floating-point product of the triangle's vertices; the caller's numeric
//! kernel computes one per triangle and hands them in.

use crate::mesh::{MeshData, Vec3Bits};
use crate::numfmt::{spec_decimal, usize_to_string};
use vstd::bytes::{
    lemma_auto_spec_u16_to_from_le_bytes, lemma_auto_spec_u32_to_from_le_bytes,
    spec_u16_from_le_bytes, spec_u16_to_le_bytes, spec_u32_from_le_bytes, spec_u32_to_le_bytes,
    u16_to_le_bytes, u32_from_le_bytes, u32_to_le_bytes,
};
use vstd::prelude::*;
use vstd::slice::slice_subrange;
use vstd::string::StringExecFns;

verus! {

/// Why an STL write is refused: the same triangle-index preconditions the
/// validator checks, re-checked here so the codec is safe to call standalone.
#[derive(Clone, Copy, Debug, PartialEq, Eq, Structural)]
pub enum StlWriteError {
    /// The mesh has no index buffer at all.
    NoIndices,
    /// The index buffer is empty.
    NoTriangles,
    /// The index count is not a multiple of 3.
    InvalidIndexCount,
    /// A triangle references a vertex beyond the positions array.
    IndexOutOfBounds { triangle_index: usize },
}

impl StlWriteError {
    /// What each refusal means, in words.
    pub open spec fn message_spec(self) -> Seq<char> {
        match self {
            StlWriteError::NoIndices => "Cannot write STL: mesh has no triangle indices"@,
            StlWriteError::NoTriangles => "Cannot write STL: mesh has no triangles"@,
            StlWriteError::InvalidIndexCount => "Index count must be a multiple of 3"@,
            StlWriteError::IndexOutOfBounds { triangle_index } => "Index out of bounds at triangle "@
                + spec_decimal(triangle_index as nat),
        }
    }

    /// Renders the refusal as a human-readable message.
    pub fn message(&self) -> (s: String)
        ensures
            s@ == self.message_spec(),
    {
        match self {
            StlWriteError::NoIndices => String::from_str(
                "Cannot write STL: mesh has no triangle indices",
            ),
            StlWriteError::NoTriangles => String::from_str(
                "Cannot write STL: mesh has no triangles",
            ),
            StlWriteError::InvalidIndexCount => String::from_str(
                "Index count must be a multiple of 3",
            ),
            StlWriteError::IndexOutOfBounds { triangle_index } => {
                let mut s = String::from_str("Index out of bounds at triangle ");
                let n = usize_to_string(*triangle_index);
                s.append(n.as_str());
                s
            },
        }
    }
}

/// The 26 ASCII bytes of the header banner, `SimplePicture3D STL Export`.
pub open spec fn stl_banner() -> Seq<u8> {
    seq![
        83u8, 105u8, 109u8, 112u8, 108u8, 101u8, 80u8, 105u8, 99u8, 116u8, 117u8, 114u8, 101u8,
        51u8, 68u8, 32u8, 83u8, 84u8, 76u8, 32u8, 69u8, 120u8, 112u8, 111u8, 114u8, 116u8,
    ]
}

/// The 80-byte header: the banner, zero-padded.
pub open spec fn stl_header() -> Seq<u8> {
    stl_banner() + Seq::new(54, |i: int| 0u8)
}

/// The 12 bytes of a vector: three little-endian `u32` bit patterns.
pub open spec fn vec3_le_bytes(v: Vec3Bits) -> Seq<u8> {
    spec_u32_to_le_bytes(v.x) + spec_u32_to_le_bytes(v.y) + spec_u32_to_le_bytes(v.z)
}

/// One 50-byte triangle record: normal, three vertices, zero attribute count.
pub open spec fn stl_record(normal: Vec3Bits, v0: Vec3Bits, v1: Vec3Bits, v2: Vec3Bits) -> Seq<
    u8,
> {
    vec3_le_bytes(normal) + vec3_le_bytes(v0) + vec3_le_bytes(v1) + vec3_le_bytes(v2)
        + spec_u16_to_le_bytes(0u16)
}

/// The record for triangle `t` of the mesh: its face normal and its three
/// vertex positions as resolved through the index buffer.
pub open spec fn stl_triangle_record(m: &MeshData, normals: Seq<Vec3Bits>, t: int) -> Seq<u8> {
    let idx = m.indices->0@;
    stl_record(
        normals[t],
        m.positions@[idx[3 * t] as int],
        m.positions@[idx[3 * t + 1] as int],
        m.positions@[idx[3 * t + 2] as int],
    )
}

/// The concatenation of the first `n` triangle records.
pub open spec fn stl_records(m: &MeshData, normals: Seq<Vec3Bits>, n: int) -> Seq<u8>
    decreases n,
{
    if n <= 0 {
        Seq::empty()
    } else {
        stl_records(m, normals, n - 1) + stl_triangle_record(m, normals, n - 1)
    }
}

/// Number of triangles in the mesh's index buffer (zero without one).
pub open spec fn stl_triangle_count(m: &MeshData) -> int {
    match m.indices {
        Some(v) => v@.len() as int / 3,
        None => 0,
    }
}

/// The complete STL file for the mesh: header, triangle count, records.
pub open spec fn stl_bytes(m: &MeshData, normals: Seq<Vec3Bits>) -> Seq<u8> {
    stl_header() + spec_u32_to_le_bytes(stl_triangle_count(m) as u32) + stl_records(
        m,
        normals,
        stl_triangle_count(m),
    )
}

/// All three corners of triangle `t` name vertices below `vertex_count`.
pub open spec fn triangle_in_bounds(idx: Seq<u32>, vertex_count: int, t: int) -> bool {
    &&& idx[3 * t] < vertex_count
    &&& idx[3 * t + 1] < vertex_count
    &&& idx[3 * t + 2] < vertex_count
}

/// Every triangle of the buffer stays within the vertex array.
pub open spec fn all_triangles_in_bounds(idx: Seq<u32>, vertex_count: int) -> bool {
    forall|t: int|
        0 <= t < idx.len() as int / 3 ==> #[trigger] triangle_in_bounds(idx, vertex_count, t)
}

/// `t` is the first triangle with a corner out of bounds.
pub open spec fn first_triangle_oob_at(idx: Seq<u32>, vertex_count: int, t: int) -> bool {
    &&& 0 <= t < idx.len() as int / 3
    &&& !triangle_in_bounds(idx, vertex_count, t)
    &&& forall|j: int| 0 <= j < t ==> #[trigger] triangle_in_bounds(idx, vertex_count, j)
}

/// Appends the little-endian bytes of `v`.
fn push_u32_le(buf: &mut Vec<u8>, v: u32)
    ensures
        final(buf)@ == old(buf)@ + spec_u32_to_le_bytes(v),
{
    let mut b = u32_to_le_bytes(v);
    buf.append(&mut b);
}

/// Appends the twelve bytes of a vector.
fn push_vec3(buf: &mut Vec<u8>, v: Vec3Bits)
    ensures
        final(buf)@ == old(buf)@ + vec3_le_bytes(v),
{
    push_u32_le(buf, v.x);
    push_u32_le(buf, v.y);
    push_u32_le(buf, v.z);
    proof {
        assert(buf@ =~= old(buf)@ + vec3_le_bytes(v));
    }
}

/// Appends the 80 header bytes.
fn push_header(buf: &mut Vec<u8>)
    ensures
        final(buf)@ == old(buf)@ + stl_header(),
{
    buf.push(83);
    buf.push(105);
    buf.push(109);
    buf.push(112);
    buf.push(108);
    buf.push(101);
    buf.push(80);
    buf.push(105);
    buf.push(99);
    buf.push(116);
    buf.push(117);
    buf.push(114);
    buf.push(101);
    buf.push(51);
    buf.push(68);
    buf.push(32);
    buf.push(83);
    buf.push(84);
    buf.push(76);
    buf.push(32);
    buf.push(69);
    buf.push(120);
    buf.push(112);
    buf.push(111);
    buf.push(114);
    buf.push(116);
    proof {
        assert(buf@ =~= old(buf)@ + stl_banner());
    }
    let mut i: usize = 0;
    while i < 54
        invariant
            0 <= i <= 54,
            buf@ == old(buf)@ + stl_banner() + Seq::new(i as nat, |j: int| 0u8),
        decreases 54 - i,
    {
        buf.push(0u8);
        proof {
            assert(buf@ =~= old(buf)@ + stl_banner() + Seq::new((i + 1) as nat, |j: int| 0u8));
        }
        i += 1;
    }
    proof {
        assert(buf@ =~= old(buf)@ + stl_header());
    }
}

/// Serializes a triangulated mesh to the binary STL wire format.
///
/// `face_normals[t]` is the unit face normal of triangle `t`, recomputed by
/// the caller's numeric kernel from the triangle's three resolved vertices
/// (with `[0, 0, 1]` as the documented fallback for a degenerate cross
/// product). Succeeds exactly when the mesh has a nonempty index buffer
/// whose length is a multiple of 3 and whose triangles stay within the
/// vertex array; the output is then the byte-exact [`stl_bytes`] layout,
/// `84 + 50 * T` bytes for `T` triangles.
#[verifier::loop_isolation(false)]
pub fn write_stl_binary(mesh: &MeshData, face_normals: &Vec<Vec3Bits>) -> (r: Result<
    Vec<u8>,
    StlWriteError,
>)
    requires
        face_normals@.len() == stl_triangle_count(mesh),
        stl_triangle_count(mesh) <= u32::MAX,
    ensures
        r is Ok <==> {
            &&& mesh.indices is Some
            &&& mesh.indices->0@.len() > 0
            &&& mesh.indices->0@.len() % 3 == 0
            &&& all_triangles_in_bounds(mesh.indices->0@, mesh.positions@.len() as int)
        },
        mesh.indices is None ==> r == Err::<Vec<u8>, StlWriteError>(StlWriteError::NoIndices),
        mesh.indices is Some && mesh.indices->0@.len() == 0 ==> r == Err::<Vec<u8>, StlWriteError>(
            StlWriteError::NoTriangles,
        ),
        mesh.indices is Some && mesh.indices->0@.len() > 0 && mesh.indices->0@.len() % 3 != 0 ==> r
            == Err::<Vec<u8>, StlWriteError>(StlWriteError::InvalidIndexCount),
        mesh.indices is Some && mesh.indices->0@.len() > 0 && mesh.indices->0@.len() % 3 == 0
            && !all_triangles_in_bounds(mesh.indices->0@, mesh.positions@.len() as int) ==> {
            &&& r matches Err(StlWriteError::IndexOutOfBounds { triangle_index })
            &&& first_triangle_oob_at(
                mesh.indices->0@,
                mesh.positions@.len() as int,
                triangle_index as int,
            )
        },
        r matches Ok(buf) ==> {
            &&& buf@ == stl_bytes(mesh, face_normals@)
            &&& buf@.len() == 84 + 50 * stl_triangle_count(mesh)
        },
{
    let indices: &Vec<u32> = match &mesh.indices {
        Some(idx) => idx,
        None => {
            return Err(StlWriteError::NoIndices);
        },
    };
    if indices.len() == 0 {
        return Err(StlWriteError::NoTriangles);
    }
    if indices.len() % 3 != 0 {
        return Err(StlWriteError::InvalidIndexCount);
    }
    let tri_count: usize = indices.len() / 3;
    let vertex_count = mesh.positions.len();

    let mut buf: Vec<u8> = Vec::new();
    push_header(&mut buf);
    push_u32_le(&mut buf, tri_count as u32);
    proof {
        assert(buf@ =~= stl_header() + spec_u32_to_le_bytes(stl_triangle_count(mesh) as u32)
            + stl_records(mesh, face_normals@, 0));
    }

    let mut t: usize = 0;
    while t < tri_count
        invariant
            0 <= t <= tri_count,
            buf@ == stl_header() + spec_u32_to_le_bytes(stl_triangle_count(mesh) as u32)
                + stl_records(mesh, face_normals@, t as int),
            forall|j: int|
                0 <= j < t ==> #[trigger] triangle_in_bounds(
                    mesh.indices->0@,
                    vertex_count as int,
                    j,
                ),
        decreases tri_count - t,
    {
        proof {
            assert(3 * (t as int) + 2 < indices@.len()) by (nonlinear_arith)
                requires
                    0 <= t < tri_count,
                    tri_count == indices@.len() as int / 3,
                    indices@.len() % 3 == 0,
            ;
        }
        let i0 = indices[3 * t] as usize;
        let i1 = indices[3 * t + 1] as usize;
        let i2 = indices[3 * t + 2] as usize;
        if i0 >= vertex_count || i1 >= vertex_count || i2 >= vertex_count {
            proof {
                assert(first_triangle_oob_at(
                    mesh.indices->0@,
                    mesh.positions@.len() as int,
                    t as int,
                ));
            }
            return Err(StlWriteError::IndexOutOfBounds { triangle_index: t });
        }
        let ghost buf_before = buf@;
        push_vec3(&mut buf, face_normals[t]);
        push_vec3(&mut buf, mesh.positions[i0]);
        push_vec3(&mut buf, mesh.positions[i1]);
        push_vec3(&mut buf, mesh.positions[i2]);
        let mut attr = u16_to_le_bytes(0u16);
        buf.append(&mut attr);
        proof {
            assert(buf@ =~= buf_before + stl_triangle_record(mesh, face_normals@, t as int));
            assert(stl_records(mesh, face_normals@, t as int + 1) == stl_records(
                mesh,
                face_normals@,
                t as int,
            ) + stl_triangle_record(mesh, face_normals@, t as int));
            assert(buf@ =~= stl_header() + spec_u32_to_le_bytes(stl_triangle_count(mesh) as u32)
                + stl_records(mesh, face_normals@, t as int + 1));
        }
        t += 1;
    }
    proof {
        lemma_auto_spec_u32_to_from_le_bytes();
        lemma_auto_spec_u16_to_from_le_bytes();
        lemma_stl_records_len(mesh, face_normals@, tri_count as int);
        assert(all_triangles_in_bounds(mesh.indices->0@, mesh.positions@.len() as int));
    }
    Ok(buf)
}

/// The length of the first `n` records is `50 * n`.
pub proof fn lemma_stl_records_len(m: &MeshData, normals: Seq<Vec3Bits>, n: int)
    requires
        n >= 0,
    ensures
        stl_records(m, normals, n).len() == 50 * n,
    decreases n,
{
    lemma_auto_spec_u32_to_from_le_bytes();
    lemma_auto_spec_u16_to_from_le_bytes();
    if n > 0 {
        lemma_stl_records_len(m, normals, n - 1);
    }
}

/// Why parsing refuses a byte buffer: too short for the fixed prelude, or a
/// total size inconsistent with the triangle count field.
#[derive(Clone, Copy, Debug, PartialEq, Eq, Structural)]
pub enum StlParseError {
    TooShort,
    SizeMismatch,
}

/// The little-endian `u32` stored at byte offset `off`.
pub open spec fn le32_at(b: Seq<u8>, off: int) -> u32 {
    spec_u32_from_le_bytes(b.subrange(off, off + 4))
}

/// The little-endian `u16` stored at byte offset `off`.
pub open spec fn le16_at(b: Seq<u8>, off: int) -> u16 {
    spec_u16_from_le_bytes(b.subrange(off, off + 2))
}

/// The vector stored at byte offset `off`: three consecutive `u32` patterns.
pub open spec fn vec3_at(b: Seq<u8>, off: int) -> Vec3Bits {
    Vec3Bits { x: le32_at(b, off), y: le32_at(b, off + 4), z: le32_at(b, off + 8) }
}

/// One triangle as read back from a binary STL file.
#[derive(Clone, Copy, Debug, PartialEq, Eq, Structural)]
pub struct StlTriangle {
    pub normal: Vec3Bits,
    pub v0: Vec3Bits,
    pub v1: Vec3Bits,
    pub v2: Vec3Bits,
    pub attribute: u16,
}

/// Reads the little-endian `u32` at offset `off`.
fn read_u32_at(bytes: &Vec<u8>, off: usize) -> (r: u32)
    requires
        off + 4 <= bytes@.len(),
    ensures
        r == le32_at(bytes@, off as int),
{
    let _n = bytes.len();
    let s = slice_subrange(bytes.as_slice(), off, off + 4);
    u32_from_le_bytes(s)
}

/// Reads the vector at offset `off`.
fn read_vec3_at(bytes: &Vec<u8>, off: usize) -> (r: Vec3Bits)
    requires
        off + 12 <= bytes@.len(),
    ensures
        r == vec3_at(bytes@, off as int),
{
    let _n = bytes.len();
    let x = read_u32_at(bytes, off);
    let y = read_u32_at(bytes, off + 4);
    let z = read_u32_at(bytes, off + 8);
    Vec3Bits { x, y, z }
}

/// Parses a binary STL file: checks that the byte count matches the triangle
/// count field exactly, then extracts every 50-byte record.
#[verifier::loop_isolation(false)]
pub fn parse_stl(bytes: &Vec<u8>) -> (r: Result<Vec<StlTriangle>, StlParseError>)
    ensures
        r is Ok <==> bytes@.len() >= 84 && bytes@.len() == 84 + 50 * (le32_at(bytes@, 80) as int),
        bytes@.len() < 84 ==> r == Err::<Vec<StlTriangle>, StlParseError>(StlParseError::TooShort),
        r matches Ok(tris) ==> {
            &&& tris@.len() == le32_at(bytes@, 80) as int
            &&& forall|t: int|
                0 <= t < tris@.len() ==> (#[trigger] tris@[t]) == (StlTriangle {
                    normal: vec3_at(bytes@, 84 + 50 * t),
                    v0: vec3_at(bytes@, 84 + 50 * t + 12),
                    v1: vec3_at(bytes@, 84 + 50 * t + 24),
                    v2: vec3_at(bytes@, 84 + 50 * t + 36),
                    attribute: le16_at(bytes@, 84 + 50 * t + 48),
                })
        },
{
    if bytes.len() < 84 {
        return Err(StlParseError::TooShort);
    }
    let count: u32 = read_u32_at(bytes, 80);
    let expected: u64 = 84u64 + 50u64 * (count as u64);
    if bytes.len() as u64 != expected {
        return Err(StlParseError::SizeMismatch);
    }
    let count: usize = count as usize;
    let mut tris: Vec<StlTriangle> = Vec::new();
    let mut t: usize = 0;
    while t < count
        invariant
            0 <= t <= count,
            tris@.len() == t,
            forall|j: int|
                0 <= j < t ==> (#[trigger] tris@[j]) == (StlTriangle {
                    normal: vec3_at(bytes@, 84 + 50 * j),
                    v0: vec3_at(bytes@, 84 + 50 * j + 12),
                    v1: vec3_at(bytes@, 84 + 50 * j + 24),
                    v2: vec3_at(bytes@, 84 + 50 * j + 36),
                    attribute: le16_at(bytes@, 84 + 50 * j + 48),
                }),
        decreases count - t,
    {
        proof {
            assert(50 * (t as int) + 50 <= 50 * (count as int)) by (nonlinear_arith)
                requires
                    0 <= t < count,
            ;
        }
        let base: usize = 84 + 50 * t;
        let normal = read_vec3_at(bytes, base);
        let v0 = read_vec3_at(bytes, base + 12);
        let v1 = read_vec3_at(bytes, base + 24);
        let v2 = read_vec3_at(bytes, base + 36);
        let attr_slice = slice_subrange(bytes.as_slice(), base + 48, base + 50);
        let attribute = vstd::bytes::u16_from_le_bytes(attr_slice);
        tris.push(StlTriangle { normal, v0, v1, v2, attribute });
        t += 1;
    }
    Ok(tris)
}

/// Each record of the concatenation sits at its 50-byte offset.
proof fn lemma_stl_records_slice(m: &MeshData, normals: Seq<Vec3Bits>, n: int, t: int)
    requires
        0 <= t < n,
    ensures
        stl_records(m, normals, n).subrange(50 * t, 50 * t + 50) == stl_triangle_record(
            m,
            normals,
            t,
        ),
    decreases n,
{
    lemma_auto_spec_u32_to_from_le_bytes();
    lemma_auto_spec_u16_to_from_le_bytes();
    lemma_stl_records_len(m, normals, n - 1);
    if t == n - 1 {
        assert(stl_records(m, normals, n).subrange(50 * t, 50 * t + 50) =~= stl_triangle_record(
            m,
            normals,
            t,
        ));
    } else {
        lemma_stl_records_slice(m, normals, n - 1, t);
        assert(stl_records(m, normals, n).subrange(50 * t, 50 * t + 50) =~= stl_records(
            m,
            normals,
            n - 1,
        ).subrange(50 * t, 50 * t + 50));
    }
}

/// A vector whose twelve bytes sit at offset `off` is read back intact.
proof fn lemma_vec3_at_of(b: Seq<u8>, off: int, v: Vec3Bits)
    requires
        0 <= off,
        off + 12 <= b.len(),
        b.subrange(off, off + 12) == vec3_le_bytes(v),
    ensures
        vec3_at(b, off) == v,
{
    lemma_auto_spec_u32_to_from_le_bytes();
    assert(b.subrange(off, off + 4) =~= vec3_le_bytes(v).subrange(0, 4));
    assert(vec3_le_bytes(v).subrange(0, 4) =~= spec_u32_to_le_bytes(v.x));
    assert(b.subrange(off + 4, off + 8) =~= vec3_le_bytes(v).subrange(4, 8));
    assert(vec3_le_bytes(v).subrange(4, 8) =~= spec_u32_to_le_bytes(v.y));
    assert(b.subrange(off + 8, off + 12) =~= vec3_le_bytes(v).subrange(8, 12));
    assert(vec3_le_bytes(v).subrange(8, 12) =~= spec_u32_to_le_bytes(v.z));
}

/// A mesh the validator accepts is one the codecs accept: with vertices
/// present, a nonempty index buffer whose length is a multiple of 3, and
/// every index below the vertex count, each of the writer's per-triangle
/// bounds checks passes, so serialization succeeds.
pub proof fn lemma_validated_mesh_is_serializable(m: &MeshData)
    requires
        m.positions@.len() > 0,
        crate::validate::has_triangles(m),
        m.indices->0@.len() % 3 == 0,
        crate::validate::indices_in_bounds(m.indices->0@, m.positions@.len() as int),
    ensures
        m.indices is Some,
        m.indices->0@.len() > 0,
        m.indices->0@.len() % 3 == 0,
        all_triangles_in_bounds(m.indices->0@, m.positions@.len() as int),
{
    let idx = m.indices->0@;
    let vc = m.positions@.len() as int;
    assert forall|t: int|
        0 <= t < idx.len() as int / 3 implies #[trigger] triangle_in_bounds(idx, vc, t) by {
        assert(3 * t + 2 < idx.len()) by (nonlinear_arith)
            requires
                0 <= t < idx.len() as int / 3,
                idx.len() % 3 == 0,
        ;
        assert(idx[3 * t] < vc);
        assert(idx[3 * t + 1] < vc);
        assert(idx[3 * t + 2] < vc);
    }
}

/// Fixed layout of the file's prelude: the file is exactly `84 + 50 * T`
/// bytes for `T` triangles; bytes 0 through 25 are the ASCII banner; bytes
/// 26 through 79 are zero; bytes 80 through 83 hold `T` little-endian.
pub proof fn lemma_stl_prelude(m: &MeshData, normals: Seq<Vec3Bits>)
    requires
        normals.len() == stl_triangle_count(m),
        0 <= stl_triangle_count(m) <= u32::MAX,
    ensures
        stl_bytes(m, normals).len() == 84 + 50 * stl_triangle_count(m),
        stl_bytes(m, normals).subrange(0, 26) == stl_banner(),
        forall|i: int| 26 <= i < 80 ==> stl_bytes(m, normals)[i] == 0u8,
        le32_at(stl_bytes(m, normals), 80) as int == stl_triangle_count(m),
{
    lemma_auto_spec_u32_to_from_le_bytes();
    lemma_auto_spec_u16_to_from_le_bytes();
    let tc = stl_triangle_count(m);
    let b = stl_bytes(m, normals);
    lemma_stl_records_len(m, normals, tc);
    assert(b.subrange(0, 26) =~= stl_banner());
    assert(b.subrange(80, 84) =~= spec_u32_to_le_bytes(tc as u32));
}

/// Round trip through the binary STL layout: the file is exactly
/// `84 + 50 * T` bytes; its count field reads back as `T`; and for each
/// triangle `t`, the parsed face normal is the one handed to the writer, the
/// three parsed vertices are bit-for-bit the mesh positions the index buffer
/// names for `t`, and the attribute count is zero.
pub proof fn lemma_stl_roundtrip(m: &MeshData, normals: Seq<Vec3Bits>, t: int)
    requires
        m.indices is Some,
        m.indices->0@.len() % 3 == 0,
        normals.len() == stl_triangle_count(m),
        stl_triangle_count(m) <= u32::MAX,
        0 <= t < stl_triangle_count(m),
    ensures
        stl_bytes(m, normals).len() == 84 + 50 * stl_triangle_count(m),
        le32_at(stl_bytes(m, normals), 80) as int == stl_triangle_count(m),
        vec3_at(stl_bytes(m, normals), 84 + 50 * t) == normals[t],
        vec3_at(stl_bytes(m, normals), 84 + 50 * t + 12) == m.positions@[m.indices->0@[3 * t] as int],
        vec3_at(stl_bytes(m, normals), 84 + 50 * t + 24) == m.positions@[m.indices->0@[3 * t
            + 1] as int],
        vec3_at(stl_bytes(m, normals), 84 + 50 * t + 36) == m.positions@[m.indices->0@[3 * t
            + 2] as int],
        le16_at(stl_bytes(m, normals), 84 + 50 * t + 48) == 0u16,
{
    lemma_auto_spec_u32_to_from_le_bytes();
    lemma_auto_spec_u16_to_from_le_bytes();
    let tc = stl_triangle_count(m);
    let b = stl_bytes(m, normals);
    lemma_stl_records_len(m, normals, tc);
    assert(b.len() == 84 + 50 * tc);
    assert(b.subrange(80, 84) =~= spec_u32_to_le_bytes(tc as u32));
    assert(le32_at(b, 80) as int == tc);
    lemma_stl_records_slice(m, normals, tc, t);
    let rec = stl_triangle_record(m, normals, t);
    assert(50 * t + 50 <= 50 * tc) by (nonlinear_arith)
        requires
            0 <= t < tc,
    ;
    assert(b.subrange(84 + 50 * t, 84 + 50 * t + 50) =~= stl_records(m, normals, tc).subrange(
        50 * t,
        50 * t + 50,
    ));
    let idx = m.indices->0@;
    let n0 = normals[t];
    let p0 = m.positions@[idx[3 * t] as int];
    let p1 = m.positions@[idx[3 * t + 1] as int];
    let p2 = m.positions@[idx[3 * t + 2] as int];
    let base = 84 + 50 * t;
    assert(rec == vec3_le_bytes(n0) + vec3_le_bytes(p0) + vec3_le_bytes(p1) + vec3_le_bytes(p2)
        + spec_u16_to_le_bytes(0u16));
    assert(rec.subrange(0, 12) =~= vec3_le_bytes(n0));
    assert(rec.subrange(12, 24) =~= vec3_le_bytes(p0));
    assert(rec.subrange(24, 36) =~= vec3_le_bytes(p1));
    assert(rec.subrange(36, 48) =~= vec3_le_bytes(p2));
    assert(rec.subrange(48, 50) =~= spec_u16_to_le_bytes(0u16));
    assert(b.subrange(base, base + 12) =~= rec.subrange(0, 12));
    lemma_vec3_at_of(b, base, n0);
    assert(b.subrange(base + 12, base + 24) =~= rec.subrange(12, 24));
    lemma_vec3_at_of(b, base + 12, p0);
    assert(b.subrange(base + 24, base + 36) =~= rec.subrange(24, 36));
    lemma_vec3_at_of(b, base + 24, p1);
    assert(b.subrange(base + 36, base + 48) =~= rec.subrange(36, 48));
    lemma_vec3_at_of(b, base + 36, p2);
    assert(b.subrange(base + 48, base + 50) =~= rec.subrange(48, 50));
    assert(le16_at(b, base + 48) == 0u16);
}

} // verus!
