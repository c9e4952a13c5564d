//! ASCII OBJ/MTL codec.
//!
//! The OBJ text is a comment header with the vertex and triangle counts, an
//! optional material reference, one `v` line per vertex, one `vn` line per
//! normal, and one `f a//a b//b c//c` line per triangle with 1-based indices
//! (vertex and normal index identical per corner). Rendering a coordinate as
//! decimal text is floating-point work; the caller hands each vertex and
//! normal in as already-formatted component strings, and this module is
//! verified to lay them out exactly.

use crate::mesh::MeshData;
use crate::numfmt::{spec_decimal, u64_to_string, usize_to_string};
use vstd::prelude::*;
use vstd::string::StringExecFns;

verus! {

/// A three-component vector as formatted decimal text, one string per
/// coordinate.
#[derive(Clone, Debug)]
pub struct Vec3Text {
    pub x: String,
    pub y: String,
    pub z: String,
}

/// Why an OBJ write is refused: the same triangle-index preconditions as the
/// STL codec, re-checked so this codec is safe to call standalone.
#[derive(Clone, Copy, Debug, PartialEq, Eq, Structural)]
pub enum ObjWriteError {
    /// The mesh has no index buffer at all.
    NoIndices,
    /// The index buffer is empty.
    NoTriangles,
    /// The index count is not a multiple of 3.
    InvalidIndexCount,
}

impl ObjWriteError {
    /// What each refusal means, in words.
    pub open spec fn message_spec(self) -> Seq<char> {
        match self {
            ObjWriteError::NoIndices => "Cannot write OBJ: mesh has no triangle indices"@,
            ObjWriteError::NoTriangles => "Cannot write OBJ: mesh has no triangles"@,
            ObjWriteError::InvalidIndexCount => "Index count must be a multiple of 3"@,
        }
    }

    /// Renders the refusal as a human-readable message.
    pub fn message(&self) -> (s: String)
        ensures
            s@ == self.message_spec(),
    {
        match self {
            ObjWriteError::NoIndices => String::from_str(
                "Cannot write OBJ: mesh has no triangle indices",
            ),
            ObjWriteError::NoTriangles => String::from_str(
                "Cannot write OBJ: mesh has no triangles",
            ),
            ObjWriteError::InvalidIndexCount => String::from_str(
                "Index count must be a multiple of 3",
            ),
        }
    }
}

/// The complete MTL companion file: a single neutral-gray `default` material.
/// A static template, not computed from the mesh.
pub open spec fn mtl_text() -> Seq<char> {
    "# SimplePicture3D Material\nnewmtl default\nKa 0.2 0.2 0.2\nKd 0.8 0.8 0.8\nKs 0.1 0.1 0.1\nNs 10.0\nd 1.0\nillum 2\n"@
}

/// Writes the minimal MTL material file.
pub fn write_mtl() -> (s: String)
    ensures
        s@ == mtl_text(),
{
    String::from_str(
        "# SimplePicture3D Material\nnewmtl default\nKa 0.2 0.2 0.2\nKd 0.8 0.8 0.8\nKs 0.1 0.1 0.1\nNs 10.0\nd 1.0\nillum 2\n",
    )
}

/// A coordinate line: the tag, the three component strings, a newline.
pub open spec fn coord_line(tag: Seq<char>, v: &Vec3Text) -> Seq<char> {
    tag + v.x@ + " "@ + v.y@ + " "@ + v.z@ + "\n"@
}

/// The first `n` `v` lines.
pub open spec fn v_lines(ps: Seq<Vec3Text>, n: int) -> Seq<char>
    decreases n,
{
    if n <= 0 {
        Seq::empty()
    } else {
        v_lines(ps, n - 1) + coord_line("v "@, &ps[n - 1])
    }
}

/// The first `n` `vn` lines.
pub open spec fn vn_lines(ns: Seq<Vec3Text>, n: int) -> Seq<char>
    decreases n,
{
    if n <= 0 {
        Seq::empty()
    } else {
        vn_lines(ns, n - 1) + coord_line("vn "@, &ns[n - 1])
    }
}

/// A face line over corner indices `i0, i1, i2` (0-based): written 1-based,
/// vertex and normal index identical per corner.
pub open spec fn face_line_vals(i0: u32, i1: u32, i2: u32) -> Seq<char> {
    let a = spec_decimal((i0 + 1) as nat);
    let b = spec_decimal((i1 + 1) as nat);
    let c = spec_decimal((i2 + 1) as nat);
    "f "@ + a + "//"@ + a + " "@ + b + "//"@ + b + " "@ + c + "//"@ + c + "\n"@
}

/// The face line for triangle `t`.
pub open spec fn face_line(idx: Seq<u32>, t: int) -> Seq<char> {
    face_line_vals(idx[3 * t], idx[3 * t + 1], idx[3 * t + 2])
}

/// The first `n` face lines.
pub open spec fn face_lines(idx: Seq<u32>, n: int) -> Seq<char>
    decreases n,
{
    if n <= 0 {
        Seq::empty()
    } else {
        face_lines(idx, n - 1) + face_line(idx, n - 1)
    }
}

/// The two-line comment header: export banner, then vertex and triangle
/// counts.
pub open spec fn obj_header(vertex_count: nat, triangle_count: nat) -> Seq<char> {
    "# SimplePicture3D OBJ Export\n"@ + "# Vertices: "@ + spec_decimal(vertex_count)
        + "  Triangles: "@ + spec_decimal(triangle_count) + "\n"@
}

/// The material reference block: present only when an MTL name is given.
pub open spec fn mtl_reference(mtl_filename: Option<&str>) -> Seq<char> {
    match mtl_filename {
        Some(name) => "mtllib "@ + name@ + "\n"@ + "usemtl default\n"@,
        None => Seq::empty(),
    }
}

/// The complete OBJ text for the mesh.
pub open spec fn obj_text(
    m: &MeshData,
    pos_text: Seq<Vec3Text>,
    norm_text: Seq<Vec3Text>,
    mtl_filename: Option<&str>,
) -> Seq<char> {
    let idx = m.indices->0@;
    obj_header(pos_text.len(), idx.len() as nat / 3) + mtl_reference(mtl_filename) + v_lines(
        pos_text,
        pos_text.len() as int,
    ) + vn_lines(norm_text, norm_text.len() as int) + face_lines(idx, idx.len() as int / 3)
}

/// Appends one coordinate line.
fn push_coord_line(s: &mut String, tag: &str, v: &Vec3Text)
    ensures
        final(s)@ == old(s)@ + coord_line(tag@, v),
{
    s.append(tag);
    s.append(v.x.as_str());
    s.append(" ");
    s.append(v.y.as_str());
    s.append(" ");
    s.append(v.z.as_str());
    s.append("\n");
    proof {
        assert(s@ =~= old(s)@ + coord_line(tag@, v));
    }
}

/// Appends the two-line comment header.
fn push_obj_header(s: &mut String, vertex_count: usize, tri_count: usize)
    ensures
        final(s)@ == old(s)@ + obj_header(vertex_count as nat, tri_count as nat),
{
    s.append("# SimplePicture3D OBJ Export\n");
    s.append("# Vertices: ");
    let nverts = usize_to_string(vertex_count);
    s.append(nverts.as_str());
    s.append("  Triangles: ");
    let ntris = usize_to_string(tri_count);
    s.append(ntris.as_str());
    s.append("\n");
    proof {
        assert(s@ =~= old(s)@ + obj_header(vertex_count as nat, tri_count as nat));
    }
}

/// Appends the material reference block, when a name is given.
fn push_mtl_reference(s: &mut String, mtl_filename: Option<&str>)
    ensures
        final(s)@ == old(s)@ + mtl_reference(mtl_filename),
{
    match mtl_filename {
        Some(name) => {
            s.append("mtllib ");
            s.append(name);
            s.append("\n");
            s.append("usemtl default\n");
            proof {
                assert(s@ =~= old(s)@ + mtl_reference(mtl_filename));
            }
        },
        None => {
            proof {
                assert(s@ =~= old(s)@ + mtl_reference(mtl_filename));
            }
        },
    }
}

/// Appends one face line.
fn push_face_line(s: &mut String, i0: u32, i1: u32, i2: u32)
    ensures
        final(s)@ == old(s)@ + face_line_vals(i0, i1, i2),
{
    let a = u64_to_string(i0 as u64 + 1);
    let b = u64_to_string(i1 as u64 + 1);
    let c = u64_to_string(i2 as u64 + 1);
    s.append("f ");
    s.append(a.as_str());
    s.append("//");
    s.append(a.as_str());
    s.append(" ");
    s.append(b.as_str());
    s.append("//");
    s.append(b.as_str());
    s.append(" ");
    s.append(c.as_str());
    s.append("//");
    s.append(c.as_str());
    s.append("\n");
    proof {
        assert(s@ =~= old(s)@ + face_line_vals(i0, i1, i2));
    }
}

/// Serializes a triangulated mesh to ASCII OBJ text.
///
/// `pos_text[i]` and `norm_text[i]` are the decimal renderings of vertex and
/// normal `i`, as the caller's numeric formatting produced them. Succeeds
/// exactly when the mesh has a nonempty index buffer whose length is a
/// multiple of 3; the output is then the exact [`obj_text`] layout. When
/// `mtl_filename` is given, the header is followed by `mtllib <name>` and
/// `usemtl default`.
#[verifier::rlimit(80)]
#[verifier::loop_isolation(false)]
pub fn write_obj_ascii(
    mesh: &MeshData,
    pos_text: &Vec<Vec3Text>,
    norm_text: &Vec<Vec3Text>,
    mtl_filename: Option<&str>,
) -> (r: Result<String, ObjWriteError>)
    requires
        pos_text@.len() == mesh.positions@.len(),
        norm_text@.len() == mesh.normals@.len(),
    ensures
        r is Ok <==> {
            &&& mesh.indices is Some
            &&& mesh.indices->0@.len() > 0
            &&& mesh.indices->0@.len() % 3 == 0
        },
        mesh.indices is None ==> r == Err::<String, ObjWriteError>(ObjWriteError::NoIndices),
        mesh.indices is Some && mesh.indices->0@.len() == 0 ==> r == Err::<String, ObjWriteError>(
            ObjWriteError::NoTriangles,
        ),
        mesh.indices is Some && mesh.indices->0@.len() > 0 && mesh.indices->0@.len() % 3 != 0 ==> r
            == Err::<String, ObjWriteError>(ObjWriteError::InvalidIndexCount),
        r matches Ok(s) ==> s@ == obj_text(mesh, pos_text@, norm_text@, mtl_filename),
{
    let indices: &Vec<u32> = match &mesh.indices {
        Some(idx) => idx,
        None => {
            return Err(ObjWriteError::NoIndices);
        },
    };
    if indices.len() == 0 {
        return Err(ObjWriteError::NoTriangles);
    }
    if indices.len() % 3 != 0 {
        return Err(ObjWriteError::InvalidIndexCount);
    }
    let tri_count: usize = indices.len() / 3;

    let mut s = String::new();
    push_obj_header(&mut s, pos_text.len(), tri_count);
    push_mtl_reference(&mut s, mtl_filename);
    let ghost after_mtl = obj_header(pos_text@.len(), indices@.len() as nat / 3) + mtl_reference(
        mtl_filename,
    );
    proof {
        assert(s@ =~= after_mtl);
    }

    let mut i: usize = 0;
    while i < pos_text.len()
        invariant
            0 <= i <= pos_text@.len(),
            s@ == after_mtl + v_lines(pos_text@, i as int),
        decreases pos_text@.len() - i,
    {
        push_coord_line(&mut s, "v ", &pos_text[i]);
        proof {
            assert(s@ =~= after_mtl + v_lines(pos_text@, i as int + 1));
        }
        i += 1;
    }
    let ghost after_v = after_mtl + v_lines(pos_text@, pos_text@.len() as int);

    let mut i: usize = 0;
    while i < norm_text.len()
        invariant
            0 <= i <= norm_text@.len(),
            s@ == after_v + vn_lines(norm_text@, i as int),
        decreases norm_text@.len() - i,
    {
        push_coord_line(&mut s, "vn ", &norm_text[i]);
        proof {
            assert(s@ =~= after_v + vn_lines(norm_text@, i as int + 1));
        }
        i += 1;
    }
    let ghost after_vn = after_v + vn_lines(norm_text@, norm_text@.len() as int);

    let mut t: usize = 0;
    while t < tri_count
        invariant
            0 <= t <= tri_count,
            s@ == after_vn + face_lines(indices@, t as int),
        decreases tri_count - t,
    {
        proof {
            assert(3 * (t as int) + 2 < indices@.len()) by (nonlinear_arith)
                requires
                    0 <= t < tri_count,
                    tri_count == indices@.len() as int / 3,
                    indices@.len() % 3 == 0,
            ;
        }
        push_face_line(&mut s, indices[3 * t], indices[3 * t + 1], indices[3 * t + 2]);
        proof {
            assert(s@ =~= after_vn + face_lines(indices@, t as int + 1));
        }
        t += 1;
    }
    proof {
        assert(s@ =~= obj_text(mesh, pos_text@, norm_text@, mtl_filename));
    }
    Ok(s)
}

} // verus!
