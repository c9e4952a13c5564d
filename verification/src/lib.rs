//! Verified core of a depth-map-to-mesh export pipeline.
//!
//! A normalized depth field sampled on a strided grid becomes a surface mesh
//! (positions, normals, triangle indices); the mesh is validated for
//! fabrication-blocking defects and serialized to binary STL or ASCII OBJ/MTL.
//! Floating-point coordinates are carried as their IEEE 754 bit patterns
//! (`u32`), so all structural and byte-layout logic is verified exactly;
//! the numeric kernels that produce those bit patterns live with the caller.

pub mod chars;
pub mod export_paths;
pub mod fbits;
pub mod file_io;
pub mod filename;
pub mod grid;
pub mod image_loading;
pub mod mesh;
pub mod numfmt;
pub mod obj;
pub mod python_bridge;
pub mod stl;
pub mod validate;
