//! The vertex-list format: a header that declares the properties of a
//! vertex, then one record for each vertex, as text or as bytes.

pub mod point;
pub mod read;

pub use point::PointReadable;
pub use read::{ply_read, ply_read_data, ply_read_header, PlyDataFormat, PlyHeader};
