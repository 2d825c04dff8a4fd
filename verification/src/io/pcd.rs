//! The columnar format: a header of directives, then records as text or as
//! bytes.

pub mod header;
pub mod point;
pub mod read;

pub use header::{pcd_read_header, PcdDataFormat, PcdHeader};
pub use point::PointReadable;
pub use read::{pcd_read, pcd_read_data};
