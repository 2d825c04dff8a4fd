//! Decoders for the columnar, the vertex-list and the plain-text format.
//!
//! A decoder reads its input into rows of datums and decides every error.
//! `point_cloud` then makes the container of the rows and of the binary32
//! value of each datum, which the caller computes.

pub mod error;
pub mod field;
pub mod mapper;
pub mod pcd;
pub mod ply;
pub mod row;
pub mod text;
pub mod xyz;

pub use error::{ParseNumberError, PointRainIOError};
pub use mapper::{point_cloud, Records};
pub use pcd::pcd_read;
pub use ply::ply_read;
pub use xyz::xyz_read;
