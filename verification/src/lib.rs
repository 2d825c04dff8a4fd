//! Point clouds in structure-of-arrays form, decoders for three file formats
//! and a voxel-grid downsampling filter.
//!
//! The crate holds no floating-point arithmetic. A scalar is carried as the
//! bit pattern of an IEEE-754 binary32 value; where a value has to be
//! rounded, parsed from decimal text or averaged, the caller computes it and
//! hands the bits in.

pub mod filter;
pub mod io;
pub mod pc;
pub mod point;
pub mod traits;
pub mod types;
