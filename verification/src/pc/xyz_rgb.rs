//! The record and the container with a color, by the names of their
//! coordinates.

use vstd::prelude::*;

verus! {

pub type PointXYZRgb = crate::point::rgb::Point;

pub type PointCloudXYZRgb = crate::pc::rgb::PointCloud;

} // verus!
