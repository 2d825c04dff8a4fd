//! The record and the container with a color, a normal and a curvature, by the names of their
//! coordinates.

use vstd::prelude::*;

verus! {

pub type PointXYZRgbNormal = crate::point::rgb_normal::Point;

pub type PointCloudXYZRgbNormal = crate::pc::rgb_normal::PointCloud;

} // verus!
