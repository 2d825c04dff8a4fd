//! The record and the container with an intensity, a normal and a curvature, by the names of their
//! coordinates.

use vstd::prelude::*;

verus! {

pub type PointXYZINormal = crate::point::intensity_normal::Point;

pub type PointCloudXYZINormal = crate::pc::intensity_normal::PointCloud;

} // verus!
