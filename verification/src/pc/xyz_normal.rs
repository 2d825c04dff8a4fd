//! The record and the container with a normal and a curvature, by the names of their
//! coordinates.

use vstd::prelude::*;

verus! {

pub type PointXYZNormal = crate::point::normal::Point;

pub type PointCloudXYZNormal = crate::pc::normal::PointCloud;

} // verus!
