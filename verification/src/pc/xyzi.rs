//! The record and the container with an intensity, by the names of their
//! coordinates.

use vstd::prelude::*;

verus! {

pub type PointXYZI = crate::point::intensity::Point;

pub type PointCloudXYZI = crate::pc::intensity::PointCloud;

} // verus!
