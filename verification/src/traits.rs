//! The containers by what they have in common when they are only filled
//! and read.

use crate::pc::base::{positions_of, PointCloudBase};
use crate::types::Position;
use vstd::prelude::*;

pub use crate::pc::base::{PointCloudWithColor, PointCloudWithIntensity, PointCloudWithNormal};

verus! {

/// A container that is filled point by point.
pub trait PointCloud: Sized {
    type Point;

    /// Whether all attribute arrays are of one length.
    spec fn wf(&self) -> bool;

    /// The records that the container holds, in their order.
    spec fn points(&self) -> Seq<Self::Point>;

    /// The positions of the records.
    spec fn positions_spec(&self) -> Seq<Position>;

    fn new() -> (r: Self)
        ensures
            r.wf(),
            r.points() == Seq::<Self::Point>::empty(),
    ;

    /// An empty container with room for `capacity` records.
    fn with_capacity(capacity: usize) -> (r: Self)
        ensures
            r.wf(),
            r.points() == Seq::<Self::Point>::empty(),
    ;

    fn positions(&self) -> (r: &[Position])
        requires
            self.wf(),
        ensures
            r@ == self.positions_spec(),
            r@.len() == self.points().len(),
    ;

    /// Appends a record, and gives the container back for the next.
    fn add_point(&mut self, p: Self::Point) -> (r: &mut Self)
        requires
            old(self).wf(),
        ensures
            r.wf(),
            r.points() == old(self).points().push(p),
            *final(self) == *final(r),
    ;

    fn len(&self) -> (r: usize)
        requires
            self.wf(),
        ensures
            r == self.points().len(),
    ;

    fn is_empty(&self) -> (r: bool)
        requires
            self.wf(),
        ensures
            r == (self.points().len() == 0),
    ;
}

impl<PC: PointCloudBase> PointCloud for PC {
    type Point = <PC as PointCloudBase>::Point;

    open spec fn wf(&self) -> bool {
        PointCloudBase::wf(self)
    }

    open spec fn points(&self) -> Seq<Self::Point> {
        PointCloudBase::points(self)
    }

    open spec fn positions_spec(&self) -> Seq<Position> {
        positions_of(PointCloudBase::points(self))
    }

    fn new() -> (r: Self) {
        <PC as PointCloudBase>::new()
    }

    fn with_capacity(capacity: usize) -> (r: Self) {
        <PC as PointCloudBase>::with_capacity(capacity)
    }

    fn positions(&self) -> (r: &[Position]) {
        PointCloudBase::positions(self)
    }

    fn add_point(&mut self, p: Self::Point) -> (r: &mut Self) {
        PointCloudBase::push(self, p);
        self
    }

    fn len(&self) -> (r: usize) {
        PointCloudBase::len(self)
    }

    fn is_empty(&self) -> (r: bool) {
        PointCloudBase::is_empty(self)
    }
}

} // verus!
