//! What the containers have in common.
//!
//! A container is modelled by the sequence of its point records. It holds
//! them as one array per attribute; that all arrays are of one length is its
//! invariant, `wf`, which every constructor establishes and every method
//! keeps.

use crate::point::PointBase;
use crate::types::{Float, Normal, Position, Rgb};
use vstd::prelude::*;

verus! {

/// `points` cut or filled up with `value` to the length `n`.
pub open spec fn resized<P>(points: Seq<P>, n: nat, value: P) -> Seq<P> {
    Seq::new(
        n,
        |i: int|
            if i < points.len() {
                points[i]
            } else {
                value
            },
    )
}

/// The positions of the records.
pub open spec fn positions_of<P: PointBase>(points: Seq<P>) -> Seq<Position> {
    Seq::new(points.len(), |i: int| points[i].position_spec())
}

/// The records, each moved to the position of its index.
pub open spec fn repositioned<P: PointBase>(points: Seq<P>, positions: Seq<Position>) -> Seq<P> {
    Seq::new(points.len(), |i: int| points[i].moved(positions[i]))
}

/// A container of point records.
pub trait PointCloudBase: Sized {
    type Point: PointBase;

    /// Whether all attribute arrays are of one length.
    spec fn wf(&self) -> bool;

    /// The records that the container holds, in their order.
    spec fn points(&self) -> Seq<Self::Point>;

    fn new() -> (r: Self)
        ensures
            r.wf(),
            r.points() == Seq::<Self::Point>::empty(),
    ;

    /// An empty container with room for `capacity` records.
    fn with_capacity(capacity: usize) -> (r: Self)
        ensures
            r.wf(),
            r.points() == Seq::<Self::Point>::empty(),
    ;

    /// Cuts the container to `new_len` records, or fills it up with `value`.
    fn resize(&mut self, new_len: usize, value: Self::Point)
        requires
            old(self).wf(),
        ensures
            final(self).wf(),
            final(self).points() == resized(old(self).points(), new_len as nat, value),
    ;

    fn positions(&self) -> (r: &[Position])
        requires
            self.wf(),
        ensures
            r@ == positions_of(self.points()),
            r@.len() == self.points().len(),
    ;

    /// The positions, for writing. The other attributes stay as they are.
    fn positions_mut(&mut self) -> (r: &mut [Position])
        requires
            old(self).wf(),
        ensures
            r@ == positions_of(old(self).points()),
            final(r)@.len() == r@.len() ==> final(self).wf() && final(self).points()
                == repositioned(old(self).points(), final(r)@),
    ;

    fn push(&mut self, p: Self::Point)
        requires
            old(self).wf(),
        ensures
            final(self).wf(),
            final(self).points() == old(self).points().push(p),
    ;

    /// Appends the record that a view shows.
    fn push_ref(&mut self, p: <Self::Point as PointBase>::Ref<'_>)
        requires
            old(self).wf(),
        ensures
            final(self).wf(),
            final(self).points() == old(self).points().push(<Self::Point as PointBase>::shown(p)),
    ;

    fn len(&self) -> (r: usize)
        requires
            self.wf(),
        ensures
            r == self.points().len(),
    ;

    fn is_empty(&self) -> (r: bool)
        requires
            self.wf(),
        ensures
            r == (self.points().len() == 0),
    ;
}

/// A container whose records have an intensity.
pub trait PointCloudWithIntensity: PointCloudBase {
    /// The intensity of a record.
    spec fn intensity_of(p: Self::Point) -> Float;

    /// The intensities: that of each record, in the order of the records.
    fn intensities(&self) -> (r: &[Float])
        requires
            self.wf(),
        ensures
            r@ == Seq::new(
                self.points().len(),
                |i: int| Self::intensity_of(self.points()[i]),
            ),
            r@.len() == self.points().len(),
    ;
}

/// A container whose records have a normal and a curvature.
pub trait PointCloudWithNormal: PointCloudBase {
    /// The normal of a record.
    spec fn normal_of(p: Self::Point) -> Normal;

    /// The curvature of a record.
    spec fn curvature_of(p: Self::Point) -> Float;

    /// The normals: that of each record, in the order of the records.
    fn normals(&self) -> (r: &[Normal])
        requires
            self.wf(),
        ensures
            r@ == Seq::new(
                self.points().len(),
                |i: int| Self::normal_of(self.points()[i]),
            ),
            r@.len() == self.points().len(),
    ;

    /// The curvatures: that of each record, in the order of the records.
    fn curvatures(&self) -> (r: &[Float])
        requires
            self.wf(),
        ensures
            r@ == Seq::new(
                self.points().len(),
                |i: int| Self::curvature_of(self.points()[i]),
            ),
            r@.len() == self.points().len(),
    ;
}

/// A container whose records have a color.
pub trait PointCloudWithColor: PointCloudBase {
    /// The color of a record.
    spec fn color_of(p: Self::Point) -> Rgb;

    /// The colors: that of each record, in the order of the records.
    fn colors(&self) -> (r: &[Rgb])
        requires
            self.wf(),
        ensures
            r@ == Seq::new(
                self.points().len(),
                |i: int| Self::color_of(self.points()[i]),
            ),
            r@.len() == self.points().len(),
    ;
}

/// The intensities of the records.
pub open spec fn intensities_of<PC: PointCloudWithIntensity>(points: Seq<PC::Point>) -> Seq<Float> {
    Seq::new(points.len(), |i: int| PC::intensity_of(points[i]))
}

/// The normals of the records.
pub open spec fn normals_of<PC: PointCloudWithNormal>(points: Seq<PC::Point>) -> Seq<Normal> {
    Seq::new(points.len(), |i: int| PC::normal_of(points[i]))
}

/// The curvatures of the records.
pub open spec fn curvatures_of<PC: PointCloudWithNormal>(points: Seq<PC::Point>) -> Seq<Float> {
    Seq::new(points.len(), |i: int| PC::curvature_of(points[i]))
}

/// The colors of the records.
pub open spec fn colors_of<PC: PointCloudWithColor>(points: Seq<PC::Point>) -> Seq<Rgb> {
    Seq::new(points.len(), |i: int| PC::color_of(points[i]))
}

/// Every attribute array of a container is as long as the container: there
/// is one position for each record, and one value of each other attribute
/// that the records have.
pub proof fn lemma_one_length<PC: PointCloudBase>(pc: PC)
    ensures
        positions_of(pc.points()).len() == pc.points().len(),
{
}

/// There is one intensity for each record.
pub proof fn lemma_intensities<PC: PointCloudWithIntensity>(pc: PC)
    ensures
        intensities_of::<PC>(pc.points()).len() == pc.points().len(),
{
}

/// There is one normal and one curvature for each record.
pub proof fn lemma_normals<PC: PointCloudWithNormal>(pc: PC)
    ensures
        normals_of::<PC>(pc.points()).len() == pc.points().len(),
        curvatures_of::<PC>(pc.points()).len() == pc.points().len(),
{
}

/// There is one color for each record.
pub proof fn lemma_colors<PC: PointCloudWithColor>(pc: PC)
    ensures
        colors_of::<PC>(pc.points()).len() == pc.points().len(),
{
}

} // verus!
