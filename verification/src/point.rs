//! Point records: one per layout, each with a position.

use crate::types::Position;
use vstd::prelude::*;

pub mod intensity;
pub mod intensity_normal;
pub mod normal;
pub mod rgb;
pub mod rgb_normal;
pub mod xyz;

pub use intensity::{
    Point as PointIntensity, PointRef as PointIntensityRef, PointRefMut as PointIntensityRefMut,
};
pub use intensity_normal::{
    Point as PointIntensityNormal, PointRef as PointIntensityNormalRef,
    PointRefMut as PointIntensityNormalRefMut,
};
pub use normal::{
    Point as PointNormal, PointRef as PointNormalRef, PointRefMut as PointNormalRefMut,
};
pub use rgb::{Point as PointRgb, PointRef as PointRgbRef, PointRefMut as PointRgbRefMut};
pub use rgb_normal::{
    Point as PointRgbNormal, PointRef as PointRgbNormalRef, PointRefMut as PointRgbNormalRefMut,
};
pub use xyz::{Point, PointRef, PointRefMut};

verus! {

/// What every point record has: a position, a value with every attribute at
/// its default, and views that borrow its attributes.
pub trait PointBase: Sized {
    type Ref<'a> where Self: 'a;

    type RefMut<'a> where Self: 'a;

    /// The position of the record.
    spec fn position_spec(&self) -> Position;

    /// The record at `position` whose other attributes are zero.
    spec fn at(position: Position) -> Self;

    /// The record with another position and the same other attributes.
    spec fn moved(&self, position: Position) -> Self;

    /// The record at the origin whose other attributes are zero.
    fn zero() -> (r: Self)
        ensures
            r == Self::at(Position::origin()),
    ;

    /// The record that a view shows.
    spec fn shown(view: Self::Ref<'_>) -> Self;

    /// A view of the record: each attribute borrowed.
    fn as_ref(&self) -> (r: Self::Ref<'_>)
        ensures
            Self::shown(r) == *self,
    ;

    /// The record that a view for writing shows.
    spec fn shown_mut(view: Self::RefMut<'_>) -> Self;

    /// A view of the record for writing: each attribute borrowed. What is
    /// written through the view is written into the record.
    fn as_ref_mut(&mut self) -> (r: Self::RefMut<'_>)
        ensures
            Self::shown_mut(r) == *old(self),
    ;

    fn position(&self) -> (r: &Position)
        ensures
            *r == self.position_spec(),
    ;

    fn position_mut(&mut self) -> (r: &mut Position)
        ensures
            *r == old(self).position_spec(),
            *final(self) == old(self).moved(*final(r)),
    ;

    /// A record has the position that it was made at or moved to, and a
    /// record with zero attributes stays one when it is moved.
    proof fn lemma_moved(&self, from: Position, to: Position)
        ensures
            Self::at(to).position_spec() == to,
            self.moved(to).position_spec() == to,
            Self::at(from).moved(to) == Self::at(to),
    ;
}

} // verus!
