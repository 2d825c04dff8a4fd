//! The record with a color, a normal and a curvature.

use crate::point::PointBase;
use crate::types::{Float, Normal, Position, Rgb};
use vstd::prelude::*;

verus! {

#[derive(Debug, Clone, Copy, PartialEq, Eq, Structural)]
pub struct Point {
    pub position: Position,
    pub color: Rgb,
    pub normal: Normal,
    pub curvature: Float,
}

impl Default for Point {
    fn default() -> (r: Self)
        ensures
            r == Point::at(Position::origin()),
    {
        Point {
            position: Position { x: 0, y: 0, z: 0 },
            color: Rgb { r: 0, g: 0, b: 0 },
            normal: Normal { x: 0, y: 0, z: 0 },
            curvature: 0,
        }
    }
}

impl PointBase for Point {
    type Ref<'a> = PointRef<'a>;

    type RefMut<'a> = PointRefMut<'a>;

    open spec fn position_spec(&self) -> Position {
        self.position
    }

    open spec fn at(position: Position) -> Self {
        Point { position, color: Rgb::black(), normal: Normal::zero(), curvature: 0 }
    }

    open spec fn moved(&self, position: Position) -> Self {
        Point { position, ..*self }
    }

    fn zero() -> (r: Self) {
        Point {
            position: Position { x: 0, y: 0, z: 0 },
            color: Rgb { r: 0, g: 0, b: 0 },
            normal: Normal { x: 0, y: 0, z: 0 },
            curvature: 0,
        }
    }

    open spec fn shown(view: PointRef<'_>) -> Self {
        view.value()
    }

    fn as_ref(&self) -> (r: PointRef<'_>) {
        PointRef {
            position: &self.position,
            color: &self.color,
            normal: &self.normal,
            curvature: &self.curvature,
        }
    }

    open spec fn shown_mut(view: PointRefMut<'_>) -> Self {
        view.value()
    }

    fn as_ref_mut(&mut self) -> (r: PointRefMut<'_>)
        ensures
            final(self).position == *final(r.position),
            final(self).color == *final(r.color),
            final(self).normal == *final(r.normal),
            final(self).curvature == *final(r.curvature),
    {
        PointRefMut {
            position: &mut self.position,
            color: &mut self.color,
            normal: &mut self.normal,
            curvature: &mut self.curvature,
        }
    }

    fn position(&self) -> (r: &Position) {
        &self.position
    }

    fn position_mut(&mut self) -> (r: &mut Position) {
        &mut self.position
    }

    proof fn lemma_moved(&self, from: Position, to: Position) {
    }
}

/// A record whose attributes are borrowed.
#[derive(Debug, Clone, PartialEq)]
pub struct PointRef<'a> {
    pub position: &'a Position,
    pub color: &'a Rgb,
    pub normal: &'a Normal,
    pub curvature: &'a Float,
}

impl<'a> PointRef<'a> {
    /// The record that the view shows.
    pub open spec fn value(&self) -> Point {
        Point {
            position: *self.position,
            color: *self.color,
            normal: *self.normal,
            curvature: *self.curvature,
        }
    }

    /// The record that the view shows, as a value of its own.
    pub fn to_point(&self) -> (r: Point)
        ensures
            r == self.value(),
    {
        Point {
            position: *self.position,
            color: *self.color,
            normal: *self.normal,
            curvature: *self.curvature,
        }
    }
}

/// A record whose attributes are borrowed for writing.
#[derive(Debug, PartialEq)]
pub struct PointRefMut<'a> {
    pub position: &'a mut Position,
    pub color: &'a mut Rgb,
    pub normal: &'a mut Normal,
    pub curvature: &'a mut Float,
}

impl<'a> PointRefMut<'a> {
    /// The record that the view shows.
    pub open spec fn value(&self) -> Point {
        Point {
            position: *self.position,
            color: *self.color,
            normal: *self.normal,
            curvature: *self.curvature,
        }
    }
}

} // verus!
