//! The record with a color.

use crate::point::PointBase;
use crate::types::{Position, Rgb};
use vstd::prelude::*;

verus! {

#[derive(Debug, Clone, Copy, PartialEq, Eq, Structural)]
pub struct Point {
    pub position: Position,
    pub color: Rgb,
}

impl Default for Point {
    fn default() -> (r: Self)
        ensures
            r == Point::at(Position::origin()),
    {
        Point { position: Position { x: 0, y: 0, z: 0 }, color: Rgb { r: 0, g: 0, b: 0 } }
    }
}

impl PointBase for Point {
    type Ref<'a> = PointRef<'a>;

    type RefMut<'a> = PointRefMut<'a>;

    open spec fn position_spec(&self) -> Position {
        self.position
    }

    open spec fn at(position: Position) -> Self {
        Point { position, color: Rgb::black() }
    }

    open spec fn moved(&self, position: Position) -> Self {
        Point { position, ..*self }
    }

    fn zero() -> (r: Self) {
        Point { position: Position { x: 0, y: 0, z: 0 }, color: Rgb { r: 0, g: 0, b: 0 } }
    }

    open spec fn shown(view: PointRef<'_>) -> Self {
        view.value()
    }

    fn as_ref(&self) -> (r: PointRef<'_>) {
        PointRef { position: &self.position, color: &self.color }
    }

    open spec fn shown_mut(view: PointRefMut<'_>) -> Self {
        view.value()
    }

    fn as_ref_mut(&mut self) -> (r: PointRefMut<'_>)
        ensures
            final(self).position == *final(r.position),
            final(self).color == *final(r.color),
    {
        PointRefMut { position: &mut self.position, color: &mut self.color }
    }

    fn position(&self) -> (r: &Position) {
        &self.position
    }

    fn position_mut(&mut self) -> (r: &mut Position) {
        &mut self.position
    }

    proof fn lemma_moved(&self, from: Position, to: Position) {
    }
}

/// A record whose attributes are borrowed.
#[derive(Debug, Clone, PartialEq)]
pub struct PointRef<'a> {
    pub position: &'a Position,
    pub color: &'a Rgb,
}

impl<'a> PointRef<'a> {
    /// The record that the view shows.
    pub open spec fn value(&self) -> Point {
        Point { position: *self.position, color: *self.color }
    }

    /// The record that the view shows, as a value of its own.
    pub fn to_point(&self) -> (r: Point)
        ensures
            r == self.value(),
    {
        Point { position: *self.position, color: *self.color }
    }
}

/// A record whose attributes are borrowed for writing.
#[derive(Debug, PartialEq)]
pub struct PointRefMut<'a> {
    pub position: &'a mut Position,
    pub color: &'a mut Rgb,
}

impl<'a> PointRefMut<'a> {
    /// The record that the view shows.
    pub open spec fn value(&self) -> Point {
        Point { position: *self.position, color: *self.color }
    }
}

} // verus!
