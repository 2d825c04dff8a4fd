//! The container of records with an intensity, a normal and a curvature.

use crate::pc::base::{
    positions_of, repositioned, resized, PointCloudBase, PointCloudWithIntensity,
    PointCloudWithNormal,
};
use crate::point::intensity_normal::{Point, PointRef, PointRefMut};
use crate::types::{Float, Normal, Position};
use vstd::prelude::*;

verus! {

#[derive(Debug, Clone)]
pub struct PointCloud {
    positions: Vec<Position>,
    intensities: Vec<Float>,
    normals: Vec<Normal>,
    curvatures: Vec<Float>,
}

impl PointCloud {
    /// An empty container.
    pub fn new() -> (r: Self)
        ensures
            r.wf(),
            r.points() == Seq::<Point>::empty(),
    {
        let r = PointCloud {
            positions: Vec::new(),
            intensities: Vec::new(),
            normals: Vec::new(),
            curvatures: Vec::new(),
        };
        assert(r.points() =~= Seq::<Point>::empty());
        r
    }

    /// A container of the records that `points` holds, in their order.
    pub fn from_iter(points: Vec<Point>) -> (r: Self)
        ensures
            r.wf(),
            r.points() == points@,
    {
        let mut pc = PointCloud::new();
        let mut i: usize = 0;
        while i < points.len()
            invariant
                i <= points@.len(),
                pc.wf(),
                pc.points() == points@.take(i as int),
            decreases points@.len() - i,
        {
            pc.push(points[i]);
            assert(points@.take(i + 1) =~= points@.take(i as int).push(points@[i as int]));
            i += 1;
        }
        assert(points@.take(i as int) =~= points@);
        pc
    }

    /// The record at `index`, its attributes borrowed from the arrays.
    pub fn get(&self, index: usize) -> (r: PointRef<'_>)
        requires
            self.wf(),
            index < self.points().len(),
        ensures
            r.value() == self.points()[index as int],
    {
        PointRef {
            position: &self.positions[index],
            intensity: &self.intensities[index],
            normal: &self.normals[index],
            curvature: &self.curvatures[index],
        }
    }

    /// Writes the record at `index`.
    pub fn set(&mut self, index: usize, p: Point)
        requires
            old(self).wf(),
            index < old(self).points().len(),
        ensures
            final(self).wf(),
            final(self).points() == old(self).points().update(index as int, p),
    {
        self.positions.set(index, p.position);
        self.intensities.set(index, p.intensity);
        self.normals.set(index, p.normal);
        self.curvatures.set(index, p.curvature);
        assert(self.points() =~= old(self).points().update(index as int, p));
    }

    /// The record at `index` for writing, its attributes borrowed from the
    /// arrays. What is written through the view is written into the
    /// container.
    pub fn get_mut(&mut self, index: usize) -> (r: PointRefMut<'_>)
        requires
            old(self).wf(),
            index < old(self).points().len(),
        ensures
            r.value() == old(self).points()[index as int],
            final(self).wf(),
            final(self).points() == old(self).points().update(
                index as int,
                Point {
                    position: *final(r.position),
                    intensity: *final(r.intensity),
                    normal: *final(r.normal),
                    curvature: *final(r.curvature),
                },
            ),
    {
        let ghost before = self.points();
        assert forall|position: Position, intensity: Float, normal: Normal, curvature: Float|
            #[trigger] zipped(
                self.positions@.update(index as int, position),
                self.intensities@.update(index as int, intensity),
                self.normals@.update(index as int, normal),
                self.curvatures@.update(index as int, curvature),
            ) == before.update(index as int, Point { position, intensity, normal, curvature }) by {
            let written = Point { position, intensity, normal, curvature };
            assert(zipped(
                self.positions@.update(index as int, position),
                self.intensities@.update(index as int, intensity),
                self.normals@.update(index as int, normal),
                self.curvatures@.update(index as int, curvature),
            ) =~= before.update(index as int, written));
        }
        PointRefMut {
            position: &mut self.positions[index],
            intensity: &mut self.intensities[index],
            normal: &mut self.normals[index],
            curvature: &mut self.curvatures[index],
        }
    }

    /// Appends the record that a view shows.
    pub fn push_ref(&mut self, p: PointRef<'_>)
        requires
            old(self).wf(),
        ensures
            final(self).wf(),
            final(self).points() == old(self).points().push(p.value()),
    {
        self.positions.push(*p.position);
        self.intensities.push(*p.intensity);
        self.normals.push(*p.normal);
        self.curvatures.push(*p.curvature);
        assert(self.points() =~= old(self).points().push(p.value()));
    }

    /// A walk over the records from the first on.
    pub fn iter(&self) -> (r: Iter<'_>)
        requires
            self.wf(),
        ensures
            r.wf(),
            r.rest() == self.points(),
    {
        let r = Iter { cloud: self, next: 0 };
        assert(r.rest() =~= self.points());
        r
    }
}

/// The records whose attributes the arrays hold.
spec fn zipped(
    positions: Seq<Position>,
    intensities: Seq<Float>,
    normals: Seq<Normal>,
    curvatures: Seq<Float>,
) -> Seq<Point> {
    Seq::new(
        positions.len(),
        |i: int|
            Point {
                position: positions[i],
                intensity: intensities[i],
                normal: normals[i],
                curvature: curvatures[i],
            },
    )
}

impl Default for PointCloud {
    fn default() -> (r: Self)
        ensures
            r.wf(),
            r.points() == Seq::<Point>::empty(),
    {
        PointCloud::new()
    }
}

impl PointCloudBase for PointCloud {
    type Point = Point;

    closed spec fn wf(&self) -> bool {
        &&& self.intensities@.len() == self.positions@.len()
        &&& self.normals@.len() == self.positions@.len()
        &&& self.curvatures@.len() == self.positions@.len()
    }

    closed spec fn points(&self) -> Seq<Point> {
        zipped(self.positions@, self.intensities@, self.normals@, self.curvatures@)
    }

    fn new() -> (r: Self) {
        PointCloud::new()
    }

    fn with_capacity(capacity: usize) -> (r: Self) {
        let r = PointCloud {
            positions: Vec::with_capacity(capacity),
            intensities: Vec::with_capacity(capacity),
            normals: Vec::with_capacity(capacity),
            curvatures: Vec::with_capacity(capacity),
        };
        assert(r.points() =~= Seq::<Point>::empty());
        r
    }

    fn resize(&mut self, new_len: usize, value: Point) {
        self.positions.resize(new_len, value.position);
        self.intensities.resize(new_len, value.intensity);
        self.normals.resize(new_len, value.normal);
        self.curvatures.resize(new_len, value.curvature);
        assert(self.points() =~= resized(old(self).points(), new_len as nat, value));
    }

    fn positions(&self) -> (r: &[Position]) {
        assert(self.positions@ =~= positions_of(self.points()));
        self.positions.as_slice()
    }

    fn positions_mut(&mut self) -> (r: &mut [Position]) {
        assert(self.positions@ =~= positions_of(self.points()));
        let ghost before = self.points();
        assert forall|moved: Seq<Position>| moved.len() == self.positions@.len() implies
            #[trigger] zipped(moved, self.intensities@, self.normals@, self.curvatures@)
                == repositioned(before, moved) by {
            let after = zipped(moved, self.intensities@, self.normals@, self.curvatures@);
            assert(after =~= repositioned(before, moved));
        }
        self.positions.as_mut_slice()
    }

    fn push(&mut self, p: Point) {
        self.positions.push(p.position);
        self.intensities.push(p.intensity);
        self.normals.push(p.normal);
        self.curvatures.push(p.curvature);
        assert(self.points() =~= old(self).points().push(p));
    }

    fn push_ref(&mut self, p: PointRef<'_>) {
        PointCloud::push_ref(self, p)
    }

    fn len(&self) -> (r: usize) {
        self.positions.len()
    }

    fn is_empty(&self) -> (r: bool) {
        self.positions.len() == 0
    }
}

impl PointCloudWithIntensity for PointCloud {
    open spec fn intensity_of(p: Point) -> Float {
        p.intensity
    }

    fn intensities(&self) -> (r: &[Float]) {
        assert(self.intensities@ =~= Seq::new(
            self.points().len(),
            |i: int| self.points()[i].intensity,
        ));
        self.intensities.as_slice()
    }
}

impl PointCloudWithNormal for PointCloud {
    open spec fn normal_of(p: Point) -> Normal {
        p.normal
    }

    open spec fn curvature_of(p: Point) -> Float {
        p.curvature
    }

    fn normals(&self) -> (r: &[Normal]) {
        assert(self.normals@ =~= Seq::new(
            self.points().len(),
            |i: int| self.points()[i].normal,
        ));
        self.normals.as_slice()
    }

    fn curvatures(&self) -> (r: &[Float]) {
        assert(self.curvatures@ =~= Seq::new(
            self.points().len(),
            |i: int| self.points()[i].curvature,
        ));
        self.curvatures.as_slice()
    }
}

/// A walk over the records of a container, in their order.
pub struct Iter<'a> {
    cloud: &'a PointCloud,
    next: usize,
}

impl<'a> Iter<'a> {
    pub closed spec fn wf(&self) -> bool {
        self.cloud.wf() && self.next <= self.cloud.points().len()
    }

    /// The records that the walk has still to give.
    pub closed spec fn rest(&self) -> Seq<Point> {
        self.cloud.points().skip(self.next as int)
    }

    /// The next record, while there is one.
    pub fn next(&mut self) -> (r: Option<PointRef<'a>>)
        requires
            old(self).wf(),
        ensures
            final(self).wf(),
            old(self).rest().len() == 0 ==> r is None && final(self).rest() == old(self).rest(),
            old(self).rest().len() > 0 ==> r is Some && r.unwrap().value() == old(self).rest()[0]
                && final(self).rest() == old(self).rest().skip(1),
    {
        if self.next < self.cloud.len() {
            let r = self.cloud.get(self.next);
            self.next += 1;
            assert(self.rest() =~= old(self).rest().skip(1));
            Some(r)
        } else {
            None
        }
    }

    /// How many records the walk has still to give, as the bounds of an
    /// iterator's size.
    pub fn size_hint(&self) -> (r: (usize, Option<usize>))
        requires
            self.wf(),
        ensures
            r.0 == self.rest().len(),
            r.1 == Some(r.0),
    {
        let n = self.cloud.len() - self.next;
        (n, Some(n))
    }
}

} // verus!
