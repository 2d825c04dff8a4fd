//! From a row of datums to a point record.
//!
//! A mapper binds each attribute of a record to the index of a field. It is
//! resolved once from the field list of a header, before any row is read,
//! and then applied to every row.

use crate::io::error::{IOErrorView, PointRainIOError};
use crate::io::field::{DatumView, PointFieldDatum, PointFieldView};
use crate::pc::base::PointCloudBase;
use crate::point::{
    Point, PointBase, PointIntensity, PointIntensityNormal, PointNormal, PointRgb, PointRgbNormal,
};
use crate::types::{Float, Normal, Position, Rgb};
use vstd::prelude::*;

verus! {

/// Which attributes a record has beside its position.
#[derive(Debug, Clone, Copy)]
pub struct Layout {
    pub intensity: bool,
    pub color: bool,
    pub normal: bool,
}

/// Where the color of a record stands in a row.
#[derive(Debug, Clone, Copy)]
pub enum ColorBinding {
    /// One field, a binary32 value whose three low bytes are the channels.
    Packed(usize),
    /// Three fields of one byte each: red, green, blue.
    Channels(usize, usize, usize),
}

/// The indices of the fields that hold the attributes of a record.
#[derive(Debug, Clone, Copy)]
pub struct PointMapper {
    pub x: usize,
    pub y: usize,
    pub z: usize,
    pub intensity: Option<usize>,
    pub color: Option<ColorBinding>,
    /// The three components of the normal, then the curvature.
    pub normal: Option<(usize, usize, usize, usize)>,
}

/// Whether `i` is the index of the first field of the name.
pub open spec fn is_first(fields: Seq<PointFieldView>, name: Seq<char>, i: int) -> bool {
    &&& 0 <= i < fields.len()
    &&& fields[i].name == name
    &&& forall|j: int| 0 <= j < i ==> (#[trigger] fields[j]).name != name
}

/// Whether a field has the name.
pub open spec fn has_field(fields: Seq<PointFieldView>, name: Seq<char>) -> bool {
    exists|i: int| 0 <= i < fields.len() && (#[trigger] fields[i]).name == name
}

/// The first of the names that no field has.
pub open spec fn first_missing(fields: Seq<PointFieldView>, names: Seq<Seq<char>>) -> Option<
    Seq<char>,
>
    decreases names.len(),
{
    if names.len() == 0 {
        None
    } else if !has_field(fields, names[0]) {
        Some(names[0])
    } else {
        first_missing(fields, names.skip(1))
    }
}

/// The first missing name of two lists in a row is that of the first list,
/// or else that of the second.
pub proof fn lemma_first_missing_add(
    fields: Seq<PointFieldView>,
    a: Seq<Seq<char>>,
    b: Seq<Seq<char>>,
)
    ensures
        first_missing(fields, a + b) == if first_missing(fields, a) is Some {
            first_missing(fields, a)
        } else {
            first_missing(fields, b)
        },
    decreases a.len(),
{
    if a.len() == 0 {
        assert(a + b =~= b);
    } else {
        assert((a + b).skip(1) =~= a.skip(1) + b);
        lemma_first_missing_add(fields, a.skip(1), b);
    }
}

/// Two indices that are both the first of a name are one index.
pub proof fn lemma_first_unique(fields: Seq<PointFieldView>, name: Seq<char>, i: int, j: int)
    requires
        is_first(fields, name, i),
        is_first(fields, name, j),
    ensures
        i == j,
{
    if i < j {
        assert(fields[i].name == name);
    } else if j < i {
        assert(fields[j].name == name);
    }
}

impl PointMapper {
    /// Whether every bound index is below `n`.
    pub open spec fn within(self, n: nat) -> bool {
        &&& self.x < n && self.y < n && self.z < n
        &&& self.intensity matches Some(i) ==> i < n
        &&& self.color matches Some(ColorBinding::Packed(i)) ==> i < n
        &&& self.color matches Some(ColorBinding::Channels(r, g, b)) ==> r < n && g < n && b < n
        &&& self.normal matches Some(t) ==> t.0 < n && t.1 < n && t.2 < n && t.3 < n
    }

    /// The color of a row, or what is reported of the datum that gives none.
    /// Black where the mapper binds no color.
    pub open spec fn color_of(self, data: Seq<DatumView>, images: Seq<Float>) -> Result<
        Rgb,
        Seq<char>,
    > {
        match self.color {
            None => Ok(Rgb::black()),
            Some(ColorBinding::Packed(i)) => match data[i as int].color(images[i as int]) {
                Some(c) => Ok(c),
                None => Err(data[i as int].not_a_color()),
            },
            Some(ColorBinding::Channels(r, g, b)) => match data[r as int].byte() {
                None => Err(data[r as int].not_a_byte()),
                Some(red) => match data[g as int].byte() {
                    None => Err(data[g as int].not_a_byte()),
                    Some(green) => match data[b as int].byte() {
                        None => Err(data[b as int].not_a_byte()),
                        Some(blue) => Ok(Rgb { r: red, g: green, b: blue }),
                    },
                },
            },
        }
    }

    /// Whether a row gives a record: every bound index is in it, and the
    /// datums bound to the color are of a type that holds one. The images
    /// play no part in that.
    pub open spec fn accepts(self, data: Seq<DatumView>) -> bool {
        self.within(data.len()) && self.color_of(data, Seq::new(data.len(), |i: int| 0u32)) is Ok
    }

    /// What is reported of a row that gives no record.
    pub open spec fn refusal(self, data: Seq<DatumView>) -> Seq<char> {
        self.color_of(data, Seq::new(data.len(), |i: int| 0u32))->Err_0
    }

    /// The position of a row.
    pub open spec fn position_of(self, data: Seq<DatumView>, images: Seq<Float>) -> Position {
        Position {
            x: data[self.x as int].float(images[self.x as int]),
            y: data[self.y as int].float(images[self.y as int]),
            z: data[self.z as int].float(images[self.z as int]),
        }
    }

    /// The intensity of a row; 0 where the mapper binds none.
    pub open spec fn intensity_of(self, data: Seq<DatumView>, images: Seq<Float>) -> Float {
        match self.intensity {
            Some(i) => data[i as int].float(images[i as int]),
            None => 0,
        }
    }

    /// The normal of a row; zero where the mapper binds none.
    pub open spec fn normal_of(self, data: Seq<DatumView>, images: Seq<Float>) -> Normal {
        match self.normal {
            Some(t) => Normal {
                x: data[t.0 as int].float(images[t.0 as int]),
                y: data[t.1 as int].float(images[t.1 as int]),
                z: data[t.2 as int].float(images[t.2 as int]),
            },
            None => Normal::zero(),
        }
    }

    /// The curvature of a row; 0 where the mapper binds none.
    pub open spec fn curvature_of(self, data: Seq<DatumView>, images: Seq<Float>) -> Float {
        match self.normal {
            Some(t) => data[t.3 as int].float(images[t.3 as int]),
            None => 0,
        }
    }

    /// Whether every bound index is below `n`.
    pub fn is_within(&self, n: usize) -> (r: bool)
        ensures
            r == self.within(n as nat),
    {
        let position = self.x < n && self.y < n && self.z < n;
        let intensity = match self.intensity {
            Some(i) => i < n,
            None => true,
        };
        let color = match self.color {
            Some(ColorBinding::Packed(i)) => i < n,
            Some(ColorBinding::Channels(r, g, b)) => r < n && g < n && b < n,
            None => true,
        };
        let normal = match self.normal {
            Some(t) => t.0 < n && t.1 < n && t.2 < n && t.3 < n,
            None => true,
        };
        position && intensity && color && normal
    }

    /// Whether a row gives a record; if not, why.
    pub fn check(&self, data: &Vec<PointFieldDatum>) -> (r: Result<(), PointRainIOError>)
        requires
            self.within(data@.len() as nat),
        ensures
            r is Ok <==> self.accepts(data.deep_view()),
            r matches Err(e) ==> e@ == IOErrorView::Error(self.refusal(data.deep_view())),
    {
        match self.color {
            None => Ok(()),
            Some(ColorBinding::Packed(i)) => match data[i].to_color(0) {
                Ok(_) => Ok(()),
                Err(msg) => Err(PointRainIOError::Error { msg }),
            },
            Some(ColorBinding::Channels(r, g, b)) => {
                match data[r].as_u8() {
                    Err(msg) => {
                        return Err(PointRainIOError::Error { msg });
                    },
                    Ok(_) => {},
                }
                match data[g].as_u8() {
                    Err(msg) => {
                        return Err(PointRainIOError::Error { msg });
                    },
                    Ok(_) => {},
                }
                match data[b].as_u8() {
                    Err(msg) => Err(PointRainIOError::Error { msg }),
                    Ok(_) => Ok(()),
                }
            },
        }
    }

    /// The position of a row.
    pub fn position(&self, data: &Vec<PointFieldDatum>, images: &Vec<Float>) -> (r: Position)
        requires
            self.within(data@.len() as nat),
            images@.len() == data@.len(),
        ensures
            r == self.position_of(data.deep_view(), images@),
    {
        Position::new(
            data[self.x].to_float(images[self.x]),
            data[self.y].to_float(images[self.y]),
            data[self.z].to_float(images[self.z]),
        )
    }

    /// The intensity of a row; 0 where the mapper binds none.
    pub fn intensity(&self, data: &Vec<PointFieldDatum>, images: &Vec<Float>) -> (r: Float)
        requires
            self.within(data@.len() as nat),
            images@.len() == data@.len(),
        ensures
            r == self.intensity_of(data.deep_view(), images@),
    {
        match self.intensity {
            Some(i) => data[i].to_float(images[i]),
            None => 0,
        }
    }

    /// The normal of a row; zero where the mapper binds none.
    pub fn normal(&self, data: &Vec<PointFieldDatum>, images: &Vec<Float>) -> (r: Normal)
        requires
            self.within(data@.len() as nat),
            images@.len() == data@.len(),
        ensures
            r == self.normal_of(data.deep_view(), images@),
    {
        match self.normal {
            Some(t) => Normal::new(
                data[t.0].to_float(images[t.0]),
                data[t.1].to_float(images[t.1]),
                data[t.2].to_float(images[t.2]),
            ),
            None => Normal::new(0, 0, 0),
        }
    }

    /// The curvature of a row; 0 where the mapper binds none.
    pub fn curvature(&self, data: &Vec<PointFieldDatum>, images: &Vec<Float>) -> (r: Float)
        requires
            self.within(data@.len() as nat),
            images@.len() == data@.len(),
        ensures
            r == self.curvature_of(data.deep_view(), images@),
    {
        match self.normal {
            Some(t) => data[t.3].to_float(images[t.3]),
            None => 0,
        }
    }

    /// The color of a row; black where the mapper binds none.
    pub fn color(&self, data: &Vec<PointFieldDatum>, images: &Vec<Float>) -> (r: Rgb)
        requires
            self.accepts(data.deep_view()),
            images@.len() == data@.len(),
        ensures
            self.color_of(data.deep_view(), images@) == Ok::<Rgb, Seq<char>>(r),
    {
        match self.color {
            None => Rgb::new(0, 0, 0),
            Some(ColorBinding::Packed(i)) => match data[i].to_color(images[i]) {
                Ok(c) => c,
                Err(_) => Rgb::new(0, 0, 0),
            },
            Some(ColorBinding::Channels(r, g, b)) => {
                let red = match data[r].as_u8() {
                    Ok(v) => v,
                    Err(_) => 0,
                };
                let green = match data[g].as_u8() {
                    Ok(v) => v,
                    Err(_) => 0,
                };
                let blue = match data[b].as_u8() {
                    Ok(v) => v,
                    Err(_) => 0,
                };
                Rgb::new(red, green, blue)
            },
        }
    }
}

/// Whether two rows hold the same values: datum by datum, the same
/// binary32 value, the same color and the same byte, however each datum is
/// written.
pub open spec fn same_values(
    a: Seq<DatumView>,
    a_images: Seq<Float>,
    b: Seq<DatumView>,
    b_images: Seq<Float>,
) -> bool {
    &&& a.len() == b.len()
    &&& forall|j: int|
        0 <= j < a.len() ==> (#[trigger] a[j]).float(a_images[j]) == b[j].float(b_images[j])
            && a[j].color(a_images[j]) == b[j].color(b_images[j]) && a[j].byte() == b[j].byte()
}

/// Two rows that hold the same values give the same color.
pub proof fn lemma_same_color(
    mapper: PointMapper,
    a: Seq<DatumView>,
    a_images: Seq<Float>,
    b: Seq<DatumView>,
    b_images: Seq<Float>,
)
    requires
        mapper.accepts(a),
        same_values(a, a_images, b, b_images),
    ensures
        mapper.color_of(a, a_images) is Ok,
        mapper.color_of(a, a_images) == mapper.color_of(b, b_images),
{
    match mapper.color {
        None => {},
        Some(ColorBinding::Packed(i)) => {
            assert(a[i as int].color(a_images[i as int]) == b[i as int].color(b_images[i as int]));
        },
        Some(ColorBinding::Channels(r, g, bl)) => {
            assert(a[r as int].byte() == b[r as int].byte());
            assert(a[g as int].byte() == b[g as int].byte());
            assert(a[bl as int].byte() == b[bl as int].byte());
        },
    }
}

/// A point record that can be read from a row of datums.
pub trait PointRecord: PointBase {
    /// The attributes that the record has.
    spec fn layout() -> Layout;

    /// The record that a row gives. `images` holds, for each datum of the
    /// row, its value as a binary32.
    spec fn read(mapper: PointMapper, data: Seq<DatumView>, images: Seq<Float>) -> Self;

    fn read_point(mapper: &PointMapper, data: &Vec<PointFieldDatum>, images: &Vec<Float>) -> (r:
        Self)
        requires
            mapper.accepts(data.deep_view()),
            images@.len() == data@.len(),
        ensures
            r == Self::read(*mapper, data.deep_view(), images@),
    ;

    /// Two rows that hold the same values give the same record.
    proof fn lemma_read(
        mapper: PointMapper,
        a: Seq<DatumView>,
        a_images: Seq<Float>,
        b: Seq<DatumView>,
        b_images: Seq<Float>,
    )
        requires
            mapper.accepts(a),
            same_values(a, a_images, b, b_images),
        ensures
            Self::read(mapper, a, a_images) == Self::read(mapper, b, b_images),
    ;
}

impl PointRecord for Point {
    open spec fn layout() -> Layout {
        Layout { intensity: false, color: false, normal: false }
    }

    open spec fn read(mapper: PointMapper, data: Seq<DatumView>, images: Seq<Float>) -> Self {
        Point { position: mapper.position_of(data, images) }
    }

    fn read_point(mapper: &PointMapper, data: &Vec<PointFieldDatum>, images: &Vec<Float>) -> (r:
        Self) {
        Point { position: mapper.position(data, images) }
    }

    proof fn lemma_read(
        mapper: PointMapper,
        a: Seq<DatumView>,
        a_images: Seq<Float>,
        b: Seq<DatumView>,
        b_images: Seq<Float>,
    ) {
    }
}

impl PointRecord for PointIntensity {
    open spec fn layout() -> Layout {
        Layout { intensity: true, color: false, normal: false }
    }

    open spec fn read(mapper: PointMapper, data: Seq<DatumView>, images: Seq<Float>) -> Self {
        PointIntensity {
            position: mapper.position_of(data, images),
            intensity: mapper.intensity_of(data, images),
        }
    }

    fn read_point(mapper: &PointMapper, data: &Vec<PointFieldDatum>, images: &Vec<Float>) -> (r:
        Self) {
        PointIntensity {
            position: mapper.position(data, images),
            intensity: mapper.intensity(data, images),
        }
    }

    proof fn lemma_read(
        mapper: PointMapper,
        a: Seq<DatumView>,
        a_images: Seq<Float>,
        b: Seq<DatumView>,
        b_images: Seq<Float>,
    ) {
    }
}

impl PointRecord for PointNormal {
    open spec fn layout() -> Layout {
        Layout { intensity: false, color: false, normal: true }
    }

    open spec fn read(mapper: PointMapper, data: Seq<DatumView>, images: Seq<Float>) -> Self {
        PointNormal {
            position: mapper.position_of(data, images),
            normal: mapper.normal_of(data, images),
            curvature: mapper.curvature_of(data, images),
        }
    }

    fn read_point(mapper: &PointMapper, data: &Vec<PointFieldDatum>, images: &Vec<Float>) -> (r:
        Self) {
        PointNormal {
            position: mapper.position(data, images),
            normal: mapper.normal(data, images),
            curvature: mapper.curvature(data, images),
        }
    }

    proof fn lemma_read(
        mapper: PointMapper,
        a: Seq<DatumView>,
        a_images: Seq<Float>,
        b: Seq<DatumView>,
        b_images: Seq<Float>,
    ) {
    }
}

impl PointRecord for PointIntensityNormal {
    open spec fn layout() -> Layout {
        Layout { intensity: true, color: false, normal: true }
    }

    open spec fn read(mapper: PointMapper, data: Seq<DatumView>, images: Seq<Float>) -> Self {
        PointIntensityNormal {
            position: mapper.position_of(data, images),
            intensity: mapper.intensity_of(data, images),
            normal: mapper.normal_of(data, images),
            curvature: mapper.curvature_of(data, images),
        }
    }

    fn read_point(mapper: &PointMapper, data: &Vec<PointFieldDatum>, images: &Vec<Float>) -> (r:
        Self) {
        PointIntensityNormal {
            position: mapper.position(data, images),
            intensity: mapper.intensity(data, images),
            normal: mapper.normal(data, images),
            curvature: mapper.curvature(data, images),
        }
    }

    proof fn lemma_read(
        mapper: PointMapper,
        a: Seq<DatumView>,
        a_images: Seq<Float>,
        b: Seq<DatumView>,
        b_images: Seq<Float>,
    ) {
    }
}

impl PointRecord for PointRgb {
    open spec fn layout() -> Layout {
        Layout { intensity: false, color: true, normal: false }
    }

    open spec fn read(mapper: PointMapper, data: Seq<DatumView>, images: Seq<Float>) -> Self {
        PointRgb {
            position: mapper.position_of(data, images),
            color: mapper.color_of(data, images)->Ok_0,
        }
    }

    fn read_point(mapper: &PointMapper, data: &Vec<PointFieldDatum>, images: &Vec<Float>) -> (r:
        Self) {
        PointRgb { position: mapper.position(data, images), color: mapper.color(data, images) }
    }

    proof fn lemma_read(
        mapper: PointMapper,
        a: Seq<DatumView>,
        a_images: Seq<Float>,
        b: Seq<DatumView>,
        b_images: Seq<Float>,
    ) {
        lemma_same_color(mapper, a, a_images, b, b_images);
    }
}

impl PointRecord for PointRgbNormal {
    open spec fn layout() -> Layout {
        Layout { intensity: false, color: true, normal: true }
    }

    open spec fn read(mapper: PointMapper, data: Seq<DatumView>, images: Seq<Float>) -> Self {
        PointRgbNormal {
            position: mapper.position_of(data, images),
            color: mapper.color_of(data, images)->Ok_0,
            normal: mapper.normal_of(data, images),
            curvature: mapper.curvature_of(data, images),
        }
    }

    fn read_point(mapper: &PointMapper, data: &Vec<PointFieldDatum>, images: &Vec<Float>) -> (r:
        Self) {
        PointRgbNormal {
            position: mapper.position(data, images),
            color: mapper.color(data, images),
            normal: mapper.normal(data, images),
            curvature: mapper.curvature(data, images),
        }
    }

    proof fn lemma_read(
        mapper: PointMapper,
        a: Seq<DatumView>,
        a_images: Seq<Float>,
        b: Seq<DatumView>,
        b_images: Seq<Float>,
    ) {
        lemma_same_color(mapper, a, a_images, b, b_images);
    }
}

/// The rows of a file, with the mapper that was resolved for them.
#[derive(Debug)]
pub struct Records {
    pub mapper: PointMapper,
    pub rows: Vec<Vec<PointFieldDatum>>,
}

/// `Records` with the texts of its datums as character sequences.
pub struct RecordsView {
    pub mapper: PointMapper,
    pub rows: Seq<Seq<DatumView>>,
}

impl View for Records {
    type V = RecordsView;

    open spec fn view(&self) -> RecordsView {
        RecordsView { mapper: self.mapper, rows: self.rows.deep_view() }
    }
}

impl Records {
    /// Whether `point_cloud` can be made of the records and `images`: every
    /// row gives a record, and `images` holds one value for each datum of
    /// each row.
    pub fn fits(&self, images: &Vec<Vec<Float>>) -> (r: bool)
        ensures
            r == (self@.wf() && self@.imaged(images_view(images))),
    {
        if images.len() != self.rows.len() {
            return false;
        }
        let n = self.rows.len();
        let mut i: usize = 0;
        while i < n
            invariant
                i <= n,
                n == self.rows@.len(),
                n == images@.len(),
                forall|j: int| 0 <= j < i ==> self@.mapper.accepts(#[trigger] self@.rows[j]),
                forall|j: int|
                    0 <= j < i ==> (#[trigger] images_view(images)[j]).len() == self@.rows[j].len(),
            decreases n - i,
        {
            proof {
                assert(self@.rows[i as int] == self.rows@[i as int].deep_view());
                assert(images_view(images)[i as int] == images@[i as int]@);
            }
            if images[i].len() != self.rows[i].len() || !self.mapper.is_within(self.rows[i].len()) {
                return false;
            }
            match self.mapper.check(&self.rows[i]) {
                Err(_) => {
                    return false;
                },
                Ok(()) => {},
            }
            i += 1;
        }
        true
    }
}

impl RecordsView {
    /// Whether every row gives a record.
    pub open spec fn wf(self) -> bool {
        forall|i: int| 0 <= i < self.rows.len() ==> self.mapper.accepts(#[trigger] self.rows[i])
    }

    /// Whether `images` holds one value for each datum of each row.
    pub open spec fn imaged(self, images: Seq<Seq<Float>>) -> bool {
        &&& images.len() == self.rows.len()
        &&& forall|i: int|
            0 <= i < self.rows.len() ==> (#[trigger] images[i]).len() == self.rows[i].len()
    }

    /// The records that the rows give, in their order.
    pub open spec fn points<P: PointRecord>(self, images: Seq<Seq<Float>>) -> Seq<P> {
        Seq::new(self.rows.len(), |i: int| P::read(self.mapper, self.rows[i], images[i]))
    }
}

/// Rows that hold the same values, row by row, give the same records:
/// what a cloud holds depends on the values of its records alone, not on
/// how the file wrote them.
pub proof fn lemma_same_values_same_points<P: PointRecord>(
    a: RecordsView,
    a_images: Seq<Seq<Float>>,
    b: RecordsView,
    b_images: Seq<Seq<Float>>,
)
    requires
        a.mapper == b.mapper,
        a.rows.len() == b.rows.len(),
        forall|i: int|
            0 <= i < a.rows.len() ==> a.mapper.accepts(#[trigger] a.rows[i]) && same_values(
                a.rows[i],
                a_images[i],
                b.rows[i],
                b_images[i],
            ),
    ensures
        a.points::<P>(a_images) == b.points::<P>(b_images),
{
    assert forall|i: int| 0 <= i < a.rows.len() implies P::read(a.mapper, a.rows[i], a_images[i])
        == P::read(b.mapper, b.rows[i], b_images[i]) by {
        assert(same_values(a.rows[i], a_images[i], b.rows[i], b_images[i]));
        P::lemma_read(a.mapper, a.rows[i], a_images[i], b.rows[i], b_images[i]);
    }
    assert(a.points::<P>(a_images) =~= b.points::<P>(b_images));
}

/// The row views of nested vectors.
pub open spec fn images_view(images: &Vec<Vec<Float>>) -> Seq<Seq<Float>> {
    Seq::new(images@.len(), |i: int| images@[i]@)
}

/// The point cloud that the rows of a file give: one record a row, in the
/// order of the rows. `images` holds, for each datum of each row, its value
/// as a binary32; a datum that holds the bits of such a value is taken by
/// its own bits, whatever its image.
pub fn point_cloud<PC>(records: &Records, images: &Vec<Vec<Float>>) -> (pc: PC) where
    PC: PointCloudBase,
    PC::Point: PointRecord,

    requires
        records@.wf(),
        records@.imaged(images_view(images)),
    ensures
        pc.wf(),
        pc.points() == records@.points::<PC::Point>(images_view(images)),
        pc.points().len() == records.rows@.len(),
{
    let n = records.rows.len();
    let mut pc = PC::with_capacity(n);
    let ghost all = records@.points::<PC::Point>(images_view(images));
    let mut i: usize = 0;
    while i < n
        invariant
            i <= n,
            n == records.rows@.len(),
            records@.wf(),
            records@.imaged(images_view(images)),
            all == records@.points::<PC::Point>(images_view(images)),
            pc.wf(),
            pc.points() == all.take(i as int),
        decreases n - i,
    {
        proof {
            assert(records@.mapper.accepts(records@.rows[i as int]));
            assert(images_view(images)[i as int].len() == records@.rows[i as int].len());
            assert(records@.rows[i as int] == records.rows@[i as int].deep_view());
        }
        let p = <PC::Point as PointRecord>::read_point(
            &records.mapper,
            &records.rows[i],
            &images[i],
        );
        pc.push(p);
        proof {
            assert(all.take(i + 1) =~= all.take(i as int).push(p));
        }
        i += 1;
    }
    proof {
        assert(all.take(n as int) =~= all);
    }
    pc
}

} // verus!
