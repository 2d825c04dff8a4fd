//! Which fields of a columnar file hold the attributes of a record.

use crate::io::error::{IOErrorView, MissingField, PointRainIOError};
use crate::io::field::{same_text, PointField, PointFieldView};
use crate::io::mapper::{
    first_missing, has_field, is_first, lemma_first_missing_add, lemma_first_unique,
    ColorBinding, Layout, PointMapper, PointRecord,
};
use crate::point::{
    Point, PointIntensity, PointIntensityNormal, PointNormal, PointRgb, PointRgbNormal,
};
use vstd::prelude::*;

verus! {

/// The names of the coordinates.
pub open spec fn xyz_names() -> Seq<Seq<char>> {
    seq!["x"@, "y"@, "z"@]
}

/// The names of the components of the normal, and of the curvature.
pub open spec fn normal_names() -> Seq<Seq<char>> {
    seq!["normal_x"@, "normal_y"@, "normal_z"@, "curvature"@]
}

/// The names that a layout needs, in the order in which they are looked up.
pub open spec fn names_of(layout: Layout) -> Seq<Seq<char>> {
    xyz_names() + (if layout.intensity {
        seq!["intensity"@]
    } else {
        seq![]
    }) + (if layout.color {
        seq!["rgb"@]
    } else {
        seq![]
    }) + (if layout.normal {
        normal_names()
    } else {
        seq![]
    })
}

/// Whether the mapper binds each attribute of the layout, and no other, to
/// the first field of its name.
pub open spec fn binds(m: PointMapper, fields: Seq<PointFieldView>, layout: Layout) -> bool {
    &&& is_first(fields, "x"@, m.x as int)
    &&& is_first(fields, "y"@, m.y as int)
    &&& is_first(fields, "z"@, m.z as int)
    &&& if layout.intensity {
        m.intensity matches Some(i) && is_first(fields, "intensity"@, i as int)
    } else {
        m.intensity is None
    }
    &&& if layout.color {
        m.color matches Some(ColorBinding::Packed(i)) && is_first(fields, "rgb"@, i as int)
    } else {
        m.color is None
    }
    &&& if layout.normal {
        m.normal matches Some(t) && is_first(fields, "normal_x"@, t.0 as int) && is_first(
            fields,
            "normal_y"@,
            t.1 as int,
        ) && is_first(fields, "normal_z"@, t.2 as int) && is_first(
            fields,
            "curvature"@,
            t.3 as int,
        )
    } else {
        m.normal is None
    }
}

/// The mapper that binds a layout to the fields, where each of its names is
/// there.
pub open spec fn mapper_of(fields: Seq<PointFieldView>, layout: Layout) -> PointMapper {
    choose|m: PointMapper| binds(m, fields, layout)
}

/// There is one mapper only that binds a layout to the fields.
pub proof fn lemma_mapper_of(m: PointMapper, fields: Seq<PointFieldView>, layout: Layout)
    requires
        binds(m, fields, layout),
    ensures
        mapper_of(fields, layout) == m,
{
    let c = mapper_of(fields, layout);
    assert(binds(c, fields, layout));
    lemma_first_unique(fields, "x"@, c.x as int, m.x as int);
    lemma_first_unique(fields, "y"@, c.y as int, m.y as int);
    lemma_first_unique(fields, "z"@, c.z as int, m.z as int);
    if layout.intensity {
        lemma_first_unique(
            fields,
            "intensity"@,
            c.intensity->Some_0 as int,
            m.intensity->Some_0 as int,
        );
    }
    if layout.color {
        let i = c.color->Some_0->Packed_0;
        let j = m.color->Some_0->Packed_0;
        lemma_first_unique(fields, "rgb"@, i as int, j as int);
    }
    if layout.normal {
        let s = c.normal->Some_0;
        let t = m.normal->Some_0;
        lemma_first_unique(fields, "normal_x"@, s.0 as int, t.0 as int);
        lemma_first_unique(fields, "normal_y"@, s.1 as int, t.1 as int);
        lemma_first_unique(fields, "normal_z"@, s.2 as int, t.2 as int);
        lemma_first_unique(fields, "curvature"@, s.3 as int, t.3 as int);
    }
}

/// Whether `r` is what resolving a layout against the fields gives: the
/// mapper that binds the layout, or the first name that no field has.
pub open spec fn resolved(
    r: Result<PointMapper, PointRainIOError>,
    fields: Seq<PointFieldView>,
    layout: Layout,
) -> bool {
    match r {
        Ok(m) => first_missing(fields, names_of(layout)) is None && binds(m, fields, layout)
            && m.within(fields.len()) && m == mapper_of(fields, layout),
        Err(e) => first_missing(fields, names_of(layout)) matches Some(name) && e@
            == IOErrorView::MissingFieldError(name),
    }
}

/// The index of the first field of a name.
pub fn find_field(fields: &Vec<PointField>, name: &'static str) -> (r: Result<usize, MissingField>)
    ensures
        r matches Ok(i) ==> is_first(fields.deep_view(), name@, i as int),
        r matches Err(e) ==> !has_field(fields.deep_view(), name@) && e.0@ == name@,
{
    let mut i: usize = 0;
    while i < fields.len()
        invariant
            i <= fields@.len(),
            forall|j: int| 0 <= j < i ==> (#[trigger] fields.deep_view()[j]).name != name@,
        decreases fields@.len() - i,
    {
        if same_text(fields[i].name.as_str(), name) {
            return Ok(i);
        }
        i += 1;
    }
    Err(MissingField(name))
}

/// The indices of the fields of the three coordinates, or the first of
/// their names that no field has.
pub fn find_xyz(fields: &Vec<PointField>) -> (r: Result<(usize, usize, usize), MissingField>)
    ensures
        r matches Ok(t) ==> first_missing(fields.deep_view(), xyz_names()) is None && is_first(
            fields.deep_view(),
            "x"@,
            t.0 as int,
        ) && is_first(fields.deep_view(), "y"@, t.1 as int) && is_first(
            fields.deep_view(),
            "z"@,
            t.2 as int,
        ),
        r matches Err(e) ==> first_missing(fields.deep_view(), xyz_names()) == Some(e.0@),
{
    proof {
        reveal_with_fuel(first_missing, 4);
    }
    let x = match find_field(fields, "x") {
        Ok(i) => i,
        Err(e) => {
            return Err(e);
        },
    };
    let y = match find_field(fields, "y") {
        Ok(i) => i,
        Err(e) => {
            return Err(e);
        },
    };
    let z = match find_field(fields, "z") {
        Ok(i) => i,
        Err(e) => {
            return Err(e);
        },
    };
    Ok((x, y, z))
}

/// The indices of the fields of the normal and the curvature, or the first
/// of their names that no field has.
pub fn find_normal(fields: &Vec<PointField>) -> (r: Result<
    (usize, usize, usize, usize),
    MissingField,
>)
    ensures
        r matches Ok(t) ==> first_missing(fields.deep_view(), normal_names()) is None && is_first(
            fields.deep_view(),
            "normal_x"@,
            t.0 as int,
        ) && is_first(fields.deep_view(), "normal_y"@, t.1 as int) && is_first(
            fields.deep_view(),
            "normal_z"@,
            t.2 as int,
        ) && is_first(fields.deep_view(), "curvature"@, t.3 as int),
        r matches Err(e) ==> first_missing(fields.deep_view(), normal_names()) == Some(e.0@),
{
    proof {
        reveal_with_fuel(first_missing, 5);
    }
    let x = match find_field(fields, "normal_x") {
        Ok(i) => i,
        Err(e) => {
            return Err(e);
        },
    };
    let y = match find_field(fields, "normal_y") {
        Ok(i) => i,
        Err(e) => {
            return Err(e);
        },
    };
    let z = match find_field(fields, "normal_z") {
        Ok(i) => i,
        Err(e) => {
            return Err(e);
        },
    };
    let curvature = match find_field(fields, "curvature") {
        Ok(i) => i,
        Err(e) => {
            return Err(e);
        },
    };
    Ok((x, y, z, curvature))
}

/// The index of the field of the intensity.
pub fn find_intensity(fields: &Vec<PointField>) -> (r: Result<usize, MissingField>)
    ensures
        r matches Ok(i) ==> is_first(fields.deep_view(), "intensity"@, i as int),
        r matches Err(e) ==> !has_field(fields.deep_view(), "intensity"@) && e.0@ == "intensity"@,
{
    find_field(fields, "intensity")
}

/// The index of the field of the packed color.
pub fn find_rgb(fields: &Vec<PointField>) -> (r: Result<usize, MissingField>)
    ensures
        r matches Ok(i) ==> is_first(fields.deep_view(), "rgb"@, i as int),
        r matches Err(e) ==> !has_field(fields.deep_view(), "rgb"@) && e.0@ == "rgb"@,
{
    find_field(fields, "rgb")
}

/// What the names of a layout come to, part by part.
proof fn lemma_names(fields: Seq<PointFieldView>, layout: Layout)
    ensures
        first_missing(fields, names_of(layout)) == if first_missing(fields, xyz_names()) is Some {
            first_missing(fields, xyz_names())
        } else if layout.intensity && !has_field(fields, "intensity"@) {
            Some("intensity"@)
        } else if layout.color && !has_field(fields, "rgb"@) {
            Some("rgb"@)
        } else if layout.normal {
            first_missing(fields, normal_names())
        } else {
            None
        },
{
    let a = xyz_names();
    let b: Seq<Seq<char>> = if layout.intensity {
        seq!["intensity"@]
    } else {
        seq![]
    };
    let c: Seq<Seq<char>> = if layout.color {
        seq!["rgb"@]
    } else {
        seq![]
    };
    let d: Seq<Seq<char>> = if layout.normal {
        normal_names()
    } else {
        seq![]
    };
    reveal_with_fuel(first_missing, 2);
    lemma_first_missing_add(fields, a + b + c, d);
    lemma_first_missing_add(fields, a + b, c);
    lemma_first_missing_add(fields, a, b);
}

/// A point record that can be read from the rows of a columnar file.
pub trait PointReadable: PointRecord {
    /// Resolves the fields that hold the attributes of the record. Where a
    /// name is missing, the first such name is reported.
    fn read_data_func(fields: &Vec<PointField>) -> (r: Result<PointMapper, PointRainIOError>)
        ensures
            resolved(r, fields.deep_view(), Self::layout()),
    ;
}

impl PointReadable for Point {
    fn read_data_func(fields: &Vec<PointField>) -> (r: Result<PointMapper, PointRainIOError>) {
        proof {
            lemma_names(fields.deep_view(), Self::layout());
        }
        let (x, y, z) = match find_xyz(fields) {
            Ok(t) => t,
            Err(e) => {
                return Err(PointRainIOError::MissingFieldError(e.0));
            },
        };
        let m = PointMapper { x, y, z, intensity: None, color: None, normal: None };
        proof {
            lemma_mapper_of(m, fields.deep_view(), Self::layout());
        }
        Ok(m)
    }
}

impl PointReadable for PointNormal {
    fn read_data_func(fields: &Vec<PointField>) -> (r: Result<PointMapper, PointRainIOError>) {
        proof {
            lemma_names(fields.deep_view(), Self::layout());
        }
        let (x, y, z) = match find_xyz(fields) {
            Ok(t) => t,
            Err(e) => {
                return Err(PointRainIOError::MissingFieldError(e.0));
            },
        };
        let normal = match find_normal(fields) {
            Ok(t) => t,
            Err(e) => {
                return Err(PointRainIOError::MissingFieldError(e.0));
            },
        };
        let m = PointMapper { x, y, z, intensity: None, color: None, normal: Some(normal) };
        proof {
            lemma_mapper_of(m, fields.deep_view(), Self::layout());
        }
        Ok(m)
    }
}

impl PointReadable for PointIntensity {
    fn read_data_func(fields: &Vec<PointField>) -> (r: Result<PointMapper, PointRainIOError>) {
        proof {
            lemma_names(fields.deep_view(), Self::layout());
        }
        let (x, y, z) = match find_xyz(fields) {
            Ok(t) => t,
            Err(e) => {
                return Err(PointRainIOError::MissingFieldError(e.0));
            },
        };
        let intensity = match find_intensity(fields) {
            Ok(i) => i,
            Err(e) => {
                return Err(PointRainIOError::MissingFieldError(e.0));
            },
        };
        let m = PointMapper { x, y, z, intensity: Some(intensity), color: None, normal: None };
        proof {
            lemma_mapper_of(m, fields.deep_view(), Self::layout());
        }
        Ok(m)
    }
}

impl PointReadable for PointIntensityNormal {
    fn read_data_func(fields: &Vec<PointField>) -> (r: Result<PointMapper, PointRainIOError>) {
        proof {
            lemma_names(fields.deep_view(), Self::layout());
        }
        let (x, y, z) = match find_xyz(fields) {
            Ok(t) => t,
            Err(e) => {
                return Err(PointRainIOError::MissingFieldError(e.0));
            },
        };
        let intensity = match find_intensity(fields) {
            Ok(i) => i,
            Err(e) => {
                return Err(PointRainIOError::MissingFieldError(e.0));
            },
        };
        let normal = match find_normal(fields) {
            Ok(t) => t,
            Err(e) => {
                return Err(PointRainIOError::MissingFieldError(e.0));
            },
        };
        let m = PointMapper {
            x,
            y,
            z,
            intensity: Some(intensity),
            color: None,
            normal: Some(normal),
        };
        proof {
            lemma_mapper_of(m, fields.deep_view(), Self::layout());
        }
        Ok(m)
    }
}

impl PointReadable for PointRgb {
    fn read_data_func(fields: &Vec<PointField>) -> (r: Result<PointMapper, PointRainIOError>) {
        proof {
            lemma_names(fields.deep_view(), Self::layout());
        }
        let (x, y, z) = match find_xyz(fields) {
            Ok(t) => t,
            Err(e) => {
                return Err(PointRainIOError::MissingFieldError(e.0));
            },
        };
        let rgb = match find_rgb(fields) {
            Ok(i) => i,
            Err(e) => {
                return Err(PointRainIOError::MissingFieldError(e.0));
            },
        };
        let m = PointMapper {
            x,
            y,
            z,
            intensity: None,
            color: Some(ColorBinding::Packed(rgb)),
            normal: None,
        };
        proof {
            lemma_mapper_of(m, fields.deep_view(), Self::layout());
        }
        Ok(m)
    }
}

impl PointReadable for PointRgbNormal {
    fn read_data_func(fields: &Vec<PointField>) -> (r: Result<PointMapper, PointRainIOError>) {
        proof {
            lemma_names(fields.deep_view(), Self::layout());
        }
        let (x, y, z) = match find_xyz(fields) {
            Ok(t) => t,
            Err(e) => {
                return Err(PointRainIOError::MissingFieldError(e.0));
            },
        };
        let rgb = match find_rgb(fields) {
            Ok(i) => i,
            Err(e) => {
                return Err(PointRainIOError::MissingFieldError(e.0));
            },
        };
        let normal = match find_normal(fields) {
            Ok(t) => t,
            Err(e) => {
                return Err(PointRainIOError::MissingFieldError(e.0));
            },
        };
        let m = PointMapper {
            x,
            y,
            z,
            intensity: None,
            color: Some(ColorBinding::Packed(rgb)),
            normal: Some(normal),
        };
        proof {
            lemma_mapper_of(m, fields.deep_view(), Self::layout());
        }
        Ok(m)
    }
}

} // verus!
