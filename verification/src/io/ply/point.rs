//! Which properties of a vertex hold the attributes of a record.

use crate::io::error::{IOErrorView, MissingField, PointRainIOError};
use crate::io::field::{same_text, PointField, PointFieldView};
use crate::io::mapper::{
    first_missing, has_field, is_first, lemma_first_missing_add, lemma_first_unique,
    ColorBinding, Layout, PointMapper, PointRecord,
};
use crate::point::{Point, PointNormal, PointRgb, PointRgbNormal};
use vstd::prelude::*;

verus! {

/// The names of the coordinates.
pub open spec fn xyz_names() -> Seq<Seq<char>> {
    seq!["x"@, "y"@, "z"@]
}

/// The names of the three channels of the color.
pub open spec fn rgb_names() -> Seq<Seq<char>> {
    seq!["red"@, "green"@, "blue"@]
}

/// The names of the components of the normal, and of the curvature.
pub open spec fn normal_names() -> Seq<Seq<char>> {
    seq!["nx"@, "ny"@, "nz"@, "curvature"@]
}

/// The names that a layout needs, in the order in which they are looked up.
/// The format has no name for an intensity.
pub open spec fn names_of(layout: Layout) -> Seq<Seq<char>> {
    xyz_names() + (if layout.color {
        rgb_names()
    } else {
        seq![]
    }) + (if layout.normal {
        normal_names()
    } else {
        seq![]
    })
}

/// Whether the mapper binds each attribute of the layout, and no other, to
/// the first property of its name.
pub open spec fn binds(m: PointMapper, fields: Seq<PointFieldView>, layout: Layout) -> bool {
    &&& is_first(fields, "x"@, m.x as int)
    &&& is_first(fields, "y"@, m.y as int)
    &&& is_first(fields, "z"@, m.z as int)
    &&& m.intensity is None
    &&& if layout.color {
        m.color matches Some(ColorBinding::Channels(r, g, b)) && is_first(
            fields,
            "red"@,
            r as int,
        ) && is_first(fields, "green"@, g as int) && is_first(fields, "blue"@, b as int)
    } else {
        m.color is None
    }
    &&& if layout.normal {
        m.normal matches Some(t) && is_first(fields, "nx"@, t.0 as int) && is_first(
            fields,
            "ny"@,
            t.1 as int,
        ) && is_first(fields, "nz"@, t.2 as int) && is_first(fields, "curvature"@, t.3 as int)
    } else {
        m.normal is None
    }
}

/// The mapper that binds a layout to the properties, where each of its
/// names is there.
pub open spec fn mapper_of(fields: Seq<PointFieldView>, layout: Layout) -> PointMapper {
    choose|m: PointMapper| binds(m, fields, layout)
}

/// There is one mapper only that binds a layout to the properties.
pub proof fn lemma_mapper_of(m: PointMapper, fields: Seq<PointFieldView>, layout: Layout)
    requires
        binds(m, fields, layout),
    ensures
        mapper_of(fields, layout) == m,
{
    let c = mapper_of(fields, layout);
    assert(binds(c, fields, layout));
    lemma_first_unique(fields, "x"@, c.x as int, m.x as int);
    lemma_first_unique(fields, "y"@, c.y as int, m.y as int);
    lemma_first_unique(fields, "z"@, c.z as int, m.z as int);
    if layout.color {
        let s = c.color->Some_0;
        let t = m.color->Some_0;
        lemma_first_unique(fields, "red"@, s->Channels_0 as int, t->Channels_0 as int);
        lemma_first_unique(fields, "green"@, s->Channels_1 as int, t->Channels_1 as int);
        lemma_first_unique(fields, "blue"@, s->Channels_2 as int, t->Channels_2 as int);
    }
    if layout.normal {
        let s = c.normal->Some_0;
        let t = m.normal->Some_0;
        lemma_first_unique(fields, "nx"@, s.0 as int, t.0 as int);
        lemma_first_unique(fields, "ny"@, s.1 as int, t.1 as int);
        lemma_first_unique(fields, "nz"@, s.2 as int, t.2 as int);
        lemma_first_unique(fields, "curvature"@, s.3 as int, t.3 as int);
    }
}

/// Whether `r` is what resolving a layout against the properties gives: the
/// mapper that binds the layout, or the first name that no property has.
pub open spec fn resolved(
    r: Result<PointMapper, PointRainIOError>,
    fields: Seq<PointFieldView>,
    layout: Layout,
) -> bool {
    match r {
        Ok(m) => first_missing(fields, names_of(layout)) is None && binds(m, fields, layout)
            && m.within(fields.len()) && m == mapper_of(fields, layout),
        Err(e) => first_missing(fields, names_of(layout)) matches Some(name) && e@
            == IOErrorView::MissingFieldError(name),
    }
}

/// The index of the first property of a name.
pub fn find_field(fields: &Vec<PointField>, name: &'static str) -> (r: Result<usize, MissingField>)
    ensures
        r matches Ok(i) ==> is_first(fields.deep_view(), name@, i as int),
        r matches Err(e) ==> !has_field(fields.deep_view(), name@) && e.0@ == name@,
{
    let mut i: usize = 0;
    while i < fields.len()
        invariant
            i <= fields@.len(),
            forall|j: int| 0 <= j < i ==> (#[trigger] fields.deep_view()[j]).name != name@,
        decreases fields@.len() - i,
    {
        if same_text(fields[i].name.as_str(), name) {
            return Ok(i);
        }
        i += 1;
    }
    Err(MissingField(name))
}

/// The indices of the properties of the three coordinates, or the first of
/// their names that no property has.
pub fn find_xyz(fields: &Vec<PointField>) -> (r: Result<(usize, usize, usize), MissingField>)
    ensures
        r matches Ok(t) ==> first_missing(fields.deep_view(), xyz_names()) is None && is_first(
            fields.deep_view(),
            "x"@,
            t.0 as int,
        ) && is_first(fields.deep_view(), "y"@, t.1 as int) && is_first(
            fields.deep_view(),
            "z"@,
            t.2 as int,
        ),
        r matches Err(e) ==> first_missing(fields.deep_view(), xyz_names()) == Some(e.0@),
{
    proof {
        reveal_with_fuel(first_missing, 4);
    }
    let x = match find_field(fields, "x") {
        Ok(i) => i,
        Err(e) => {
            return Err(e);
        },
    };
    let y = match find_field(fields, "y") {
        Ok(i) => i,
        Err(e) => {
            return Err(e);
        },
    };
    let z = match find_field(fields, "z") {
        Ok(i) => i,
        Err(e) => {
            return Err(e);
        },
    };
    Ok((x, y, z))
}

/// The indices of the properties of the normal and the curvature, or the
/// first of their names that no property has.
pub fn find_normal(fields: &Vec<PointField>) -> (r: Result<
    (usize, usize, usize, usize),
    MissingField,
>)
    ensures
        r matches Ok(t) ==> first_missing(fields.deep_view(), normal_names()) is None && is_first(
            fields.deep_view(),
            "nx"@,
            t.0 as int,
        ) && is_first(fields.deep_view(), "ny"@, t.1 as int) && is_first(
            fields.deep_view(),
            "nz"@,
            t.2 as int,
        ) && is_first(fields.deep_view(), "curvature"@, t.3 as int),
        r matches Err(e) ==> first_missing(fields.deep_view(), normal_names()) == Some(e.0@),
{
    proof {
        reveal_with_fuel(first_missing, 5);
    }
    let x = match find_field(fields, "nx") {
        Ok(i) => i,
        Err(e) => {
            return Err(e);
        },
    };
    let y = match find_field(fields, "ny") {
        Ok(i) => i,
        Err(e) => {
            return Err(e);
        },
    };
    let z = match find_field(fields, "nz") {
        Ok(i) => i,
        Err(e) => {
            return Err(e);
        },
    };
    let curvature = match find_field(fields, "curvature") {
        Ok(i) => i,
        Err(e) => {
            return Err(e);
        },
    };
    Ok((x, y, z, curvature))
}

/// The indices of the properties of the three channels, or the first of
/// their names that no property has.
pub fn find_rgb(fields: &Vec<PointField>) -> (r: Result<(usize, usize, usize), MissingField>)
    ensures
        r matches Ok(t) ==> first_missing(fields.deep_view(), rgb_names()) is None && is_first(
            fields.deep_view(),
            "red"@,
            t.0 as int,
        ) && is_first(fields.deep_view(), "green"@, t.1 as int) && is_first(
            fields.deep_view(),
            "blue"@,
            t.2 as int,
        ),
        r matches Err(e) ==> first_missing(fields.deep_view(), rgb_names()) == Some(e.0@),
{
    proof {
        reveal_with_fuel(first_missing, 4);
    }
    let r = match find_field(fields, "red") {
        Ok(i) => i,
        Err(e) => {
            return Err(e);
        },
    };
    let g = match find_field(fields, "green") {
        Ok(i) => i,
        Err(e) => {
            return Err(e);
        },
    };
    let b = match find_field(fields, "blue") {
        Ok(i) => i,
        Err(e) => {
            return Err(e);
        },
    };
    Ok((r, g, b))
}

/// What the names of a layout come to, part by part.
proof fn lemma_names(fields: Seq<PointFieldView>, layout: Layout)
    ensures
        first_missing(fields, names_of(layout)) == if first_missing(fields, xyz_names()) is Some {
            first_missing(fields, xyz_names())
        } else if layout.color && first_missing(fields, rgb_names()) is Some {
            first_missing(fields, rgb_names())
        } else if layout.normal {
            first_missing(fields, normal_names())
        } else {
            None
        },
{
    let a = xyz_names();
    let b: Seq<Seq<char>> = if layout.color {
        rgb_names()
    } else {
        seq![]
    };
    let c: Seq<Seq<char>> = if layout.normal {
        normal_names()
    } else {
        seq![]
    };
    reveal_with_fuel(first_missing, 2);
    lemma_first_missing_add(fields, a + b, c);
    lemma_first_missing_add(fields, a, b);
}

/// A point record that can be read from the vertices of a vertex-list
/// file.
pub trait PointReadable: PointRecord {
    /// Resolves the properties that hold the attributes of the record.
    /// Where a name is missing, the first such name is reported.
    fn read_data_func(fields: &Vec<PointField>) -> (r: Result<PointMapper, PointRainIOError>)
        ensures
            resolved(r, fields.deep_view(), Self::layout()),
    ;
}

impl PointReadable for Point {
    fn read_data_func(fields: &Vec<PointField>) -> (r: Result<PointMapper, PointRainIOError>) {
        proof {
            lemma_names(fields.deep_view(), Self::layout());
        }
        let (x, y, z) = match find_xyz(fields) {
            Ok(t) => t,
            Err(e) => {
                return Err(PointRainIOError::MissingFieldError(e.0));
            },
        };
        let m = PointMapper { x, y, z, intensity: None, color: None, normal: None };
        proof {
            lemma_mapper_of(m, fields.deep_view(), Self::layout());
        }
        Ok(m)
    }
}

impl PointReadable for PointNormal {
    fn read_data_func(fields: &Vec<PointField>) -> (r: Result<PointMapper, PointRainIOError>) {
        proof {
            lemma_names(fields.deep_view(), Self::layout());
        }
        let (x, y, z) = match find_xyz(fields) {
            Ok(t) => t,
            Err(e) => {
                return Err(PointRainIOError::MissingFieldError(e.0));
            },
        };
        let normal = match find_normal(fields) {
            Ok(t) => t,
            Err(e) => {
                return Err(PointRainIOError::MissingFieldError(e.0));
            },
        };
        let m = PointMapper { x, y, z, intensity: None, color: None, normal: Some(normal) };
        proof {
            lemma_mapper_of(m, fields.deep_view(), Self::layout());
        }
        Ok(m)
    }
}

impl PointReadable for PointRgb {
    fn read_data_func(fields: &Vec<PointField>) -> (r: Result<PointMapper, PointRainIOError>) {
        proof {
            lemma_names(fields.deep_view(), Self::layout());
        }
        let (x, y, z) = match find_xyz(fields) {
            Ok(t) => t,
            Err(e) => {
                return Err(PointRainIOError::MissingFieldError(e.0));
            },
        };
        let (r, g, b) = match find_rgb(fields) {
            Ok(t) => t,
            Err(e) => {
                return Err(PointRainIOError::MissingFieldError(e.0));
            },
        };
        let m = PointMapper {
            x,
            y,
            z,
            intensity: None,
            color: Some(ColorBinding::Channels(r, g, b)),
            normal: None,
        };
        proof {
            lemma_mapper_of(m, fields.deep_view(), Self::layout());
        }
        Ok(m)
    }
}

impl PointReadable for PointRgbNormal {
    fn read_data_func(fields: &Vec<PointField>) -> (r: Result<PointMapper, PointRainIOError>) {
        proof {
            lemma_names(fields.deep_view(), Self::layout());
        }
        let (x, y, z) = match find_xyz(fields) {
            Ok(t) => t,
            Err(e) => {
                return Err(PointRainIOError::MissingFieldError(e.0));
            },
        };
        let (r, g, b) = match find_rgb(fields) {
            Ok(t) => t,
            Err(e) => {
                return Err(PointRainIOError::MissingFieldError(e.0));
            },
        };
        let normal = match find_normal(fields) {
            Ok(t) => t,
            Err(e) => {
                return Err(PointRainIOError::MissingFieldError(e.0));
            },
        };
        let m = PointMapper {
            x,
            y,
            z,
            intensity: None,
            color: Some(ColorBinding::Channels(r, g, b)),
            normal: Some(normal),
        };
        proof {
            lemma_mapper_of(m, fields.deep_view(), Self::layout());
        }
        Ok(m)
    }
}

} // verus!
