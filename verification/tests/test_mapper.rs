use pointrain::io::field::{PointField, PointFieldDatum, PointFieldType};
use pointrain::io::mapper::{point_cloud, ColorBinding, PointMapper, PointRecord, Records};
use pointrain::io::pcd::header::PcdHeader;
use pointrain::io::pcd::point as pcd;
use pointrain::io::pcd::read::{pcd_read_ascii_datum, pcd_read_binary_datum};
use pointrain::io::pcd::{pcd_read_data, PcdDataFormat, PointReadable};
use pointrain::io::ply::point as ply;
use pointrain::io::ply::read::{ply_read_ascii_datum, ply_read_binary_datum};
use pointrain::io::ply::{ply_read_data, PlyDataFormat, PlyHeader};
use pointrain::io::row::{read_ascii_row, read_ascii_rows, read_binary_row};
use pointrain::io::PointRainIOError;
use pointrain::pc::{PointCloudBase, PointCloudRgbNormal};
use pointrain::point::{
    Point, PointIntensity, PointIntensityNormal, PointNormal, PointRgb, PointRgbNormal,
};
use pointrain::types::{Normal, Position, Rgb};

fn fields(names: &[&str]) -> Vec<PointField> {
    names
        .iter()
        .map(|n| PointField { name: n.to_string(), datatype: PointFieldType::F32, count: 1 })
        .collect()
}

fn name(r: Result<PointMapper, PointRainIOError>) -> &'static str {
    match r {
        Err(PointRainIOError::MissingFieldError(n)) => n,
        other => panic!("{:?}", other),
    }
}

#[test]
fn fields_are_found_by_name() {
    let all = fields(&["y", "x", "rgb", "x", "z", "curvature", "normal_z", "normal_y", "normal_x", "intensity"]);
    assert_eq!(pcd::find_field(&all, "x").unwrap(), 1);
    assert_eq!(pcd::find_field(&all, "rgb").unwrap(), 2);
    assert_eq!(pcd::find_field(&all, "X").unwrap_err().0, "X");
    assert_eq!(pcd::find_field(&vec![], "x").unwrap_err().0, "x");
    assert_eq!(pcd::find_xyz(&all).unwrap(), (1, 0, 4));
    assert_eq!(pcd::find_normal(&all).unwrap(), (8, 7, 6, 5));
    assert_eq!(pcd::find_intensity(&all).unwrap(), 9);
    assert_eq!(pcd::find_rgb(&all).unwrap(), 2);
    let some = fields(&["x", "z", "normal_x", "normal_y", "curvature"]);
    assert_eq!(pcd::find_xyz(&some).unwrap_err().0, "y");
    assert_eq!(pcd::find_normal(&some).unwrap_err().0, "normal_z");
    assert_eq!(pcd::find_intensity(&some).unwrap_err().0, "intensity");
    assert_eq!(pcd::find_rgb(&some).unwrap_err().0, "rgb");

    let all = fields(&["blue", "x", "y", "green", "z", "red", "nz", "curvature", "ny", "nx"]);
    assert_eq!(ply::find_field(&all, "green").unwrap(), 3);
    assert_eq!(ply::find_xyz(&all).unwrap(), (1, 2, 4));
    assert_eq!(ply::find_rgb(&all).unwrap(), (5, 3, 0));
    assert_eq!(ply::find_normal(&all).unwrap(), (9, 8, 6, 7));
    let some = fields(&["x", "y", "red", "nx", "ny", "nz"]);
    assert_eq!(ply::find_xyz(&some).unwrap_err().0, "z");
    assert_eq!(ply::find_rgb(&some).unwrap_err().0, "green");
    assert_eq!(ply::find_normal(&some).unwrap_err().0, "curvature");
}

#[test]
fn mappers_are_resolved_in_the_order_of_the_attributes() {
    let all = fields(&["x", "y", "z", "intensity", "rgb", "normal_x", "normal_y", "normal_z", "curvature"]);
    let m = <PointIntensityNormal as PointReadable>::read_data_func(&all).unwrap();
    assert_eq!((m.x, m.y, m.z), (0, 1, 2));
    assert_eq!(m.intensity, Some(3));
    assert_eq!(m.normal, Some((5, 6, 7, 8)));
    assert!(m.color.is_none());
    let m = <PointRgbNormal as PointReadable>::read_data_func(&all).unwrap();
    assert!(matches!(m.color, Some(ColorBinding::Packed(4))));
    assert_eq!(m.intensity, None);
    let m = <Point as PointReadable>::read_data_func(&all).unwrap();
    assert!(m.intensity.is_none() && m.color.is_none() && m.normal.is_none());
    let m = <PointIntensity as PointReadable>::read_data_func(&all).unwrap();
    assert_eq!((m.intensity, m.normal), (Some(3), None));
    let m = <PointNormal as PointReadable>::read_data_func(&all).unwrap();
    assert_eq!((m.intensity, m.normal), (None, Some((5, 6, 7, 8))));
    let m = <PointRgb as PointReadable>::read_data_func(&all).unwrap();
    assert!(matches!(m.color, Some(ColorBinding::Packed(4))) && m.normal.is_none());

    let bare = fields(&["x", "y", "z"]);
    assert_eq!(name(<PointIntensityNormal as PointReadable>::read_data_func(&bare)), "intensity");
    assert_eq!(name(<PointRgbNormal as PointReadable>::read_data_func(&bare)), "rgb");
    assert_eq!(name(<PointNormal as PointReadable>::read_data_func(&bare)), "normal_x");
    let flat = fields(&["x", "y", "intensity"]);
    assert_eq!(name(<PointIntensity as PointReadable>::read_data_func(&flat)), "z");
    let no_curvature = fields(&["x", "y", "z", "rgb", "normal_x", "normal_y", "normal_z"]);
    assert_eq!(name(<PointRgbNormal as PointReadable>::read_data_func(&no_curvature)), "curvature");
    assert_eq!(name(<PointRgb as PointReadable>::read_data_func(&vec![])), "x");

    let all = fields(&["x", "y", "z", "red", "green", "blue", "nx", "ny", "nz", "curvature"]);
    let m = <PointRgbNormal as ply::PointReadable>::read_data_func(&all).unwrap();
    assert!(matches!(m.color, Some(ColorBinding::Channels(3, 4, 5))));
    assert_eq!(m.normal, Some((6, 7, 8, 9)));
    let m = <PointRgb as ply::PointReadable>::read_data_func(&all).unwrap();
    assert!(matches!(m.color, Some(ColorBinding::Channels(3, 4, 5))) && m.normal.is_none());
    let m = <PointNormal as ply::PointReadable>::read_data_func(&all).unwrap();
    assert!(m.color.is_none() && m.normal == Some((6, 7, 8, 9)));
    let m = <Point as ply::PointReadable>::read_data_func(&all).unwrap();
    assert_eq!((m.x, m.y, m.z), (0, 1, 2));
    assert_eq!(name(<PointRgbNormal as ply::PointReadable>::read_data_func(&bare)), "red");
    assert_eq!(name(<PointNormal as ply::PointReadable>::read_data_func(&bare)), "nx");
}

fn mapper() -> PointMapper {
    PointMapper {
        x: 2,
        y: 1,
        z: 0,
        intensity: Some(3),
        color: Some(ColorBinding::Packed(4)),
        normal: Some((0, 1, 2, 5)),
    }
}

fn row() -> Vec<PointFieldDatum> {
    vec![
        PointFieldDatum::U8(1),
        PointFieldDatum::F32(20),
        PointFieldDatum::F64(3),
        PointFieldDatum::F32Text("4".to_string()),
        PointFieldDatum::F32(0x0403_0201),
        PointFieldDatum::I16(-6),
    ]
}

const IMAGES: [u32; 6] = [100, 200, 300, 400, 500, 600];

#[test]
fn mappers_read_rows() {
    let m = mapper();
    assert!(m.is_within(6));
    assert!(!m.is_within(5));
    assert!(m.check(&row()).is_ok());
    let images = IMAGES.to_vec();
    assert_eq!(m.position(&row(), &images), Position::new(300, 20, 100));
    assert_eq!(m.intensity(&row(), &images), 400);
    assert_eq!(m.normal(&row(), &images), Normal::new(100, 20, 300));
    assert_eq!(m.curvature(&row(), &images), 600);
    assert_eq!(m.color(&row(), &images), Rgb::new(1, 2, 3));
    assert_eq!(
        PointIntensityNormal::read_point(&m, &row(), &images),
        PointIntensityNormal {
            position: Position::new(300, 20, 100),
            intensity: 400,
            normal: Normal::new(100, 20, 300),
            curvature: 600
        }
    );
    assert_eq!(
        PointRgbNormal::read_point(&m, &row(), &images),
        PointRgbNormal {
            position: Position::new(300, 20, 100),
            color: Rgb::new(1, 2, 3),
            normal: Normal::new(100, 20, 300),
            curvature: 600
        }
    );
    assert_eq!(Point::read_point(&m, &row(), &images).position, Position::new(300, 20, 100));
    assert_eq!(PointIntensity::read_point(&m, &row(), &images).intensity, 400);
    assert_eq!(PointNormal::read_point(&m, &row(), &images).curvature, 600);
    assert_eq!(PointRgb::read_point(&m, &row(), &images).color, Rgb::new(1, 2, 3));

    let text = PointMapper { color: Some(ColorBinding::Packed(3)), ..m };
    assert_eq!(text.color(&row(), &vec![0, 0, 0, 0x0908_0706, 0, 0]), Rgb::new(6, 7, 8));
    let wrong = PointMapper { color: Some(ColorBinding::Packed(5)), ..m };
    match wrong.check(&row()).unwrap_err() {
        PointRainIOError::Error { msg } => assert_eq!(msg, "I16(-6) cannot be parsed as RGB"),
        other => panic!("{:?}", other),
    }
    let channels = PointMapper { color: Some(ColorBinding::Channels(0, 0, 0)), ..m };
    assert!(channels.check(&row()).is_ok());
    assert_eq!(channels.color(&row(), &images), Rgb::new(1, 1, 1));
    let channels = PointMapper { color: Some(ColorBinding::Channels(0, 5, 1)), ..m };
    match channels.check(&row()).unwrap_err() {
        PointRainIOError::Error { msg } => assert_eq!(msg, "I16(-6) cannot be parsed as u8"),
        other => panic!("{:?}", other),
    }
    let none = PointMapper { intensity: None, color: None, normal: None, ..m };
    assert!(none.is_within(3) && !none.is_within(2));
    assert_eq!(none.intensity(&row(), &images), 0);
    assert_eq!(none.curvature(&row(), &images), 0);
    assert_eq!(none.normal(&row(), &images), Normal::new(0, 0, 0));
    assert_eq!(none.color(&row(), &images), Rgb::new(0, 0, 0));
}

#[test]
fn records_fit_their_images() {
    let records = Records { mapper: mapper(), rows: vec![row(), row()] };
    assert!(records.fits(&vec![IMAGES.to_vec(), IMAGES.to_vec()]));
    assert!(!records.fits(&vec![IMAGES.to_vec()]));
    assert!(!records.fits(&vec![IMAGES.to_vec(), IMAGES[..5].to_vec()]));
    let short = Records { mapper: mapper(), rows: vec![row(), row()[..5].to_vec()] };
    assert!(!short.fits(&vec![IMAGES.to_vec(), IMAGES[..5].to_vec()]));
    let wrong = Records {
        mapper: PointMapper { color: Some(ColorBinding::Packed(0)), ..mapper() },
        rows: vec![row()],
    };
    assert!(!wrong.fits(&vec![IMAGES.to_vec()]));
    let empty = Records { mapper: mapper(), rows: vec![] };
    assert!(empty.fits(&vec![]));
    let pc: PointCloudRgbNormal = point_cloud(&records, &vec![IMAGES.to_vec(), vec![1, 2, 3, 4, 5, 6]]);
    assert_eq!(pc.len(), 2);
    assert_eq!(pc.positions(), &[Position::new(300, 20, 100), Position::new(3, 20, 1)]);
    let pc: PointCloudRgbNormal = point_cloud(&empty, &vec![]);
    assert!(pc.is_empty());
}

fn debug(row: &[PointFieldDatum]) -> String {
    format!("{:?}", row)
}

fn typed() -> Vec<PointField> {
    let mut f = fields(&["x", "y", "z"]);
    f[0].datatype = PointFieldType::I16;
    f[1].datatype = PointFieldType::F64;
    f[1].count = 2;
    f[2].datatype = PointFieldType::U8;
    f
}

#[test]
fn rows_are_read_from_text_and_bytes() {
    let f = typed();
    let row = read_ascii_row(&f, " -7 2.5\t9\r\n").unwrap();
    assert_eq!(
        debug(&row),
        debug(&[
            PointFieldDatum::I16(-7),
            PointFieldDatum::F64Text("2.5".to_string()),
            PointFieldDatum::U8(9)
        ])
    );
    assert!(matches!(read_ascii_row(&f, "-7 2.5 256").unwrap_err(), PointRainIOError::ParseIntError));
    assert!(matches!(read_ascii_row(&f, "-7 x 256").unwrap_err(), PointRainIOError::ParseFloatError));
    assert!(matches!(read_ascii_row(&f, "-7 2.5").unwrap_err(), PointRainIOError::Error { .. }));

    let mut bytes = Vec::new();
    bytes.extend_from_slice(&(-7i16).to_le_bytes());
    bytes.extend_from_slice(&2.5f64.to_le_bytes());
    bytes.extend_from_slice(&[9, 1, 2]);
    let mut chunk: &[u8] = &bytes;
    let row = read_binary_row(&f, &mut chunk, true);
    assert_eq!(
        debug(&row),
        debug(&[
            PointFieldDatum::I16(-7),
            PointFieldDatum::F64(2.5f64.to_bits()),
            PointFieldDatum::U8(9)
        ])
    );
    assert_eq!(chunk, &[1, 2]);
    let mut bytes = Vec::new();
    bytes.extend_from_slice(&(-7i16).to_be_bytes());
    bytes.extend_from_slice(&2.5f64.to_be_bytes());
    bytes.push(9);
    let mut chunk: &[u8] = &bytes;
    let row = read_binary_row(&f, &mut chunk, false);
    assert_eq!(
        debug(&row),
        debug(&[
            PointFieldDatum::I16(-7),
            PointFieldDatum::F64(2.5f64.to_bits()),
            PointFieldDatum::U8(9)
        ])
    );
    assert!(chunk.is_empty());

    let m = PointMapper { x: 0, y: 1, z: 2, intensity: None, color: None, normal: None };
    let rows = read_ascii_rows(&f, &m, b"1 2 3\n4 5 6\n7 8 9\n", None).unwrap();
    assert_eq!(rows.len(), 3);
    let rows = read_ascii_rows(&f, &m, b"1 2 3\n4 5 6\n7 8 9\n", Some(2)).unwrap();
    assert_eq!(rows.len(), 2);
    let rows = read_ascii_rows(&f, &m, b"1 2 3\n4 5 6\nseven\n", Some(2)).unwrap();
    assert_eq!(debug(&rows[1][..1]), debug(&[PointFieldDatum::I16(4)]));
    assert!(read_ascii_rows(&f, &m, b"1 2 3\n4 5 6\nseven\n", Some(3)).is_err());
    assert!(read_ascii_rows(&f, &m, b"1 2 3\n4 5 6\nseven\n", Some(0)).unwrap().is_empty());
    assert!(read_ascii_rows(&f, &m, b"", None).unwrap().is_empty());
}

#[test]
fn headers_lead_to_their_rows() {
    let header = PcdHeader {
        format: PcdDataFormat::Binary,
        fields: typed(),
        width: 2,
        height: 1,
        viewpoint: vec![],
    };
    let mut bytes = Vec::new();
    for x in [-7i16, 8] {
        bytes.extend_from_slice(&x.to_le_bytes());
        bytes.extend_from_slice(&2.5f64.to_le_bytes());
        bytes.extend_from_slice(&[0; 8]);
        bytes.push(9);
    }
    let records = pcd_read_data::<pointrain::pc::PointCloud>(&header, &bytes).unwrap();
    assert_eq!(records.rows.len(), 2);
    assert_eq!(
        debug(&records.rows[1]),
        debug(&[
            PointFieldDatum::I16(8),
            PointFieldDatum::F64(2.5f64.to_bits()),
            PointFieldDatum::U8(0)
        ])
    );
    let mut chunk: &[u8] = &bytes;
    let row = pcd_read_binary_datum(&header, &mut chunk);
    assert_eq!(debug(&row[..1]), debug(&[PointFieldDatum::I16(-7)]));
    assert_eq!(chunk.len(), bytes.len() - 11);
    let row = pcd_read_ascii_datum(&header, "1 2 3").unwrap();
    assert_eq!(debug(&row[2..]), debug(&[PointFieldDatum::U8(3)]));
    assert!(pcd_read_ascii_datum(&header, "1 2 3 4").is_err());
    let err = pcd_read_data::<pointrain::pc::PointCloudNormal>(&header, &bytes).unwrap_err();
    assert!(matches!(err, PointRainIOError::MissingFieldError("normal_x")));

    let mut header = PlyHeader { format: PlyDataFormat::BinaryBE, vertices_size: 1, vertices: typed() };
    header.vertices[1].count = 1;
    let mut bytes = Vec::new();
    bytes.extend_from_slice(&(-7i16).to_be_bytes());
    bytes.extend_from_slice(&2.5f64.to_be_bytes());
    bytes.push(9);
    let records = ply_read_data::<pointrain::pc::PointCloud>(&header, &bytes).unwrap();
    assert_eq!(
        debug(&records.rows[0]),
        debug(&[
            PointFieldDatum::I16(-7),
            PointFieldDatum::F64(2.5f64.to_bits()),
            PointFieldDatum::U8(9)
        ])
    );
    let mut chunk: &[u8] = &bytes;
    let row = ply_read_binary_datum(&header, &mut chunk);
    assert_eq!(debug(&row[2..]), debug(&[PointFieldDatum::U8(9)]));
    assert!(chunk.is_empty());
    header.format = PlyDataFormat::BinaryLE;
    let mut chunk: &[u8] = &bytes;
    let row = ply_read_binary_datum(&header, &mut chunk);
    assert_eq!(debug(&row[..1]), debug(&[PointFieldDatum::I16(-1537)]));
    let row = ply_read_ascii_datum(&header, "1 2 3").unwrap();
    assert_eq!(debug(&row[..1]), debug(&[PointFieldDatum::I16(1)]));
    assert!(ply_read_ascii_datum(&header, "1 2").is_err());
}

#[test]
fn formats_are_named_by_word() {
    assert_eq!(PcdDataFormat::try_from("ascii"), Ok(PcdDataFormat::Ascii));
    assert_eq!(PcdDataFormat::try_from("binary"), Ok(PcdDataFormat::Binary));
    assert_eq!(PcdDataFormat::try_from("binary_compressed"), Ok(PcdDataFormat::BinaryCompressed));
    assert_eq!(PcdDataFormat::try_from("Ascii"), Err("Unknown data format: Ascii".to_string()));
    assert_eq!(PcdDataFormat::default(), PcdDataFormat::Ascii);
    assert_eq!(PlyDataFormat::try_from("ascii"), Ok(PlyDataFormat::Ascii));
    assert_eq!(PlyDataFormat::try_from("binary_little_endian"), Ok(PlyDataFormat::BinaryLE));
    assert_eq!(PlyDataFormat::try_from("binary_big_endian"), Ok(PlyDataFormat::BinaryBE));
    assert_eq!(PlyDataFormat::try_from("binary"), Err("Unknown data format: binary".to_string()));
    assert_eq!(PlyDataFormat::default(), PlyDataFormat::Ascii);
    let header = PcdHeader::default();
    assert_eq!((header.width, header.height, header.fields.len()), (0, 0, 0));
    assert!(header.viewpoint.is_empty());
    let header = PlyHeader::default();
    assert_eq!((header.vertices_size, header.vertices.len()), (0, 0));
    assert_eq!(header.format, PlyDataFormat::Ascii);
}
