use pointrain::io::field::PointFieldDatum;
use pointrain::io::pcd::{pcd_read, pcd_read_header, PcdDataFormat};
use pointrain::io::{point_cloud, PointRainIOError, Records};
use pointrain::pc::{
    PointCloud, PointCloudBase, PointCloudIntensity, PointCloudNormal, PointCloudRgb,
    PointCloudWithColor, PointCloudWithNormal,
};
use pointrain::types::{Normal, Position, Rgb};

const HEADER: &str = "# .PCD v0.7 - Point Cloud Data file format\n\
VERSION 0.7\n\
FIELDS x y z normal_x normal_y normal_z curvature\n\
SIZE 4 4 4 4 4 4 4\n\
TYPE F F F F F F F\n\
COUNT 1 1 1 1 1 1 1\n\
WIDTH 3\n\
HEIGHT 1\n\
VIEWPOINT 0 0 0 1 0 0 0\n\
POINTS 3\n";

fn ascii_file() -> Vec<u8> {
    let mut data = HEADER.as_bytes().to_vec();
    data.extend_from_slice(b"DATA ascii\n");
    data.extend_from_slice(b"1 2 3 4 5 6 7\n8 9 10 11 12 13 14\n15 16 17 18 19 20 21\n");
    data
}

fn binary_file() -> Vec<u8> {
    let mut data = HEADER.as_bytes().to_vec();
    data.extend_from_slice(b"DATA binary\n");
    for i in 1..=21 {
        data.extend_from_slice(&(i as f32).to_le_bytes());
    }
    data
}

fn image(d: &PointFieldDatum) -> u32 {
    let value: f32 = match d {
        PointFieldDatum::U8(v) => (*v).into(),
        PointFieldDatum::U16(v) => (*v).into(),
        PointFieldDatum::U32(v) => f64::from(*v) as f32,
        PointFieldDatum::I8(v) => (*v).into(),
        PointFieldDatum::I16(v) => (*v).into(),
        PointFieldDatum::I32(v) => f64::from(*v) as f32,
        PointFieldDatum::F32(v) => f32::from_bits(*v),
        PointFieldDatum::F64(v) => f64::from_bits(*v) as f32,
        PointFieldDatum::F32Text(s) => s.parse::<f32>().unwrap(),
        PointFieldDatum::F64Text(s) => s.parse::<f64>().unwrap() as f32,
    };
    value.to_bits()
}

fn images(records: &Records) -> Vec<Vec<u32>> {
    records.rows.iter().map(|row| row.iter().map(image).collect()).collect()
}

fn read<PC>(data: &[u8]) -> Result<PC, PointRainIOError>
where
    PC: PointCloudBase,
    PC::Point: pointrain::io::pcd::PointReadable,
{
    let (_, records) = pcd_read::<PC>(data)?;
    Ok(point_cloud::<PC>(&records, &images(&records)))
}

fn position(x: f32, y: f32, z: f32) -> Position {
    Position::new(x.to_bits(), y.to_bits(), z.to_bits())
}

fn message(err: PointRainIOError) -> String {
    match err {
        PointRainIOError::Error { msg } => msg,
        other => panic!("no validation error: {:?}", other),
    }
}

#[test]
fn test_pcd_read_ascii() {
    let pc: PointCloudNormal = read(&ascii_file()).unwrap();

    assert_eq!(pc.len(), 3);
    assert_eq!(pc.positions()[0], position(1., 2., 3.));
    assert_eq!(pc.normals()[0], Normal::new(4f32.to_bits(), 5f32.to_bits(), 6f32.to_bits()));
    assert_eq!(pc.curvatures()[0], 7f32.to_bits());
}

#[test]
fn test_pcd_read_ascii_missing_field() {
    let err = pcd_read::<PointCloudIntensity>(&ascii_file()).unwrap_err();

    assert!(matches!(
        err,
        PointRainIOError::MissingFieldError("intensity")
    ));
}

#[test]
fn test_pcd_read_binary() {
    let pc: PointCloudNormal = read(&binary_file()).unwrap();

    assert_eq!(pc.len(), 3);
    assert_eq!(pc.positions()[0], position(1., 2., 3.));
    assert_eq!(pc.normals()[0], Normal::new(4f32.to_bits(), 5f32.to_bits(), 6f32.to_bits()));
    assert_eq!(pc.curvatures()[0], 7f32.to_bits());
}

#[test]
fn pcd_ascii_and_binary_give_one_cloud() {
    let a: PointCloudNormal = read(&ascii_file()).unwrap();
    let b: PointCloudNormal = read(&binary_file()).unwrap();

    assert_eq!(a.len(), b.len());
    assert_eq!(a.positions(), b.positions());
    assert_eq!(a.normals(), b.normals());
    assert_eq!(a.curvatures(), b.curvatures());
    assert_eq!(a.positions()[2], position(15., 16., 17.));
    assert_eq!(b.curvatures()[1], 14f32.to_bits());
}

#[test]
fn pcd_ascii_and_binary_are_read_together_or_not_at_all() {
    let header = "FIELDS x y z rgb\nSIZE 2 4 8 4\nTYPE I F F F\nWIDTH 2\nHEIGHT 1\n";
    let rows = [(-3i16, 1.5f32, 2.25f64, 7.5f32), (300, -0.5, 1e10, 0.)];
    let mut text = format!("{}DATA ascii\n", header).into_bytes();
    let mut bytes = format!("{}DATA binary\n", header).into_bytes();
    for (x, y, z, c) in rows {
        text.extend_from_slice(format!("{} {} {} {}\n", x, y, z, c).as_bytes());
        bytes.extend_from_slice(&x.to_le_bytes());
        bytes.extend_from_slice(&y.to_le_bytes());
        bytes.extend_from_slice(&z.to_le_bytes());
        bytes.extend_from_slice(&c.to_le_bytes());
    }
    let a: PointCloudRgb = read(&text).unwrap();
    let b: PointCloudRgb = read(&bytes).unwrap();
    assert_eq!(a.len(), 2);
    assert_eq!(a.positions(), b.positions());
    assert_eq!(a.colors(), b.colors());
    assert_eq!(a.positions()[1], position(300., -0.5, 1e10));
    assert!(read::<PointCloudNormal>(&text).is_err());
    assert!(read::<PointCloudNormal>(&bytes).is_err());
    let swap = |data: &[u8], from: &str, to: &str| {
        String::from_utf8_lossy(data).replacen(from, to, 1).into_bytes()
    };
    let mut typed_text = format!("{}DATA ascii\n", header.replace("TYPE I F F F", "TYPE I F F U"));
    typed_text.push_str("-3 1.5 2.25 7\n300 -0.5 1e10 0\n");
    let mut typed_bytes =
        format!("{}DATA binary\n", header.replace("TYPE I F F F", "TYPE I F F U")).into_bytes();
    for (x, y, z, c) in [(-3i16, 1.5f32, 2.25f64, 7u32), (300, -0.5, 1e10, 0)] {
        typed_bytes.extend_from_slice(&x.to_le_bytes());
        typed_bytes.extend_from_slice(&y.to_le_bytes());
        typed_bytes.extend_from_slice(&z.to_le_bytes());
        typed_bytes.extend_from_slice(&c.to_le_bytes());
    }
    assert!(matches!(
        read::<PointCloudRgb>(typed_text.as_bytes()).unwrap_err(),
        PointRainIOError::Error { .. }
    ));
    assert!(matches!(
        read::<PointCloudRgb>(&typed_bytes).unwrap_err(),
        PointRainIOError::Error { .. }
    ));
    let a: PointCloud = read(typed_text.as_bytes()).unwrap();
    let b: PointCloud = read(&typed_bytes).unwrap();
    assert_eq!(a.positions(), b.positions());
    let wide_text = swap(&text, "WIDTH 2", "WIDTH 3");
    let wide_bytes = swap(&bytes[..header.len()], "WIDTH 2", "WIDTH 3");
    let wide_bytes = [wide_bytes, bytes[header.len()..].to_vec()].concat();
    assert_eq!(
        message(read::<PointCloudRgb>(&wide_text).unwrap_err()),
        message(read::<PointCloudRgb>(&wide_bytes).unwrap_err())
    );
}

#[test]
fn pcd_missing_field_comes_before_any_row() {
    let mut data = HEADER.as_bytes().to_vec();
    data.extend_from_slice(b"DATA ascii\nnot a row at all\n");
    let err = pcd_read::<PointCloudIntensity>(&data).unwrap_err();
    assert!(matches!(err, PointRainIOError::MissingFieldError("intensity")));
    let err = pcd_read::<PointCloudNormal>(&data).unwrap_err();
    assert_eq!(message(err), "Invalid number of tokens: expected 7, got 5");
}

#[test]
fn pcd_header_is_read() {
    let data = ascii_file();
    let (header, start) = pcd_read_header(&data).unwrap();
    assert_eq!(header.format, PcdDataFormat::Ascii);
    assert_eq!(header.width, 3);
    assert_eq!(header.height, 1);
    assert_eq!(header.fields.len(), 7);
    assert_eq!(header.fields[3].name, "normal_x");
    assert_eq!(header.fields[6].count, 1);
    assert_eq!(header.viewpoint, vec!["0", "0", "0", "1", "0", "0", "0"]);
    assert_eq!(&data[start..start + 13], b"1 2 3 4 5 6 7");
}

#[test]
fn pcd_row_count_must_match_dimensions() {
    let text = String::from_utf8(ascii_file()).unwrap();
    let more = text.replace("WIDTH 3", "WIDTH 4").replace("POINTS 3", "POINTS 4");
    let err = read::<PointCloudNormal>(more.as_bytes()).unwrap_err();
    assert_eq!(
        message(err),
        "The number of points (3) does not match the number of points specified in the header (4 x 1 = 4)"
    );
    let fewer = text.replace("WIDTH 3", "WIDTH 1").replace("POINTS 3\n", "HEIGHT 2\n");
    let err = read::<PointCloudNormal>(fewer.as_bytes()).unwrap_err();
    assert_eq!(
        message(err),
        "The number of points (3) does not match the number of points specified in the header (1 x 2 = 2)"
    );
    let grid = text.replace("WIDTH 3", "WIDTH 1").replace("HEIGHT 1", "HEIGHT 3");
    let pc: PointCloud = read(grid.as_bytes()).unwrap();
    assert_eq!(pc.len(), 3);
}

#[test]
fn pcd_dimensions_may_be_beyond_any_count() {
    let text = format!("FIELDS x y z\nWIDTH {}\nHEIGHT 3\nDATA ascii\n1 2 3\n", usize::MAX);
    let err = read::<PointCloud>(text.as_bytes()).unwrap_err();
    assert_eq!(
        message(err),
        format!(
            "The number of points (1) does not match the number of points specified in the header ({} x 3 = {})",
            usize::MAX,
            usize::MAX as u128 * 3
        )
    );
}

#[test]
fn pcd_points_must_match_dimensions() {
    let text = String::from_utf8(ascii_file()).unwrap();
    let err = read::<PointCloud>(text.replace("POINTS 3", "POINTS 5").as_bytes()).unwrap_err();
    assert_eq!(message(err), "[POINTS] HEIGHT (1) x WIDTH (3) != number of points (5)");
}

#[test]
fn pcd_points_alone_sets_the_dimensions() {
    let data = b"FIELDS x y z\nPOINTS 2\nDATA ascii\n1 2 3\n4 5 6\n";
    let (header, _) = pcd_read_header(data).unwrap();
    assert_eq!((header.width, header.height), (2, 1));
    let pc: PointCloud = read(data).unwrap();
    assert_eq!(pc.len(), 2);
    assert_eq!(pc.positions()[1], position(4., 5., 6.));
}

#[test]
fn pcd_binary_leftover_bytes_are_rejected() {
    let mut data = binary_file();
    data.push(0);
    let err = read::<PointCloudNormal>(&data).unwrap_err();
    assert_eq!(message(err), "extra data remains");
}

#[test]
fn pcd_compressed_body_is_unsupported() {
    let mut data = HEADER.as_bytes().to_vec();
    data.extend_from_slice(b"DATA binary_compressed\n");
    let err = read::<PointCloudNormal>(&data).unwrap_err();
    assert!(matches!(err, PointRainIOError::UnsupportedError(_)));
    let err = read::<PointCloudIntensity>(&data).unwrap_err();
    assert!(matches!(err, PointRainIOError::MissingFieldError("intensity")));
}

#[test]
fn pcd_header_errors() {
    let cases: Vec<(&[u8], &str)> = vec![
        (b"SIZE 4 4 4\n", "[SIZE] SIZE of FIELDS specified before FIELDS in header!"),
        (
            b"FIELDS x y z\nSIZE 4 4\n",
            "[SIZE] The number of elements in <SIZE> differs than the number of elements in <FIELDS>!",
        ),
        (b"FIELDS x y z\nTYPE F F F\n", "[TYPE] TYPE of FIELDS specified before SIZE in header!"),
        (
            b"FIELDS x y z\nSIZE 4 4 4\nTYPE F F\n",
            "[TYPE] The number of elements in <TYPE> differs than the number of elements in <FIELDS>!",
        ),
        (
            b"FIELDS x y z\nSIZE 4 4 3\nTYPE F F F\n",
            "Invalid pair of type and size: F (type) 3 (size)",
        ),
        (b"FIELDS x y z\nSIZE 4 4 4\nTYPE F  F\n", "[TYPE] Empty element in <TYPE>!"),
        (b"COUNT 1\n", "[COUNT] COUNT of FIELDS specified before FIELDS in header!"),
        (
            b"FIELDS x y z\nCOUNT 1 1\n",
            "[COUNT] The number of elements in <COUNT> differs than the number of elements in <FIELDS>!",
        ),
        (b"FIELDS x y z\nCOUNT 1 0 1\n", "[COUNT] Invalid COUNT value specified."),
        (b"WIDTH\n", "[WIDTH] Not enough number of elements!"),
        (b"HEIGHT\n", "[HEIGHT] Not enough number of elements!"),
        (b"POINTS\n", "[POINTS] Not enough number of elements!"),
        (b"WIDTH 1\nDATA\n", "[DATA] Not enough number of elements!"),
        (
            b"VIEWPOINT 0 0 0 1 0 0\n",
            "[VIEWPOINT] Not enough number of elements in <VIEWPOINT>! Need 7 values (tx ty tz qw qx qy qz).",
        ),
        (b"WIDTH 1\nDATA text\n", "Unknown data format: text"),
        (b"WIDTH 2\nSHAPE 3\n", "Unknown token: SHAPE"),
        (b"WIDTH 2\n\nHEIGHT 1\n", "Unknown token: "),
        (b"FIELDS x y z\nHEIGHT 2\nDATA ascii\n", "WIDTH is not given!"),
        (b"", "WIDTH is not given!"),
    ];
    for (data, expected) in cases {
        let err = pcd_read_header(data).unwrap_err();
        assert_eq!(message(err), expected);
    }
}

#[test]
fn pcd_header_number_errors() {
    assert!(matches!(
        pcd_read_header(b"WIDTH three\n").unwrap_err(),
        PointRainIOError::ParseIntError
    ));
    assert!(matches!(
        pcd_read_header(b"WIDTH -3\n").unwrap_err(),
        PointRainIOError::ParseIntError
    ));
    assert!(matches!(
        pcd_read_header(b"FIELDS x\nSIZE 256\n").unwrap_err(),
        PointRainIOError::ParseIntError
    ));
    assert!(matches!(
        pcd_read_header(b"VIEWPOINT 0 0 0 1 0 0 zero\n").unwrap_err(),
        PointRainIOError::ParseFloatError
    ));
    assert!(matches!(
        pcd_read_header(b"WIDTH 1\n\xff\xfe\n").unwrap_err(),
        PointRainIOError::FileIOError
    ));
}

#[test]
fn pcd_header_defaults() {
    let (header, start) = pcd_read_header(b"# only a width\r\nWIDTH\t7\r\n").unwrap();
    assert_eq!(header.format, PcdDataFormat::Ascii);
    assert_eq!((header.width, header.height), (7, 1));
    assert!(header.fields.is_empty());
    assert!(header.viewpoint.is_empty());
    assert_eq!(start, 25);
    let (header, _) = pcd_read_header(b"COLUMNS a b\nSIZE 2 8\nTYPE U F\nCOUNT 3 1\nWIDTH 1\n").unwrap();
    assert_eq!(header.fields[0].name, "a");
    assert_eq!(header.fields[0].count, 3);
    assert_eq!(header.fields[0].bytes(), Some(6));
    assert_eq!(header.fields[1].bytes(), Some(8));
}

#[test]
fn pcd_rows_are_checked() {
    let text = String::from_utf8(ascii_file()).unwrap();
    let err = read::<PointCloudNormal>(text.replace("8 9 10", "8 9").as_bytes()).unwrap_err();
    assert_eq!(message(err), "Invalid number of tokens: expected 7, got 6");
    let err = read::<PointCloudNormal>(text.replace("8 9 10", "8  9 10").as_bytes()).unwrap_err();
    assert_eq!(message(err), "Invalid number of tokens: expected 7, got 8");
    let err = read::<PointCloudNormal>(text.replace("8 9 10", "8 nine 10").as_bytes()).unwrap_err();
    assert!(matches!(err, PointRainIOError::ParseFloatError));
    let typed = text.replace("TYPE F F F", "TYPE I F F");
    let err = read::<PointCloudNormal>(typed.replace("8 9 10", "8.5 9 10").as_bytes()).unwrap_err();
    assert!(matches!(err, PointRainIOError::ParseIntError));
    let pc: PointCloudNormal = read(typed.as_bytes()).unwrap();
    assert_eq!(pc.positions()[1], position(8., 9., 10.));
}

#[test]
fn pcd_packed_color_is_unpacked() {
    let mut data = b"FIELDS x y z rgb\nSIZE 4 4 4 4\nTYPE F F F F\nWIDTH 1\nDATA binary\n".to_vec();
    for v in [1f32, 2., 3.] {
        data.extend_from_slice(&v.to_le_bytes());
    }
    data.extend_from_slice(&[10, 20, 30, 0]);
    let pc: PointCloudRgb = read(&data).unwrap();
    assert_eq!(pc.colors()[0], Rgb::new(10, 20, 30));
    assert_eq!(pc.positions()[0], position(1., 2., 3.));

    let packed = f32::from_le_bytes([200, 100, 50, 0x4a]);
    let text = format!("FIELDS x y z rgb\nWIDTH 1\nDATA ascii\n1 2 3 {:e}\n", packed);
    let pc: PointCloudRgb = read(text.as_bytes()).unwrap();
    assert_eq!(pc.colors()[0], Rgb::new(200, 100, 50));

    let typed = b"FIELDS x y z rgb\nSIZE 4 4 4 4\nTYPE F F F U\nWIDTH 1\nDATA ascii\n1 2 3 4\n";
    let err = read::<PointCloudRgb>(typed).unwrap_err();
    assert_eq!(message(err), "U32(4) cannot be parsed as RGB");
}

#[test]
fn pcd_binary_reads_one_value_of_each_field() {
    let mut data =
        b"FIELDS x y z\nSIZE 2 1 8\nTYPE I U F\nCOUNT 1 3 1\nWIDTH 2\nDATA binary\n".to_vec();
    for (x, y, z) in [(-2i16, 200u8, 0.5f64), (300, 7, -4.)] {
        data.extend_from_slice(&x.to_le_bytes());
        data.push(y);
        data.extend_from_slice(&z.to_le_bytes());
        data.extend_from_slice(&[0, 0]);
    }
    let pc: PointCloud = read(&data).unwrap();
    assert_eq!(pc.len(), 2);
    assert_eq!(pc.positions()[0], position(-2., 200., 0.5));
    assert_eq!(pc.positions()[1], position(300., 7., -4.));
}
