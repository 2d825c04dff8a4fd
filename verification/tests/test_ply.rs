use pointrain::io::field::{PointFieldDatum, PointFieldType};
use pointrain::io::ply::{ply_read, ply_read_header, PlyDataFormat};
use pointrain::io::{point_cloud, PointRainIOError, Records};
use pointrain::pc::{
    PointCloud, PointCloudBase, PointCloudNormal, PointCloudRgb, PointCloudRgbNormal,
    PointCloudWithColor, PointCloudWithNormal,
};
use pointrain::types::{Normal, Position, Rgb};

const CUBE: &str = "ply\n\
format ascii 1.0\n\
comment made by hand\n\
element vertex 8\n\
property float x\n\
property float y\n\
property float z\n\
element face 6\n\
property list uchar int vertex_index\n\
end_header\n\
0 0 0\n\
0 0 1\n\
0 1 1\n\
0 1 0\n\
1 0 0\n\
1 0 1\n\
1 1 1\n\
1 1 0\n\
4 0 1 2 3\n\
4 7 6 5 4\n\
4 0 4 5 1\n\
4 1 5 6 2\n\
4 2 6 7 3\n\
4 3 7 4 0\n";

fn image(d: &PointFieldDatum) -> u32 {
    let value: f32 = match d {
        PointFieldDatum::U8(v) => (*v).into(),
        PointFieldDatum::U16(v) => (*v).into(),
        PointFieldDatum::U32(v) => f64::from(*v) as f32,
        PointFieldDatum::I8(v) => (*v).into(),
        PointFieldDatum::I16(v) => (*v).into(),
        PointFieldDatum::I32(v) => f64::from(*v) as f32,
        PointFieldDatum::F32(v) => f32::from_bits(*v),
        PointFieldDatum::F64(v) => f64::from_bits(*v) as f32,
        PointFieldDatum::F32Text(s) => s.parse::<f32>().unwrap(),
        PointFieldDatum::F64Text(s) => s.parse::<f64>().unwrap() as f32,
    };
    value.to_bits()
}

fn images(records: &Records) -> Vec<Vec<u32>> {
    records.rows.iter().map(|row| row.iter().map(image).collect()).collect()
}

fn read<PC>(data: &[u8]) -> Result<PC, PointRainIOError>
where
    PC: PointCloudBase,
    PC::Point: pointrain::io::ply::PointReadable,
{
    let (_, records) = ply_read::<PC>(data)?;
    Ok(point_cloud::<PC>(&records, &images(&records)))
}

fn position(x: f32, y: f32, z: f32) -> Position {
    Position::new(x.to_bits(), y.to_bits(), z.to_bits())
}

fn message(err: PointRainIOError) -> String {
    match err {
        PointRainIOError::Error { msg } => msg,
        other => panic!("no validation error: {:?}", other),
    }
}

#[test]
fn test_ply_read_ascii() {
    let pc = read::<PointCloud>(CUBE.as_bytes()).unwrap();

    assert_eq!(pc.len(), 8);
    assert_eq!(pc.positions()[0], position(0., 0., 0.));
    assert_eq!(pc.positions()[7], position(1., 1., 0.));
}

#[test]
fn ply_header_is_read() {
    let (header, start) = ply_read_header(CUBE.as_bytes()).unwrap();
    assert_eq!(header.format, PlyDataFormat::Ascii);
    assert_eq!(header.vertices_size, 8);
    assert_eq!(header.vertices.len(), 3);
    assert_eq!(header.vertices[1].name, "y");
    assert_eq!(header.vertices[1].datatype, PointFieldType::F32);
    assert_eq!(header.vertices[1].count, 1);
    assert_eq!(&CUBE.as_bytes()[start..start + 6], b"0 0 0\n");
}

fn colored(format: &str) -> Vec<u8> {
    format!(
        "ply\nformat {} 1.0\nelement vertex 2\nproperty double x\nproperty float y\n\
property short z\nproperty uchar red\nproperty uchar green\nproperty uchar blue\n\
property float nx\nproperty float ny\nproperty float nz\nproperty float curvature\nend_header\n",
        format
    )
    .into_bytes()
}

#[test]
fn ply_binary_is_read_in_both_byte_orders() {
    let rows = [
        (1.5f64, -2.5f32, 300i16, [1u8, 2, 3], [0f32, 0., 1., 0.25]),
        (-8., 4., -7, [255, 0, 128], [1., 0., 0., 0.5]),
    ];
    let mut le = colored("binary_little_endian");
    let mut be = colored("binary_big_endian");
    for (x, y, z, c, n) in rows {
        le.extend_from_slice(&x.to_le_bytes());
        le.extend_from_slice(&y.to_le_bytes());
        le.extend_from_slice(&z.to_le_bytes());
        le.extend_from_slice(&c);
        be.extend_from_slice(&x.to_be_bytes());
        be.extend_from_slice(&y.to_be_bytes());
        be.extend_from_slice(&z.to_be_bytes());
        be.extend_from_slice(&c);
        for v in n {
            le.extend_from_slice(&v.to_le_bytes());
            be.extend_from_slice(&v.to_be_bytes());
        }
    }
    for data in [le, be] {
        let pc: PointCloudRgbNormal = read(&data).unwrap();
        assert_eq!(pc.len(), 2);
        assert_eq!(pc.positions()[0], position(1.5, -2.5, 300.));
        assert_eq!(pc.positions()[1], position(-8., 4., -7.));
        assert_eq!(pc.colors()[0], Rgb::new(1, 2, 3));
        assert_eq!(pc.colors()[1], Rgb::new(255, 0, 128));
        assert_eq!(pc.normals()[0], Normal::new(0f32.to_bits(), 0f32.to_bits(), 1f32.to_bits()));
        assert_eq!(pc.curvatures()[1], 0.5f32.to_bits());
        let pc: PointCloudRgb = read(&data).unwrap();
        assert_eq!(pc.colors()[1], Rgb::new(255, 0, 128));
    }
}

#[test]
fn ply_binary_must_hold_every_vertex() {
    let mut data = colored("binary_little_endian");
    data.extend_from_slice(&[0; 33]);
    data.extend_from_slice(&[0; 32]);
    let err = read::<PointCloudRgb>(&data).unwrap_err();
    assert!(matches!(err, PointRainIOError::FileIOError));
    data.push(0);
    let pc: PointCloudRgb = read(&data).unwrap();
    assert_eq!(pc.len(), 2);
    data.extend_from_slice(&[7; 5]);
    let pc: PointCloudRgb = read(&data).unwrap();
    assert_eq!(pc.len(), 2);
}

#[test]
fn ply_ascii_reads_the_lines_that_are_there() {
    let text = "ply\nformat ascii 1.0\nelement vertex 3\nproperty float x\nproperty float y\n\
property float z\nend_header\n1 2 3\n4 5 6\n";
    let pc: PointCloud = read(text.as_bytes()).unwrap();
    assert_eq!(pc.len(), 2);
    assert_eq!(pc.positions()[1], position(4., 5., 6.));
}

#[test]
fn ply_missing_property_is_named() {
    let err = ply_read::<PointCloudNormal>(CUBE.as_bytes()).unwrap_err();
    assert!(matches!(err, PointRainIOError::MissingFieldError("nx")));
    let err = ply_read::<PointCloudRgb>(CUBE.as_bytes()).unwrap_err();
    assert!(matches!(err, PointRainIOError::MissingFieldError("red")));
    let err = ply_read::<PointCloudRgbNormal>(CUBE.as_bytes()).unwrap_err();
    assert!(matches!(err, PointRainIOError::MissingFieldError("red")));
    let flat = CUBE.replace("property float z\n", "");
    let err = ply_read::<PointCloud>(flat.as_bytes()).unwrap_err();
    assert!(matches!(err, PointRainIOError::MissingFieldError("z")));
}

#[test]
fn ply_errors() {
    let err = ply_read_header(b"ply\nformat ascii 1.0\nobj_info none\n").unwrap_err();
    assert_eq!(message(err), "Unknown token: obj_info");
    let err = ply_read_header(b"ply\nformat text 1.0\n").unwrap_err();
    assert_eq!(message(err), "Unknown data format: text");
    let err = ply_read_header(b"ply\nelement vertex 2\nproperty real x\n").unwrap_err();
    assert_eq!(message(err), "Unknown point field type: real");
    let err = ply_read_header(b"ply\nelement vertex 2\nproperty float\n").unwrap_err();
    assert_eq!(message(err), "[property] Not enough number of elements!");
    let err = ply_read_header(b"ply\nelement vertex\n").unwrap_err();
    assert_eq!(message(err), "[element] Not enough number of elements!");
    let err = ply_read_header(b"ply\nformat\n").unwrap_err();
    assert_eq!(message(err), "[format] Not enough number of elements!");
    let err = ply_read_header(b"ply\nelement vertex many\n").unwrap_err();
    assert!(matches!(err, PointRainIOError::ParseIntError));
    let err = ply_read_header(b"ply\n\xc3\n").unwrap_err();
    assert!(matches!(err, PointRainIOError::FileIOError));
    let err = read::<PointCloud>(CUBE.replace("0 1 1\n", "0 1\n").as_bytes()).unwrap_err();
    assert_eq!(message(err), "Invalid number of tokens: expected 3, got 2");
    let bytes = CUBE.replace("property float x", "property uchar x").replace("1 0 1", "256 0 1");
    let err = read::<PointCloud>(bytes.as_bytes()).unwrap_err();
    assert!(matches!(err, PointRainIOError::ParseIntError));
    let tinted = "ply\nformat ascii 1.0\nelement vertex 1\nproperty float x\nproperty float y\n\
property float z\nproperty uchar red\nproperty float green\nproperty uchar blue\nend_header\n\
1 2 3 4 5 6\n";
    let err = read::<PointCloudRgb>(tinted.as_bytes()).unwrap_err();
    assert_eq!(message(err), "F32(5) cannot be parsed as u8");
}

#[test]
fn ply_properties_of_other_elements_are_passed_over() {
    let (header, _) = ply_read_header(
        b"ply\nproperty float w\nelement face 2\nproperty float v\nelement vertex 5\n\
property int x\nelement edge 1\nproperty int y\nend_header\nrest",
    )
    .unwrap();
    assert_eq!(header.vertices_size, 5);
    assert_eq!(header.vertices.len(), 1);
    assert_eq!(header.vertices[0].name, "x");
    assert_eq!(header.vertices[0].datatype, PointFieldType::I32);
}
