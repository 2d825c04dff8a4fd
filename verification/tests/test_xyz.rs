use pointrain::io::field::PointFieldDatum;
use pointrain::io::{point_cloud, xyz_read, PointRainIOError};
use pointrain::pc::{PointCloud, PointCloudBase};
use pointrain::types::Position;

fn read(data: &[u8]) -> Result<PointCloud, PointRainIOError> {
    let records = xyz_read(data)?;
    let images: Vec<Vec<u32>> = records
        .rows
        .iter()
        .map(|row| {
            row.iter()
                .map(|d| match d {
                    PointFieldDatum::F32Text(s) => s.parse::<f32>().unwrap().to_bits(),
                    other => panic!("no text: {:?}", other),
                })
                .collect()
        })
        .collect();
    Ok(point_cloud::<PointCloud>(&records, &images))
}

fn position(x: f32, y: f32, z: f32) -> Position {
    Position::new(x.to_bits(), y.to_bits(), z.to_bits())
}

#[test]
fn test_xyz_read() {
    let pc = read(b"0.1 -0.2 0.3\n1 -2 3\n10 -200 3000\n").unwrap();
    assert_eq!(pc.len(), 3);
    assert_eq!(pc.positions()[0], position(0.1, -0.2, 0.3));
    assert_eq!(pc.positions()[1], position(1., -2., 3.));
    assert_eq!(pc.positions()[2], position(10., -200., 3000.));
}

#[test]
fn test_xyz_read_error() {
    let err = read(b"0.1 -0.2 0.3\n1 -2 3 4\n10 -200 3000\n").unwrap_err();

    assert!(matches!(err, PointRainIOError::Error { .. }));
}

#[test]
fn xyz_lines_may_end_in_any_way() {
    let pc = read(b"# a comment\r\n  1\t2 3  \r\n#4 5 6\n7 8 9").unwrap();
    assert_eq!(pc.len(), 2);
    assert_eq!(pc.positions()[0], position(1., 2., 3.));
    assert_eq!(pc.positions()[1], position(7., 8., 9.));
    assert_eq!(read(b"").unwrap().len(), 0);
    assert_eq!(read(b"#\n").unwrap().len(), 0);
}

#[test]
fn xyz_rejects_what_is_no_row() {
    for data in [&b"1 2\n"[..], b"1 2 3\n4\n4 5 6\n", b"1  2 3\n", b" # 1 2 3\n", b"1,2,3\n"] {
        match read(data).unwrap_err() {
            PointRainIOError::Error { msg } => assert_eq!(msg, "Invalid number of tokens in line"),
            other => panic!("{:?}", other),
        }
    }
    for data in [&b"1 2 x\n"[..], b"1 2 3\n4 5 0x6\n", b"1e 2 3\n", b"1 . 3\n"] {
        assert!(matches!(read(data).unwrap_err(), PointRainIOError::ParseFloatError));
    }
    assert!(matches!(read(b"1 2 3\n4 5 \xff\n").unwrap_err(), PointRainIOError::FileIOError));
    assert!(matches!(read(b"1 2 x\n4 5\n").unwrap_err(), PointRainIOError::ParseFloatError));
    assert!(matches!(read(b"4 5\n1 2 x\n").unwrap_err(), PointRainIOError::Error { .. }));
}

#[test]
fn xyz_passes_over_empty_lines() {
    let pc = read(b"1 2 3\n\n4 5 6\n").unwrap();
    assert_eq!(pc.len(), 2);
    assert_eq!(pc.positions()[0], position(1., 2., 3.));
    assert_eq!(pc.positions()[1], position(4., 5., 6.));
    let pc = read("\n\r\n  \t \n1 2 3\r\n \u{a0}\n\n7 8 9\n\n".as_bytes()).unwrap();
    assert_eq!(pc.len(), 2);
    assert_eq!(pc.positions()[1], position(7., 8., 9.));
    assert_eq!(read(b"\n\n \n").unwrap().len(), 0);
    assert_eq!(read(b" ").unwrap().len(), 0);
}

#[test]
fn xyz_takes_every_literal() {
    let pc = read(b"inf -Infinity NaN\n+1.5e3 .5 5.\n1E-2 -0 +.0e+0\n").unwrap();
    assert_eq!(pc.len(), 3);
    assert_eq!(pc.positions()[0].x, f32::INFINITY.to_bits());
    assert_eq!(pc.positions()[0].y, f32::NEG_INFINITY.to_bits());
    assert!(f32::from_bits(pc.positions()[0].z).is_nan());
    assert_eq!(pc.positions()[1], position(1500., 0.5, 5.));
    assert_eq!(pc.positions()[2], position(0.01, -0., 0.));
}
