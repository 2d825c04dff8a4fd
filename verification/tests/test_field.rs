use pointrain::io::error::ParseNumberError;
use pointrain::io::field::{record_bytes, unpack_color, PointField, PointFieldDatum, PointFieldType};
use pointrain::types::Rgb;

const ALL: [PointFieldType; 8] = [
    PointFieldType::U8,
    PointFieldType::U16,
    PointFieldType::U32,
    PointFieldType::I8,
    PointFieldType::I16,
    PointFieldType::I32,
    PointFieldType::F32,
    PointFieldType::F64,
];

#[test]
fn types_are_named_by_letter_and_size() {
    let named = [
        ('U', 1, PointFieldType::U8),
        ('U', 2, PointFieldType::U16),
        ('U', 4, PointFieldType::U32),
        ('I', 1, PointFieldType::I8),
        ('I', 2, PointFieldType::I16),
        ('I', 4, PointFieldType::I32),
        ('F', 4, PointFieldType::F32),
        ('F', 8, PointFieldType::F64),
    ];
    for size in 0..=255u8 {
        for kind in ['U', 'I', 'F', 'u', 'D', ' ', 'é'] {
            let expected = named.iter().find(|n| n.0 == kind && n.1 == size).map(|n| n.2);
            let message =
                format!("Invalid pair of type and size: {} (type) {} (size)", kind, size);
            assert_eq!(
                PointFieldType::from_pcd_type_and_size(kind, size),
                expected.ok_or(message.clone())
            );
            assert_eq!(PointFieldType::from_type_and_size(kind, size), expected.ok_or(message));
        }
    }
}

#[test]
fn types_are_named_by_word() {
    let named = [
        ("char", PointFieldType::I8),
        ("uchar", PointFieldType::U8),
        ("short", PointFieldType::I16),
        ("ushort", PointFieldType::U16),
        ("int", PointFieldType::I32),
        ("uint", PointFieldType::U32),
        ("float", PointFieldType::F32),
        ("double", PointFieldType::F64),
    ];
    for (word, t) in named {
        assert_eq!(PointFieldType::from_ply_type(word), Ok(t));
    }
    for word in ["", "Float", "float32", "int8", "uint8", "list", "floa", " float"] {
        assert_eq!(
            PointFieldType::from_ply_type(word),
            Err(format!("Unknown point field type: {}", word))
        );
    }
}

#[test]
fn types_have_their_widths_and_names() {
    let widths = [1, 2, 4, 1, 2, 4, 4, 8];
    let names = ["U8", "U16", "U32", "I8", "I16", "I32", "F32", "F64"];
    for i in 0..8 {
        assert_eq!(ALL[i].bytes(), widths[i]);
        assert_eq!(ALL[i].label(), names[i]);
    }
}

fn field(datatype: PointFieldType, count: usize) -> PointField {
    PointField { name: "f".to_string(), datatype, count }
}

#[test]
fn fields_have_their_sizes() {
    assert_eq!(field(PointFieldType::F32, 1).bytes(), Some(4));
    assert_eq!(field(PointFieldType::F64, 3).bytes(), Some(24));
    assert_eq!(field(PointFieldType::U8, 0).bytes(), Some(0));
    assert_eq!(field(PointFieldType::U16, usize::MAX).bytes(), None);
    assert_eq!(field(PointFieldType::U8, usize::MAX).bytes(), Some(usize::MAX));
    assert_eq!(record_bytes(&vec![]), Some(0));
    assert_eq!(
        record_bytes(&vec![
            field(PointFieldType::F32, 1),
            field(PointFieldType::I16, 5),
            field(PointFieldType::F64, 2)
        ]),
        Some(30)
    );
    assert_eq!(
        record_bytes(&vec![field(PointFieldType::U8, usize::MAX), field(PointFieldType::U8, 1)]),
        None
    );
}

fn debug(d: &PointFieldDatum) -> String {
    format!("{:?}", d)
}

#[test]
fn datums_are_taken_off_bytes_low_byte_first() {
    let bytes: [u8; 10] = [0x01, 0x82, 0x03, 0x84, 0x05, 0x06, 0x07, 0xf8, 0x09, 0x0a];
    let expected = [
        PointFieldDatum::U8(0x01),
        PointFieldDatum::U16(0x8201),
        PointFieldDatum::U32(0x8403_8201),
        PointFieldDatum::I8(1),
        PointFieldDatum::I16(0x8201u16 as i16),
        PointFieldDatum::I32(0x8403_8201u32 as i32),
        PointFieldDatum::F32(0x8403_8201),
        PointFieldDatum::F64(0xf807_0605_8403_8201),
    ];
    for i in 0..8 {
        let mut rest: &[u8] = &bytes;
        let d = PointFieldDatum::from_bytes_le(&mut rest, ALL[i]);
        assert_eq!(debug(&d), debug(&expected[i]));
        assert_eq!(rest, &bytes[ALL[i].bytes()..]);
        let mut rest: &[u8] = &bytes;
        let d = PointFieldDatum::from_bytes(&mut rest, ALL[i]);
        assert_eq!(debug(&d), debug(&expected[i]));
        assert_eq!(rest, &bytes[ALL[i].bytes()..]);
    }
    let mut rest: &[u8] = &bytes[1..];
    let d = PointFieldDatum::from_bytes_le(&mut rest, PointFieldType::I8);
    assert_eq!(debug(&d), debug(&PointFieldDatum::I8(-126)));
    let d = PointFieldDatum::from_bytes_le(&mut rest, PointFieldType::I16);
    assert_eq!(debug(&d), debug(&PointFieldDatum::I16(-31741)));
    assert_eq!(rest, &bytes[4..]);
}

#[test]
fn datums_are_taken_off_bytes_high_byte_first() {
    let bytes: [u8; 10] = [0x81, 0x02, 0x03, 0x84, 0x05, 0x06, 0x07, 0xf8, 0x09, 0x0a];
    let expected = [
        PointFieldDatum::U8(0x81),
        PointFieldDatum::U16(0x8102),
        PointFieldDatum::U32(0x8102_0384),
        PointFieldDatum::I8(-127),
        PointFieldDatum::I16(0x8102u16 as i16),
        PointFieldDatum::I32(0x8102_0384u32 as i32),
        PointFieldDatum::F32(0x8102_0384),
        PointFieldDatum::F64(0x8102_0384_0506_07f8),
    ];
    for i in 0..8 {
        let mut rest: &[u8] = &bytes;
        let d = PointFieldDatum::from_bytes_be(&mut rest, ALL[i]);
        assert_eq!(debug(&d), debug(&expected[i]));
        assert_eq!(rest, &bytes[ALL[i].bytes()..]);
    }
    let mut rest: &[u8] = &1.5f32.to_be_bytes();
    let d = PointFieldDatum::from_bytes_be(&mut rest, PointFieldType::F32);
    assert_eq!(debug(&d), debug(&PointFieldDatum::F32(1.5f32.to_bits())));
    let mut rest: &[u8] = &(-2.5f64).to_le_bytes();
    let d = PointFieldDatum::from_bytes_le(&mut rest, PointFieldType::F64);
    assert_eq!(debug(&d), debug(&PointFieldDatum::F64((-2.5f64).to_bits())));
    assert!(rest.is_empty());
}

#[test]
fn datums_are_read_from_tokens() {
    let parsed = |s: &str, t| PointFieldDatum::parse(s, t).map(|d| debug(&d));
    assert_eq!(parsed("255", PointFieldType::U8), Ok(debug(&PointFieldDatum::U8(255))));
    assert_eq!(parsed("256", PointFieldType::U8), Err(ParseNumberError::ParseIntError));
    assert_eq!(parsed("65535", PointFieldType::U16), Ok(debug(&PointFieldDatum::U16(65535))));
    assert_eq!(parsed("-1", PointFieldType::U16), Err(ParseNumberError::ParseIntError));
    assert_eq!(
        parsed("+4294967295", PointFieldType::U32),
        Ok(debug(&PointFieldDatum::U32(u32::MAX)))
    );
    assert_eq!(parsed("-128", PointFieldType::I8), Ok(debug(&PointFieldDatum::I8(-128))));
    assert_eq!(parsed("128", PointFieldType::I8), Err(ParseNumberError::ParseIntError));
    assert_eq!(parsed("-32768", PointFieldType::I16), Ok(debug(&PointFieldDatum::I16(i16::MIN))));
    assert_eq!(
        parsed("2147483647", PointFieldType::I32),
        Ok(debug(&PointFieldDatum::I32(i32::MAX)))
    );
    assert_eq!(parsed("2147483648", PointFieldType::I32), Err(ParseNumberError::ParseIntError));
    assert_eq!(parsed("1.5", PointFieldType::I32), Err(ParseNumberError::ParseIntError));
    assert_eq!(
        parsed("1.5", PointFieldType::F32),
        Ok(debug(&PointFieldDatum::F32Text("1.5".to_string())))
    );
    assert_eq!(
        parsed("-1e-3", PointFieldType::F64),
        Ok(debug(&PointFieldDatum::F64Text("-1e-3".to_string())))
    );
    assert_eq!(parsed("1.5f", PointFieldType::F32), Err(ParseNumberError::ParseFloatError));
    assert_eq!(parsed("", PointFieldType::F64), Err(ParseNumberError::ParseFloatError));
    assert_eq!(parsed("", PointFieldType::U8), Err(ParseNumberError::ParseIntError));
}

fn samples() -> Vec<PointFieldDatum> {
    vec![
        PointFieldDatum::U8(200),
        PointFieldDatum::U16(2),
        PointFieldDatum::U32(3),
        PointFieldDatum::I8(-4),
        PointFieldDatum::I16(5),
        PointFieldDatum::I32(-6),
        PointFieldDatum::F32(0x0a0b_0c0d),
        PointFieldDatum::F64(8),
        PointFieldDatum::F32Text("9".to_string()),
        PointFieldDatum::F64Text("10".to_string()),
    ]
}

#[test]
fn datums_know_their_types() {
    let types: Vec<PointFieldType> = samples().iter().map(|d| d.datatype()).collect();
    let mut expected = ALL.to_vec();
    expected.push(PointFieldType::F32);
    expected.push(PointFieldType::F64);
    assert_eq!(types, expected);
}

#[test]
fn datums_give_bytes_colors_and_values() {
    let names = [
        "U8(200)",
        "U16(2)",
        "U32(3)",
        "I8(-4)",
        "I16(5)",
        "I32(-6)",
        "F32(bits 168496141)",
        "F64(bits 8)",
        "F32(9)",
        "F64(10)",
    ];
    for (i, d) in samples().iter().enumerate() {
        assert_eq!(d.written(), names[i]);
        if i < 6 {
            assert_eq!(d.written(), format!("{:?}", d));
        }
        let byte = if i == 0 { Ok(200) } else { Err(format!("{} cannot be parsed as u8", names[i])) };
        assert_eq!(d.as_u8(), byte);
        let color = match i {
            6 => Ok(Rgb::new(0x0d, 0x0c, 0x0b)),
            8 => Ok(Rgb::new(0x44, 0x33, 0x22)),
            _ => Err(format!("{} cannot be parsed as RGB", names[i])),
        };
        assert_eq!(d.to_color(0x1122_3344), color);
        let value = if i == 6 { 0x0a0b_0c0d } else { 0x1122_3344 };
        assert_eq!(d.to_float(0x1122_3344), value);
    }
    assert_eq!(unpack_color(0), Rgb::new(0, 0, 0));
    assert_eq!(unpack_color(0xffff_ffff), Rgb::new(255, 255, 255));
    assert_eq!(unpack_color(0xff01_02fe), Rgb::new(0xfe, 2, 1));
    let packed = f32::from_le_bytes([7, 8, 9, 10]);
    let [r, g, b, _] = packed.to_le_bytes();
    assert_eq!(unpack_color(packed.to_bits()), Rgb::new(r, g, b));
}
