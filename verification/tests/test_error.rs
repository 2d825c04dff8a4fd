use pointrain::io::error::{MissingField, ParseNumberError, PointRainIOError};

#[test]
fn errors_have_their_messages() {
    assert_eq!(PointRainIOError::FileIOError.message(), "File IO error");
    assert_eq!(PointRainIOError::ParseIntError.message(), "parse int error");
    assert_eq!(PointRainIOError::ParseFloatError.message(), "parse float error");
    assert_eq!(PointRainIOError::MissingFieldError("rgb").message(), "Missing field: rgb");
    assert_eq!(PointRainIOError::Error { msg: "so it is".to_string() }.message(), "so it is");
    assert_eq!(
        PointRainIOError::UnsupportedError("binary compressed format is not supported").message(),
        "Unsupported: binary compressed format is not supported"
    );
}

#[test]
fn errors_are_made_of_their_causes() {
    assert!(matches!(
        PointRainIOError::from(ParseNumberError::ParseIntError),
        PointRainIOError::ParseIntError
    ));
    assert!(matches!(
        PointRainIOError::from(ParseNumberError::ParseFloatError),
        PointRainIOError::ParseFloatError
    ));
    assert!(matches!(
        PointRainIOError::of_number(ParseNumberError::ParseFloatError),
        PointRainIOError::ParseFloatError
    ));
    assert!(matches!(
        PointRainIOError::of_number(ParseNumberError::ParseIntError),
        PointRainIOError::ParseIntError
    ));
    assert!(matches!(
        PointRainIOError::from(MissingField("curvature")),
        PointRainIOError::MissingFieldError("curvature")
    ));
    match PointRainIOError::from("broken".to_string()) {
        PointRainIOError::Error { msg } => assert_eq!(msg, "broken"),
        other => panic!("{:?}", other),
    }
}
