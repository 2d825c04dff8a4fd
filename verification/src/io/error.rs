//! What a decoder reports when it gives up.

use vstd::prelude::*;

verus! {

/// A text token that is no number of the type asked for.
#[derive(Debug, Clone, Copy, PartialEq, Eq, Structural)]
pub enum ParseNumberError {
    /// The token is no integer of the type, or does not fit it.
    ParseIntError,
    /// The token is no floating-point literal.
    ParseFloatError,
}

/// The name of an attribute that a field list lacks.
#[derive(Debug)]
pub struct MissingField(pub &'static str);

/// Why a read was abandoned.
#[derive(Debug)]
pub enum PointRainIOError {
    /// The input could not be read: here, a line that is not valid UTF-8, or
    /// a binary body that ends inside a record.
    FileIOError,
    /// A token failed to parse as an integer.
    ParseIntError,
    /// A token failed to parse as a floating-point number.
    ParseFloatError,
    /// A required attribute has no field of its name.
    MissingFieldError(&'static str),
    /// The input breaks a rule of its format.
    Error { msg: String },
    /// The input asks for something that is not implemented.
    UnsupportedError(&'static str),
}

/// A `PointRainIOError` with its texts as character sequences.
pub enum IOErrorView {
    FileIOError,
    ParseIntError,
    ParseFloatError,
    MissingFieldError(Seq<char>),
    Error(Seq<char>),
    UnsupportedError(Seq<char>),
}

impl View for PointRainIOError {
    type V = IOErrorView;

    open spec fn view(&self) -> IOErrorView {
        match *self {
            PointRainIOError::FileIOError => IOErrorView::FileIOError,
            PointRainIOError::ParseIntError => IOErrorView::ParseIntError,
            PointRainIOError::ParseFloatError => IOErrorView::ParseFloatError,
            PointRainIOError::MissingFieldError(name) => IOErrorView::MissingFieldError(name@),
            PointRainIOError::Error { msg } => IOErrorView::Error(msg@),
            PointRainIOError::UnsupportedError(what) => IOErrorView::UnsupportedError(what@),
        }
    }
}

impl IOErrorView {
    /// The error that a number-parse failure turns into.
    pub open spec fn of_number(e: ParseNumberError) -> IOErrorView {
        match e {
            ParseNumberError::ParseIntError => IOErrorView::ParseIntError,
            ParseNumberError::ParseFloatError => IOErrorView::ParseFloatError,
        }
    }

    /// The text that `PointRainIOError::message` gives.
    pub open spec fn message(self) -> Seq<char> {
        match self {
            IOErrorView::FileIOError => "File IO error"@,
            IOErrorView::ParseIntError => "parse int error"@,
            IOErrorView::ParseFloatError => "parse float error"@,
            IOErrorView::MissingFieldError(name) => "Missing field: "@ + name,
            IOErrorView::Error(msg) => msg,
            IOErrorView::UnsupportedError(what) => "Unsupported: "@ + what,
        }
    }
}

/// What is reported of a keyword that the format does not have.
pub open spec fn unknown_token(token: Seq<char>) -> Seq<char> {
    "Unknown token: "@ + token
}

/// What is reported of a keyword without its value.
pub open spec fn value_missing(directive: Seq<char>) -> Seq<char> {
    "["@ + directive + "] Not enough number of elements!"@
}

/// The error of a broken rule.
pub fn invalid(msg: String) -> (r: PointRainIOError)
    ensures
        r@ == IOErrorView::Error(msg@),
{
    PointRainIOError::Error { msg }
}

/// What is reported of a keyword without its value.
pub fn missing_value(word: &str) -> (r: PointRainIOError)
    ensures
        r@ == IOErrorView::Error(value_missing(word@)),
{
    invalid(String::from_str("[").concat(word).concat("] Not enough number of elements!"))
}

impl From<ParseNumberError> for PointRainIOError {
    fn from(e: ParseNumberError) -> (r: Self) {
        match e {
            ParseNumberError::ParseIntError => PointRainIOError::ParseIntError,
            ParseNumberError::ParseFloatError => PointRainIOError::ParseFloatError,
        }
    }
}

impl vstd::std_specs::convert::FromSpecImpl<ParseNumberError> for PointRainIOError {
    open spec fn obeys_from_spec() -> bool {
        true
    }

    open spec fn from_spec(e: ParseNumberError) -> Self {
        match e {
            ParseNumberError::ParseIntError => PointRainIOError::ParseIntError,
            ParseNumberError::ParseFloatError => PointRainIOError::ParseFloatError,
        }
    }
}

impl From<MissingField> for PointRainIOError {
    fn from(e: MissingField) -> (r: Self) {
        PointRainIOError::MissingFieldError(e.0)
    }
}

impl vstd::std_specs::convert::FromSpecImpl<MissingField> for PointRainIOError {
    open spec fn obeys_from_spec() -> bool {
        true
    }

    open spec fn from_spec(e: MissingField) -> Self {
        PointRainIOError::MissingFieldError(e.0)
    }
}

impl From<String> for PointRainIOError {
    fn from(e: String) -> (r: Self) {
        PointRainIOError::Error { msg: e }
    }
}

impl vstd::std_specs::convert::FromSpecImpl<String> for PointRainIOError {
    open spec fn obeys_from_spec() -> bool {
        true
    }

    open spec fn from_spec(e: String) -> Self {
        PointRainIOError::Error { msg: e }
    }
}

impl PointRainIOError {
    /// The error that a number-parse failure turns into.
    pub fn of_number(e: ParseNumberError) -> (r: Self)
        ensures
            r@ == IOErrorView::of_number(e),
    {
        match e {
            ParseNumberError::ParseIntError => PointRainIOError::ParseIntError,
            ParseNumberError::ParseFloatError => PointRainIOError::ParseFloatError,
        }
    }

    /// The error as a line of text.
    pub fn message(&self) -> (r: String)
        ensures
            r@ == self@.message(),
    {
        match self {
            PointRainIOError::FileIOError => String::from_str("File IO error"),
            PointRainIOError::ParseIntError => String::from_str("parse int error"),
            PointRainIOError::ParseFloatError => String::from_str("parse float error"),
            PointRainIOError::MissingFieldError(name) => String::from_str("Missing field: ").concat(
                name,
            ),
            PointRainIOError::Error { msg } => msg.clone(),
            PointRainIOError::UnsupportedError(what) => String::from_str("Unsupported: ").concat(
                what,
            ),
        }
    }
}

} // verus!
