//! What the parsers share: their error type and the decoding of attribute text.
use vstd::prelude::*;
use vstd::utf8::{valid_utf8, decode_utf8};

verus! {

/// Why parsing failed.
pub enum ParseError {
    /// Reading the input failed.
    Io(String),
    /// The XML is not well formed.
    Xml(String),
    /// The data does not have the expected form.
    InvalidFormat(String),
    /// A required attribute is missing.
    MissingField(String),
    /// A coordinate lies outside [-90, 90] x [-180, 180] (binary64 bit patterns).
    InvalidCoordinate { lat: u64, lon: u64 },
    /// An attribute could not be read.
    Attribute(String),
    /// Attribute or text bytes are not UTF-8.
    Utf8,
    /// The text is not a decimal integer of the expected type.
    InvalidInteger(String),
    /// The text is not a decimal floating-point number.
    InvalidFloat(String),
}

/// A `ParseError` with its texts as character sequences.
pub enum ParseErrorView {
    Io(Seq<char>),
    Xml(Seq<char>),
    InvalidFormat(Seq<char>),
    MissingField(Seq<char>),
    InvalidCoordinate { lat: u64, lon: u64 },
    Attribute(Seq<char>),
    Utf8,
    InvalidInteger(Seq<char>),
    InvalidFloat(Seq<char>),
}

impl View for ParseError {
    type V = ParseErrorView;

    open spec fn view(&self) -> ParseErrorView {
        match self {
            ParseError::Io(s) => ParseErrorView::Io(s@),
            ParseError::Xml(s) => ParseErrorView::Xml(s@),
            ParseError::InvalidFormat(s) => ParseErrorView::InvalidFormat(s@),
            ParseError::MissingField(s) => ParseErrorView::MissingField(s@),
            ParseError::InvalidCoordinate { lat, lon } => ParseErrorView::InvalidCoordinate {
                lat: *lat,
                lon: *lon,
            },
            ParseError::Attribute(s) => ParseErrorView::Attribute(s@),
            ParseError::Utf8 => ParseErrorView::Utf8,
            ParseError::InvalidInteger(s) => ParseErrorView::InvalidInteger(s@),
            ParseError::InvalidFloat(s) => ParseErrorView::InvalidFloat(s@),
        }
    }
}

/// `r` is the outcome that `expected` describes.
pub open spec fn same_result<T>(r: Result<T, ParseError>, expected: Result<T, ParseErrorView>) -> bool {
    match expected {
        Ok(v) => r is Ok && r->Ok_0 == v,
        Err(e) => r is Err && r->Err_0@ == e,
    }
}

/// The text that `bytes` encode in UTF-8, if they are valid UTF-8.
pub open spec fn utf8_of(bytes: Seq<u8>) -> Option<Seq<char>> {
    if valid_utf8(bytes) {
        Some(decode_utf8(bytes))
    } else {
        None
    }
}

/// `std::str::from_utf8`: the text that `bytes` encode, if they are valid UTF-8.
#[verifier::external_body]
pub fn utf8_text(bytes: &[u8]) -> (r: Option<String>)
    ensures
        match r {
            Some(s) => utf8_of(bytes@) == Some(s@),
            None => utf8_of(bytes@) is None,
        },
{
    std::str::from_utf8(bytes).ok().map(|s| s.to_string())
}

/// `s.to_string()` for a string slice.
pub fn owned(s: &str) -> (r: String)
    ensures
        r@ == s@,
{
    s.to_owned()
}

} // verus!
