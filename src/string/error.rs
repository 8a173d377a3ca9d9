//! Every failure that a fixed-capacity string operation can report.

use core::char::DecodeUtf16Error;
use core::str::Utf8Error;
use vstd::prelude::*;

verus! {

#[verifier::external_type_specification]
#[verifier::external_body]
pub struct ExUtf8Error(Utf8Error);

#[verifier::external_type_specification]
#[verifier::external_body]
pub struct ExDecodeUtf16Error(DecodeUtf16Error);

/// Relies on `Utf8Error`'s `Clone`, which the error's own `Clone` calls.
pub assume_specification[ <Utf8Error as Clone>::clone ](e: &Utf8Error) -> Utf8Error;

/// Relies on `DecodeUtf16Error`'s `Clone`, which the error's own `Clone` calls.
pub assume_specification[ <DecodeUtf16Error as Clone>::clone ](e: &DecodeUtf16Error) -> DecodeUtf16Error;

/// Relies on `Utf8Error`'s `Display`: the decoder's own description of the failure.
#[verifier::external_body]
fn utf8_error_message(e: &Utf8Error) -> String {
    format!("{}", e)
}

/// Relies on `DecodeUtf16Error`'s `Display`: the decoder's own description of the failure.
#[verifier::external_body]
fn utf16_error_message(e: &DecodeUtf16Error) -> String {
    format!("{}", e)
}

/// Every error that a fixed-capacity string operation can report.
#[derive(Clone, Debug, PartialEq, Eq)]
pub enum Error {
    /// Bytes handed over as a string are not valid UTF-8.
    Utf8(Utf8Error),
    /// `u16` code units handed over as a string are not valid UTF-16.
    Utf16(DecodeUtf16Error),
    /// An index falls inside the encoding of a character.
    NotCharBoundary,
    /// An index or a length exceeds the string's length or capacity.
    OutOfBounds,
}

impl Error {
    pub fn is_utf8(&self) -> (r: bool)
        ensures
            r == self is Utf8,
    {
        match self {
            Self::Utf8(_) => true,
            _ => false,
        }
    }

    pub fn is_utf16(&self) -> (r: bool)
        ensures
            r == self is Utf16,
    {
        match self {
            Self::Utf16(_) => true,
            _ => false,
        }
    }

    pub fn is_out_of_bounds(&self) -> (r: bool)
        ensures
            r == self is OutOfBounds,
    {
        match self {
            Self::OutOfBounds => true,
            _ => false,
        }
    }

    /// A human-readable description: the decoder's own for a decode failure, a fixed text for
    /// the others.
    pub fn message(&self) -> (r: String)
        ensures
            self is OutOfBounds ==> r@ == "Out Of Bounds"@,
            self is NotCharBoundary ==> r@ == "Not Char Boundary"@,
    {
        match self {
            Self::Utf8(e) => utf8_error_message(e),
            Self::Utf16(e) => utf16_error_message(e),
            Self::OutOfBounds => "Out Of Bounds".to_owned(),
            Self::NotCharBoundary => "Not Char Boundary".to_owned(),
        }
    }

    pub fn isnt_char_boundary(&self) -> (r: bool)
        ensures
            r == self is NotCharBoundary,
    {
        match self {
            Self::NotCharBoundary => true,
            _ => false,
        }
    }
}

impl From<Utf8Error> for Error {
    fn from(err: Utf8Error) -> (r: Self)
        ensures
            r == Error::Utf8(err),
    {
        Self::Utf8(err)
    }
}

impl vstd::std_specs::convert::FromSpecImpl<Utf8Error> for Error {
    open spec fn obeys_from_spec() -> bool {
        true
    }

    open spec fn from_spec(err: Utf8Error) -> Self {
        Error::Utf8(err)
    }
}

impl From<DecodeUtf16Error> for Error {
    fn from(err: DecodeUtf16Error) -> (r: Self)
        ensures
            r == Error::Utf16(err),
    {
        Self::Utf16(err)
    }
}

impl vstd::std_specs::convert::FromSpecImpl<DecodeUtf16Error> for Error {
    open spec fn obeys_from_spec() -> bool {
        true
    }

    open spec fn from_spec(err: DecodeUtf16Error) -> Self {
        Error::Utf16(err)
    }
}

} // verus!
