//! The crate's error type, and the failures that its parsers report.

use vstd::prelude::*;

use crate::common::error::{Error as HsError, HS_SUCCESS};
use crate::chimera::error::Error as ChError;
use crate::compile::expr::Error as ExprError;
use crate::text::IntErrorKind;

verus! {

/// An integer in the pattern syntax could not be read.
#[derive(Clone, Copy, Debug, PartialEq, Eq, Structural)]
pub struct ParseIntError {
    /// Why the integer was refused.
    pub kind: IntErrorKind,
}

/// A string held a NUL byte where the engine needs a C string.
#[derive(Clone, Copy, Debug, PartialEq, Eq, Structural)]
pub struct NulError {
    /// The byte offset of the first NUL in the string's UTF-8 encoding.
    pub position: usize,
}

/// Bytes that should have been UTF-8 were not.
#[derive(Clone, Copy, Debug, PartialEq, Eq, Structural)]
pub struct Utf8Error {
    /// The length of the longest valid prefix.
    pub valid_up_to: usize,
}

/// Hyperscan Error
#[derive(Debug, PartialEq, Eq)]
pub enum Error {
    /// Hyperscan error
    Hyperscan(HsError),
    /// Chimera error
    Chimera(ChError),
    /// Expression error
    Expr(ExprError),
    /// Invalid UTF-8 string
    Utf8(Utf8Error),
    /// Parse integer error
    ParseInt(ParseIntError),
    /// Parse C string error
    NulByte(NulError),
    /// Invalid flag
    InvalidFlag(char),
}

/// The type returned by the crate's fallible functions.
pub type Result<T> = std::result::Result<T, Error>;

/// What a parser of the pattern syntax, or a build of a compile request,
/// can refuse, with a refused text as a sequence of characters.
pub enum ParseFailure {
    /// An extension field without a name.
    MissingParameter,
    /// An extension field without a `=` and a value.
    MissingValue,
    /// An extension field with an unknown name.
    UnexpectedParameter(Seq<char>),
    /// A number that could not be read.
    ParseInt(IntErrorKind),
    /// A character that names no flag.
    InvalidFlag(char),
    /// An expression holding a NUL byte, at this byte position.
    NulByte(nat),
}

impl Error {
    /// The error reports the failure `f`.
    pub open spec fn reports(self, f: ParseFailure) -> bool {
        match f {
            ParseFailure::MissingParameter => self == Error::Expr(ExprError::MissingParameter),
            ParseFailure::MissingValue => self == Error::Expr(ExprError::MissingValue),
            ParseFailure::UnexpectedParameter(key) => match self {
                Error::Expr(ExprError::UnexpectedParameter(k)) => k@ == key,
                _ => false,
            },
            ParseFailure::ParseInt(kind) => self == Error::ParseInt(ParseIntError { kind }),
            ParseFailure::InvalidFlag(c) => self == Error::InvalidFlag(c),
            ParseFailure::NulByte(n) => self == Error::NulByte(NulError { position: n as usize }),
        }
    }
}

/// The result of an engine call: success for `HS_SUCCESS`, else the error
/// that the code stands for.
pub trait AsResult: Sized {
    spec fn spec_ok(self) -> std::result::Result<(), Error>;

    fn ok(self) -> (r: std::result::Result<(), Error>)
        ensures
            r == self.spec_ok(),
    ;
}

impl AsResult for i32 {
    open spec fn spec_ok(self) -> std::result::Result<(), Error> {
        if self == HS_SUCCESS {
            Ok(())
        } else {
            Err(Error::Hyperscan(HsError::spec_from_code(self)))
        }
    }

    fn ok(self) -> (r: std::result::Result<(), Error>) {
        if self == HS_SUCCESS {
            Ok(())
        } else {
            Err(Error::Hyperscan(HsError::from_code(self)))
        }
    }
}

} // verus!
