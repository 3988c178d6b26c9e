//! Details of a failed compilation.

use vstd::prelude::*;

use crate::common::error::{Error as HsError, HS_COMPILER_ERROR, HS_SUCCESS};
use crate::error::Error as CrateError;

verus! {

/// Providing details of the compile error condition.
#[derive(Debug, PartialEq, Eq)]
pub struct CompileError {
    message: String,
    expression: i32,
}

impl CompileError {
    /// A compile error with the engine's message and the index it reports
    /// (negative where the index cannot be determined).
    pub fn new(message: String, expression: i32) -> (r: CompileError)
        ensures
            r.spec_message() == message@,
            r.spec_expression_index() == expression,
    {
        CompileError { message, expression }
    }

    pub closed spec fn spec_message(&self) -> Seq<char> {
        self.message@
    }

    pub closed spec fn spec_expression_index(&self) -> i32 {
        self.expression
    }

    /// A human-readable error message describing the error.
    pub fn message(&self) -> (r: &str)
        ensures
            r@ == self.spec_message(),
    {
        self.message.as_str()
    }

    /// The zero-based number of the expression that caused the error (if this can be determined).
    pub fn expression(&self) -> (r: Option<usize>)
        ensures
            r == (if self.spec_expression_index() < 0 {
                None
            } else {
                Some(self.spec_expression_index() as usize)
            }),
    {
        if self.expression < 0 {
            None
        } else {
            Some(self.expression as usize)
        }
    }
}


/// The result of a compile call: success for `HS_SUCCESS`, the compile error
/// that the engine filled in for `HS_COMPILER_ERROR` where there is one, else
/// the error that the code stands for.
pub trait AsCompileResult: Sized {
    /// The result for the code `self` with the filled-in compile error `err`.
    spec fn spec_ok_or(self, err: Option<CompileError>) -> Result<(), CrateError>;

    /// The result for the code `self` with the filled-in compile error `err`.
    fn ok_or(self, err: Option<CompileError>) -> (r: Result<(), CrateError>)
        ensures
            r == self.spec_ok_or(err),
    ;
}

impl AsCompileResult for i32 {
    open spec fn spec_ok_or(self, err: Option<CompileError>) -> Result<(), CrateError> {
        if self == HS_SUCCESS {
            Ok(())
        } else if self == HS_COMPILER_ERROR && err is Some {
            Err(CrateError::Hyperscan(HsError::CompileError(err.unwrap())))
        } else {
            Err(CrateError::Hyperscan(HsError::spec_from_code(self)))
        }
    }

    fn ok_or(self, err: Option<CompileError>) -> (r: Result<(), CrateError>) {
        if self == HS_SUCCESS {
            Ok(())
        } else if self == HS_COMPILER_ERROR && err.is_some() {
            match err {
                Some(e) => Err(CrateError::Hyperscan(HsError::CompileError(e))),
                None => Err(CrateError::Hyperscan(HsError::from_code(self))),
            }
        } else {
            Err(CrateError::Hyperscan(HsError::from_code(self)))
        }
    }
}

} // verus!
