//! The engine's error codes, as the first interface names them.

use vstd::prelude::*;

use crate::common::error::{
    HS_ARCH_ERROR, HS_BAD_ALIGN, HS_BAD_ALLOC, HS_DB_MODE_ERROR, HS_DB_PLATFORM_ERROR,
    HS_DB_VERSION_ERROR, HS_INSUFFICIENT_SPACE, HS_INVALID, HS_NOMEM, HS_SCAN_TERMINATED,
    HS_SCRATCH_IN_USE, HS_SUCCESS,
};

verus! {

/// Error codes.
#[derive(Debug, PartialEq, Eq)]
pub enum HsError {
    /// A parameter passed to this function was invalid
    Invalid,
    /// A memory allocation failed.
    NoMemory,
    /// The engine was terminated by callback.
    ScanTerminated,
    /// The pattern compiler failed: the expression's number and the message.
    CompilerError(usize, String),
    /// The given database was built for a different version of Hyperscan.
    DbVersionError,
    /// The given database was built for a different platform (i.e., CPU type).
    DbPlatformError,
    /// The given database was built for a different mode of operation.
    DbModeError,
    /// A parameter passed to this function was not correctly aligned.
    BadAlign,
    /// The memory allocator did not correctly return memory suitably aligned
    BadAlloc,
    /// The scratch region was already in use.
    ScratchInUse,
    /// Unsupported CPU architecture.
    UnsupportedArch,
    /// Provided buffer was too small.
    InsufficientSpace,
    /// Unknown error code.
    Failed(i32),
}

impl HsError {
    /// The error that a failing return code stands for.
    pub open spec fn spec_from_code(code: i32) -> HsError {
        if code == HS_INVALID {
            HsError::Invalid
        } else if code == HS_NOMEM {
            HsError::NoMemory
        } else if code == HS_SCAN_TERMINATED {
            HsError::ScanTerminated
        } else if code == HS_DB_VERSION_ERROR {
            HsError::DbVersionError
        } else if code == HS_DB_PLATFORM_ERROR {
            HsError::DbPlatformError
        } else if code == HS_DB_MODE_ERROR {
            HsError::DbModeError
        } else if code == HS_BAD_ALIGN {
            HsError::BadAlign
        } else if code == HS_BAD_ALLOC {
            HsError::BadAlloc
        } else if code == HS_SCRATCH_IN_USE {
            HsError::ScratchInUse
        } else if code == HS_ARCH_ERROR {
            HsError::UnsupportedArch
        } else if code == HS_INSUFFICIENT_SPACE {
            HsError::InsufficientSpace
        } else {
            HsError::Failed(code)
        }
    }

    /// The error that a failing return code stands for (success is no error).
    pub fn from_code(code: i32) -> (r: HsError)
        requires
            code != HS_SUCCESS,
        ensures
            r == HsError::spec_from_code(code),
    {
        if code == HS_INVALID {
            HsError::Invalid
        } else if code == HS_NOMEM {
            HsError::NoMemory
        } else if code == HS_SCAN_TERMINATED {
            HsError::ScanTerminated
        } else if code == HS_DB_VERSION_ERROR {
            HsError::DbVersionError
        } else if code == HS_DB_PLATFORM_ERROR {
            HsError::DbPlatformError
        } else if code == HS_DB_MODE_ERROR {
            HsError::DbModeError
        } else if code == HS_BAD_ALIGN {
            HsError::BadAlign
        } else if code == HS_BAD_ALLOC {
            HsError::BadAlloc
        } else if code == HS_SCRATCH_IN_USE {
            HsError::ScratchInUse
        } else if code == HS_ARCH_ERROR {
            HsError::UnsupportedArch
        } else if code == HS_INSUFFICIENT_SPACE {
            HsError::InsufficientSpace
        } else {
            HsError::Failed(code)
        }
    }
}

/// Providing details of the compile error condition.
#[derive(Debug, PartialEq, Eq)]
pub struct CompileError {
    expression: usize,
    message: String,
}

impl CompileError {
    /// A compile error for the expression numbered `expression`, with the engine's message.
    pub fn new(expression: usize, message: String) -> (r: CompileError)
        ensures
            r.spec_expression() == expression,
            r.spec_message() == message@,
    {
        CompileError { expression, message }
    }

    /// The number of the expression that failed.
    pub closed spec fn spec_expression(&self) -> usize {
        self.expression
    }

    /// The engine's message.
    pub closed spec fn spec_message(&self) -> Seq<char> {
        self.message@
    }

    /// The number of the expression that failed.
    pub fn expression(&self) -> (r: usize)
        ensures
            r == self.spec_expression(),
    {
        self.expression
    }

    /// The engine's message.
    pub fn message(&self) -> (r: String)
        ensures
            r@ == self.spec_message(),
    {
        self.message.clone()
    }

    /// The error that the compile error is reported as.
    pub fn into_error(self) -> (r: HsError)
        ensures
            r matches HsError::CompilerError(n, m) && n == self.spec_expression() && m@ == self.spec_message(),
    {
        HsError::CompilerError(self.expression, self.message)
    }
}

} // verus!
