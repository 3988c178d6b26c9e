//! Chimera's error codes and the error values that stand for them.

use vstd::prelude::*;

use crate::error::Error as CrateError;

use crate::chimera::compile::CompileError;

verus! {

/// The engine completed normally.
pub const CH_SUCCESS: i32 = 0;

/// A parameter passed to this function was invalid.
pub const CH_INVALID: i32 = -1;

/// A memory allocation failed.
pub const CH_NOMEM: i32 = -2;

/// The engine was terminated by callback.
pub const CH_SCAN_TERMINATED: i32 = -3;

/// The pattern compiler failed.
pub const CH_COMPILER_ERROR: i32 = -4;

/// The given database was built for a different version of the Chimera matcher.
pub const CH_DB_VERSION_ERROR: i32 = -5;

/// The given database was built for a different platform (i.e., CPU type).
pub const CH_DB_PLATFORM_ERROR: i32 = -6;

/// The given database was built for a different mode of operation.
pub const CH_DB_MODE_ERROR: i32 = -7;

/// A parameter passed to this function was not correctly aligned.
pub const CH_BAD_ALIGN: i32 = -8;

/// The memory allocator did not correctly return memory suitably aligned.
pub const CH_BAD_ALLOC: i32 = -9;

/// The scratch region was already in use.
pub const CH_SCRATCH_IN_USE: i32 = -10;

/// Unexpected internal error from Hyperscan.
pub const CH_UNKNOWN_HS_ERROR: i32 = -13;

/// PCRE failed with a fatal error.
pub const CH_FAIL_INTERNAL: i32 = -32;

/// A type for errors returned by Chimera functions.
#[derive(Debug, PartialEq, Eq)]
pub enum Error {
    /// A parameter passed to this function was invalid.
    Invalid,
    /// A memory allocation failed.
    NoMem,
    /// The engine was terminated by callback.
    ScanTerminated,
    /// The pattern compiler failed, with the details.
    CompileError(CompileError),
    /// The pattern compiler failed.
    CompilerError,
    /// The given database was built for a different version of the Chimera matcher.
    DbVersionError,
    /// The given database was built for a different platform (i.e., CPU type).
    DbPlatformError,
    /// The given database was built for a different mode of operation.
    DbModeError,
    /// A parameter passed to this function was not correctly aligned.
    BadAlign,
    /// The memory allocator did not correctly return memory suitably aligned.
    BadAlloc,
    /// The scratch region was already in use.
    ScratchInUse,
    /// Unexpected internal error from Hyperscan.
    UnknownError,
    /// PCRE failed with a fatal error.
    FailInternal,
    /// Unexpected internal error from Hyperscan.
    UnknownHSError,
    /// Unknown error code.
    Code(i32),
}

impl Error {
    /// The error that a return code stands for; codes without a variant of
    /// their own (success and the compiler error among them) give `Code`.
    pub open spec fn spec_from_code(code: i32) -> Error {
        if code == CH_INVALID {
            Error::Invalid
        } else if code == CH_NOMEM {
            Error::NoMem
        } else if code == CH_SCAN_TERMINATED {
            Error::ScanTerminated
        } else if code == CH_DB_VERSION_ERROR {
            Error::DbVersionError
        } else if code == CH_DB_PLATFORM_ERROR {
            Error::DbPlatformError
        } else if code == CH_DB_MODE_ERROR {
            Error::DbModeError
        } else if code == CH_BAD_ALIGN {
            Error::BadAlign
        } else if code == CH_BAD_ALLOC {
            Error::BadAlloc
        } else if code == CH_SCRATCH_IN_USE {
            Error::ScratchInUse
        } else if code == CH_FAIL_INTERNAL {
            Error::FailInternal
        } else if code == CH_UNKNOWN_HS_ERROR {
            Error::UnknownHSError
        } else {
            Error::Code(code)
        }
    }

    /// The error that a return code stands for.
    pub fn from_code(code: i32) -> (r: Error)
        ensures
            r == Error::spec_from_code(code),
    {
        if code == CH_INVALID {
            Error::Invalid
        } else if code == CH_NOMEM {
            Error::NoMem
        } else if code == CH_SCAN_TERMINATED {
            Error::ScanTerminated
        } else if code == CH_DB_VERSION_ERROR {
            Error::DbVersionError
        } else if code == CH_DB_PLATFORM_ERROR {
            Error::DbPlatformError
        } else if code == CH_DB_MODE_ERROR {
            Error::DbModeError
        } else if code == CH_BAD_ALIGN {
            Error::BadAlign
        } else if code == CH_BAD_ALLOC {
            Error::BadAlloc
        } else if code == CH_SCRATCH_IN_USE {
            Error::ScratchInUse
        } else if code == CH_FAIL_INTERNAL {
            Error::FailInternal
        } else if code == CH_UNKNOWN_HS_ERROR {
            Error::UnknownHSError
        } else {
            Error::Code(code)
        }
    }
}

impl vstd::std_specs::convert::FromSpecImpl<i32> for Error {
    open spec fn obeys_from_spec() -> bool {
        true
    }

    open spec fn from_spec(code: i32) -> Error {
        Error::spec_from_code(code)
    }
}

impl From<i32> for Error {
    fn from(code: i32) -> (r: Error) {
        Error::from_code(code)
    }
}


/// The result of a Chimera call: success for `CH_SUCCESS`, else the error
/// that the code stands for.
pub trait AsResult: Sized {
    /// The result for the code `self`.
    spec fn spec_ok(self) -> Result<(), CrateError>;

    /// The result for the code `self`.
    fn ok(self) -> (r: Result<(), CrateError>)
        ensures
            r == self.spec_ok(),
    ;
}

impl AsResult for i32 {
    open spec fn spec_ok(self) -> Result<(), CrateError> {
        if self == CH_SUCCESS {
            Ok(())
        } else {
            Err(CrateError::Chimera(Error::spec_from_code(self)))
        }
    }

    fn ok(self) -> (r: Result<(), CrateError>) {
        if self == CH_SUCCESS {
            Ok(())
        } else {
            Err(CrateError::Chimera(Error::from_code(self)))
        }
    }
}

} // verus!
