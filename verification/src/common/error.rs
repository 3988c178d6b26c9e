//! The engine's error codes and the error values that stand for them.

use vstd::prelude::*;

use crate::compile::error::CompileError;

verus! {

/// The engine completed normally.
pub const HS_SUCCESS: i32 = 0;

/// A parameter passed to this function was invalid.
pub const HS_INVALID: i32 = -1;

/// A memory allocation failed.
pub const HS_NOMEM: i32 = -2;

/// The engine was terminated by callback.
pub const HS_SCAN_TERMINATED: i32 = -3;

/// The pattern compiler failed; the compile error holds the details.
pub const HS_COMPILER_ERROR: i32 = -4;

/// The given database was built for a different version of Hyperscan.
pub const HS_DB_VERSION_ERROR: i32 = -5;

/// The given database was built for a different platform (i.e., CPU type).
pub const HS_DB_PLATFORM_ERROR: i32 = -6;

/// The given database was built for a different mode of operation.
pub const HS_DB_MODE_ERROR: i32 = -7;

/// A parameter passed to this function was not correctly aligned.
pub const HS_BAD_ALIGN: i32 = -8;

/// The memory allocator did not correctly return memory suitably aligned.
pub const HS_BAD_ALLOC: i32 = -9;

/// The scratch region was already in use.
pub const HS_SCRATCH_IN_USE: i32 = -10;

/// Unsupported CPU architecture.
pub const HS_ARCH_ERROR: i32 = -11;

/// Provided buffer was too small.
pub const HS_INSUFFICIENT_SPACE: i32 = -12;

/// Unexpected internal error.
pub const HS_UNKNOWN_ERROR: i32 = -13;

/// Hyperscan error codes.
#[derive(Debug, PartialEq, Eq)]
pub enum Error {
    /// A parameter passed to this function was invalid.
    Invalid,
    /// A memory allocation failed.
    NoMem,
    /// The engine was terminated by callback.
    ScanTerminated,
    /// The pattern compiler failed with more detail.
    CompileError(CompileError),
    /// The given database was built for a different version of Hyperscan.
    DbVersionError,
    /// The given database was built for a different platform (i.e., CPU type).
    DbPlatformError,
    /// The given database was built for a different mode of operation.
    DbModeError,
    /// A parameter passed to this function was not correctly aligned.
    BadAlign,
    /// The memory allocator did not correctly return memory suitably aligned.
    BadAlloc,
    /// The scratch region was already in use.
    ScratchInUse,
    /// Unsupported CPU architecture.
    ArchError,
    /// Provided buffer was too small.
    InsufficientSpace,
    /// Unexpected internal error.
    UnknownError,
    /// Unknown error code.
    Code(i32),
}

/// Hyperscan error codes, under the name that the crate's root gives them.
pub type HsError = Error;

impl Error {
    /// The error that a return code stands for; codes without a variant of
    /// their own (success and the compiler error among them) give `Code`.
    pub open spec fn spec_from_code(code: i32) -> Error {
        if code == HS_INVALID {
            Error::Invalid
        } else if code == HS_NOMEM {
            Error::NoMem
        } else if code == HS_SCAN_TERMINATED {
            Error::ScanTerminated
        } else if code == HS_DB_VERSION_ERROR {
            Error::DbVersionError
        } else if code == HS_DB_PLATFORM_ERROR {
            Error::DbPlatformError
        } else if code == HS_DB_MODE_ERROR {
            Error::DbModeError
        } else if code == HS_BAD_ALIGN {
            Error::BadAlign
        } else if code == HS_BAD_ALLOC {
            Error::BadAlloc
        } else if code == HS_SCRATCH_IN_USE {
            Error::ScratchInUse
        } else if code == HS_ARCH_ERROR {
            Error::ArchError
        } else if code == HS_INSUFFICIENT_SPACE {
            Error::InsufficientSpace
        } else if code == HS_UNKNOWN_ERROR {
            Error::UnknownError
        } else {
            Error::Code(code)
        }
    }

    /// The error that a return code stands for.
    pub fn from_code(code: i32) -> (r: Error)
        ensures
            r == Error::spec_from_code(code),
    {
        if code == HS_INVALID {
            Error::Invalid
        } else if code == HS_NOMEM {
            Error::NoMem
        } else if code == HS_SCAN_TERMINATED {
            Error::ScanTerminated
        } else if code == HS_DB_VERSION_ERROR {
            Error::DbVersionError
        } else if code == HS_DB_PLATFORM_ERROR {
            Error::DbPlatformError
        } else if code == HS_DB_MODE_ERROR {
            Error::DbModeError
        } else if code == HS_BAD_ALIGN {
            Error::BadAlign
        } else if code == HS_BAD_ALLOC {
            Error::BadAlloc
        } else if code == HS_SCRATCH_IN_USE {
            Error::ScratchInUse
        } else if code == HS_ARCH_ERROR {
            Error::ArchError
        } else if code == HS_INSUFFICIENT_SPACE {
            Error::InsufficientSpace
        } else if code == HS_UNKNOWN_ERROR {
            Error::UnknownError
        } else {
            Error::Code(code)
        }
    }

    /// The return code that the error stands for, where it has one.
    pub open spec fn spec_code(self) -> Option<i32> {
        match self {
            Error::Invalid => Some(HS_INVALID),
            Error::NoMem => Some(HS_NOMEM),
            Error::ScanTerminated => Some(HS_SCAN_TERMINATED),
            Error::CompileError(_) => Some(HS_COMPILER_ERROR),
            Error::DbVersionError => Some(HS_DB_VERSION_ERROR),
            Error::DbPlatformError => Some(HS_DB_PLATFORM_ERROR),
            Error::DbModeError => Some(HS_DB_MODE_ERROR),
            Error::BadAlign => Some(HS_BAD_ALIGN),
            Error::BadAlloc => Some(HS_BAD_ALLOC),
            Error::ScratchInUse => Some(HS_SCRATCH_IN_USE),
            Error::ArchError => Some(HS_ARCH_ERROR),
            Error::InsufficientSpace => Some(HS_INSUFFICIENT_SPACE),
            Error::UnknownError => Some(HS_UNKNOWN_ERROR),
            Error::Code(c) => Some(c),
        }
    }
}

impl vstd::std_specs::convert::FromSpecImpl<i32> for Error {
    open spec fn obeys_from_spec() -> bool {
        true
    }

    open spec fn from_spec(code: i32) -> Error {
        Error::spec_from_code(code)
    }
}

impl From<i32> for Error {
    fn from(code: i32) -> (r: Error) {
        Error::from_code(code)
    }
}

/// The error of every failing code maps back to that code.
pub proof fn lemma_code_roundtrip(code: i32)
    ensures
        Error::spec_from_code(code).spec_code() == Some(code),
{
}

} // verus!
