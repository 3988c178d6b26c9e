//! The raw database types of the first interface and their modes.

use std::marker::PhantomData;

use vstd::prelude::*;

use crate::common::mode::{HS_MODE_BLOCK, HS_MODE_STREAM, HS_MODE_VECTORED};
use crate::compile::platform::{
    HS_TUNE_FAMILY_BDW, HS_TUNE_FAMILY_GENERIC, HS_TUNE_FAMILY_GLM, HS_TUNE_FAMILY_HSW, HS_TUNE_FAMILY_IVB,
    HS_TUNE_FAMILY_SKL, HS_TUNE_FAMILY_SKX, HS_TUNE_FAMILY_SLM, HS_TUNE_FAMILY_SNB,
};
use crate::legacy::compile::LegacyRequest;

verus! {

/// The type of a raw database: its compile mode and name.
pub trait DatabaseType {
    /// The compile mode.
    spec fn spec_mode() -> u32;

    /// The compile mode.
    fn mode() -> (r: u32)
        ensures
            r == Self::spec_mode(),
    ;

    /// The name of the database type.
    spec fn spec_name() -> Seq<char>;

    /// The name of the database type.
    fn name() -> (r: &'static str)
        ensures
            r@ == Self::spec_name(),
    ;
}

/// Block scan (non-streaming) database.
#[derive(Debug)]
pub struct Block;

/// Streaming database.
#[derive(Debug)]
pub struct Streaming;

/// Vectored scanning database.
#[derive(Debug)]
pub struct Vectored;

impl DatabaseType for Block {
    open spec fn spec_mode() -> u32 {
        HS_MODE_BLOCK
    }

    fn mode() -> (r: u32) {
        HS_MODE_BLOCK
    }

    open spec fn spec_name() -> Seq<char> {
        seq!['B', 'l', 'o', 'c', 'k']
    }

    fn name() -> (r: &'static str) {
        proof {
            reveal_strlit("Block");
        }
        "Block"
    }
}

impl DatabaseType for Streaming {
    open spec fn spec_mode() -> u32 {
        HS_MODE_STREAM
    }

    fn mode() -> (r: u32) {
        HS_MODE_STREAM
    }

    open spec fn spec_name() -> Seq<char> {
        seq!['S', 't', 'r', 'e', 'a', 'm', 'i', 'n', 'g']
    }

    fn name() -> (r: &'static str) {
        proof {
            reveal_strlit("Streaming");
        }
        "Streaming"
    }
}

impl DatabaseType for Vectored {
    open spec fn spec_mode() -> u32 {
        HS_MODE_VECTORED
    }

    fn mode() -> (r: u32) {
        HS_MODE_VECTORED
    }

    open spec fn spec_name() -> Seq<char> {
        seq!['V', 'e', 'c', 't', 'o', 'r', 'e', 'd']
    }

    fn name() -> (r: &'static str) {
        proof {
            reveal_strlit("Vectored");
        }
        "Vectored"
    }
}

/// A raw database of type `T`, described by the request that the engine
/// compiles it from.
pub struct RawDatabase<T> {
    request: LegacyRequest,
    marker: PhantomData<T>,
}

/// Block scan (non-streaming) database.
pub type BlockDatabase = RawDatabase<Block>;

/// Streaming database.
pub type StreamingDatabase = RawDatabase<Streaming>;

/// Vectored scanning database.
pub type VectoredDatabase = RawDatabase<Vectored>;

impl<T: DatabaseType> RawDatabase<T> {
    /// The request that the database is compiled from.
    pub closed spec fn spec_request(&self) -> LegacyRequest {
        self.request
    }

    /// The database compiled from `request`.
    pub fn from_raw(request: LegacyRequest) -> (r: RawDatabase<T>)
        ensures
            r.spec_request()@ == request@,
    {
        RawDatabase { request, marker: PhantomData }
    }

    /// The request that the database is compiled from.
    pub fn request(&self) -> (r: &LegacyRequest)
        ensures
            r@ == self.spec_request()@,
    {
        &self.request
    }
}


/// Tuning families of the target platform.
#[allow(non_camel_case_types)]
#[derive(Clone, Copy, Debug, PartialEq, Eq, Structural)]
pub enum TuneFamily {
    /// Generic
    HS_TUNE_FAMILY_GENERIC,
    /// Intel(R) microarchitecture code name Sandy Bridge
    HS_TUNE_FAMILY_SNB,
    /// Intel(R) microarchitecture code name Ivy Bridge
    HS_TUNE_FAMILY_IVB,
    /// Intel(R) microarchitecture code name Haswell
    HS_TUNE_FAMILY_HSW,
    /// Intel(R) microarchitecture code name Silvermont
    HS_TUNE_FAMILY_SLM,
    /// Intel(R) microarchitecture code name Broadwell
    HS_TUNE_FAMILY_BDW,
    /// Intel(R) microarchitecture code name Skylake
    HS_TUNE_FAMILY_SKL,
    /// Intel(R) microarchitecture code name Skylake Server
    HS_TUNE_FAMILY_SKX,
    /// Intel(R) microarchitecture code name Goldmont
    HS_TUNE_FAMILY_GLM,
}

impl TuneFamily {
    /// The value that the engine reads.
    pub open spec fn spec_value(self) -> u32 {
        match self {
            TuneFamily::HS_TUNE_FAMILY_GENERIC => 0,
            TuneFamily::HS_TUNE_FAMILY_SNB => 1,
            TuneFamily::HS_TUNE_FAMILY_IVB => 2,
            TuneFamily::HS_TUNE_FAMILY_HSW => 3,
            TuneFamily::HS_TUNE_FAMILY_SLM => 4,
            TuneFamily::HS_TUNE_FAMILY_BDW => 5,
            TuneFamily::HS_TUNE_FAMILY_SKL => 6,
            TuneFamily::HS_TUNE_FAMILY_SKX => 7,
            TuneFamily::HS_TUNE_FAMILY_GLM => 8,
        }
    }

    /// Each family is the engine's constant of the same name, and no two
    /// families share a value.
    pub proof fn lemma_value_engine(t: TuneFamily, u: TuneFamily)
        ensures
            t.spec_value() == match t {
                TuneFamily::HS_TUNE_FAMILY_GENERIC => HS_TUNE_FAMILY_GENERIC,
                TuneFamily::HS_TUNE_FAMILY_SNB => HS_TUNE_FAMILY_SNB,
                TuneFamily::HS_TUNE_FAMILY_IVB => HS_TUNE_FAMILY_IVB,
                TuneFamily::HS_TUNE_FAMILY_HSW => HS_TUNE_FAMILY_HSW,
                TuneFamily::HS_TUNE_FAMILY_SLM => HS_TUNE_FAMILY_SLM,
                TuneFamily::HS_TUNE_FAMILY_BDW => HS_TUNE_FAMILY_BDW,
                TuneFamily::HS_TUNE_FAMILY_SKL => HS_TUNE_FAMILY_SKL,
                TuneFamily::HS_TUNE_FAMILY_SKX => HS_TUNE_FAMILY_SKX,
                TuneFamily::HS_TUNE_FAMILY_GLM => HS_TUNE_FAMILY_GLM,
            },
            t.spec_value() == u.spec_value() ==> t == u,
    {
    }

    /// The value that the engine reads.
    pub fn value(self) -> (r: u32)
        ensures
            r == self.spec_value(),
            r == match self {
                TuneFamily::HS_TUNE_FAMILY_GENERIC => 0u32,
                TuneFamily::HS_TUNE_FAMILY_SNB => 1,
                TuneFamily::HS_TUNE_FAMILY_IVB => 2,
                TuneFamily::HS_TUNE_FAMILY_HSW => 3,
                TuneFamily::HS_TUNE_FAMILY_SLM => 4,
                TuneFamily::HS_TUNE_FAMILY_BDW => 5,
                TuneFamily::HS_TUNE_FAMILY_SKL => 6,
                TuneFamily::HS_TUNE_FAMILY_SKX => 7,
                TuneFamily::HS_TUNE_FAMILY_GLM => 8,
            },
    {
        match self {
            TuneFamily::HS_TUNE_FAMILY_GENERIC => 0,
            TuneFamily::HS_TUNE_FAMILY_SNB => 1,
            TuneFamily::HS_TUNE_FAMILY_IVB => 2,
            TuneFamily::HS_TUNE_FAMILY_HSW => 3,
            TuneFamily::HS_TUNE_FAMILY_SLM => 4,
            TuneFamily::HS_TUNE_FAMILY_BDW => 5,
            TuneFamily::HS_TUNE_FAMILY_SKL => 6,
            TuneFamily::HS_TUNE_FAMILY_SKX => 7,
            TuneFamily::HS_TUNE_FAMILY_GLM => 8,
        }
    }
}

} // verus!
