//! The three database modes: block, vectored and streaming.

use vstd::prelude::*;

verus! {

/// Mode value of block (non-streaming) databases.
pub const HS_MODE_BLOCK: u32 = 1;

/// Mode value of streaming databases.
pub const HS_MODE_STREAM: u32 = 2;

/// Mode value of vectored databases.
pub const HS_MODE_VECTORED: u32 = 4;

/// Compile mode.
pub trait Mode {
    /// Id of the mode.
    spec fn spec_id() -> u32;

    /// Id of the mode, the value handed to the compiler.
    fn id() -> (r: u32)
        ensures
            r == Self::spec_id(),
    ;

    /// Name of the mode.
    spec fn spec_name() -> Seq<char>;

    /// Name of the mode.
    fn name() -> (r: &'static str)
        ensures
            r@ == Self::spec_name(),
    ;

    /// The given database is a block database.
    fn is_block() -> (r: bool)
        ensures
            r == (Self::spec_id() == HS_MODE_BLOCK),
    {
        Self::id() == HS_MODE_BLOCK
    }

    /// The given database is a vectored database.
    fn is_vectored() -> (r: bool)
        ensures
            r == (Self::spec_id() == HS_MODE_VECTORED),
    {
        Self::id() == HS_MODE_VECTORED
    }

    /// The given database is a streaming database.
    fn is_streaming() -> (r: bool)
        ensures
            r == (Self::spec_id() == HS_MODE_STREAM),
    {
        Self::id() == HS_MODE_STREAM
    }
}

/// Block scan (non-streaming) database.
#[derive(Debug, PartialEq, Eq)]
pub struct Block;

/// Vectored scanning database.
#[derive(Debug, PartialEq, Eq)]
pub struct Vectored;

/// Streaming database.
#[derive(Debug, PartialEq, Eq)]
pub struct Streaming;

impl Mode for Block {
    open spec fn spec_id() -> u32 {
        HS_MODE_BLOCK
    }

    fn id() -> (r: u32) {
        HS_MODE_BLOCK
    }

    open spec fn spec_name() -> Seq<char> {
        seq!['B', 'l', 'o', 'c', 'k']
    }

    fn name() -> (r: &'static str) {
        proof {
            reveal_strlit("Block");
        }
        "Block"
    }
}

impl Mode for Streaming {
    open spec fn spec_id() -> u32 {
        HS_MODE_STREAM
    }

    fn id() -> (r: u32) {
        HS_MODE_STREAM
    }

    open spec fn spec_name() -> Seq<char> {
        seq!['S', 't', 'r', 'e', 'a', 'm', 'i', 'n', 'g']
    }

    fn name() -> (r: &'static str) {
        proof {
            reveal_strlit("Streaming");
        }
        "Streaming"
    }
}

impl Mode for Vectored {
    open spec fn spec_id() -> u32 {
        HS_MODE_VECTORED
    }

    fn id() -> (r: u32) {
        HS_MODE_VECTORED
    }

    open spec fn spec_name() -> Seq<char> {
        seq!['V', 'e', 'c', 't', 'o', 'r', 'e', 'd']
    }

    fn name() -> (r: &'static str) {
        proof {
            reveal_strlit("Vectored");
        }
        "Vectored"
    }
}

} // verus!
