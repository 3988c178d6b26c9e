//! A database serialized to bytes by the engine.

use vstd::prelude::*;

verus! {

/// The bytes of a serialized database.
#[derive(Debug)]
pub struct SerializedDatabase {
    bytes: Vec<u8>,
}

impl SerializedDatabase {
    /// The bytes.
    pub closed spec fn spec_bytes(&self) -> Seq<u8> {
        self.bytes@
    }

    /// The serialized database made of `bytes`.
    pub fn new(bytes: Vec<u8>) -> (r: SerializedDatabase)
        ensures
            r.spec_bytes() == bytes@,
    {
        SerializedDatabase { bytes }
    }

    /// The bytes.
    pub fn as_bytes(&self) -> (r: &[u8])
        ensures
            r@ == self.spec_bytes(),
    {
        self.bytes.as_slice()
    }

    /// The number of bytes.
    pub fn len(&self) -> (r: usize)
        ensures
            r == self.spec_bytes().len(),
    {
        self.bytes.len()
    }
}

} // verus!
