//! The answer of a match callback.

use vstd::prelude::*;

verus! {

/// Indicating whether or not matching should continue on the target data.
#[derive(Clone, Copy, Debug, PartialEq, Eq, Structural)]
pub enum Matching {
    /// The matching should continue
    Continue,
    /// The matching should cease
    Terminate,
}

impl Matching {
    /// The value that the callback hands back to the engine.
    pub open spec fn spec_code(self) -> i32 {
        match self {
            Matching::Continue => 0,
            Matching::Terminate => 1,
        }
    }

    /// The engine goes on after a zero answer and stops after any other:
    /// only `Continue` answers zero.
    pub proof fn lemma_code_engine(m: Matching)
        ensures
            (m.spec_code() == 0) == (m == Matching::Continue),
    {
    }

    /// The value that the callback hands back to the engine.
    pub fn code(self) -> (r: i32)
        ensures
            r == self.spec_code(),
    {
        match self {
            Matching::Continue => 0,
            Matching::Terminate => 1,
        }
    }
}

impl Default for Matching {
    fn default() -> (r: Matching)
        ensures
            r == Matching::Continue,
    {
        Matching::Continue
    }
}

} // verus!
