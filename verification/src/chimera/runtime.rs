//! What a Chimera match callback answers, the error events of a scan, and
//! the captured groups of a match.

use std::ops::Range;

use vstd::prelude::*;

verus! {

/// `CH_CALLBACK_CONTINUE`: go on matching.
pub const CH_CALLBACK_CONTINUE: u32 = 0;

/// `CH_CALLBACK_TERMINATE`: stop matching.
pub const CH_CALLBACK_TERMINATE: u32 = 1;

/// `CH_CALLBACK_SKIP_PATTERN`: skip the remaining matches of this pattern.
pub const CH_CALLBACK_SKIP_PATTERN: u32 = 2;

/// `CH_ERROR_MATCHLIMIT`: the matcher hit its match limit.
pub const CH_ERROR_MATCHLIMIT: u32 = 1;

/// `CH_ERROR_RECURSIONLIMIT`: the matcher hit its recursion limit.
pub const CH_ERROR_RECURSIONLIMIT: u32 = 2;

/// Callback return value used to tell the Chimera matcher what to do after processing this match.
#[derive(Clone, Copy, Debug, PartialEq, Eq, Structural)]
pub enum Matching {
    /// Continue matching.
    Continue,
    /// Terminate matching.
    Terminate,
    /// Skip remaining matches for this ID and continue.
    Skip,
}

impl Matching {
    /// The value that the callback hands back to the engine.
    pub open spec fn spec_code(self) -> u32 {
        match self {
            Matching::Continue => 0,
            Matching::Terminate => 1,
            Matching::Skip => 2,
        }
    }

    /// Each answer is the engine's constant for it, and no two answers
    /// share a value.
    pub proof fn lemma_code_engine(m: Matching, n: Matching)
        ensures
            m.spec_code() == match m {
                Matching::Continue => CH_CALLBACK_CONTINUE,
                Matching::Terminate => CH_CALLBACK_TERMINATE,
                Matching::Skip => CH_CALLBACK_SKIP_PATTERN,
            },
            m.spec_code() == n.spec_code() ==> m == n,
    {
    }

    /// The value that the callback hands back to the engine.
    pub fn code(self) -> (r: u32)
        ensures
            r == self.spec_code(),
    {
        match self {
            Matching::Continue => 0,
            Matching::Terminate => 1,
            Matching::Skip => 2,
        }
    }
}

impl Default for Matching {
    fn default() -> (r: Matching)
        ensures
            r == Matching::Continue,
    {
        Matching::Continue
    }
}

/// The type of error event that occurred.
#[derive(Clone, Copy, Debug, PartialEq, Eq, Structural)]
pub enum Error {
    /// PCRE hits its match limit.
    MatchLimit,
    /// PCRE hits its recursion limit.
    RecursionLimit,
}

impl Error {
    /// The error event that an engine value stands for, if any.
    pub open spec fn spec_from_value(v: u32) -> Option<Error> {
        if v == 1 {
            Some(Error::MatchLimit)
        } else if v == 2 {
            Some(Error::RecursionLimit)
        } else {
            None
        }
    }

    /// The engine's constant of an error event.
    pub open spec fn spec_value(self) -> u32 {
        match self {
            Error::MatchLimit => CH_ERROR_MATCHLIMIT,
            Error::RecursionLimit => CH_ERROR_RECURSIONLIMIT,
        }
    }

    /// An engine value stands for the error event whose constant it is, and
    /// for none where it is no such constant.
    pub proof fn lemma_from_value_engine(v: u32, e: Error)
        ensures
            (Error::spec_from_value(v) == Some(e)) == (v == e.spec_value()),
            Error::spec_from_value(v) is None == (v != CH_ERROR_MATCHLIMIT && v != CH_ERROR_RECURSIONLIMIT),
    {
    }

    /// The error event that an engine value stands for, if any.
    pub fn from_value(v: u32) -> (r: Option<Error>)
        ensures
            r == Error::spec_from_value(v),
    {
        if v == 1 {
            Some(Error::MatchLimit)
        } else if v == 2 {
            Some(Error::RecursionLimit)
        } else {
            None
        }
    }
}

/// The capture flag of an active group.
pub const CH_CAPTURE_FLAG_ACTIVE: u32 = 1;

/// Structure representing a captured subexpression within a match.
#[derive(Clone, Copy, Debug, PartialEq, Eq, Structural)]
pub struct Capture {
    /// The capture flags.
    pub flags: u32,
    /// The start offset of the group.
    pub from: u64,
    /// The end offset of the group.
    pub to: u64,
}

impl Capture {
    /// Indicating that a particular capture group is active
    pub fn is_active(&self) -> (r: bool)
        ensures
            r == (self.flags == CH_CAPTURE_FLAG_ACTIVE),
    {
        self.flags == CH_CAPTURE_FLAG_ACTIVE
    }

    /// Returns the range of capture group
    pub fn range(&self) -> (r: Range<usize>)
        ensures
            r.start == self.from as usize,
            r.end == self.to as usize,
    {
        Range { start: self.from as usize, end: self.to as usize }
    }
}

} // verus!
