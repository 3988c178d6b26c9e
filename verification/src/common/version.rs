//! The version number at the start of the engine's version text.

use vstd::prelude::*;

use crate::text::{chars_of, find_char, find_char_in, string_of};

verus! {

/// A semantic version number: `major.minor.patch`, with an optional
/// pre-release and build metadata (empty where absent).
#[derive(Clone, Debug, PartialEq, Eq)]
pub struct Version {
    pub major: u64,
    pub minor: u64,
    pub patch: u64,
    pub pre: String,
    pub build: String,
}

/// The value of a semantic version number.
pub struct VersionView {
    pub major: u64,
    pub minor: u64,
    pub patch: u64,
    pub pre: Seq<char>,
    pub build: Seq<char>,
}

impl View for Version {
    type V = VersionView;

    open spec fn view(&self) -> VersionView {
        VersionView { major: self.major, minor: self.minor, patch: self.patch, pre: self.pre@, build: self.build@ }
    }
}

/// The version number that `semver::Version::parse` reads from a text, or
/// `None` where its grammar refuses the text: a function of the text alone.
pub uninterp spec fn semver_version(text: Seq<char>) -> Option<VersionView>;

/// `semver::Version::parse`, with the error dropped: reads a semantic
/// version number such as `5.4.0`. The contract names its result: the
/// numbers, pre-release and build metadata it reads are those that the
/// crate's grammar gives the text, which the contract does not spell out.
#[verifier::external_body]
fn parse_version(text: &str) -> (r: Option<Version>)
    ensures
        match r {
            Some(v) => semver_version(text@) == Some(v@),
            None => semver_version(text@) is None,
        },
{
    match semver::Version::parse(text) {
        Ok(v) => Some(Version {
            major: v.major,
            minor: v.minor,
            patch: v.patch,
            pre: v.pre.as_str().to_string(),
            build: v.build.as_str().to_string(),
        }),
        Err(_) => None,
    }
}

/// The text before the first space (all of it where there is none).
pub open spec fn first_word(text: Seq<char>) -> Seq<char> {
    match find_char(text, ' ') {
        Some(i) => text.subrange(0, i),
        None => text,
    }
}

/// The version number that the engine's version text (such as
/// `5.4.0 2021-01-26`) starts with: its first space-separated word, read as
/// a semantic version.
pub fn version_of(version_text: &str) -> (r: Option<Version>)
    ensures
        match r {
            Some(v) => semver_version(first_word(version_text@)) == Some(v@),
            None => semver_version(first_word(version_text@)) is None,
        },
{
    let v = chars_of(version_text);
    let end = match find_char_in(&v, ' ', 0) {
        Some(i) => {
            proof {
                crate::text::lemma_find_char_from_some(v@, ' ', 0);
            }
            i
        },
        None => {
            assert(v@.subrange(0, v@.len() as int) == v@);
            v.len()
        },
    };
    let word = string_of(&v, 0, end);
    parse_version(word.as_str())
}

} // verus!
