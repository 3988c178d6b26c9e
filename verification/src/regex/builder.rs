//! A configurable builder for regular expressions.

use vstd::prelude::*;

use crate::common::mode::HS_MODE_BLOCK;

use crate::compile::builder::pattern_request;
use crate::compile::pattern::{plain_pattern, Flags};
use crate::error::Error as CrateError;
use crate::regex::re::{regex_flags, regex_outcome, Regex};

verus! {

/// A configurable builder for a regular expression.
///
/// A builder can be used to configure how the regex is built, for example,
/// by setting the default flags.
pub struct Builder<T> {
    expr: T,
    flags: Flags,
}

/// A configurable builder for a regular expression.
pub type RegexBuilder = Builder<String>;

/// A configurable builder for a set of regular expressions.
pub type RegexSetBuilder = Builder<Vec<String>>;

impl<T> Builder<T> {
    /// The expression (or expressions) to build.
    pub closed spec fn spec_expr(&self) -> T {
        self.expr
    }

    /// The flags that the build adds.
    pub closed spec fn spec_flags(&self) -> Flags {
        self.flags
    }

    /// `flags` with `flag` set where `yes` holds, else cleared.
    pub open spec fn toggled(flags: Flags, flag: Flags, yes: bool) -> Flags {
        if yes {
            flags.spec_union(flag)
        } else {
            flags.spec_difference(flag)
        }
    }

    fn toggle(&mut self, flag: Flags, yes: bool) -> (r: &mut Self)
        ensures
            r.spec_expr() == old(self).spec_expr(),
            r.spec_flags() == Self::toggled(old(self).spec_flags(), flag, yes),
            *final(self) == *final(r),
    {
        if yes {
            self.flags.insert(flag);
        } else {
            self.flags.remove(flag);
        }
        self
    }

    /// Set the value for the case insensitive (`i`) flag.
    pub fn case_insensitive(&mut self, yes: bool) -> (r: &mut Self)
        ensures
            r.spec_expr() == old(self).spec_expr(),
            r.spec_flags() == Self::toggled(old(self).spec_flags(), Flags { caseless: true, ..Flags::spec_empty() }, yes),
            *final(self) == *final(r),
    {
        self.toggle(Flags::caseless(), yes)
    }

    /// Set the value for the multi-line matching (`m`) flag.
    pub fn multi_line(&mut self, yes: bool) -> (r: &mut Self)
        ensures
            r.spec_expr() == old(self).spec_expr(),
            r.spec_flags() == Self::toggled(old(self).spec_flags(), Flags { multiline: true, ..Flags::spec_empty() }, yes),
            *final(self) == *final(r),
    {
        self.toggle(Flags::multiline(), yes)
    }

    /// Set the value for the any character (`s`) flag.
    pub fn dot_matches_new_line(&mut self, yes: bool) -> (r: &mut Self)
        ensures
            r.spec_expr() == old(self).spec_expr(),
            r.spec_flags() == Self::toggled(old(self).spec_flags(), Flags { dotall: true, ..Flags::spec_empty() }, yes),
            *final(self) == *final(r),
    {
        self.toggle(Flags::dotall(), yes)
    }

    /// Set the value for the Unicode (u) flag.
    pub fn unicode(&mut self, yes: bool) -> (r: &mut Self)
        ensures
            r.spec_expr() == old(self).spec_expr(),
            r.spec_flags() == Self::toggled(old(self).spec_flags(), Flags { ucp: true, ..Flags::spec_empty() }, yes),
            *final(self) == *final(r),
    {
        self.toggle(Flags::ucp(), yes)
    }
}

impl Builder<String> {
    /// Create a new regular expression builder with the given pattern;
    /// Unicode is enabled, and no other flag.
    pub fn new(pattern: &str) -> (r: Self)
        ensures
            r.spec_expr()@ == pattern@,
            r.spec_flags() == (Flags { ucp: true, ..Flags::spec_empty() }),
    {
        Builder { expr: pattern.to_string(), flags: Flags::ucp() }
    }

    /// Compile the regular expression with the builder's flags.
    pub fn build(&self) -> (r: Result<Regex, CrateError>)
        ensures
            regex_outcome(r, pattern_request(plain_pattern(self.spec_expr()@, regex_flags(self.spec_flags())), None, HS_MODE_BLOCK)),
    {
        Regex::with_flags(self.expr.as_str(), self.flags)
    }
}

} // verus!
