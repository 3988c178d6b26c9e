//! Patterns: an expression with its flags, id and extended parameters,
//! their textual syntax `id:/expression/flags{ext}`, and sets of patterns.

use vstd::prelude::*;

use crate::compile::expr::{join_entries, lemma_join_no_delimiters, ExprExt};
use crate::error::{Error as CrateError, ParseFailure, ParseIntError};
use vstd::string::StringExecFns;
use crate::text::{
    append_decimal, bit_if, chars_of, decimal, find_pair, find_pair_in, flag_char_if,
    lemma_decimal_digits, lemma_find_pair_at, lemma_find_pair_none, lemma_rfind_char,
    lemma_rfind_char_last, no_delimiters, parse_uint, parse_uint_in, push_char, push_char_if,
    rfind_char, rfind_char_in, string_of, find_char, find_char_range, sub_chars, trim, trim_in,
};

verus! {

/// `HS_FLAG_CASELESS`: case-insensitive matching.
pub const HS_FLAG_CASELESS: u32 = 1;
/// `HS_FLAG_DOTALL`: a `.` also matches newlines.
pub const HS_FLAG_DOTALL: u32 = 2;
/// `HS_FLAG_MULTILINE`: multi-line anchoring.
pub const HS_FLAG_MULTILINE: u32 = 4;
/// `HS_FLAG_SINGLEMATCH`: single-match only mode.
pub const HS_FLAG_SINGLEMATCH: u32 = 8;
/// `HS_FLAG_ALLOWEMPTY`: the expression may match empty buffers.
pub const HS_FLAG_ALLOWEMPTY: u32 = 16;
/// `HS_FLAG_UTF8`: UTF-8 mode.
pub const HS_FLAG_UTF8: u32 = 32;
/// `HS_FLAG_UCP`: Unicode property support.
pub const HS_FLAG_UCP: u32 = 64;
/// `HS_FLAG_PREFILTER`: prefiltering mode.
pub const HS_FLAG_PREFILTER: u32 = 128;
/// `HS_FLAG_SOM_LEFTMOST`: leftmost start of match reporting.
pub const HS_FLAG_SOM_LEFTMOST: u32 = 256;
/// `HS_FLAG_COMBINATION`: logical combination.
pub const HS_FLAG_COMBINATION: u32 = 512;
/// `HS_FLAG_QUIET`: no match reporting.
pub const HS_FLAG_QUIET: u32 = 1024;

/// Pattern flags.
///
/// Each field tells whether one flag is set; `bits` gives the value that
/// the engine reads.
#[derive(Clone, Copy, Debug, PartialEq, Eq, Structural)]
pub struct Flags {
    /// Set case-insensitive matching.
    pub caseless: bool,
    /// Matching a `.` will not exclude newlines.
    pub dotall: bool,
    /// Set multi-line anchoring.
    pub multiline: bool,
    /// Set single-match only mode.
    pub singlematch: bool,
    /// Allow expressions that can match against empty buffers.
    pub allowempty: bool,
    /// Enable UTF-8 mode for this expression.
    pub utf8: bool,
    /// Enable Unicode property support for this expression.
    pub ucp: bool,
    /// Enable prefiltering mode for this expression.
    pub prefilter: bool,
    /// Enable leftmost start of match reporting.
    pub som_leftmost: bool,
    /// Logical combination.
    pub combination: bool,
    /// Don't do any match reporting.
    pub quiet: bool,
}

impl Flags {
    /// The set with no flag.
    pub open spec fn spec_empty() -> Flags {
        Flags { caseless: false, dotall: false, multiline: false, singlematch: false, allowempty: false, utf8: false, ucp: false, prefilter: false, som_leftmost: false, combination: false, quiet: false }
    }

    /// The set of every flag.
    pub open spec fn spec_all() -> Flags {
        Flags { caseless: true, dotall: true, multiline: true, singlematch: true, allowempty: true, utf8: true, ucp: true, prefilter: true, som_leftmost: true, combination: true, quiet: true }
    }

    /// Both sets together.
    pub open spec fn spec_union(self, other: Flags) -> Flags {
        Flags { caseless: self.caseless || other.caseless, dotall: self.dotall || other.dotall, multiline: self.multiline || other.multiline, singlematch: self.singlematch || other.singlematch, allowempty: self.allowempty || other.allowempty, utf8: self.utf8 || other.utf8, ucp: self.ucp || other.ucp, prefilter: self.prefilter || other.prefilter, som_leftmost: self.som_leftmost || other.som_leftmost, combination: self.combination || other.combination, quiet: self.quiet || other.quiet }
    }

    /// The flags of `self` that are not in `other`.
    pub open spec fn spec_difference(self, other: Flags) -> Flags {
        Flags { caseless: self.caseless && !other.caseless, dotall: self.dotall && !other.dotall, multiline: self.multiline && !other.multiline, singlematch: self.singlematch && !other.singlematch, allowempty: self.allowempty && !other.allowempty, utf8: self.utf8 && !other.utf8, ucp: self.ucp && !other.ucp, prefilter: self.prefilter && !other.prefilter, som_leftmost: self.som_leftmost && !other.som_leftmost, combination: self.combination && !other.combination, quiet: self.quiet && !other.quiet }
    }

    /// Every flag of `other` is in `self`.
    pub open spec fn spec_contains(self, other: Flags) -> bool {
        (other.caseless ==> self.caseless)
            && (other.dotall ==> self.dotall)
            && (other.multiline ==> self.multiline)
            && (other.singlematch ==> self.singlematch)
            && (other.allowempty ==> self.allowempty)
            && (other.utf8 ==> self.utf8)
            && (other.ucp ==> self.ucp)
            && (other.prefilter ==> self.prefilter)
            && (other.som_leftmost ==> self.som_leftmost)
            && (other.combination ==> self.combination)
            && (other.quiet ==> self.quiet)
    }

    /// The flag that a character of the flag syntax stands for.
    pub open spec fn spec_flag_of(c: char) -> Option<Flags> {
        if c == 'i' {
            Some(Flags { caseless: true, dotall: false, multiline: false, singlematch: false, allowempty: false, utf8: false, ucp: false, prefilter: false, som_leftmost: false, combination: false, quiet: false })
        } else if c == 's' {
            Some(Flags { caseless: false, dotall: true, multiline: false, singlematch: false, allowempty: false, utf8: false, ucp: false, prefilter: false, som_leftmost: false, combination: false, quiet: false })
        } else if c == 'm' {
            Some(Flags { caseless: false, dotall: false, multiline: true, singlematch: false, allowempty: false, utf8: false, ucp: false, prefilter: false, som_leftmost: false, combination: false, quiet: false })
        } else if c == 'H' {
            Some(Flags { caseless: false, dotall: false, multiline: false, singlematch: true, allowempty: false, utf8: false, ucp: false, prefilter: false, som_leftmost: false, combination: false, quiet: false })
        } else if c == 'V' {
            Some(Flags { caseless: false, dotall: false, multiline: false, singlematch: false, allowempty: true, utf8: false, ucp: false, prefilter: false, som_leftmost: false, combination: false, quiet: false })
        } else if c == '8' {
            Some(Flags { caseless: false, dotall: false, multiline: false, singlematch: false, allowempty: false, utf8: true, ucp: false, prefilter: false, som_leftmost: false, combination: false, quiet: false })
        } else if c == 'W' {
            Some(Flags { caseless: false, dotall: false, multiline: false, singlematch: false, allowempty: false, utf8: false, ucp: true, prefilter: false, som_leftmost: false, combination: false, quiet: false })
        } else if c == 'P' {
            Some(Flags { caseless: false, dotall: false, multiline: false, singlematch: false, allowempty: false, utf8: false, ucp: false, prefilter: true, som_leftmost: false, combination: false, quiet: false })
        } else if c == 'L' {
            Some(Flags { caseless: false, dotall: false, multiline: false, singlematch: false, allowempty: false, utf8: false, ucp: false, prefilter: false, som_leftmost: true, combination: false, quiet: false })
        } else if c == 'C' {
            Some(Flags { caseless: false, dotall: false, multiline: false, singlematch: false, allowempty: false, utf8: false, ucp: false, prefilter: false, som_leftmost: false, combination: true, quiet: false })
        } else if c == 'Q' {
            Some(Flags { caseless: false, dotall: false, multiline: false, singlematch: false, allowempty: false, utf8: false, ucp: false, prefilter: false, som_leftmost: false, combination: false, quiet: true })
        } else {
            None
        }
    }

    /// Reads flag characters left to right into `acc`; the first character
    /// that names no flag is returned as the error.
    pub open spec fn spec_parse_from(s: Seq<char>, acc: Flags) -> Result<Flags, char>
        decreases s.len(),
    {
        if s.len() == 0 {
            Ok(acc)
        } else {
            match Flags::spec_flag_of(s[0]) {
                None => Err(s[0]),
                Some(f) => Flags::spec_parse_from(s.drop_first(), acc.spec_union(f)),
            }
        }
    }

    /// What the flag syntax reads from `s`.
    pub open spec fn spec_parse(s: Seq<char>) -> Result<Flags, char> {
        Flags::spec_parse_from(s, Flags::spec_empty())
    }

    /// The number of flags, which is also the length of the printing order.
    pub open spec fn spec_count() -> nat {
        11
    }

    /// The character of the flag at position `i` of the printing order.
    pub open spec fn spec_char_at(i: int) -> char {
        if i == 0 {
            'i'
        } else if i == 1 {
            'm'
        } else if i == 2 {
            's'
        } else if i == 3 {
            'H'
        } else if i == 4 {
            'V'
        } else if i == 5 {
            '8'
        } else if i == 6 {
            'W'
        } else if i == 7 {
            'P'
        } else if i == 8 {
            'L'
        } else if i == 9 {
            'C'
        } else {
            'Q'
        }
    }

    /// Whether the flag at position `i` of the printing order is set.
    pub open spec fn spec_field_at(self, i: int) -> bool {
        if i == 0 {
            self.caseless
        } else if i == 1 {
            self.multiline
        } else if i == 2 {
            self.dotall
        } else if i == 3 {
            self.singlematch
        } else if i == 4 {
            self.allowempty
        } else if i == 5 {
            self.utf8
        } else if i == 6 {
            self.ucp
        } else if i == 7 {
            self.prefilter
        } else if i == 8 {
            self.som_leftmost
        } else if i == 9 {
            self.combination
        } else {
            self.quiet
        }
    }

    /// The bit of the flag at position `i` of the printing order.
    pub open spec fn spec_bit_at(i: int) -> int {
        if i == 0 {
            1
        } else if i == 1 {
            4
        } else if i == 2 {
            2
        } else if i == 3 {
            8
        } else if i == 4 {
            16
        } else if i == 5 {
            32
        } else if i == 6 {
            64
        } else if i == 7 {
            128
        } else if i == 8 {
            256
        } else if i == 9 {
            512
        } else {
            1024
        }
    }

    /// The sum of the bits of the set flags at the first `n` positions of the printing order.
    pub open spec fn spec_bits_upto(self, n: nat) -> int
        decreases n,
    {
        if n == 0 {
            0
        } else {
            self.spec_bits_upto((n - 1) as nat) + if self.spec_field_at(n - 1) {
                Flags::spec_bit_at(n - 1)
            } else {
                0
            }
        }
    }

    /// The numeric value of the set: the sum of the bits of its flags.
    pub open spec fn spec_bits(self) -> int {
        self.spec_bits_upto(Flags::spec_count())
    }

    fn char_at(i: usize) -> (c: char)
        requires
            i < 11,
        ensures
            c == Flags::spec_char_at(i as int),
    {
        if i == 0 {
            'i'
        } else if i == 1 {
            'm'
        } else if i == 2 {
            's'
        } else if i == 3 {
            'H'
        } else if i == 4 {
            'V'
        } else if i == 5 {
            '8'
        } else if i == 6 {
            'W'
        } else if i == 7 {
            'P'
        } else if i == 8 {
            'L'
        } else if i == 9 {
            'C'
        } else {
            'Q'
        }
    }

    fn field_at(&self, i: usize) -> (b: bool)
        requires
            i < 11,
        ensures
            b == self.spec_field_at(i as int),
    {
        if i == 0 {
            self.caseless
        } else if i == 1 {
            self.multiline
        } else if i == 2 {
            self.dotall
        } else if i == 3 {
            self.singlematch
        } else if i == 4 {
            self.allowempty
        } else if i == 5 {
            self.utf8
        } else if i == 6 {
            self.ucp
        } else if i == 7 {
            self.prefilter
        } else if i == 8 {
            self.som_leftmost
        } else if i == 9 {
            self.combination
        } else {
            self.quiet
        }
    }

    fn bit_at(i: usize) -> (b: u32)
        requires
            i < 11,
        ensures
            b == Flags::spec_bit_at(i as int),
            b <= 1024,
    {
        if i == 0 {
            1
        } else if i == 1 {
            4
        } else if i == 2 {
            2
        } else if i == 3 {
            8
        } else if i == 4 {
            16
        } else if i == 5 {
            32
        } else if i == 6 {
            64
        } else if i == 7 {
            128
        } else if i == 8 {
            256
        } else if i == 9 {
            512
        } else {
            1024
        }
    }

    /// The flag characters of the first `n` positions of the printing order.
    pub open spec fn spec_text_upto(self, n: nat) -> Seq<char>
        decreases n,
    {
        if n == 0 {
            Seq::empty()
        } else {
            self.spec_text_upto((n - 1) as nat) + flag_char_if(
                Flags::spec_char_at(n - 1),
                self.spec_field_at(n - 1),
            )
        }
    }

    /// The flags of `self` at the first `n` positions of the printing order.
    pub open spec fn spec_flags_upto(self, n: nat) -> Flags
        decreases n,
    {
        if n == 0 {
            Flags::spec_empty()
        } else if self.spec_field_at(n - 1) {
            self.spec_flags_upto((n - 1) as nat).spec_union(
                Flags::spec_flag_of(Flags::spec_char_at(n - 1)).unwrap(),
            )
        } else {
            self.spec_flags_upto((n - 1) as nat)
        }
    }

    /// The flag characters of the set, in the printing order.
    pub open spec fn spec_text(self) -> Seq<char> {
        self.spec_text_upto(Flags::spec_count())
    }

    /// The set with no flag.
    pub fn empty() -> (r: Flags)
        ensures
            r == Flags::spec_empty(),
    {
        Flags { caseless: false, dotall: false, multiline: false, singlematch: false, allowempty: false, utf8: false, ucp: false, prefilter: false, som_leftmost: false, combination: false, quiet: false }
    }

    /// The set of every flag.
    pub fn all() -> (r: Flags)
        ensures
            r == Flags::spec_all(),
    {
        Flags { caseless: true, dotall: true, multiline: true, singlematch: true, allowempty: true, utf8: true, ucp: true, prefilter: true, som_leftmost: true, combination: true, quiet: true }
    }

    /// The set holding only the flag: set case-insensitive matching.
    pub fn caseless() -> (r: Flags)
        ensures
            r == (Flags { caseless: true, dotall: false, multiline: false, singlematch: false, allowempty: false, utf8: false, ucp: false, prefilter: false, som_leftmost: false, combination: false, quiet: false }),
    {
        Flags { caseless: true, dotall: false, multiline: false, singlematch: false, allowempty: false, utf8: false, ucp: false, prefilter: false, som_leftmost: false, combination: false, quiet: false }
    }

    /// The set holding only the flag: matching a `.` will not exclude newlines.
    pub fn dotall() -> (r: Flags)
        ensures
            r == (Flags { caseless: false, dotall: true, multiline: false, singlematch: false, allowempty: false, utf8: false, ucp: false, prefilter: false, som_leftmost: false, combination: false, quiet: false }),
    {
        Flags { caseless: false, dotall: true, multiline: false, singlematch: false, allowempty: false, utf8: false, ucp: false, prefilter: false, som_leftmost: false, combination: false, quiet: false }
    }

    /// The set holding only the flag: set multi-line anchoring.
    pub fn multiline() -> (r: Flags)
        ensures
            r == (Flags { caseless: false, dotall: false, multiline: true, singlematch: false, allowempty: false, utf8: false, ucp: false, prefilter: false, som_leftmost: false, combination: false, quiet: false }),
    {
        Flags { caseless: false, dotall: false, multiline: true, singlematch: false, allowempty: false, utf8: false, ucp: false, prefilter: false, som_leftmost: false, combination: false, quiet: false }
    }

    /// The set holding only the flag: set single-match only mode.
    pub fn singlematch() -> (r: Flags)
        ensures
            r == (Flags { caseless: false, dotall: false, multiline: false, singlematch: true, allowempty: false, utf8: false, ucp: false, prefilter: false, som_leftmost: false, combination: false, quiet: false }),
    {
        Flags { caseless: false, dotall: false, multiline: false, singlematch: true, allowempty: false, utf8: false, ucp: false, prefilter: false, som_leftmost: false, combination: false, quiet: false }
    }

    /// The set holding only the flag: allow expressions that can match against empty buffers.
    pub fn allowempty() -> (r: Flags)
        ensures
            r == (Flags { caseless: false, dotall: false, multiline: false, singlematch: false, allowempty: true, utf8: false, ucp: false, prefilter: false, som_leftmost: false, combination: false, quiet: false }),
    {
        Flags { caseless: false, dotall: false, multiline: false, singlematch: false, allowempty: true, utf8: false, ucp: false, prefilter: false, som_leftmost: false, combination: false, quiet: false }
    }

    /// The set holding only the flag: enable UTF-8 mode for this expression.
    pub fn utf8() -> (r: Flags)
        ensures
            r == (Flags { caseless: false, dotall: false, multiline: false, singlematch: false, allowempty: false, utf8: true, ucp: false, prefilter: false, som_leftmost: false, combination: false, quiet: false }),
    {
        Flags { caseless: false, dotall: false, multiline: false, singlematch: false, allowempty: false, utf8: true, ucp: false, prefilter: false, som_leftmost: false, combination: false, quiet: false }
    }

    /// The set holding only the flag: enable Unicode property support for this expression.
    pub fn ucp() -> (r: Flags)
        ensures
            r == (Flags { caseless: false, dotall: false, multiline: false, singlematch: false, allowempty: false, utf8: false, ucp: true, prefilter: false, som_leftmost: false, combination: false, quiet: false }),
    {
        Flags { caseless: false, dotall: false, multiline: false, singlematch: false, allowempty: false, utf8: false, ucp: true, prefilter: false, som_leftmost: false, combination: false, quiet: false }
    }

    /// The set holding only the flag: enable prefiltering mode for this expression.
    pub fn prefilter() -> (r: Flags)
        ensures
            r == (Flags { caseless: false, dotall: false, multiline: false, singlematch: false, allowempty: false, utf8: false, ucp: false, prefilter: true, som_leftmost: false, combination: false, quiet: false }),
    {
        Flags { caseless: false, dotall: false, multiline: false, singlematch: false, allowempty: false, utf8: false, ucp: false, prefilter: true, som_leftmost: false, combination: false, quiet: false }
    }

    /// The set holding only the flag: enable leftmost start of match reporting.
    pub fn som_leftmost() -> (r: Flags)
        ensures
            r == (Flags { caseless: false, dotall: false, multiline: false, singlematch: false, allowempty: false, utf8: false, ucp: false, prefilter: false, som_leftmost: true, combination: false, quiet: false }),
    {
        Flags { caseless: false, dotall: false, multiline: false, singlematch: false, allowempty: false, utf8: false, ucp: false, prefilter: false, som_leftmost: true, combination: false, quiet: false }
    }

    /// The set holding only the flag: logical combination.
    pub fn combination() -> (r: Flags)
        ensures
            r == (Flags { caseless: false, dotall: false, multiline: false, singlematch: false, allowempty: false, utf8: false, ucp: false, prefilter: false, som_leftmost: false, combination: true, quiet: false }),
    {
        Flags { caseless: false, dotall: false, multiline: false, singlematch: false, allowempty: false, utf8: false, ucp: false, prefilter: false, som_leftmost: false, combination: true, quiet: false }
    }

    /// The set holding only the flag: don't do any match reporting.
    pub fn quiet() -> (r: Flags)
        ensures
            r == (Flags { caseless: false, dotall: false, multiline: false, singlematch: false, allowempty: false, utf8: false, ucp: false, prefilter: false, som_leftmost: false, combination: false, quiet: true }),
    {
        Flags { caseless: false, dotall: false, multiline: false, singlematch: false, allowempty: false, utf8: false, ucp: false, prefilter: false, som_leftmost: false, combination: false, quiet: true }
    }

    /// The numeric value of the set.
    pub fn bits(&self) -> (r: u32)
        ensures
            r as int == self.spec_bits(),
    {
        let mut r: u32 = 0;
        let mut i: usize = 0;
        while i < 11
            invariant
                i <= 11,
                r as int == self.spec_bits_upto(i as nat),
                r <= i * 1024,
            decreases 11 - i,
        {
            r = r + bit_if(self.field_at(i), Self::bit_at(i));
            i = i + 1;
        }
        r
    }

    /// The set of the known flags whose bits are set in `bits`; other bits are dropped.
    pub fn from_bits_truncate(bits: u32) -> (r: Flags)
        ensures
            r.caseless == (bits & 1 != 0),
            r.dotall == (bits & 2 != 0),
            r.multiline == (bits & 4 != 0),
            r.singlematch == (bits & 8 != 0),
            r.allowempty == (bits & 16 != 0),
            r.utf8 == (bits & 32 != 0),
            r.ucp == (bits & 64 != 0),
            r.prefilter == (bits & 128 != 0),
            r.som_leftmost == (bits & 256 != 0),
            r.combination == (bits & 512 != 0),
            r.quiet == (bits & 1024 != 0),
    {
        Flags { caseless: bits & 1 != 0, dotall: bits & 2 != 0, multiline: bits & 4 != 0, singlematch: bits & 8 != 0, allowempty: bits & 16 != 0, utf8: bits & 32 != 0, ucp: bits & 64 != 0, prefilter: bits & 128 != 0, som_leftmost: bits & 256 != 0, combination: bits & 512 != 0, quiet: bits & 1024 != 0 }
    }

    /// No flag is set.
    pub fn is_empty(&self) -> (r: bool)
        ensures
            r == (*self == Flags::spec_empty()),
    {
        !self.caseless && !self.dotall && !self.multiline && !self.singlematch && !self.allowempty && !self.utf8 && !self.ucp && !self.prefilter && !self.som_leftmost && !self.combination && !self.quiet
    }

    /// Every flag of `other` is set in `self`.
    pub fn contains(&self, other: Flags) -> (r: bool)
        ensures
            r == self.spec_contains(other),
    {
        (!other.caseless || self.caseless)
            && (!other.dotall || self.dotall)
            && (!other.multiline || self.multiline)
            && (!other.singlematch || self.singlematch)
            && (!other.allowempty || self.allowempty)
            && (!other.utf8 || self.utf8)
            && (!other.ucp || self.ucp)
            && (!other.prefilter || self.prefilter)
            && (!other.som_leftmost || self.som_leftmost)
            && (!other.combination || self.combination)
            && (!other.quiet || self.quiet)
    }

    /// Both sets together.
    pub fn union(self, other: Flags) -> (r: Flags)
        ensures
            r == self.spec_union(other),
    {
        Flags { caseless: self.caseless || other.caseless, dotall: self.dotall || other.dotall, multiline: self.multiline || other.multiline, singlematch: self.singlematch || other.singlematch, allowempty: self.allowempty || other.allowempty, utf8: self.utf8 || other.utf8, ucp: self.ucp || other.ucp, prefilter: self.prefilter || other.prefilter, som_leftmost: self.som_leftmost || other.som_leftmost, combination: self.combination || other.combination, quiet: self.quiet || other.quiet }
    }

    /// Adds the flags of `other`.
    pub fn insert(&mut self, other: Flags)
        ensures
            *final(self) == old(self).spec_union(other),
    {
        *self = self.union(other);
    }

    /// Removes the flags of `other`.
    pub fn remove(&mut self, other: Flags)
        ensures
            *final(self) == old(self).spec_difference(other),
    {
        *self = Flags { caseless: self.caseless && !other.caseless, dotall: self.dotall && !other.dotall, multiline: self.multiline && !other.multiline, singlematch: self.singlematch && !other.singlematch, allowempty: self.allowempty && !other.allowempty, utf8: self.utf8 && !other.utf8, ucp: self.ucp && !other.ucp, prefilter: self.prefilter && !other.prefilter, som_leftmost: self.som_leftmost && !other.som_leftmost, combination: self.combination && !other.combination, quiet: self.quiet && !other.quiet };
    }

    /// The flag that a character of the flag syntax stands for.
    pub fn flag_of(c: char) -> (r: Option<Flags>)
        ensures
            r == Flags::spec_flag_of(c),
    {
        if c == 'i' {
            Some(Flags::caseless())
        } else if c == 's' {
            Some(Flags::dotall())
        } else if c == 'm' {
            Some(Flags::multiline())
        } else if c == 'H' {
            Some(Flags::singlematch())
        } else if c == 'V' {
            Some(Flags::allowempty())
        } else if c == '8' {
            Some(Flags::utf8())
        } else if c == 'W' {
            Some(Flags::ucp())
        } else if c == 'P' {
            Some(Flags::prefilter())
        } else if c == 'L' {
            Some(Flags::som_leftmost())
        } else if c == 'C' {
            Some(Flags::combination())
        } else if c == 'Q' {
            Some(Flags::quiet())
        } else {
            None
        }
    }

    /// Reads the flag characters `s[lo..hi]`; the first character that names
    /// no flag is the error.
    pub fn parse_chars(s: &Vec<char>, lo: usize, hi: usize) -> (r: Result<Flags, char>)
        requires
            lo <= hi <= s.len(),
        ensures
            r == Flags::spec_parse(s@.subrange(lo as int, hi as int)),
    {
        let mut acc = Flags::empty();
        let mut i = lo;
        while i < hi
            invariant
                lo <= i <= hi <= s.len(),
                Flags::spec_parse(s@.subrange(lo as int, hi as int)) == Flags::spec_parse_from(
                    s@.subrange(i as int, hi as int),
                    acc,
                ),
            decreases hi - i,
        {
            assert(s@.subrange(i as int, hi as int).drop_first() == s@.subrange(i + 1, hi as int));
            match Flags::flag_of(s[i]) {
                None => {
                    return Err(s[i]);
                },
                Some(f) => {
                    acc = acc.union(f);
                },
            }
            i = i + 1;
        }
        Ok(acc)
    }

    /// Reads flag characters, such as `ism`.
    pub fn parse(s: &str) -> (r: Result<Flags, CrateError>)
        ensures
            match Flags::spec_parse(s@) {
                Ok(f) => r == Ok::<Flags, CrateError>(f),
                Err(c) => r == Err::<Flags, CrateError>(CrateError::InvalidFlag(c)),
            },
    {
        let v = chars_of(s);
        assert(v@.subrange(0, v@.len() as int) == v@);
        match Flags::parse_chars(&v, 0, v.len()) {
            Ok(f) => Ok(f),
            Err(c) => Err(CrateError::InvalidFlag(c)),
        }
    }

    /// The flag characters of the set.
    pub fn to_string(&self) -> (r: String)
        ensures
            r@ == self.spec_text(),
    {
        let mut r = String::new();
        let mut i: usize = 0;
        while i < 11
            invariant
                i <= 11,
                r@ == self.spec_text_upto(i as nat),
            decreases 11 - i,
        {
            push_char_if(&mut r, Self::char_at(i), self.field_at(i));
            i = i + 1;
        }
        r
    }

    /// Reading a concatenation reads the first part, then the second.
    pub proof fn lemma_parse_concat(x: Seq<char>, y: Seq<char>, acc: Flags)
        ensures
            Flags::spec_parse_from(x + y, acc) == match Flags::spec_parse_from(x, acc) {
                Ok(a) => Flags::spec_parse_from(y, a),
                Err(e) => Err(e),
            },
        decreases x.len(),
    {
        if x.len() == 0 {
            assert(x + y =~= y);
        } else {
            assert((x + y).drop_first() =~= x.drop_first() + y);
            assert((x + y)[0] == x[0]);
            match Flags::spec_flag_of(x[0]) {
                None => {},
                Some(f) => {
                    Flags::lemma_parse_concat(x.drop_first(), y, acc.spec_union(f));
                },
            }
        }
    }

    /// Reading the first `n` printed positions adds their flags.
    pub proof fn lemma_parse_upto(f: Flags, n: nat, acc: Flags)
        requires
            n <= Flags::spec_count(),
        ensures
            Flags::spec_parse_from(f.spec_text_upto(n), acc) == Ok::<Flags, char>(acc.spec_union(f.spec_flags_upto(n))),
        decreases n,
    {
        if n == 0 {
            assert(acc.spec_union(Flags::spec_empty()) == acc);
        } else {
            let m = (n - 1) as nat;
            Flags::lemma_parse_upto(f, m, acc);
            let c = Flags::spec_char_at(n - 1);
            let b = f.spec_field_at(n - 1);
            let opt = flag_char_if(c, b);
            assert(f.spec_text_upto(n) == f.spec_text_upto(m) + opt);
            Flags::lemma_parse_concat(f.spec_text_upto(m), opt, acc);
            let a = acc.spec_union(f.spec_flags_upto(m));
            Flags::lemma_char_at_flag(n - 1);
            if b {
                let g = Flags::spec_flag_of(c).unwrap();
                assert(opt.drop_first() =~= Seq::<char>::empty());
                assert(Flags::spec_parse_from(opt, a) == Flags::spec_parse_from(Seq::<char>::empty(), a.spec_union(g)));
                assert(f.spec_flags_upto(n) == f.spec_flags_upto(m).spec_union(g));
                assert(a.spec_union(g) == acc.spec_union(f.spec_flags_upto(n)));
            } else {
                assert(opt =~= Seq::<char>::empty());
                assert(f.spec_flags_upto(n) == f.spec_flags_upto(m));
            }
        }
    }

    /// Every position of the printing order names a flag.
    pub proof fn lemma_char_at_flag(i: int)
        requires
            0 <= i < Flags::spec_count(),
        ensures
            Flags::spec_flag_of(Flags::spec_char_at(i)) is Some,
    {
    }

    /// Reading back the flag characters of a set gives the set.
    pub proof fn lemma_parse_text(f: Flags)
        ensures
            Flags::spec_parse(f.spec_text()) == Ok::<Flags, char>(f),
    {
        Flags::lemma_parse_upto(f, Flags::spec_count(), Flags::spec_empty());
        reveal_with_fuel(Flags::spec_flags_upto, 12);
        assert(Flags::spec_empty().spec_union(f.spec_flags_upto(Flags::spec_count())) == f);
    }

}

impl Flags {
    /// The value of a flag set is the sum of the engine's constants of its
    /// flags, so each flag sets exactly its own constant's bit.
    pub proof fn lemma_bits_engine(f: Flags)
        ensures
            f.spec_bits() == (if f.caseless { HS_FLAG_CASELESS as int } else { 0 }) + (if f.dotall { HS_FLAG_DOTALL as int } else { 0 }) + (if f.multiline { HS_FLAG_MULTILINE as int } else { 0 }) + (if f.singlematch { HS_FLAG_SINGLEMATCH as int } else { 0 }) + (if f.allowempty { HS_FLAG_ALLOWEMPTY as int } else { 0 }) + (if f.utf8 { HS_FLAG_UTF8 as int } else { 0 }) + (if f.ucp { HS_FLAG_UCP as int } else { 0 }) + (if f.prefilter { HS_FLAG_PREFILTER as int } else { 0 }) + (if f.som_leftmost { HS_FLAG_SOM_LEFTMOST as int } else { 0 }) + (if f.combination { HS_FLAG_COMBINATION as int } else { 0 }) + (if f.quiet { HS_FLAG_QUIET as int } else { 0 }),
        (f.spec_bits() as u32 & HS_FLAG_CASELESS != 0) == f.caseless,
        (f.spec_bits() as u32 & HS_FLAG_DOTALL != 0) == f.dotall,
        (f.spec_bits() as u32 & HS_FLAG_MULTILINE != 0) == f.multiline,
        (f.spec_bits() as u32 & HS_FLAG_SINGLEMATCH != 0) == f.singlematch,
        (f.spec_bits() as u32 & HS_FLAG_ALLOWEMPTY != 0) == f.allowempty,
        (f.spec_bits() as u32 & HS_FLAG_UTF8 != 0) == f.utf8,
        (f.spec_bits() as u32 & HS_FLAG_UCP != 0) == f.ucp,
        (f.spec_bits() as u32 & HS_FLAG_PREFILTER != 0) == f.prefilter,
        (f.spec_bits() as u32 & HS_FLAG_SOM_LEFTMOST != 0) == f.som_leftmost,
        (f.spec_bits() as u32 & HS_FLAG_COMBINATION != 0) == f.combination,
        (f.spec_bits() as u32 & HS_FLAG_QUIET != 0) == f.quiet,
    {
        reveal_with_fuel(Flags::spec_bits_upto, 12);
        lemma_bits_of_sum(f.caseless, f.dotall, f.multiline, f.singlematch, f.allowempty, f.utf8, f.ucp, f.prefilter, f.som_leftmost, f.combination, f.quiet, f.spec_bits() as u32);
    }

    proof fn lemma_parse_from_chars(s: Seq<char>, acc: Flags)
        ensures
            Flags::spec_parse_from(s, acc) matches Ok(g) ==> {
                &&& g.caseless == (acc.caseless || s.contains('i'))
                &&& g.dotall == (acc.dotall || s.contains('s'))
                &&& g.multiline == (acc.multiline || s.contains('m'))
                &&& g.singlematch == (acc.singlematch || s.contains('H'))
                &&& g.allowempty == (acc.allowempty || s.contains('V'))
                &&& g.utf8 == (acc.utf8 || s.contains('8'))
                &&& g.ucp == (acc.ucp || s.contains('W'))
                &&& g.prefilter == (acc.prefilter || s.contains('P'))
                &&& g.som_leftmost == (acc.som_leftmost || s.contains('L'))
                &&& g.combination == (acc.combination || s.contains('C'))
                &&& g.quiet == (acc.quiet || s.contains('Q'))
            },
        decreases s.len(),
    {
        if s.len() > 0 {
            Flags::lemma_parse_from_chars(s.drop_first(), acc);
            if let Some(f) = Flags::spec_flag_of(s[0]) {
                Flags::lemma_parse_from_chars(s.drop_first(), acc.spec_union(f));
            }
            lemma_contains_first(s, 'i');
            lemma_contains_first(s, 's');
            lemma_contains_first(s, 'm');
            lemma_contains_first(s, 'H');
            lemma_contains_first(s, 'V');
            lemma_contains_first(s, '8');
            lemma_contains_first(s, 'W');
            lemma_contains_first(s, 'P');
            lemma_contains_first(s, 'L');
            lemma_contains_first(s, 'C');
            lemma_contains_first(s, 'Q');
        }
    }

    /// Each flag character names its own flag: flags read from a text hold
    /// a flag exactly when the text holds its character (`i` caseless, `s`
    /// dot-all, `m` multi-line, `H` single-match, `V` allow-empty, `8` UTF-8,
    /// `W` Unicode properties, `P` prefilter, `L` leftmost start of match,
    /// `C` combination, `Q` quiet).
    pub proof fn lemma_parse_chars(s: Seq<char>)
        ensures
            Flags::spec_parse(s) matches Ok(g) ==> {
                &&& g.caseless == s.contains('i')
                &&& g.dotall == s.contains('s')
                &&& g.multiline == s.contains('m')
                &&& g.singlematch == s.contains('H')
                &&& g.allowempty == s.contains('V')
                &&& g.utf8 == s.contains('8')
                &&& g.ucp == s.contains('W')
                &&& g.prefilter == s.contains('P')
                &&& g.som_leftmost == s.contains('L')
                &&& g.combination == s.contains('C')
                &&& g.quiet == s.contains('Q')
            },
    {
        Flags::lemma_parse_from_chars(s, Flags::spec_empty());
    }

    /// The text of a flag set holds a flag's character exactly when the set
    /// holds the flag.
    pub proof fn lemma_text_chars(f: Flags)
        ensures
        f.spec_text().contains('i') == f.caseless,
        f.spec_text().contains('s') == f.dotall,
        f.spec_text().contains('m') == f.multiline,
        f.spec_text().contains('H') == f.singlematch,
        f.spec_text().contains('V') == f.allowempty,
        f.spec_text().contains('8') == f.utf8,
        f.spec_text().contains('W') == f.ucp,
        f.spec_text().contains('P') == f.prefilter,
        f.spec_text().contains('L') == f.som_leftmost,
        f.spec_text().contains('C') == f.combination,
        f.spec_text().contains('Q') == f.quiet,
    {
        Flags::lemma_parse_text(f);
        Flags::lemma_parse_chars(f.spec_text());
    }
}

/// A sequence holds `x` exactly when its first element is `x` or the rest
/// holds `x`.
pub proof fn lemma_contains_first<T>(s: Seq<T>, x: T)
    requires
        s.len() > 0,
    ensures
        s.contains(x) == (s[0] == x || s.drop_first().contains(x)),
{
    if s.contains(x) && s[0] != x {
        let i = choose|i: int| 0 <= i < s.len() && s[i] == x;
        assert(s.drop_first()[i - 1] == x);
    }
    if s.drop_first().contains(x) {
        let i = choose|i: int| 0 <= i < s.len() - 1 && s.drop_first()[i] == x;
        assert(s[i + 1] == x);
    }
    if s[0] == x {
        assert(s.contains(x));
    }
}

/// A sum of distinct powers of two, each present or not, has exactly the
/// bits of the present ones.
pub proof fn lemma_bits_of_sum(
    a: bool, b: bool, c: bool, d: bool, e: bool, f: bool, g: bool, h: bool, i: bool, j: bool, k: bool, v: u32,
)
    requires
        v == (if a { 1u32 } else { 0u32 }) + (if b { 2u32 } else { 0u32 }) + (if c { 4u32 } else { 0u32 }) + (if d {
            8u32
        } else {
            0u32
        }) + (if e { 16u32 } else { 0u32 }) + (if f { 32u32 } else { 0u32 }) + (if g { 64u32 } else { 0u32 }) + (if h {
            128u32
        } else {
            0u32
        }) + (if i { 256u32 } else { 0u32 }) + (if j { 512u32 } else { 0u32 }) + (if k { 1024u32 } else { 0u32 }),
    ensures
        (v & 1 != 0) == a && (v & 2 != 0) == b && (v & 4 != 0) == c && (v & 8 != 0) == d && (v & 16 != 0) == e
            && (v & 32 != 0) == f && (v & 64 != 0) == g && (v & 128 != 0) == h && (v & 256 != 0) == i && (v & 512
            != 0) == j && (v & 1024 != 0) == k && v < 2048,
{
    assert((v & 1 != 0) == a && (v & 2 != 0) == b && (v & 4 != 0) == c && (v & 8 != 0) == d && (v & 16 != 0) == e
            && (v & 32 != 0) == f && (v & 64 != 0) == g && (v & 128 != 0) == h && (v & 256 != 0) == i && (v & 512
            != 0) == j && (v & 1024 != 0) == k && v < 2048) by (bit_vector)
        requires
            v == (if a { 1u32 } else { 0u32 }) + (if b { 2u32 } else { 0u32 }) + (if c { 4u32 } else { 0u32 }) + (if d {
            8u32
        } else {
            0u32
        }) + (if e { 16u32 } else { 0u32 }) + (if f { 32u32 } else { 0u32 }) + (if g { 64u32 } else { 0u32 }) + (if h {
            128u32
        } else {
            0u32
        }) + (if i { 256u32 } else { 0u32 }) + (if j { 512u32 } else { 0u32 }) + (if k { 1024u32 } else { 0u32 }),
    ;
}

impl vstd::std_specs::ops::BitOrSpecImpl for Flags {
    open spec fn obeys_bitor_spec() -> bool {
        true
    }

    open spec fn bitor_req(self, rhs: Flags) -> bool {
        true
    }

    open spec fn bitor_spec(self, rhs: Flags) -> Flags {
        self.spec_union(rhs)
    }
}

impl std::ops::BitOr for Flags {
    type Output = Flags;

    fn bitor(self, rhs: Flags) -> (r: Flags) {
        self.union(rhs)
    }
}

impl std::ops::BitOrAssign for Flags {
    fn bitor_assign(&mut self, rhs: Flags)
        ensures
            *final(self) == old(self).spec_union(rhs),
    {
        self.insert(rhs);
    }
}

impl std::str::FromStr for Flags {
    type Err = CrateError;

    fn from_str(s: &str) -> (r: Result<Flags, CrateError>)
        ensures
            match Flags::spec_parse(s@) {
                Ok(f) => r == Ok::<Flags, CrateError>(f),
                Err(c) => r == Err::<Flags, CrateError>(CrateError::InvalidFlag(c)),
            },
    {
        Flags::parse(s)
    }
}

impl Default for Flags {
    fn default() -> (r: Flags)
        ensures
            r == Flags::spec_empty(),
    {
        Flags::empty()
    }
}



/// Mode bit: full precision for start of match offsets in stream state.
pub const HS_MODE_SOM_HORIZON_LARGE: u32 = 16777216;

/// Mode bit: medium precision for start of match offsets in stream state.
pub const HS_MODE_SOM_HORIZON_MEDIUM: u32 = 33554432;

/// Mode bit: small precision for start of match offsets in stream state.
pub const HS_MODE_SOM_HORIZON_SMALL: u32 = 67108864;

/// Defines the precision to track start of match offsets in stream state.
///
/// The order is `Large < Medium < Small`.
#[derive(Clone, Copy, Debug, PartialEq, Eq, Structural, PartialOrd, Ord)]
pub enum SomHorizon {
    /// Use full precision to track start of match offsets in stream state.
    Large,
    /// Use medium precision: start of match offsets within 2^32 bytes of the end of match.
    Medium,
    /// Use limited precision: start of match offsets within 2^16 bytes of the end of match.
    Small,
}

impl SomHorizon {
    /// The mode bit of the precision.
    pub open spec fn spec_bits(self) -> u32 {
        match self {
            SomHorizon::Large => HS_MODE_SOM_HORIZON_LARGE,
            SomHorizon::Medium => HS_MODE_SOM_HORIZON_MEDIUM,
            SomHorizon::Small => HS_MODE_SOM_HORIZON_SMALL,
        }
    }

    /// The position of the precision in the order `Large < Medium < Small`.
    pub open spec fn spec_rank(self) -> int {
        match self {
            SomHorizon::Large => 0,
            SomHorizon::Medium => 1,
            SomHorizon::Small => 2,
        }
    }

    /// The mode bit of the precision.
    pub fn bits(self) -> (r: u32)
        ensures
            r == self.spec_bits(),
    {
        match self {
            SomHorizon::Large => HS_MODE_SOM_HORIZON_LARGE,
            SomHorizon::Medium => HS_MODE_SOM_HORIZON_MEDIUM,
            SomHorizon::Small => HS_MODE_SOM_HORIZON_SMALL,
        }
    }
}

/// The later of two optional precisions in the order `Large < Medium < Small`
/// (`None` where both are `None`).
pub open spec fn som_max(a: Option<SomHorizon>, b: Option<SomHorizon>) -> Option<SomHorizon> {
    match (a, b) {
        (None, _) => b,
        (_, None) => a,
        (Some(x), Some(y)) => if x.spec_rank() <= y.spec_rank() {
            b
        } else {
            a
        },
    }
}

pub(crate) fn som_max_exec(a: Option<SomHorizon>, b: Option<SomHorizon>) -> (r: Option<SomHorizon>)
    ensures
        r == som_max(a, b),
{
    match (a, b) {
        (None, _) => b,
        (_, None) => a,
        (Some(x), Some(y)) => {
            let rx: u8 = match x {
                SomHorizon::Large => 0,
                SomHorizon::Medium => 1,
                SomHorizon::Small => 2,
            };
            let ry: u8 = match y {
                SomHorizon::Large => 0,
                SomHorizon::Medium => 1,
                SomHorizon::Small => 2,
            };
            if rx <= ry {
                b
            } else {
                a
            }
        },
    }
}

/// What a pattern holds, with the expression as a sequence of characters.
pub struct PatternView {
    pub expression: Seq<char>,
    pub flags: Flags,
    pub id: Option<usize>,
    pub ext: ExprExt,
    pub som: Option<SomHorizon>,
}

/// The pattern with basic regular expression.
#[derive(Clone, Debug, PartialEq, Eq)]
pub struct Pattern {
    /// The expression to parse.
    pub expression: String,
    /// Flags which modify the behaviour of the expression.
    pub flags: Flags,
    /// ID number to be associated with the corresponding pattern in the expressions array.
    pub id: Option<usize>,
    /// Extended behaviour for this pattern
    pub ext: ExprExt,
    /// The precision to track start of match offsets in stream state.
    pub som: Option<SomHorizon>,
}

impl View for Pattern {
    type V = PatternView;

    open spec fn view(&self) -> PatternView {
        PatternView {
            expression: self.expression@,
            flags: self.flags,
            id: self.id,
            ext: self.ext,
            som: self.som,
        }
    }
}

impl PatternView {
    /// The precision that a compile in streaming mode asks for: the pattern's
    /// own, or `Medium`, where leftmost start of match is reported; else none.
    pub open spec fn spec_som(self) -> Option<SomHorizon> {
        if self.flags.som_leftmost {
            match self.som {
                Some(h) => Some(h),
                None => Some(SomHorizon::Medium),
            }
        } else {
            None
        }
    }

    /// The pattern with the flags of `f` added.
    pub open spec fn with_flags_added(self, f: Flags) -> PatternView {
        PatternView { flags: self.flags.spec_union(f), ..self }
    }
}

/// The pattern holding `expression` and `flags`, with no id, extension or precision.
pub open spec fn plain_pattern(expression: Seq<char>, flags: Flags) -> PatternView {
    PatternView { expression, flags, id: None, ext: ExprExt::spec_default(), som: None }
}

impl Pattern {
    /// Construct a pattern with expression.
    pub fn new(expr: &str) -> (r: Result<Pattern, CrateError>)
        ensures
            r matches Ok(p) && p@ == plain_pattern(expr@, Flags::spec_empty()),
    {
        Ok(Pattern {
            expression: expr.to_string(),
            flags: Flags::empty(),
            id: None,
            ext: ExprExt::new(),
            som: None,
        })
    }

    /// Construct a pattern with expression and flags.
    pub fn with_flags(expr: &str, flags: Flags) -> (r: Result<Pattern, CrateError>)
        ensures
            r matches Ok(p) && p@ == plain_pattern(expr@, flags),
    {
        Ok(Pattern {
            expression: expr.to_string(),
            flags,
            id: None,
            ext: ExprExt::new(),
            som: None,
        })
    }

    fn add_flags(self, f: Flags) -> (r: Self)
        ensures
            r@ == self@.with_flags_added(f),
    {
        let mut p = self;
        p.flags = p.flags.union(f);
        p
    }

    /// Set case-insensitive matching.
    pub fn caseless(self) -> (r: Self)
        ensures
            r@ == self@.with_flags_added(Flags { caseless: true, ..Flags::spec_empty() }),
    {
        self.add_flags(Flags::caseless())
    }

    /// Matching a `.` will not exclude newlines.
    pub fn dot_all(self) -> (r: Self)
        ensures
            r@ == self@.with_flags_added(Flags { dotall: true, ..Flags::spec_empty() }),
    {
        self.add_flags(Flags::dotall())
    }

    /// Set multi-line anchoring.
    pub fn multi_line(self) -> (r: Self)
        ensures
            r@ == self@.with_flags_added(Flags { multiline: true, ..Flags::spec_empty() }),
    {
        self.add_flags(Flags::multiline())
    }

    /// Set single-match only mode.
    pub fn single_match(self) -> (r: Self)
        ensures
            r@ == self@.with_flags_added(Flags { singlematch: true, ..Flags::spec_empty() }),
    {
        self.add_flags(Flags::singlematch())
    }

    /// Allow expressions that can match against empty buffers.
    pub fn allow_empty(self) -> (r: Self)
        ensures
            r@ == self@.with_flags_added(Flags { allowempty: true, ..Flags::spec_empty() }),
    {
        self.add_flags(Flags::allowempty())
    }

    /// Enable UTF-8 mode for this expression.
    pub fn utf8(self) -> (r: Self)
        ensures
            r@ == self@.with_flags_added(Flags { utf8: true, ..Flags::spec_empty() }),
    {
        self.add_flags(Flags::utf8())
    }

    /// Enable Unicode property support for this expression.
    pub fn ucp(self) -> (r: Self)
        ensures
            r@ == self@.with_flags_added(Flags { ucp: true, ..Flags::spec_empty() }),
    {
        self.add_flags(Flags::ucp())
    }

    /// Enable prefiltering mode for this expression.
    pub fn prefilter(self) -> (r: Self)
        ensures
            r@ == self@.with_flags_added(Flags { prefilter: true, ..Flags::spec_empty() }),
    {
        self.add_flags(Flags::prefilter())
    }

    /// Report the leftmost start of match offset when a match is found.
    pub fn left_most(self) -> (r: Self)
        ensures
            r@ == self@.with_flags_added(Flags { som_leftmost: true, ..Flags::spec_empty() }),
    {
        self.add_flags(Flags::som_leftmost())
    }

    /// Logical combination.
    pub fn combination(self) -> (r: Self)
        ensures
            r@ == self@.with_flags_added(Flags { combination: true, ..Flags::spec_empty() }),
    {
        self.add_flags(Flags::combination())
    }

    /// Don't do any match reporting.
    pub fn quiet(self) -> (r: Self)
        ensures
            r@ == self@.with_flags_added(Flags { quiet: true, ..Flags::spec_empty() }),
    {
        self.add_flags(Flags::quiet())
    }

    /// The precision that a compile in streaming mode asks for.
    pub fn som(&self) -> (r: Option<SomHorizon>)
        ensures
            r == self@.spec_som(),
    {
        if self.flags.contains(Flags::som_leftmost()) {
            match self.som {
                Some(h) => Some(h),
                None => Some(SomHorizon::Medium),
            }
        } else {
            None
        }
    }
}


/// What the syntax reads from the text `rem` after the closing `/`: the
/// flags, then an extension in braces where `rem` ends with `}` and holds a `{`.
pub open spec fn spec_parse_tail(id: Option<usize>, inner: Seq<char>, rem: Seq<char>) -> Result<PatternView, ParseFailure> {
    if rem.len() > 0 && rem.last() == '}' && rfind_char(rem, '{') is Some {
        let start = rfind_char(rem, '{').unwrap();
        match Flags::spec_parse(rem.subrange(0, start)) {
            Err(c) => Err(ParseFailure::InvalidFlag(c)),
            Ok(flags) => match ExprExt::spec_parse(rem.subrange(start, rem.len() as int)) {
                Err(f) => Err(f),
                Ok(ext) => Ok(PatternView { expression: inner, flags, id, ext, som: None }),
            },
        }
    } else {
        match Flags::spec_parse(rem) {
            Err(c) => Err(ParseFailure::InvalidFlag(c)),
            Ok(flags) => Ok(PatternView { expression: inner, flags, id, ext: ExprExt::spec_default(), som: None }),
        }
    }
}

/// What the pattern syntax reads from `e`, the text after the id: with a
/// leading `/` and a later `/`, the expression between them and the flags
/// and extension after the last one; else the whole text as the expression.
pub open spec fn spec_parse_body(id: Option<usize>, e: Seq<char>) -> Result<PatternView, ParseFailure> {
    if e.len() > 0 && e[0] == '/' && rfind_char(e, '/') is Some && rfind_char(e, '/').unwrap() > 0 {
        let end = rfind_char(e, '/').unwrap();
        spec_parse_tail(id, e.subrange(1, end), e.subrange(end + 1, e.len() as int))
    } else {
        Ok(PatternView { expression: e, flags: Flags::spec_empty(), id, ext: ExprExt::spec_default(), som: None })
    }
}

/// What the pattern syntax `id:/expression/flags{ext}` reads from `s`: the
/// text before the first `:/` is the id, a decimal `usize`.
pub open spec fn spec_parse_pattern(s: Seq<char>) -> Result<PatternView, ParseFailure> {
    match find_pair(s, ':', '/') {
        Some(off) => match parse_uint(s.subrange(0, off), usize::MAX as int) {
            Err(k) => Err(ParseFailure::ParseInt(k)),
            Ok(id) => spec_parse_body(Some(id as usize), s.subrange(off + 1, s.len() as int)),
        },
        None => spec_parse_body(None, s),
    }
}

/// `r` is what the syntax reads, or the error that reports its failure.
pub open spec fn parse_outcome(r: Result<Pattern, CrateError>, spec: Result<PatternView, ParseFailure>) -> bool {
    match r {
        Ok(p) => spec == Ok::<PatternView, ParseFailure>(p@),
        Err(e) => match spec {
            Ok(_) => false,
            Err(f) => e.reports(f),
        },
    }
}

impl Pattern {
    fn parse_tail(s: &Vec<char>, lo: usize, end: usize, hi: usize, id: Option<usize>) -> (r: Result<Pattern, CrateError>)
        requires
            lo <= end < hi <= s.len(),
        ensures
            parse_outcome(r, spec_parse_tail(id, s@.subrange(lo as int, end as int), s@.subrange(end + 1, hi as int))),
    {
        let ghost rem = s@.subrange(end + 1, hi as int);
        let rem_lo = end + 1;
        let expression = string_of(s, lo, end);
        if rem_lo < hi && s[hi - 1] == '}' {
            match rfind_char_in(s, '{', rem_lo, hi) {
                Some(start) => {
                    proof {
                        lemma_rfind_char(rem, '{');
                    }
                    assert(rem.subrange(0, start as int) == s@.subrange(rem_lo as int, rem_lo + start));
                    assert(rem.subrange(start as int, rem.len() as int) == s@.subrange(rem_lo + start, hi as int));
                    let flags = match Flags::parse_chars(s, rem_lo, rem_lo + start) {
                        Err(c) => {
                            return Err(CrateError::InvalidFlag(c));
                        },
                        Ok(f) => f,
                    };
                    let ext = match ExprExt::parse_chars(s, rem_lo + start, hi) {
                        Err(x) => {
                            return Err(x);
                        },
                        Ok(x) => x,
                    };
                    return Ok(Pattern { expression, flags, id, ext, som: None });
                },
                None => {},
            }
        }
        match Flags::parse_chars(s, rem_lo, hi) {
            Err(c) => Err(CrateError::InvalidFlag(c)),
            Ok(flags) => Ok(Pattern { expression, flags, id, ext: ExprExt::new(), som: None }),
        }
    }

    fn parse_body(s: &Vec<char>, lo: usize, hi: usize, id: Option<usize>) -> (r: Result<Pattern, CrateError>)
        requires
            lo <= hi <= s.len(),
        ensures
            parse_outcome(r, spec_parse_body(id, s@.subrange(lo as int, hi as int))),
    {
        let ghost e = s@.subrange(lo as int, hi as int);
        if lo < hi && s[lo] == '/' {
            match rfind_char_in(s, '/', lo, hi) {
                None => {},
                Some(end) => {
                    if end > 0 {
                        proof {
                            lemma_rfind_char(e, '/');
                        }
                        assert(e.subrange(end + 1, e.len() as int) == s@.subrange(lo + end + 1, hi as int));
                        assert(e.subrange(1, end as int) == s@.subrange(lo + 1, lo + end));
                        return Pattern::parse_tail(s, lo + 1, lo + end, hi, id);
                    }
                },
            }
        }
        Ok(Pattern { expression: string_of(s, lo, hi), flags: Flags::empty(), id, ext: ExprExt::new(), som: None })
    }

    /// Reads a pattern from the characters of `s`.
    pub fn parse_chars(s: &Vec<char>) -> (r: Result<Pattern, CrateError>)
        ensures
            parse_outcome(r, spec_parse_pattern(s@)),
    {
        match find_pair_in(s, ':', '/') {
            Some(off) => {
                proof {
                    crate::text::lemma_find_pair_from_some(s@, ':', '/', 0);
                }
                match parse_uint_in(s, 0, off, usize::MAX as u64) {
                    Err(k) => Err(CrateError::ParseInt(ParseIntError { kind: k })),
                    Ok(v) => {
                        assert(s@.subrange(off + 1, s@.len() as int) == s@.subrange(off + 1, s.len() as int));
                        Pattern::parse_body(s, off + 1, s.len(), Some(v as usize))
                    },
                }
            },
            None => {
                assert(s@.subrange(0, s@.len() as int) == s@);
                Pattern::parse_body(s, 0, s.len(), None)
            },
        }
    }

    /// Reads a pattern in the syntax `id:/expression/flags{ext}`, where the
    /// id, the slashes, the flags and the extension may be left out.
    pub fn parse(s: &str) -> (r: Result<Pattern, CrateError>)
        ensures
            parse_outcome(r, spec_parse_pattern(s@)),
    {
        let v = chars_of(s);
        Pattern::parse_chars(&v)
    }
}

impl std::str::FromStr for Pattern {
    type Err = CrateError;

    fn from_str(s: &str) -> (r: Result<Pattern, CrateError>)
        ensures
            parse_outcome(r, spec_parse_pattern(s@)),
    {
        Pattern::parse(s)
    }
}


impl PatternView {
    /// The expression is printed between slashes: an id, a flag or an
    /// extension parameter is there.
    pub open spec fn is_delimited(self) -> bool {
        self.id is Some || self.flags != Flags::spec_empty() || !self.ext.spec_is_empty()
    }

    /// The flag characters printed after the expression.
    pub open spec fn spec_flags_text(self) -> Seq<char> {
        if self.flags != Flags::spec_empty() {
            self.flags.spec_text()
        } else {
            Seq::empty()
        }
    }

    /// The extension printed after the flags, where a parameter is in use.
    pub open spec fn spec_ext_text(self) -> Seq<char> {
        if !self.ext.spec_is_empty() {
            self.ext.spec_text()
        } else {
            Seq::empty()
        }
    }

    /// The text of the pattern: `id:` where there is an id, the expression
    /// (between slashes where it is delimited), the flag characters, and the
    /// extension where a parameter is in use.
    pub open spec fn spec_text(self) -> Seq<char> {
        let id_text = match self.id {
            Some(n) => decimal(n as nat) + seq![':'],
            None => Seq::empty(),
        };
        let body = if self.is_delimited() {
            seq!['/'] + self.expression + seq!['/']
        } else {
            self.expression
        };
        id_text + body + self.spec_flags_text() + self.spec_ext_text()
    }
}

impl Pattern {
    /// The text of the pattern, in the syntax that `parse` reads.
    pub fn to_string(&self) -> (r: String)
        ensures
            r@ == self@.spec_text(),
    {
        let mut r = String::new();
        match self.id {
            Some(n) => {
                append_decimal(&mut r, n as u64);
                push_char(&mut r, ':');
            },
            None => {},
        }
        let delimited = self.id.is_some() || !self.flags.is_empty() || !self.ext.is_empty();
        if delimited {
            push_char(&mut r, '/');
            r.append(self.expression.as_str());
            push_char(&mut r, '/');
        } else {
            r.append(self.expression.as_str());
        }
        if !self.flags.is_empty() {
            let t = self.flags.to_string();
            r.append(t.as_str());
        }
        if !self.ext.is_empty() {
            let t = self.ext.to_string();
            r.append(t.as_str());
        }
        assert(r@ =~= self@.spec_text());
        r
    }
}


/// `e` starts with `/` and holds another `/` after it, so that the pattern
/// syntax reads it as delimited.
pub open spec fn starts_delimited(e: Seq<char>) -> bool {
    e.len() > 0 && e[0] == '/' && rfind_char(e, '/') is Some && rfind_char(e, '/').unwrap() > 0
}

/// The flag characters hold no delimiter of the pattern syntax.
pub proof fn lemma_flags_text_no_delimiters(f: Flags, n: nat)
    requires
        n <= Flags::spec_count(),
    ensures
        no_delimiters(f.spec_text_upto(n)),
    decreases n,
{
    if n > 0 {
        lemma_flags_text_no_delimiters(f, (n - 1) as nat);
        let a = f.spec_text_upto((n - 1) as nat);
        let b = flag_char_if(Flags::spec_char_at(n - 1), f.spec_field_at(n - 1));
        let t = f.spec_text_upto(n);
        assert(t == a + b);
        assert forall|j: int| 0 <= j < t.len() implies t[j] != '/' && t[j] != ':' && t[j] != '{' && t[j] != '}' by {
            if j < a.len() {
                assert(t[j] == a[j]);
            } else {
                assert(t[j] == b[j - a.len()]);
            }
        }
    }
}

/// The flag and extension texts of a pattern hold no delimiter, except the
/// braces that open and close the extension.
proof fn lemma_tail_texts(p: PatternView)
    ensures
        no_delimiters(p.spec_flags_text()),
        p.ext.spec_is_empty() ==> p.spec_ext_text().len() == 0,
        !p.ext.spec_is_empty() ==> p.spec_ext_text() == seq!['{'] + join_entries(p.ext.spec_entries()) + seq!['}'],
        no_delimiters(join_entries(p.ext.spec_entries())),
{
    lemma_flags_text_no_delimiters(p.flags, Flags::spec_count());
    lemma_join_no_delimiters(p.ext.spec_entries());
}

/// The flag text of a pattern reads back as its flags.
proof fn lemma_flags_text_parse(p: PatternView)
    ensures
        Flags::spec_parse(p.spec_flags_text()) == Ok::<Flags, char>(p.flags),
{
    if p.flags != Flags::spec_empty() {
        Flags::lemma_parse_text(p.flags);
    }
}

/// Reading the delimited text of a pattern (what follows its id) gives the pattern.
proof fn lemma_parse_body_text(p: PatternView)
    requires
        p.som is None,
        p.is_delimited(),
    ensures
        spec_parse_body(p.id, seq!['/'] + p.expression + seq!['/'] + p.spec_flags_text() + p.spec_ext_text())
            == Ok::<PatternView, ParseFailure>(p),
{
    let f = p.spec_flags_text();
    let x = p.spec_ext_text();
    let a = seq!['/'] + p.expression + seq!['/'];
    let b = f + x;
    let e = a + f + x;
    lemma_tail_texts(p);
    let j_text = join_entries(p.ext.spec_entries());
    assert forall|j: int| 0 <= j < b.len() implies b[j] != '/' by {
        if j < f.len() {
            assert(b[j] == f[j]);
        } else if !p.ext.spec_is_empty() {
            assert(b[j] == x[j - f.len()]);
            if 0 < j - f.len() < x.len() - 1 {
                assert(x[j - f.len()] == j_text[j - f.len() - 1]);
            }
        }
    }
    assert(e == a + b);
    lemma_rfind_char_last(a, '/', b);
    let end = a.len() - 1;
    assert(e[0] == '/');
    assert(e.subrange(1, end) =~= p.expression);
    assert(e.subrange(end + 1, e.len() as int) =~= b);
    lemma_flags_text_parse(p);
    if !p.ext.spec_is_empty() {
        let c = f + seq!['{'];
        let d = j_text + seq!['}'];
        assert(b =~= c + d);
        assert forall|j: int| 0 <= j < d.len() implies d[j] != '{' by {
            if j < j_text.len() {
                assert(d[j] == j_text[j]);
            }
        }
        lemma_rfind_char_last(c, '{', d);
        assert(b.last() == '}');
        assert(b.subrange(0, f.len() as int) =~= f);
        assert(b.subrange(f.len() as int, b.len() as int) =~= x);
        crate::compile::expr::lemma_ext_parse_text(p.ext);
    } else {
        assert(b =~= f);
        if b.len() > 0 {
            assert(b.last() == f[f.len() - 1]);
        }
        assert(p.ext == ExprExt::spec_default());
    }
}

/// Reading back the text of a pattern gives the pattern, for a pattern
/// without a precision (the syntax has none) whose text reads the same way:
/// without an id, the text must hold no `:/`, and an expression printed
/// without slashes must not look delimited itself.
pub proof fn lemma_pattern_text_roundtrip(p: PatternView)
    requires
        p.som is None,
        p.id is None && p.is_delimited() ==> find_pair(p.expression.push('/'), ':', '/') is None,
        p.id is None && !p.is_delimited() ==> find_pair(p.expression, ':', '/') is None
            && !starts_delimited(p.expression),
    ensures
        spec_parse_pattern(p.spec_text()) == Ok::<PatternView, ParseFailure>(p),
{
    let f = p.spec_flags_text();
    let x = p.spec_ext_text();
    let s = p.spec_text();
    lemma_tail_texts(p);
    let j_text = join_entries(p.ext.spec_entries());
    match p.id {
        Some(n) => {
            let d = decimal(n as nat);
            let rest = seq!['/'] + p.expression + seq!['/'] + f + x;
            lemma_decimal_digits(n as nat);
            assert(s =~= d + seq![':'] + rest);
            let i = d.len() as int;
            assert(s[i] == ':');
            assert(s[i + 1] == '/');
            assert forall|j: int| 0 <= j < i implies !(#[trigger] s[j] == ':' && s[j + 1] == '/') by {
                assert(s[j] == d[j]);
            }
            lemma_find_pair_at(s, ':', '/', i);
            assert(s.subrange(0, i) =~= d);
            crate::text::lemma_parse_decimal(n as nat, usize::MAX as int);
            assert(s.subrange(i + 1, s.len() as int) =~= rest);
            lemma_parse_body_text(p);
        },
        None => {
            if p.is_delimited() {
                let q = p.expression.push('/');
                crate::text::lemma_find_pair_from_some(q, ':', '/', 0);
                assert(s =~= seq!['/'] + q + f + x);
                assert forall|j: int| 0 <= j && j + 1 < s.len() implies !(#[trigger] s[j] == ':' && s[j + 1] == '/') by {
                    if 1 <= j && j + 1 <= q.len() {
                        assert(s[j] == q[j - 1]);
                        assert(s[j + 1] == q[j]);
                    } else if j > q.len() {
                        let k = j - q.len() - 1;
                        if k < f.len() {
                            assert(s[j] == f[k]);
                        } else {
                            assert(s[j] == x[k - f.len()]);
                            if 0 < k - f.len() < x.len() - 1 {
                                assert(x[k - f.len()] == j_text[k - f.len() - 1]);
                            }
                        }
                    }
                }
                lemma_find_pair_none(s, ':', '/');
                assert(s =~= seq!['/'] + p.expression + seq!['/'] + f + x);
                lemma_parse_body_text(p);
            } else {
                assert(s =~= p.expression);
                assert(p.ext == ExprExt::spec_default());
            }
        },
    }
}


/// The sequence holding `o`'s pattern, if any.
pub open spec fn opt_seq(o: Option<PatternView>) -> Seq<PatternView> {
    match o {
        Some(p) => seq![p],
        None => Seq::empty(),
    }
}

/// `a` followed by the patterns of `r`, or the failure of `r`.
pub open spec fn prepend_views(a: Seq<PatternView>, r: Result<Seq<PatternView>, ParseFailure>) -> Result<Seq<PatternView>, ParseFailure> {
    match r {
        Ok(ps) => Ok(a + ps),
        Err(f) => Err(f),
    }
}

/// What one line of a pattern list reads: nothing for a line that is empty
/// or starts with `#` once trimmed, else the pattern on it.
pub open spec fn spec_parse_line(line: Seq<char>) -> Result<Option<PatternView>, ParseFailure> {
    let t = trim(line);
    if t.len() == 0 || t[0] == '#' {
        Ok(None)
    } else {
        match spec_parse_pattern(t) {
            Ok(p) => Ok(Some(p)),
            Err(f) => Err(f),
        }
    }
}

/// What a pattern list reads from `s`: the patterns of its lines, in order;
/// the first line refused gives the failure.
pub open spec fn spec_parse_lines(s: Seq<char>) -> Result<Seq<PatternView>, ParseFailure>
    decreases s.len(),
{
    match find_char(s, '\n') {
        None => match spec_parse_line(s) {
            Err(f) => Err(f),
            Ok(o) => Ok(opt_seq(o)),
        },
        Some(i) => if 0 <= i < s.len() {
            match spec_parse_line(s.subrange(0, i)) {
                Err(f) => Err(f),
                Ok(o) => prepend_views(opt_seq(o), spec_parse_lines(s.subrange(i + 1, s.len() as int))),
            }
        } else {
            Ok(Seq::empty())
        },
    }
}

/// Some pattern reports the leftmost start of match.
pub open spec fn any_leftmost(ps: Seq<PatternView>) -> bool {
    exists|i: int| 0 <= i < ps.len() && (#[trigger] ps[i]).flags.som_leftmost
}

/// The latest precision that the patterns name.
pub open spec fn max_som(ps: Seq<PatternView>) -> Option<SomHorizon>
    decreases ps.len(),
{
    if ps.len() == 0 {
        None
    } else {
        som_max(max_som(ps.drop_last()), ps.last().som)
    }
}

/// The precision that a compile of the patterns in streaming mode asks for:
/// where one reports the leftmost start of match, the latest that they name,
/// or `Medium`; else none.
pub open spec fn patterns_som(ps: Seq<PatternView>) -> Option<SomHorizon> {
    if any_leftmost(ps) {
        match max_som(ps) {
            Some(h) => Some(h),
            None => Some(SomHorizon::Medium),
        }
    } else {
        None
    }
}

/// The views of a vector of patterns.
pub open spec fn views_of(v: Seq<Pattern>) -> Seq<PatternView> {
    v.map_values(|p: Pattern| p@)
}

/// Vec of `Pattern`
#[derive(Clone, Debug)]
pub struct Patterns(pub Vec<Pattern>);

impl View for Patterns {
    type V = Seq<PatternView>;

    open spec fn view(&self) -> Seq<PatternView> {
        views_of(self.0@)
    }
}

impl Patterns {
    fn parse_line(v: &Vec<char>, lo: usize, hi: usize) -> (r: Result<Option<Pattern>, CrateError>)
        requires
            lo <= hi <= v.len(),
        ensures
            match r {
                Ok(Some(p)) => spec_parse_line(v@.subrange(lo as int, hi as int)) == Ok::<Option<PatternView>, ParseFailure>(Some(p@)),
                Ok(None) => spec_parse_line(v@.subrange(lo as int, hi as int)) == Ok::<Option<PatternView>, ParseFailure>(None),
                Err(e) => match spec_parse_line(v@.subrange(lo as int, hi as int)) {
                    Ok(_) => false,
                    Err(f) => e.reports(f),
                },
            },
    {
        let (a, b) = trim_in(v, lo, hi);
        if a == b || v[a] == '#' {
            Ok(None)
        } else {
            let sub = sub_chars(v, a, b);
            match Pattern::parse_chars(&sub) {
                Ok(p) => Ok(Some(p)),
                Err(e) => Err(e),
            }
        }
    }

    /// Reads a list of patterns, one per line; empty lines and lines that
    /// start with `#` are skipped.
    pub fn parse(s: &str) -> (r: Result<Patterns, CrateError>)
        ensures
            match r {
                Ok(ps) => spec_parse_lines(s@) == Ok::<Seq<PatternView>, ParseFailure>(ps@),
                Err(e) => match spec_parse_lines(s@) {
                    Ok(_) => false,
                    Err(f) => e.reports(f),
                },
            },
    {
        let v = chars_of(s);
        let mut out: Vec<Pattern> = Vec::new();
        let mut start: usize = 0;
        assert(v@.subrange(0, v@.len() as int) == v@);
        loop
            invariant
                start <= v.len(),
                v@ == s@,
                spec_parse_lines(s@) == prepend_views(views_of(out@), spec_parse_lines(v@.subrange(start as int, v.len() as int))),
            decreases v.len() - start,
        {
            let ghost rest = v@.subrange(start as int, v.len() as int);
            match find_char_range(&v, '\n', start, v.len()) {
                None => {
                    assert(rest == v@.subrange(start as int, v.len() as int));
                    let ghost before = views_of(out@);
                    return match Patterns::parse_line(&v, start, v.len()) {
                        Err(e) => Err(e),
                        Ok(o) => {
                            match o {
                                Some(p) => {
                                    out.push(p);
                                    assert(views_of(out@) =~= before + seq![p@]);
                                },
                                None => {
                                    assert(before + Seq::<PatternView>::empty() =~= before);
                                },
                            }
                            Ok(Patterns(out))
                        },
                    };
                },
                Some(i) => {
                    proof {
                        crate::text::lemma_find_char_from_some(rest, '\n', 0);
                    }
                    let end = start + i;
                    assert(rest.subrange(0, i as int) == v@.subrange(start as int, end as int));
                    assert(rest.subrange(i + 1, rest.len() as int) == v@.subrange(end + 1, v.len() as int));
                    let ghost before = views_of(out@);
                    match Patterns::parse_line(&v, start, end) {
                        Err(e) => {
                            return Err(e);
                        },
                        Ok(o) => {
                            let ghost ov: Option<PatternView> = match &o {
                                Some(p) => Some(p@),
                                None => None,
                            };
                            match o {
                                Some(p) => {
                                    out.push(p);
                                    assert(views_of(out@) =~= before + seq![p@]);
                                },
                                None => {
                                    assert(before + Seq::<PatternView>::empty() =~= before);
                                },
                            }
                            assert(views_of(out@) == before + opt_seq(ov));
                            let ghost tail = v@.subrange(end + 1, v.len() as int);
                            assert(spec_parse_lines(rest) == prepend_views(opt_seq(ov), spec_parse_lines(tail)));
                            proof {
                                match spec_parse_lines(tail) {
                                    Ok(ps) => {
                                        assert(before + (opt_seq(ov) + ps) =~= (before + opt_seq(ov)) + ps);
                                    },
                                    Err(_) => {},
                                }
                            }
                        },
                    }
                    start = end + 1;
                },
            }
        }
    }

    /// The precision that a compile of the patterns in streaming mode asks for.
    pub fn som(&self) -> (r: Option<SomHorizon>)
        ensures
            r == patterns_som(self@),
    {
        let mut any = false;
        let mut best: Option<SomHorizon> = None;
        let mut i: usize = 0;
        while i < self.0.len()
            invariant
                i <= self.0.len(),
                any == any_leftmost(self@.subrange(0, i as int)),
                best == max_som(self@.subrange(0, i as int)),
            decreases self.0.len() - i,
        {
            let ghost pre = self@.subrange(0, i as int);
            let ghost next = self@.subrange(0, i + 1);
            assert(next.drop_last() == pre);
            assert(next.last() == self.0@[i as int]@);
            if self.0[i].flags.som_leftmost {
                any = true;
                assert(next[i as int].flags.som_leftmost);
            } else {
                assert(any == any_leftmost(next)) by {
                    if any_leftmost(next) {
                        let k = choose|k: int| 0 <= k < next.len() && (#[trigger] next[k]).flags.som_leftmost;
                        if k < i {
                            assert(pre[k] == next[k]);
                        }
                    }
                    if any {
                        let k = choose|k: int| 0 <= k < pre.len() && (#[trigger] pre[k]).flags.som_leftmost;
                        assert(pre[k] == next[k]);
                    }
                }
            }
            best = som_max_exec(best, self.0[i].som);
            i = i + 1;
        }
        assert(self@.subrange(0, self.0.len() as int) == self@);
        if any {
            match best {
                Some(h) => Some(h),
                None => Some(SomHorizon::Medium),
            }
        } else {
            None
        }
    }
}

impl std::str::FromStr for Patterns {
    type Err = CrateError;

    fn from_str(s: &str) -> (r: Result<Patterns, CrateError>)
        ensures
            match r {
                Ok(ps) => spec_parse_lines(s@) == Ok::<Seq<PatternView>, ParseFailure>(ps@),
                Err(e) => match spec_parse_lines(s@) {
                    Ok(_) => false,
                    Err(f) => e.reports(f),
                },
            },
    {
        Patterns::parse(s)
    }
}


proof fn lemma_max_som_bounds(ps: Seq<PatternView>)
    ensures
        forall|i: int| 0 <= i < ps.len() && (#[trigger] ps[i]).som is Some ==> max_som(ps) is Some
            && ps[i].som.unwrap().spec_rank() <= max_som(ps).unwrap().spec_rank(),
        max_som(ps) is Some ==> exists|i: int| 0 <= i < ps.len() && (#[trigger] ps[i]).som == max_som(ps),
    decreases ps.len(),
{
    if ps.len() > 0 {
        let pre = ps.drop_last();
        lemma_max_som_bounds(pre);
        assert forall|i: int| 0 <= i < ps.len() && (#[trigger] ps[i]).som is Some implies max_som(ps) is Some
            && ps[i].som.unwrap().spec_rank() <= max_som(ps).unwrap().spec_rank() by {
            if i < ps.len() - 1 {
                assert(pre[i] == ps[i]);
            }
        }
        if max_som(ps) is Some {
            if max_som(ps) == ps.last().som {
                assert(ps[ps.len() - 1] == ps.last());
            } else {
                let k = choose|k: int| 0 <= k < pre.len() && (#[trigger] pre[k]).som == max_som(pre);
                assert(ps[k] == pre[k]);
            }
        }
    }
}

/// Where a pattern of the list reports the leftmost start of match, a
/// streaming compile asks for a precision no coarser than any that a pattern
/// names, and that precision is one of them (or `Medium` where none names
/// one); else it asks for none.
pub proof fn lemma_patterns_som(ps: Seq<PatternView>)
    ensures
        !any_leftmost(ps) ==> patterns_som(ps) is None,
        any_leftmost(ps) ==> patterns_som(ps) is Some,
        any_leftmost(ps) ==> forall|i: int| 0 <= i < ps.len() && (#[trigger] ps[i]).som is Some
            ==> ps[i].som.unwrap().spec_rank() <= patterns_som(ps).unwrap().spec_rank(),
        any_leftmost(ps) ==> (exists|i: int| 0 <= i < ps.len() && (#[trigger] ps[i]).som == patterns_som(ps))
            || (patterns_som(ps) == Some(SomHorizon::Medium) && forall|i: int|
            0 <= i < ps.len() ==> (#[trigger] ps[i]).som is None),
{
    lemma_max_som_bounds(ps);
}

} // verus!
