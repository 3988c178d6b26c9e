//! Compile flags, expression extensions, patterns and compile requests of
//! the first interface.

use vstd::prelude::*;

use crate::common::mode::HS_MODE_STREAM;
use crate::compile::builder::{entry_id, first_nul, nul_position, platform_of};
use crate::compile::expr::{
    lemma_ext_bits_of_sum, HS_EXT_FLAG_EDIT_DISTANCE, HS_EXT_FLAG_HAMMING_DISTANCE, HS_EXT_FLAG_MAX_OFFSET,
    HS_EXT_FLAG_MIN_LENGTH, HS_EXT_FLAG_MIN_OFFSET,
};
use crate::compile::literal::{escaped, lemma_escaped_plain, no_meta};
use crate::compile::pattern::{
    lemma_bits_of_sum, lemma_contains_first, HS_FLAG_ALLOWEMPTY, HS_FLAG_CASELESS, HS_FLAG_DOTALL,
    HS_FLAG_MULTILINE, HS_FLAG_PREFILTER, HS_FLAG_SINGLEMATCH, HS_FLAG_SOM_LEFTMOST, HS_FLAG_UCP, HS_FLAG_UTF8,
    HS_MODE_SOM_HORIZON_SMALL,
};
use crate::compile::platform::Platform;
use crate::error::{Error as CrateError, NulError, ParseFailure};
use crate::legacy::common::{DatabaseType, RawDatabase};
use crate::text::{
    append_decimal, chars_of, decimal, digits_value, find_char, find_char_in, flag_char_if,
    lemma_decimal_digits, lemma_digits_prefix_err, lemma_find_char_at, lemma_find_char_from_some,
    lemma_rfind_char_last, lacks, lemma_lacks_concat, lemma_rfind_char, parse_uint, parse_uint_in, push_char,
    push_char_if, rfind_char, rfind_char_in, string_of,
};
use vstd::string::StringExecFns;

verus! {

/// Pattern flags, named as the engine's constants.
#[derive(Clone, Copy, Debug, PartialEq, Eq, Structural)]
pub struct CompileFlags {
    /// `HS_FLAG_CASELESS`: set case-insensitive matching.
    pub caseless: bool,
    /// `HS_FLAG_DOTALL`: matching a `.` will not exclude newlines.
    pub dotall: bool,
    /// `HS_FLAG_MULTILINE`: set multi-line anchoring.
    pub multiline: bool,
    /// `HS_FLAG_SINGLEMATCH`: set single-match only mode.
    pub singlematch: bool,
    /// `HS_FLAG_ALLOWEMPTY`: allow expressions that can match against empty buffers.
    pub allowempty: bool,
    /// `HS_FLAG_UTF8`: enable UTF-8 mode for this expression.
    pub utf8: bool,
    /// `HS_FLAG_UCP`: enable Unicode property support for this expression.
    pub ucp: bool,
    /// `HS_FLAG_PREFILTER`: enable prefiltering mode for this expression.
    pub prefilter: bool,
    /// `HS_FLAG_SOM_LEFTMOST`: enable leftmost start of match reporting.
    pub som_leftmost: bool,
}

impl CompileFlags {
    /// The set with no flag.
    pub open spec fn spec_empty() -> CompileFlags {
        CompileFlags {
            caseless: false,
            dotall: false,
            multiline: false,
            singlematch: false,
            allowempty: false,
            utf8: false,
            ucp: false,
            prefilter: false,
            som_leftmost: false,
        }
    }

    /// Both sets together.
    pub open spec fn spec_union(self, o: CompileFlags) -> CompileFlags {
        CompileFlags {
            caseless: self.caseless || o.caseless,
            dotall: self.dotall || o.dotall,
            multiline: self.multiline || o.multiline,
            singlematch: self.singlematch || o.singlematch,
            allowempty: self.allowempty || o.allowempty,
            utf8: self.utf8 || o.utf8,
            ucp: self.ucp || o.ucp,
            prefilter: self.prefilter || o.prefilter,
            som_leftmost: self.som_leftmost || o.som_leftmost,
        }
    }

    /// Every flag of `o` is in `self`.
    pub open spec fn spec_contains(self, o: CompileFlags) -> bool {
        (o.caseless ==> self.caseless) && (o.dotall ==> self.dotall) && (o.multiline ==> self.multiline)
            && (o.singlematch ==> self.singlematch) && (o.allowempty ==> self.allowempty) && (o.utf8
            ==> self.utf8) && (o.ucp ==> self.ucp) && (o.prefilter ==> self.prefilter) && (o.som_leftmost
            ==> self.som_leftmost)
    }

    /// The flag that a character of the flag syntax stands for.
    pub open spec fn spec_flag_of(c: char) -> Option<CompileFlags> {
        if c == 'i' {
            Some(CompileFlags { caseless: true, ..CompileFlags::spec_empty() })
        } else if c == 'm' {
            Some(CompileFlags { multiline: true, ..CompileFlags::spec_empty() })
        } else if c == 's' {
            Some(CompileFlags { dotall: true, ..CompileFlags::spec_empty() })
        } else if c == 'H' {
            Some(CompileFlags { singlematch: true, ..CompileFlags::spec_empty() })
        } else if c == 'V' {
            Some(CompileFlags { allowempty: true, ..CompileFlags::spec_empty() })
        } else if c == '8' {
            Some(CompileFlags { utf8: true, ..CompileFlags::spec_empty() })
        } else if c == 'W' {
            Some(CompileFlags { ucp: true, ..CompileFlags::spec_empty() })
        } else {
            None
        }
    }

    /// Reads flag characters left to right into `acc`; the first character
    /// that names no flag is the error.
    pub open spec fn spec_parse_from(s: Seq<char>, acc: CompileFlags) -> Result<CompileFlags, char>
        decreases s.len(),
    {
        if s.len() == 0 {
            Ok(acc)
        } else {
            match CompileFlags::spec_flag_of(s[0]) {
                None => Err(s[0]),
                Some(f) => CompileFlags::spec_parse_from(s.drop_first(), acc.spec_union(f)),
            }
        }
    }

    /// What the flag syntax reads from `s`.
    pub open spec fn spec_parse(s: Seq<char>) -> Result<CompileFlags, char> {
        CompileFlags::spec_parse_from(s, CompileFlags::spec_empty())
    }

    /// The flag characters of the set, in the order `i m s H V 8 W` (the
    /// prefilter and leftmost flags have none).
    pub open spec fn spec_text(self) -> Seq<char> {
        flag_char_if('i', self.caseless) + flag_char_if('m', self.multiline) + flag_char_if('s', self.dotall)
            + flag_char_if('H', self.singlematch) + flag_char_if('V', self.allowempty) + flag_char_if(
            '8',
            self.utf8,
        ) + flag_char_if('W', self.ucp)
    }

    /// The raw bit set that the engine reads.
    pub open spec fn spec_bits(self) -> u32 {
        ((if self.caseless { 1int } else { 0 }) + (if self.dotall { 2int } else { 0 }) + (if self.multiline {
            4int
        } else {
            0
        }) + (if self.singlematch { 8int } else { 0 }) + (if self.allowempty { 16int } else { 0 }) + (
        if self.utf8 {
            32int
        } else {
            0
        }) + (if self.ucp { 64int } else { 0 }) + (if self.prefilter { 128int } else { 0 }) + (
        if self.som_leftmost {
            256int
        } else {
            0
        })) as u32
    }

    /// The set with no flag.
    pub fn empty() -> (r: CompileFlags)
        ensures
            r == CompileFlags::spec_empty(),
    {
        CompileFlags {
            caseless: false,
            dotall: false,
            multiline: false,
            singlematch: false,
            allowempty: false,
            utf8: false,
            ucp: false,
            prefilter: false,
            som_leftmost: false,
        }
    }

    /// No flag is set.
    pub fn is_empty(&self) -> (r: bool)
        ensures
            r == (*self == CompileFlags::spec_empty()),
    {
        !self.caseless && !self.dotall && !self.multiline && !self.singlematch && !self.allowempty
            && !self.utf8 && !self.ucp && !self.prefilter && !self.som_leftmost
    }

    /// Every flag of `o` is set in `self`.
    pub fn contains(&self, o: CompileFlags) -> (r: bool)
        ensures
            r == self.spec_contains(o),
    {
        (!o.caseless || self.caseless) && (!o.dotall || self.dotall) && (!o.multiline || self.multiline)
            && (!o.singlematch || self.singlematch) && (!o.allowempty || self.allowempty) && (!o.utf8
            || self.utf8) && (!o.ucp || self.ucp) && (!o.prefilter || self.prefilter) && (!o.som_leftmost
            || self.som_leftmost)
    }

    /// Both sets together.
    pub fn union(self, o: CompileFlags) -> (r: CompileFlags)
        ensures
            r == self.spec_union(o),
    {
        CompileFlags {
            caseless: self.caseless || o.caseless,
            dotall: self.dotall || o.dotall,
            multiline: self.multiline || o.multiline,
            singlematch: self.singlematch || o.singlematch,
            allowempty: self.allowempty || o.allowempty,
            utf8: self.utf8 || o.utf8,
            ucp: self.ucp || o.ucp,
            prefilter: self.prefilter || o.prefilter,
            som_leftmost: self.som_leftmost || o.som_leftmost,
        }
    }

    /// The raw bit set that the engine reads.
    pub fn bits(&self) -> (r: u32)
        ensures
            r == self.spec_bits(),
    {
        let a: u32 = if self.caseless { 1 } else { 0 };
        let b: u32 = if self.dotall { 2 } else { 0 };
        let c: u32 = if self.multiline { 4 } else { 0 };
        let d: u32 = if self.singlematch { 8 } else { 0 };
        let e: u32 = if self.allowempty { 16 } else { 0 };
        let f: u32 = if self.utf8 { 32 } else { 0 };
        let g: u32 = if self.ucp { 64 } else { 0 };
        let h: u32 = if self.prefilter { 128 } else { 0 };
        let k: u32 = if self.som_leftmost { 256 } else { 0 };
        a + b + c + d + e + f + g + h + k
    }

    fn flag_of(c: char) -> (r: Option<CompileFlags>)
        ensures
            r == CompileFlags::spec_flag_of(c),
    {
        let e = CompileFlags::empty();
        if c == 'i' {
            Some(CompileFlags { caseless: true, ..e })
        } else if c == 'm' {
            Some(CompileFlags { multiline: true, ..e })
        } else if c == 's' {
            Some(CompileFlags { dotall: true, ..e })
        } else if c == 'H' {
            Some(CompileFlags { singlematch: true, ..e })
        } else if c == 'V' {
            Some(CompileFlags { allowempty: true, ..e })
        } else if c == '8' {
            Some(CompileFlags { utf8: true, ..e })
        } else if c == 'W' {
            Some(CompileFlags { ucp: true, ..e })
        } else {
            None
        }
    }

    /// Reads the flag characters `s[lo..hi]`.
    pub fn parse_chars(s: &Vec<char>, lo: usize, hi: usize) -> (r: Result<CompileFlags, char>)
        requires
            lo <= hi <= s.len(),
        ensures
            r == CompileFlags::spec_parse(s@.subrange(lo as int, hi as int)),
    {
        let mut acc = CompileFlags::empty();
        let mut i = lo;
        while i < hi
            invariant
                lo <= i <= hi <= s.len(),
                CompileFlags::spec_parse(s@.subrange(lo as int, hi as int)) == CompileFlags::spec_parse_from(
                    s@.subrange(i as int, hi as int),
                    acc,
                ),
            decreases hi - i,
        {
            assert(s@.subrange(i as int, hi as int).drop_first() == s@.subrange(i + 1, hi as int));
            match CompileFlags::flag_of(s[i]) {
                None => {
                    return Err(s[i]);
                },
                Some(f) => {
                    acc = acc.union(f);
                },
            }
            i = i + 1;
        }
        Ok(acc)
    }

    /// Reads flag characters, such as `ism`.
    pub fn parse(s: &str) -> (r: Result<CompileFlags, CrateError>)
        ensures
            match CompileFlags::spec_parse(s@) {
                Ok(f) => r == Ok::<CompileFlags, CrateError>(f),
                Err(c) => r == Err::<CompileFlags, CrateError>(CrateError::InvalidFlag(c)),
            },
    {
        let v = chars_of(s);
        assert(v@.subrange(0, v@.len() as int) == v@);
        match CompileFlags::parse_chars(&v, 0, v.len()) {
            Ok(f) => Ok(f),
            Err(c) => Err(CrateError::InvalidFlag(c)),
        }
    }

    /// The flag characters of the set.
    pub fn to_string(&self) -> (r: String)
        ensures
            r@ == self.spec_text(),
    {
        let mut r = String::new();
        push_char_if(&mut r, 'i', self.caseless);
        push_char_if(&mut r, 'm', self.multiline);
        push_char_if(&mut r, 's', self.dotall);
        push_char_if(&mut r, 'H', self.singlematch);
        push_char_if(&mut r, 'V', self.allowempty);
        push_char_if(&mut r, '8', self.utf8);
        push_char_if(&mut r, 'W', self.ucp);
        assert(r@ =~= self.spec_text());
        r
    }
}

impl CompileFlags {
    /// Reading a concatenation reads the first part, then the second.
    pub proof fn lemma_parse_concat(x: Seq<char>, y: Seq<char>, acc: CompileFlags)
        ensures
            CompileFlags::spec_parse_from(x + y, acc) == match CompileFlags::spec_parse_from(x, acc) {
                Ok(a) => CompileFlags::spec_parse_from(y, a),
                Err(e) => Err(e),
            },
        decreases x.len(),
    {
        if x.len() == 0 {
            assert(x + y =~= y);
        } else {
            assert((x + y).drop_first() =~= x.drop_first() + y);
            assert((x + y)[0] == x[0]);
            match CompileFlags::spec_flag_of(x[0]) {
                None => {},
                Some(f) => {
                    CompileFlags::lemma_parse_concat(x.drop_first(), y, acc.spec_union(f));
                },
            }
        }
    }

    proof fn lemma_parse_one(c: char, b: bool, acc: CompileFlags)
        requires
            CompileFlags::spec_flag_of(c) is Some,
        ensures
            CompileFlags::spec_parse_from(flag_char_if(c, b), acc) == Ok::<CompileFlags, char>(
                if b {
                    acc.spec_union(CompileFlags::spec_flag_of(c).unwrap())
                } else {
                    acc
                },
            ),
    {
        let s = flag_char_if(c, b);
        if b {
            assert(s.len() == 1 && s[0] == c);
            assert(s.drop_first() =~= Seq::<char>::empty());
            let f = CompileFlags::spec_flag_of(c).unwrap();
            assert(CompileFlags::spec_parse_from(s, acc) == CompileFlags::spec_parse_from(s.drop_first(), acc.spec_union(f)));
        } else {
            assert(s.len() == 0);
        }
    }

    /// Reading back the flag characters of a set gives the set, where the
    /// set asks for neither prefiltering nor the leftmost start of match
    /// (which have no character).
    pub proof fn lemma_parse_text(f: CompileFlags)
        requires
            !f.prefilter,
            !f.som_leftmost,
        ensures
            CompileFlags::spec_parse(f.spec_text()) == Ok::<CompileFlags, char>(f),
    {
        let a = flag_char_if('i', f.caseless);
        let b = flag_char_if('m', f.multiline);
        let c = flag_char_if('s', f.dotall);
        let d = flag_char_if('H', f.singlematch);
        let e = flag_char_if('V', f.allowempty);
        let g = flag_char_if('8', f.utf8);
        let h = flag_char_if('W', f.ucp);
        let e0 = CompileFlags::spec_empty();
        CompileFlags::lemma_parse_concat(a + b + c + d + e + g, h, e0);
        CompileFlags::lemma_parse_concat(a + b + c + d + e, g, e0);
        CompileFlags::lemma_parse_concat(a + b + c + d, e, e0);
        CompileFlags::lemma_parse_concat(a + b + c, d, e0);
        CompileFlags::lemma_parse_concat(a + b, c, e0);
        CompileFlags::lemma_parse_concat(a, b, e0);
        CompileFlags::lemma_parse_one('i', f.caseless, e0);
        let s1 = CompileFlags { caseless: f.caseless, ..e0 };
        CompileFlags::lemma_parse_one('m', f.multiline, s1);
        let s2 = CompileFlags { multiline: f.multiline, ..s1 };
        CompileFlags::lemma_parse_one('s', f.dotall, s2);
        let s3 = CompileFlags { dotall: f.dotall, ..s2 };
        CompileFlags::lemma_parse_one('H', f.singlematch, s3);
        let s4 = CompileFlags { singlematch: f.singlematch, ..s3 };
        CompileFlags::lemma_parse_one('V', f.allowempty, s4);
        let s5 = CompileFlags { allowempty: f.allowempty, ..s4 };
        CompileFlags::lemma_parse_one('8', f.utf8, s5);
        let s6 = CompileFlags { utf8: f.utf8, ..s5 };
        CompileFlags::lemma_parse_one('W', f.ucp, s6);
    }
}

impl vstd::std_specs::ops::BitOrSpecImpl for CompileFlags {
    open spec fn obeys_bitor_spec() -> bool {
        true
    }

    open spec fn bitor_req(self, rhs: CompileFlags) -> bool {
        true
    }

    open spec fn bitor_spec(self, rhs: CompileFlags) -> CompileFlags {
        self.spec_union(rhs)
    }
}

impl std::ops::BitOr for CompileFlags {
    type Output = CompileFlags;

    fn bitor(self, rhs: CompileFlags) -> (r: CompileFlags) {
        self.union(rhs)
    }
}

impl std::str::FromStr for CompileFlags {
    type Err = CrateError;

    fn from_str(s: &str) -> (r: Result<CompileFlags, CrateError>)
        ensures
            match CompileFlags::spec_parse(s@) {
                Ok(f) => r == Ok::<CompileFlags, CrateError>(f),
                Err(c) => r == Err::<CompileFlags, CrateError>(CrateError::InvalidFlag(c)),
            },
    {
        CompileFlags::parse(s)
    }
}

impl Default for CompileFlags {
    fn default() -> (r: CompileFlags)
        ensures
            r == CompileFlags::spec_empty(),
    {
        CompileFlags::empty()
    }
}

/// The extension block that the engine reads: which fields are used, and their values.
#[derive(Clone, Copy, Debug, PartialEq, Eq, Structural)]
pub struct RawExprExt {
    /// The bit set of the fields in use.
    pub flags: u64,
    /// The minimum end offset.
    pub min_offset: u64,
    /// The maximum end offset.
    pub max_offset: u64,
    /// The minimum match length.
    pub min_length: u64,
    /// The edit distance.
    pub edit_distance: u32,
}

/// A structure containing additional parameters related to an expression.
#[derive(Clone, Copy, Debug, PartialEq, Eq, Structural)]
pub struct ExpressionExt {
    /// The minimum end offset in the data stream at which this expression should match successfully.
    pub min_offset: Option<u64>,
    /// The maximum end offset in the data stream at which this expression should match successfully.
    pub max_offset: Option<u64>,
    /// The minimum match length (from start to end) required to successfully match this expression.
    pub min_length: Option<u64>,
    /// Allow patterns to approximately match within this edit distance.
    pub edit_distance: Option<u32>,
}

impl ExpressionExt {
    /// The extension block: a flag for each field in use, and its value
    /// (zero for a field not in use).
    pub open spec fn spec_raw(self) -> RawExprExt {
        RawExprExt {
            flags: ((if self.min_offset is Some { 1int } else { 0 }) + (if self.max_offset is Some {
                2int
            } else {
                0
            }) + (if self.min_length is Some { 4int } else { 0 }) + (if self.edit_distance is Some {
                8int
            } else {
                0
            })) as u64,
            min_offset: match self.min_offset {
                Some(v) => v,
                None => 0,
            },
            max_offset: match self.max_offset {
                Some(v) => v,
                None => 0,
            },
            min_length: match self.min_length {
                Some(v) => v,
                None => 0,
            },
            edit_distance: match self.edit_distance {
                Some(v) => v,
                None => 0,
            },
        }
    }

    /// The extension block that the engine reads.
    pub fn to_raw(&self) -> (r: RawExprExt)
        ensures
            r == self.spec_raw(),
    {
        let a: u64 = if self.min_offset.is_some() { 1 } else { 0 };
        let b: u64 = if self.max_offset.is_some() { 2 } else { 0 };
        let c: u64 = if self.min_length.is_some() { 4 } else { 0 };
        let d: u64 = if self.edit_distance.is_some() { 8 } else { 0 };
        RawExprExt {
            flags: a + b + c + d,
            min_offset: match self.min_offset {
                Some(v) => v,
                None => 0,
            },
            max_offset: match self.max_offset {
                Some(v) => v,
                None => 0,
            },
            min_length: match self.min_length {
                Some(v) => v,
                None => 0,
            },
            edit_distance: match self.edit_distance {
                Some(v) => v,
                None => 0,
            },
        }
    }
}

/// What a pattern holds, with the expression as a sequence of characters.
pub struct PatternView {
    pub expression: Seq<char>,
    pub flags: CompileFlags,
    pub id: Option<usize>,
    pub ext: Option<ExpressionExt>,
}

/// Pattern that has matched.
#[derive(Debug, Clone)]
pub struct Pattern {
    /// The NULL-terminated expression to parse.
    pub expression: String,
    /// Flags which modify the behaviour of the expression.
    pub flags: CompileFlags,
    /// ID number to be associated with the corresponding pattern in the expressions array.
    pub id: Option<usize>,
    /// Ext set of matches produced by a pattern to be constrained at compile time.
    pub ext: Option<ExpressionExt>,
}

impl View for Pattern {
    type V = PatternView;

    open spec fn view(&self) -> PatternView {
        PatternView { expression: self.expression@, flags: self.flags, id: self.id, ext: self.ext }
    }
}

impl PatternView {
    /// The text of the pattern: `id:` where there is an id, then the escaped
    /// expression between slashes, then the flag characters.
    pub open spec fn spec_text(self) -> Seq<char> {
        let id_text = match self.id {
            Some(n) => decimal(n as nat) + seq![':'],
            None => Seq::empty(),
        };
        id_text + seq!['/'] + escaped(self.expression) + seq!['/'] + self.flags.spec_text()
    }
}

/// What the syntax reads from `e`, the text after the id: with a leading `/`
/// and a later `/`, the expression between them and the flags after the last
/// one; else the whole text as the expression.
pub open spec fn spec_parse_body(id: Option<usize>, e: Seq<char>) -> Result<PatternView, ParseFailure> {
    if e.len() > 0 && e[0] == '/' && rfind_char(e, '/') is Some && rfind_char(e, '/').unwrap() > 0 {
        let end = rfind_char(e, '/').unwrap();
        match CompileFlags::spec_parse(e.subrange(end + 1, e.len() as int)) {
            Err(c) => Err(ParseFailure::InvalidFlag(c)),
            Ok(flags) => Ok(PatternView { expression: e.subrange(1, end), flags, id, ext: None }),
        }
    } else {
        Ok(PatternView { expression: e, flags: CompileFlags::spec_empty(), id, ext: None })
    }
}

/// What the syntax `id:/expression/flags` reads from `s`: where the text
/// before the first `:` reads as a `usize`, it is the id and the rest follows
/// the `:`; else the whole text follows.
pub open spec fn spec_parse_pattern(s: Seq<char>) -> Result<PatternView, ParseFailure> {
    match find_char(s, ':') {
        Some(off) => match parse_uint(s.subrange(0, off), usize::MAX as int) {
            Ok(id) => spec_parse_body(Some(id as usize), s.subrange(off + 1, s.len() as int)),
            Err(_) => spec_parse_body(None, s),
        },
        None => spec_parse_body(None, s),
    }
}

impl Pattern {
    fn parse_body(s: &Vec<char>, lo: usize, hi: usize, id: Option<usize>) -> (r: Result<Pattern, CrateError>)
        requires
            lo <= hi <= s.len(),
        ensures
            match r {
                Ok(p) => spec_parse_body(id, s@.subrange(lo as int, hi as int)) == Ok::<PatternView, ParseFailure>(p@),
                Err(e) => match spec_parse_body(id, s@.subrange(lo as int, hi as int)) {
                    Ok(_) => false,
                    Err(f) => e.reports(f),
                },
            },
    {
        let ghost e = s@.subrange(lo as int, hi as int);
        if lo < hi && s[lo] == '/' {
            match rfind_char_in(s, '/', lo, hi) {
                None => {},
                Some(end) => {
                    if end > 0 {
                        proof {
                            lemma_rfind_char(e, '/');
                        }
                        assert(e.subrange(end + 1, e.len() as int) == s@.subrange(lo + end + 1, hi as int));
                        assert(e.subrange(1, end as int) == s@.subrange(lo + 1, lo + end));
                        let flags = match CompileFlags::parse_chars(s, lo + end + 1, hi) {
                            Err(c) => {
                                return Err(CrateError::InvalidFlag(c));
                            },
                            Ok(f) => f,
                        };
                        return Ok(Pattern { expression: string_of(s, lo + 1, lo + end), flags, id, ext: None });
                    }
                },
            }
        }
        Ok(Pattern { expression: string_of(s, lo, hi), flags: CompileFlags::empty(), id, ext: None })
    }

    /// Reads a pattern in the syntax `id:/expression/flags`.
    pub fn parse(s: &str) -> (r: Result<Pattern, CrateError>)
        ensures
            match r {
                Ok(p) => spec_parse_pattern(s@) == Ok::<PatternView, ParseFailure>(p@),
                Err(e) => match spec_parse_pattern(s@) {
                    Ok(_) => false,
                    Err(f) => e.reports(f),
                },
            },
    {
        let v = chars_of(s);
        assert(v@.subrange(0, v@.len() as int) == v@);
        match find_char_in(&v, ':', 0) {
            Some(off) => {
                proof {
                    lemma_find_char_from_some(v@, ':', 0);
                }
                match parse_uint_in(&v, 0, off, usize::MAX as u64) {
                    Ok(n) => Pattern::parse_body(&v, off + 1, v.len(), Some(n as usize)),
                    Err(_) => Pattern::parse_body(&v, 0, v.len(), None),
                }
            },
            None => Pattern::parse_body(&v, 0, v.len(), None),
        }
    }

    /// The text of the pattern, with the meta characters of the expression escaped.
    pub fn to_string(&self) -> (r: String)
        ensures
            r@ == self@.spec_text(),
    {
        let mut r = String::new();
        match self.id {
            Some(n) => {
                append_decimal(&mut r, n as u64);
                push_char(&mut r, ':');
            },
            None => {},
        }
        push_char(&mut r, '/');
        let e = crate::compile::literal::escape(self.expression.as_str());
        r.append(e.as_str());
        push_char(&mut r, '/');
        let t = self.flags.to_string();
        r.append(t.as_str());
        assert(r@ =~= self@.spec_text());
        r
    }
}

impl std::str::FromStr for Pattern {
    type Err = CrateError;

    fn from_str(s: &str) -> (r: Result<Pattern, CrateError>)
        ensures
            match r {
                Ok(p) => spec_parse_pattern(s@) == Ok::<PatternView, ParseFailure>(p@),
                Err(e) => match spec_parse_pattern(s@) {
                    Ok(_) => false,
                    Err(f) => e.reports(f),
                },
            },
    {
        Pattern::parse(s)
    }
}

/// Vec of `Pattern`
pub type Patterns = Vec<Pattern>;

/// Which engine entry point compiles a request.
#[derive(Clone, Copy, Debug, PartialEq, Eq, Structural)]
pub enum LegacyKind {
    /// One expression (`hs_compile`).
    Single,
    /// Several expressions with their ids (`hs_compile_multi`).
    Multi,
    /// Several expressions with their ids and extensions (`hs_compile_ext_multi`).
    ExtMulti,
}

/// What a compile request of the first interface holds.
pub struct LegacyRequestView {
    pub kind: LegacyKind,
    pub expressions: Seq<Seq<char>>,
    pub flags: Seq<u32>,
    pub ids: Seq<u32>,
    pub exts: Seq<Option<RawExprExt>>,
    pub mode: u32,
    pub platform: Option<Platform>,
}

/// What the engine compiles a raw database from.
#[derive(Debug)]
pub struct LegacyRequest {
    /// The engine entry point.
    pub kind: LegacyKind,
    /// The expressions, in order.
    pub expressions: Vec<String>,
    /// The flags of each expression.
    pub flags: Vec<u32>,
    /// The id of each expression (empty for the single-expression entry point).
    pub ids: Vec<u32>,
    /// The extension block of each expression, where it has one (for the
    /// extended entry point only).
    pub exts: Vec<Option<RawExprExt>>,
    /// The mode.
    pub mode: u32,
    /// The target platform, or the host where there is none.
    pub platform: Option<Platform>,
}

impl View for LegacyRequest {
    type V = LegacyRequestView;

    open spec fn view(&self) -> LegacyRequestView {
        LegacyRequestView {
            kind: self.kind,
            expressions: self.expressions@.map_values(|s: String| s@),
            flags: self.flags@,
            ids: self.ids@,
            exts: self.exts@,
            mode: self.mode,
            platform: self.platform,
        }
    }
}

/// The mode of a request: the database mode, with the small start of match
/// precision where the mode is streaming and leftmost start of match is asked for.
pub open spec fn legacy_mode(mode: u32, leftmost: bool) -> u32 {
    if mode == HS_MODE_STREAM && leftmost {
        mode | HS_MODE_SOM_HORIZON_SMALL
    } else {
        mode
    }
}

/// The request that compiles `expression` with `flags`: refused where the
/// expression holds a NUL.
pub open spec fn compile_request(expression: Seq<char>, flags: CompileFlags, platform: Option<Platform>, mode: u32) -> Result<LegacyRequestView, ParseFailure> {
    match first_nul(expression) {
        Some(i) => Err(ParseFailure::NulByte(i as nat)),
        None => Ok(
            LegacyRequestView {
                kind: LegacyKind::Single,
                expressions: seq![expression],
                flags: seq![flags.spec_bits()],
                ids: Seq::empty(),
                exts: Seq::empty(),
                mode: legacy_mode(mode, flags.som_leftmost),
                platform,
            },
        ),
    }
}

/// The NUL position in the first expression, in list order, that holds one.
pub open spec fn patterns_first_nul(ps: Seq<PatternView>) -> Option<int>
    decreases ps.len(),
{
    if ps.len() == 0 {
        None
    } else {
        match first_nul(ps[0].expression) {
            Some(i) => Some(i),
            None => patterns_first_nul(ps.drop_first()),
        }
    }
}

/// The extension block of an optional extension.
pub open spec fn raw_ext(ext: Option<ExpressionExt>) -> Option<RawExprExt> {
    match ext {
        Some(e) => Some(e.spec_raw()),
        None => None,
    }
}

/// The request that compiles a pattern list: refused where an expression
/// holds a NUL; a pattern without an id gets 0; the extended entry point is
/// used where a pattern has an extension.
pub open spec fn patterns_request(ps: Seq<PatternView>, platform: Option<Platform>, mode: u32) -> Result<LegacyRequestView, ParseFailure> {
    match patterns_first_nul(ps) {
        Some(i) => Err(ParseFailure::NulByte(i as nat)),
        None => {
            let any_ext = exists|i: int| 0 <= i < ps.len() && (#[trigger] ps[i]).ext is Some;
            let any_leftmost = exists|i: int| 0 <= i < ps.len() && (#[trigger] ps[i]).flags.som_leftmost;
            Ok(
                LegacyRequestView {
                    kind: if any_ext { LegacyKind::ExtMulti } else { LegacyKind::Multi },
                    expressions: ps.map_values(|p: PatternView| p.expression),
                    flags: ps.map_values(|p: PatternView| p.flags.spec_bits()),
                    ids: ps.map_values(|p: PatternView| entry_id(p.id, 0)),
                    exts: if any_ext { ps.map_values(|p: PatternView| raw_ext(p.ext)) } else { Seq::empty() },
                    mode: legacy_mode(mode, any_leftmost),
                    platform,
                },
            )
        },
    }
}

/// `r` is the database of the request `spec`, or the error that reports its failure.
pub open spec fn legacy_outcome<T: DatabaseType>(r: Result<RawDatabase<T>, CrateError>, spec: Result<LegacyRequestView, ParseFailure>) -> bool {
    match r {
        Ok(db) => spec == Ok::<LegacyRequestView, ParseFailure>(db.spec_request()@),
        Err(e) => match spec {
            Ok(_) => false,
            Err(f) => e.reports(f),
        },
    }
}

fn copy_platform(platform: Option<&Platform>) -> (r: Option<Platform>)
    ensures
        r == platform_of(platform),
{
    match platform {
        Some(p) => Some(*p),
        None => None,
    }
}

impl<T: DatabaseType> RawDatabase<T> {
    /// The basic regular expression compiler: the request for `expression`
    /// with `flags`.
    pub fn compile(expression: &str, flags: CompileFlags, platform: Option<&Platform>) -> (r: Result<RawDatabase<T>, CrateError>)
        ensures
            legacy_outcome(r, compile_request(expression@, flags, platform_of(platform), T::spec_mode())),
    {
        let mode: u32 = if T::mode() == HS_MODE_STREAM && flags.som_leftmost {
            T::mode() | HS_MODE_SOM_HORIZON_SMALL
        } else {
            T::mode()
        };
        let expr = expression.to_string();
        match nul_position(&expr) {
            Some(position) => Err(CrateError::NulByte(NulError { position })),
            None => {
                let mut expressions: Vec<String> = Vec::new();
                expressions.push(expr);
                let mut fl: Vec<u32> = Vec::new();
                fl.push(flags.bits());
                let request = LegacyRequest {
                    kind: LegacyKind::Single,
                    expressions,
                    flags: fl,
                    ids: Vec::new(),
                    exts: Vec::new(),
                    mode,
                    platform: copy_platform(platform),
                };
                assert(request@.expressions =~= seq![expression@]);
                assert(request@.flags =~= seq![flags.spec_bits()]);
                Ok(RawDatabase::from_raw(request))
            },
        }
    }
}

/// The builder of raw databases.
pub trait DatabaseBuilder {
    /// What a compile of `self` for `platform` in the mode `mode` asks the
    /// engine for, or why it is refused.
    spec fn spec_request(&self, platform: Option<Platform>, mode: u32) -> Result<LegacyRequestView, ParseFailure>;

    /// Build a database for a target platform.
    fn build_for_platform<T: DatabaseType>(&self, platform: Option<&Platform>) -> (r: Result<RawDatabase<T>, CrateError>)
        ensures
            legacy_outcome(r, self.spec_request(platform_of(platform), T::spec_mode())),
    ;

    /// Build a database for the host.
    fn build<T: DatabaseType>(&self) -> (r: Result<RawDatabase<T>, CrateError>)
        ensures
            legacy_outcome(r, self.spec_request(None, T::spec_mode())),
    {
        self.build_for_platform(None)
    }
}

impl DatabaseBuilder for Pattern {
    open spec fn spec_request(&self, platform: Option<Platform>, mode: u32) -> Result<LegacyRequestView, ParseFailure> {
        compile_request(self.expression@, self.flags, platform, mode)
    }

    fn build_for_platform<T: DatabaseType>(&self, platform: Option<&Platform>) -> (r: Result<RawDatabase<T>, CrateError>) {
        RawDatabase::compile(self.expression.as_str(), self.flags, platform)
    }
}

impl DatabaseBuilder for Vec<Pattern> {
    open spec fn spec_request(&self, platform: Option<Platform>, mode: u32) -> Result<LegacyRequestView, ParseFailure> {
        patterns_request(self@.map_values(|p: Pattern| p@), platform, mode)
    }

    fn build_for_platform<T: DatabaseType>(&self, platform: Option<&Platform>) -> (r: Result<RawDatabase<T>, CrateError>) {
        build_patterns(self.as_slice(), platform)
    }
}

impl<'a> DatabaseBuilder for &'a [Pattern] {
    open spec fn spec_request(&self, platform: Option<Platform>, mode: u32) -> Result<LegacyRequestView, ParseFailure> {
        patterns_request(self@.map_values(|p: Pattern| p@), platform, mode)
    }

    fn build_for_platform<T: DatabaseType>(&self, platform: Option<&Platform>) -> (r: Result<RawDatabase<T>, CrateError>) {
        build_patterns(*self, platform)
    }
}

/// The multiple regular expression compiler: the request for the patterns,
/// in order.
fn build_patterns<T: DatabaseType>(patterns: &[Pattern], platform: Option<&Platform>) -> (r: Result<RawDatabase<T>, CrateError>)
    ensures
        legacy_outcome(r, patterns_request(patterns@.map_values(|p: Pattern| p@), platform_of(platform), T::spec_mode())),
{
    let ghost ps = patterns@.map_values(|p: Pattern| p@);
    let mut expressions: Vec<String> = Vec::new();
    let mut flags: Vec<u32> = Vec::new();
    let mut ids: Vec<u32> = Vec::new();
    let mut exts: Vec<Option<RawExprExt>> = Vec::new();
    let mut any_ext = false;
    let mut any_leftmost = false;
    let mut i: usize = 0;
    assert(ps.subrange(0, ps.len() as int) == ps);
    while i < patterns.len()
        invariant
            ps == patterns@.map_values(|p: Pattern| p@),
            i <= patterns.len(),
            patterns_first_nul(ps) == patterns_first_nul(ps.subrange(i as int, ps.len() as int)),
            expressions@.map_values(|s: String| s@) =~= ps.subrange(0, i as int).map_values(|p: PatternView| p.expression),
            flags@ =~= ps.subrange(0, i as int).map_values(|p: PatternView| p.flags.spec_bits()),
            ids@ =~= ps.subrange(0, i as int).map_values(|p: PatternView| entry_id(p.id, 0)),
            exts@ =~= ps.subrange(0, i as int).map_values(|p: PatternView| raw_ext(p.ext)),
            any_ext == exists|k: int| 0 <= k < i && (#[trigger] ps[k]).ext is Some,
            any_leftmost == exists|k: int| 0 <= k < i && (#[trigger] ps[k]).flags.som_leftmost,
        decreases patterns.len() - i,
    {
        let ghost rest = ps.subrange(i as int, ps.len() as int);
        assert(rest[0] == patterns@[i as int]@);
        assert(rest.drop_first() == ps.subrange(i + 1, ps.len() as int));
        let p = &patterns[i];
        assert(ps[i as int] == p@);
        match nul_position(&p.expression) {
            Some(position) => {
                return Err(CrateError::NulByte(NulError { position }));
            },
            None => {},
        }
        let ghost e0 = expressions@.map_values(|s: String| s@);
        expressions.push(p.expression.clone());
        flags.push(p.flags.bits());
        let id: u32 = match p.id {
            Some(n) => n as u32,
            None => 0,
        };
        ids.push(id);
        let raw: Option<RawExprExt> = match p.ext {
            Some(e) => Some(e.to_raw()),
            None => None,
        };
        exts.push(raw);
        if p.ext.is_some() {
            any_ext = true;
        }
        if p.flags.som_leftmost {
            any_leftmost = true;
        }
        assert(expressions@.map_values(|s: String| s@) =~= e0.push(p@.expression));
        assert(ps.subrange(0, i + 1) =~= ps.subrange(0, i as int).push(p@));
        i = i + 1;
    }
    let mode: u32 = if T::mode() == HS_MODE_STREAM && any_leftmost {
        T::mode() | HS_MODE_SOM_HORIZON_SMALL
    } else {
        T::mode()
    };
    let request = if any_ext {
        LegacyRequest {
            kind: LegacyKind::ExtMulti,
            expressions,
            flags,
            ids,
            exts,
            mode,
            platform: copy_platform(platform),
        }
    } else {
        LegacyRequest {
            kind: LegacyKind::Multi,
            expressions,
            flags,
            ids,
            exts: Vec::new(),
            mode,
            platform: copy_platform(platform),
        }
    };
    Ok(RawDatabase::from_raw(request))
}


impl CompileFlags {
    /// The flag characters hold no `/`.
    pub proof fn lemma_text_no_slash(f: CompileFlags)
        ensures
            lacks(f.spec_text(), '/'),
    {
        let a = flag_char_if('i', f.caseless);
        let b = flag_char_if('m', f.multiline);
        let c = flag_char_if('s', f.dotall);
        let d = flag_char_if('H', f.singlematch);
        let e = flag_char_if('V', f.allowempty);
        let g = flag_char_if('8', f.utf8);
        let h = flag_char_if('W', f.ucp);
        lemma_lacks_concat(a, b, '/');
        lemma_lacks_concat(a + b, c, '/');
        lemma_lacks_concat(a + b + c, d, '/');
        lemma_lacks_concat(a + b + c + d, e, '/');
        lemma_lacks_concat(a + b + c + d + e, g, '/');
        lemma_lacks_concat(a + b + c + d + e + g, h, '/');
    }
}

/// Reading the delimited text that follows the id gives the pattern.
proof fn lemma_body_text(p: PatternView)
    requires
        p.ext is None,
        !p.flags.prefilter,
        !p.flags.som_leftmost,
        no_meta(p.expression),
    ensures
        spec_parse_body(p.id, seq!['/'] + p.expression + seq!['/'] + p.flags.spec_text())
            == Ok::<PatternView, ParseFailure>(p),
{
    let e = p.expression;
    let f = p.flags.spec_text();
    CompileFlags::lemma_text_no_slash(p.flags);
    CompileFlags::lemma_parse_text(p.flags);
    let a = seq!['/'] + e + seq!['/'];
    let body = a + f;
    lemma_rfind_char_last(a, '/', f);
    assert(body.subrange(1, a.len() - 1) =~= e);
    assert(body.subrange(a.len() as int, body.len() as int) =~= f);
}

/// A text starting with `/` is no number.
proof fn lemma_slash_no_number(x: Seq<char>)
    requires
        x.len() > 0,
        x[0] == '/',
    ensures
        parse_uint(x, usize::MAX as int) is Err,
{
    let p = x.subrange(0, 1);
    assert(p.drop_last() =~= Seq::<char>::empty());
    assert(p.last() == '/');
    assert(digits_value(p, usize::MAX as int) is Err);
    lemma_digits_prefix_err(x, 1, usize::MAX as int);
}

/// The text of a pattern with an id reads back the id and the delimited body.
proof fn lemma_text_with_id(s: Seq<char>, n: usize, body: Seq<char>)
    requires
        s == decimal(n as nat) + seq![':'] + body,
    ensures
        spec_parse_pattern(s) == spec_parse_body(Some(n), body),
{
    let d = decimal(n as nat);
    lemma_decimal_digits(n as nat);
    let i = d.len() as int;
    assert(s[i] == ':');
    assert forall|j: int| 0 <= j < i implies s[j] != ':' by {
        assert(s[j] == d[j]);
    }
    lemma_find_char_at(s, ':', i);
    assert(s.subrange(0, i) =~= d);
    crate::text::lemma_parse_decimal(n as nat, usize::MAX as int);
    assert(s.subrange(i + 1, s.len() as int) =~= body);
}

/// A text that starts with `/` reads without an id, wherever its `:` is.
proof fn lemma_text_without_id(s: Seq<char>)
    requires
        s.len() > 0,
        s[0] == '/',
    ensures
        spec_parse_pattern(s) == spec_parse_body(None, s),
{
    lemma_find_char_from_some(s, ':', 0);
    match find_char(s, ':') {
        Some(off) => {
            assert(off > 0);
            lemma_slash_no_number(s.subrange(0, off));
        },
        None => {},
    }
}

/// Reading back the text of a pattern gives the pattern, for a pattern
/// without an extension, without the prefiltering and leftmost flags (none
/// of which has a text), and whose expression holds no meta character
/// (which the text escapes).
pub proof fn lemma_pattern_text_roundtrip(p: PatternView)
    requires
        p.ext is None,
        !p.flags.prefilter,
        !p.flags.som_leftmost,
        no_meta(p.expression),
    ensures
        spec_parse_pattern(p.spec_text()) == Ok::<PatternView, ParseFailure>(p),
{
    let e = p.expression;
    let f = p.flags.spec_text();
    let s = p.spec_text();
    lemma_escaped_plain(e);
    let body = seq!['/'] + e + seq!['/'] + f;
    lemma_body_text(p);
    match p.id {
        Some(n) => {
            assert(s =~= decimal(n as nat) + seq![':'] + body);
            lemma_text_with_id(s, n, body);
        },
        None => {
            assert(s =~= body);
            lemma_text_without_id(s);
        },
    }
}

/// What the engine is asked for the information about a pattern: the
/// expression and its flags, with its extension block where it has one
/// (`hs_expression_ext_info`; `hs_expression_info` where it has none).
#[derive(Debug)]
pub struct LegacyInfoRequest {
    /// The expression.
    pub expression: String,
    /// Its flags.
    pub flags: u32,
    /// Its extension block, if any.
    pub ext: Option<RawExprExt>,
}

/// What an information request holds, with the expression as a sequence of characters.
pub struct LegacyInfoRequestView {
    pub expression: Seq<char>,
    pub flags: u32,
    pub ext: Option<RawExprExt>,
}

impl View for LegacyInfoRequest {
    type V = LegacyInfoRequestView;

    open spec fn view(&self) -> LegacyInfoRequestView {
        LegacyInfoRequestView { expression: self.expression@, flags: self.flags, ext: self.ext }
    }
}

impl Pattern {
    /// The request for information about the pattern, such as the widths
    /// of its matches: refused where the expression holds a NUL.
    pub fn info_request(&self) -> (r: Result<LegacyInfoRequest, CrateError>)
        ensures
            match r {
                Ok(q) => first_nul(self.expression@) is None && q@ == (LegacyInfoRequestView {
                    expression: self.expression@,
                    flags: self.flags.spec_bits(),
                    ext: raw_ext(self.ext),
                }),
                Err(e) => first_nul(self.expression@) matches Some(i) && e.reports(ParseFailure::NulByte(i as nat)),
            },
    {
        match nul_position(&self.expression) {
            Some(position) => Err(CrateError::NulByte(NulError { position })),
            None => {
                let ext: Option<RawExprExt> = match &self.ext {
                    Some(e) => Some(e.to_raw()),
                    None => None,
                };
                Ok(LegacyInfoRequest { expression: self.expression.clone(), flags: self.flags.bits(), ext })
            },
        }
    }
}

impl CompileFlags {
    /// The value of a flag set is the sum of the engine's constants of its
    /// flags, so each flag sets exactly its own constant's bit.
    pub proof fn lemma_bits_engine(f: CompileFlags)
        ensures
            f.spec_bits() as int == (if f.caseless { HS_FLAG_CASELESS as int } else { 0 }) + (if f.dotall { HS_FLAG_DOTALL as int } else { 0 }) + (if f.multiline { HS_FLAG_MULTILINE as int } else { 0 }) + (if f.singlematch { HS_FLAG_SINGLEMATCH as int } else { 0 }) + (if f.allowempty { HS_FLAG_ALLOWEMPTY as int } else { 0 }) + (if f.utf8 { HS_FLAG_UTF8 as int } else { 0 }) + (if f.ucp { HS_FLAG_UCP as int } else { 0 }) + (if f.prefilter { HS_FLAG_PREFILTER as int } else { 0 }) + (if f.som_leftmost { HS_FLAG_SOM_LEFTMOST as int } else { 0 }),
            (f.spec_bits() & HS_FLAG_CASELESS != 0) == f.caseless,
            (f.spec_bits() & HS_FLAG_DOTALL != 0) == f.dotall,
            (f.spec_bits() & HS_FLAG_MULTILINE != 0) == f.multiline,
            (f.spec_bits() & HS_FLAG_SINGLEMATCH != 0) == f.singlematch,
            (f.spec_bits() & HS_FLAG_ALLOWEMPTY != 0) == f.allowempty,
            (f.spec_bits() & HS_FLAG_UTF8 != 0) == f.utf8,
            (f.spec_bits() & HS_FLAG_UCP != 0) == f.ucp,
            (f.spec_bits() & HS_FLAG_PREFILTER != 0) == f.prefilter,
            (f.spec_bits() & HS_FLAG_SOM_LEFTMOST != 0) == f.som_leftmost,
    {
        lemma_bits_of_sum(f.caseless, f.dotall, f.multiline, f.singlematch, f.allowempty, f.utf8, f.ucp, f.prefilter, f.som_leftmost, false, false, f.spec_bits());
    }

    proof fn lemma_parse_from_chars(s: Seq<char>, acc: CompileFlags)
        ensures
            CompileFlags::spec_parse_from(s, acc) matches Ok(g) ==> {
                &&& g.caseless == (acc.caseless || s.contains('i'))
                &&& g.dotall == (acc.dotall || s.contains('s'))
                &&& g.multiline == (acc.multiline || s.contains('m'))
                &&& g.singlematch == (acc.singlematch || s.contains('H'))
                &&& g.allowempty == (acc.allowempty || s.contains('V'))
                &&& g.utf8 == (acc.utf8 || s.contains('8'))
                &&& g.ucp == (acc.ucp || s.contains('W'))
                &&& g.prefilter == acc.prefilter
                &&& g.som_leftmost == acc.som_leftmost
            },
        decreases s.len(),
    {
        if s.len() > 0 {
            if let Some(f) = CompileFlags::spec_flag_of(s[0]) {
                CompileFlags::lemma_parse_from_chars(s.drop_first(), acc.spec_union(f));
                lemma_contains_first(s, 'i');
                lemma_contains_first(s, 's');
                lemma_contains_first(s, 'm');
                lemma_contains_first(s, 'H');
                lemma_contains_first(s, 'V');
                lemma_contains_first(s, '8');
                lemma_contains_first(s, 'W');
            }
        }
    }

    /// Each flag character names its own flag (`i` caseless, `s` dotall, `m` multiline, `H` singlematch, `V` allowempty, `8` utf8, `W` ucp): flags read from
    /// a text hold a flag exactly when the text holds its character.
    pub proof fn lemma_parse_chars(s: Seq<char>)
        ensures
            CompileFlags::spec_parse(s) matches Ok(g) ==> {
                &&& g.caseless == s.contains('i')
                &&& g.dotall == s.contains('s')
                &&& g.multiline == s.contains('m')
                &&& g.singlematch == s.contains('H')
                &&& g.allowempty == s.contains('V')
                &&& g.utf8 == s.contains('8')
                &&& g.ucp == s.contains('W')
                &&& !g.prefilter
                &&& !g.som_leftmost
            },
    {
        CompileFlags::lemma_parse_from_chars(s, CompileFlags::spec_empty());
    }

    /// The text of a flag set holds a flag's character exactly when the set
    /// holds the flag.
    pub proof fn lemma_text_chars(f: CompileFlags)
        ensures
            f.spec_text().contains('i') == f.caseless,
            f.spec_text().contains('s') == f.dotall,
            f.spec_text().contains('m') == f.multiline,
            f.spec_text().contains('H') == f.singlematch,
            f.spec_text().contains('V') == f.allowempty,
            f.spec_text().contains('8') == f.utf8,
            f.spec_text().contains('W') == f.ucp,
    {
        let g = CompileFlags { prefilter: false, som_leftmost: false, ..f };
        assert(g.spec_text() == f.spec_text());
        CompileFlags::lemma_parse_text(g);
        CompileFlags::lemma_parse_chars(g.spec_text());
    }
}

impl ExpressionExt {
    /// The extension block marks each field in use with its own constant of
    /// the engine, sets no other bit, and carries the field's value.
    pub proof fn lemma_raw_engine(e: ExpressionExt)
        ensures
            (e.spec_raw().flags & HS_EXT_FLAG_MIN_OFFSET != 0) == e.min_offset is Some,
            (e.spec_raw().flags & HS_EXT_FLAG_MAX_OFFSET != 0) == e.max_offset is Some,
            (e.spec_raw().flags & HS_EXT_FLAG_MIN_LENGTH != 0) == e.min_length is Some,
            (e.spec_raw().flags & HS_EXT_FLAG_EDIT_DISTANCE != 0) == e.edit_distance is Some,
            e.spec_raw().flags & HS_EXT_FLAG_HAMMING_DISTANCE == 0,
            e.min_offset matches Some(v) ==> e.spec_raw().min_offset == v,
            e.max_offset matches Some(v) ==> e.spec_raw().max_offset == v,
            e.min_length matches Some(v) ==> e.spec_raw().min_length == v,
            e.edit_distance matches Some(v) ==> e.spec_raw().edit_distance == v,
    {
        lemma_ext_bits_of_sum(e.min_offset is Some, e.max_offset is Some, e.min_length is Some, e.edit_distance is Some, false, e.spec_raw().flags);
    }
}

} // verus!
