//! Chimera patterns: an expression with its flags and id, their textual
//! syntax `id:/expression/flags`, and lists of patterns.

use vstd::prelude::*;

use crate::compile::pattern::{lemma_bits_of_sum, lemma_contains_first};
use crate::error::{Error as CrateError, ParseFailure, ParseIntError};
use crate::text::{
    append_decimal, chars_of, decimal, find_char, find_char_range, find_pair, find_pair_in,
    flag_char_if, lemma_decimal_digits, lemma_find_char_from_some, lemma_find_pair_at,
    lemma_find_pair_from_some, lemma_find_pair_none, lemma_rfind_char, lemma_rfind_char_last,
    no_delimiters,
    parse_uint, parse_uint_in, push_char, push_char_if, rfind_char, rfind_char_in, string_of,
    sub_chars, trim, trim_in,
};
use vstd::string::StringExecFns;

verus! {

/// `CH_FLAG_CASELESS`: case-insensitive matching.
pub const CH_FLAG_CASELESS: u32 = 1;
/// `CH_FLAG_DOTALL`: a `.` also matches newlines.
pub const CH_FLAG_DOTALL: u32 = 2;
/// `CH_FLAG_MULTILINE`: multi-line anchoring.
pub const CH_FLAG_MULTILINE: u32 = 4;
/// `CH_FLAG_SINGLEMATCH`: single-match only mode.
pub const CH_FLAG_SINGLEMATCH: u32 = 8;
/// `CH_FLAG_UTF8`: UTF-8 mode.
pub const CH_FLAG_UTF8: u32 = 32;
/// `CH_FLAG_UCP`: Unicode property support.
pub const CH_FLAG_UCP: u32 = 64;

/// Chimera pattern flags.
#[derive(Clone, Copy, Debug, PartialEq, Eq, Structural)]
pub struct Flags {
    /// Set case-insensitive matching.
    pub caseless: bool,
    /// Matching a `.` will not exclude newlines.
    pub dotall: bool,
    /// Set multi-line anchoring.
    pub multiline: bool,
    /// Set single-match only mode.
    pub singlematch: bool,
    /// Enable UTF-8 mode for this expression.
    pub utf8: bool,
    /// Enable Unicode property support for this expression.
    pub ucp: bool,
}

impl Flags {
    /// The set with no flag.
    pub open spec fn spec_empty() -> Flags {
        Flags { caseless: false, dotall: false, multiline: false, singlematch: false, utf8: false, ucp: false }
    }

    /// Both sets together.
    pub open spec fn spec_union(self, o: Flags) -> Flags {
        Flags {
            caseless: self.caseless || o.caseless,
            dotall: self.dotall || o.dotall,
            multiline: self.multiline || o.multiline,
            singlematch: self.singlematch || o.singlematch,
            utf8: self.utf8 || o.utf8,
            ucp: self.ucp || o.ucp,
        }
    }

    /// The flag that a character of the flag syntax stands for.
    pub open spec fn spec_flag_of(c: char) -> Option<Flags> {
        if c == 'i' {
            Some(Flags { caseless: true, ..Flags::spec_empty() })
        } else if c == 'm' {
            Some(Flags { multiline: true, ..Flags::spec_empty() })
        } else if c == 's' {
            Some(Flags { dotall: true, ..Flags::spec_empty() })
        } else if c == 'H' {
            Some(Flags { singlematch: true, ..Flags::spec_empty() })
        } else if c == '8' {
            Some(Flags { utf8: true, ..Flags::spec_empty() })
        } else if c == 'W' {
            Some(Flags { ucp: true, ..Flags::spec_empty() })
        } else {
            None
        }
    }

    /// Reads flag characters left to right into `acc`; the first character
    /// that names no flag is the error.
    pub open spec fn spec_parse_from(s: Seq<char>, acc: Flags) -> Result<Flags, char>
        decreases s.len(),
    {
        if s.len() == 0 {
            Ok(acc)
        } else {
            match Flags::spec_flag_of(s[0]) {
                None => Err(s[0]),
                Some(f) => Flags::spec_parse_from(s.drop_first(), acc.spec_union(f)),
            }
        }
    }

    /// What the flag syntax reads from `s`.
    pub open spec fn spec_parse(s: Seq<char>) -> Result<Flags, char> {
        Flags::spec_parse_from(s, Flags::spec_empty())
    }

    /// The flag characters of the set, in the order `i m s H 8 W`.
    pub open spec fn spec_text(self) -> Seq<char> {
        flag_char_if('i', self.caseless) + flag_char_if('m', self.multiline) + flag_char_if('s', self.dotall)
            + flag_char_if('H', self.singlematch) + flag_char_if('8', self.utf8) + flag_char_if('W', self.ucp)
    }

    /// The raw bit set that the engine reads.
    pub open spec fn spec_bits(self) -> u32 {
        ((if self.caseless { 1int } else { 0 }) + (if self.dotall { 2int } else { 0 }) + (if self.multiline {
            4int
        } else {
            0
        }) + (if self.singlematch { 8int } else { 0 }) + (if self.utf8 { 32int } else { 0 }) + (if self.ucp {
            64int
        } else {
            0
        })) as u32
    }

    /// The set with no flag.
    pub fn empty() -> (r: Flags)
        ensures
            r == Flags::spec_empty(),
    {
        Flags { caseless: false, dotall: false, multiline: false, singlematch: false, utf8: false, ucp: false }
    }

    /// No flag is set.
    pub fn is_empty(&self) -> (r: bool)
        ensures
            r == (*self == Flags::spec_empty()),
    {
        !self.caseless && !self.dotall && !self.multiline && !self.singlematch && !self.utf8 && !self.ucp
    }

    /// Both sets together.
    pub fn union(self, o: Flags) -> (r: Flags)
        ensures
            r == self.spec_union(o),
    {
        Flags {
            caseless: self.caseless || o.caseless,
            dotall: self.dotall || o.dotall,
            multiline: self.multiline || o.multiline,
            singlematch: self.singlematch || o.singlematch,
            utf8: self.utf8 || o.utf8,
            ucp: self.ucp || o.ucp,
        }
    }

    /// The raw bit set that the engine reads.
    pub fn bits(&self) -> (r: u32)
        ensures
            r == self.spec_bits(),
    {
        let a: u32 = if self.caseless { 1 } else { 0 };
        let b: u32 = if self.dotall { 2 } else { 0 };
        let c: u32 = if self.multiline { 4 } else { 0 };
        let d: u32 = if self.singlematch { 8 } else { 0 };
        let e: u32 = if self.utf8 { 32 } else { 0 };
        let f: u32 = if self.ucp { 64 } else { 0 };
        a + b + c + d + e + f
    }

    fn flag_of(c: char) -> (r: Option<Flags>)
        ensures
            r == Flags::spec_flag_of(c),
    {
        let e = Flags::empty();
        if c == 'i' {
            Some(Flags { caseless: true, ..e })
        } else if c == 'm' {
            Some(Flags { multiline: true, ..e })
        } else if c == 's' {
            Some(Flags { dotall: true, ..e })
        } else if c == 'H' {
            Some(Flags { singlematch: true, ..e })
        } else if c == '8' {
            Some(Flags { utf8: true, ..e })
        } else if c == 'W' {
            Some(Flags { ucp: true, ..e })
        } else {
            None
        }
    }

    /// Reads the flag characters `s[lo..hi]`.
    pub fn parse_chars(s: &Vec<char>, lo: usize, hi: usize) -> (r: Result<Flags, char>)
        requires
            lo <= hi <= s.len(),
        ensures
            r == Flags::spec_parse(s@.subrange(lo as int, hi as int)),
    {
        let mut acc = Flags::empty();
        let mut i = lo;
        while i < hi
            invariant
                lo <= i <= hi <= s.len(),
                Flags::spec_parse(s@.subrange(lo as int, hi as int)) == Flags::spec_parse_from(
                    s@.subrange(i as int, hi as int),
                    acc,
                ),
            decreases hi - i,
        {
            assert(s@.subrange(i as int, hi as int).drop_first() == s@.subrange(i + 1, hi as int));
            match Flags::flag_of(s[i]) {
                None => {
                    return Err(s[i]);
                },
                Some(f) => {
                    acc = acc.union(f);
                },
            }
            i = i + 1;
        }
        Ok(acc)
    }

    /// Reads flag characters, such as `ism`.
    pub fn parse(s: &str) -> (r: Result<Flags, CrateError>)
        ensures
            match Flags::spec_parse(s@) {
                Ok(f) => r == Ok::<Flags, CrateError>(f),
                Err(c) => r == Err::<Flags, CrateError>(CrateError::InvalidFlag(c)),
            },
    {
        let v = chars_of(s);
        assert(v@.subrange(0, v@.len() as int) == v@);
        match Flags::parse_chars(&v, 0, v.len()) {
            Ok(f) => Ok(f),
            Err(c) => Err(CrateError::InvalidFlag(c)),
        }
    }

    /// The flag characters of the set.
    pub fn to_string(&self) -> (r: String)
        ensures
            r@ == self.spec_text(),
    {
        let mut r = String::new();
        push_char_if(&mut r, 'i', self.caseless);
        push_char_if(&mut r, 'm', self.multiline);
        push_char_if(&mut r, 's', self.dotall);
        push_char_if(&mut r, 'H', self.singlematch);
        push_char_if(&mut r, '8', self.utf8);
        push_char_if(&mut r, 'W', self.ucp);
        assert(r@ =~= self.spec_text());
        r
    }
}

impl Default for Flags {
    fn default() -> (r: Flags)
        ensures
            r == Flags::spec_empty(),
    {
        Flags::empty()
    }
}

/// What a Chimera pattern holds, with the expression as a sequence of characters.
pub struct PatternView {
    pub expression: Seq<char>,
    pub flags: Flags,
    pub id: Option<usize>,
}

/// The pattern with basic regular expression.
#[derive(Clone, Debug, PartialEq, Eq)]
pub struct Pattern {
    /// The expression to parse.
    pub expression: String,
    /// Flags which modify the behaviour of the expression.
    pub flags: Flags,
    /// ID number to be associated with the corresponding pattern in the expressions array.
    pub id: Option<usize>,
}

impl View for Pattern {
    type V = PatternView;

    open spec fn view(&self) -> PatternView {
        PatternView { expression: self.expression@, flags: self.flags, id: self.id }
    }
}

impl PatternView {
    /// The pattern with the flags of `f` added.
    pub open spec fn with_flags_added(self, f: Flags) -> PatternView {
        PatternView { flags: self.flags.spec_union(f), ..self }
    }

    /// The text of the pattern: `id:` where there is an id, then the
    /// expression between slashes followed by the flags where there is an id
    /// or a flag, else the bare expression.
    pub open spec fn spec_text(self) -> Seq<char> {
        let id_text = match self.id {
            Some(n) => decimal(n as nat) + seq![':'],
            None => Seq::empty(),
        };
        if self.id is Some || self.flags != Flags::spec_empty() {
            id_text + seq!['/'] + self.expression + seq!['/'] + self.flags.spec_text()
        } else {
            id_text + self.expression
        }
    }
}

/// What the syntax reads from `e`, the text after the id: with a leading `/`
/// and a later `/`, the expression between them and the flags after the last
/// one; else the whole text as the expression.
pub open spec fn spec_parse_body(id: Option<usize>, e: Seq<char>) -> Result<PatternView, ParseFailure> {
    if e.len() > 0 && e[0] == '/' && rfind_char(e, '/') is Some && rfind_char(e, '/').unwrap() > 0 {
        let end = rfind_char(e, '/').unwrap();
        match Flags::spec_parse(e.subrange(end + 1, e.len() as int)) {
            Err(c) => Err(ParseFailure::InvalidFlag(c)),
            Ok(flags) => Ok(PatternView { expression: e.subrange(1, end), flags, id }),
        }
    } else {
        Ok(PatternView { expression: e, flags: Flags::spec_empty(), id })
    }
}

/// What the syntax `id:/expression/flags` reads from `s`: the text before
/// the first `:/` is the id, a decimal `usize`.
pub open spec fn spec_parse_pattern(s: Seq<char>) -> Result<PatternView, ParseFailure> {
    match find_pair(s, ':', '/') {
        Some(off) => match parse_uint(s.subrange(0, off), usize::MAX as int) {
            Err(k) => Err(ParseFailure::ParseInt(k)),
            Ok(id) => spec_parse_body(Some(id as usize), s.subrange(off + 1, s.len() as int)),
        },
        None => spec_parse_body(None, s),
    }
}

/// `r` is what the syntax reads, or the error that reports its failure.
pub open spec fn parse_outcome(r: Result<Pattern, CrateError>, spec: Result<PatternView, ParseFailure>) -> bool {
    match r {
        Ok(p) => spec == Ok::<PatternView, ParseFailure>(p@),
        Err(e) => match spec {
            Ok(_) => false,
            Err(f) => e.reports(f),
        },
    }
}

impl Pattern {
    /// Construct a pattern with expression.
    pub fn new(expr: &str) -> (r: Pattern)
        ensures
            r@ == (PatternView { expression: expr@, flags: Flags::spec_empty(), id: None }),
    {
        Pattern { expression: expr.to_string(), flags: Flags::empty(), id: None }
    }

    /// Construct a pattern with expression and flags.
    pub fn with_flags(expr: &str, flags: Flags) -> (r: Pattern)
        ensures
            r@ == (PatternView { expression: expr@, flags, id: None }),
    {
        Pattern { expression: expr.to_string(), flags, id: None }
    }

    fn add_flags(self, f: Flags) -> (r: Self)
        ensures
            r@ == self@.with_flags_added(f),
    {
        let mut p = self;
        p.flags = p.flags.union(f);
        p
    }

    /// Set case-insensitive matching.
    pub fn caseless(self) -> (r: Self)
        ensures
            r@ == self@.with_flags_added(Flags { caseless: true, ..Flags::spec_empty() }),
    {
        self.add_flags(Flags { caseless: true, ..Flags::empty() })
    }

    /// Matching a `.` will not exclude newlines.
    pub fn dot_all(self) -> (r: Self)
        ensures
            r@ == self@.with_flags_added(Flags { dotall: true, ..Flags::spec_empty() }),
    {
        self.add_flags(Flags { dotall: true, ..Flags::empty() })
    }

    /// Set multi-line anchoring.
    pub fn multi_line(self) -> (r: Self)
        ensures
            r@ == self@.with_flags_added(Flags { multiline: true, ..Flags::spec_empty() }),
    {
        self.add_flags(Flags { multiline: true, ..Flags::empty() })
    }

    /// Set single-match only mode.
    pub fn single_match(self) -> (r: Self)
        ensures
            r@ == self@.with_flags_added(Flags { singlematch: true, ..Flags::spec_empty() }),
    {
        self.add_flags(Flags { singlematch: true, ..Flags::empty() })
    }

    /// Enable UTF-8 mode for this expression.
    pub fn utf8(self) -> (r: Self)
        ensures
            r@ == self@.with_flags_added(Flags { utf8: true, ..Flags::spec_empty() }),
    {
        self.add_flags(Flags { utf8: true, ..Flags::empty() })
    }

    /// Enable Unicode property support for this expression.
    pub fn ucp(self) -> (r: Self)
        ensures
            r@ == self@.with_flags_added(Flags { ucp: true, ..Flags::spec_empty() }),
    {
        self.add_flags(Flags { ucp: true, ..Flags::empty() })
    }

    fn parse_body(s: &Vec<char>, lo: usize, hi: usize, id: Option<usize>) -> (r: Result<Pattern, CrateError>)
        requires
            lo <= hi <= s.len(),
        ensures
            parse_outcome(r, spec_parse_body(id, s@.subrange(lo as int, hi as int))),
    {
        let ghost e = s@.subrange(lo as int, hi as int);
        if lo < hi && s[lo] == '/' {
            match rfind_char_in(s, '/', lo, hi) {
                None => {},
                Some(end) => {
                    if end > 0 {
                        proof {
                            lemma_rfind_char(e, '/');
                        }
                        assert(e.subrange(end + 1, e.len() as int) == s@.subrange(lo + end + 1, hi as int));
                        assert(e.subrange(1, end as int) == s@.subrange(lo + 1, lo + end));
                        let flags = match Flags::parse_chars(s, lo + end + 1, hi) {
                            Err(c) => {
                                return Err(CrateError::InvalidFlag(c));
                            },
                            Ok(f) => f,
                        };
                        return Ok(Pattern { expression: string_of(s, lo + 1, lo + end), flags, id });
                    }
                },
            }
        }
        Ok(Pattern { expression: string_of(s, lo, hi), flags: Flags::empty(), id })
    }

    /// Reads a pattern from the characters of `s`.
    pub fn parse_chars(s: &Vec<char>) -> (r: Result<Pattern, CrateError>)
        ensures
            parse_outcome(r, spec_parse_pattern(s@)),
    {
        match find_pair_in(s, ':', '/') {
            Some(off) => {
                proof {
                    lemma_find_pair_from_some(s@, ':', '/', 0);
                }
                assert(find_pair(s@, ':', '/') == Some(off as int));
                assert(off + 1 < s.len());
                match parse_uint_in(s, 0, off, usize::MAX as u64) {
                    Err(k) => Err(CrateError::ParseInt(ParseIntError { kind: k })),
                    Ok(v) => Pattern::parse_body(s, off + 1, s.len(), Some(v as usize)),
                }
            },
            None => {
                assert(s@.subrange(0, s@.len() as int) == s@);
                Pattern::parse_body(s, 0, s.len(), None)
            },
        }
    }

    /// Reads a pattern in the syntax `id:/expression/flags`.
    pub fn parse(s: &str) -> (r: Result<Pattern, CrateError>)
        ensures
            parse_outcome(r, spec_parse_pattern(s@)),
    {
        let v = chars_of(s);
        Pattern::parse_chars(&v)
    }

    /// The text of the pattern, in the syntax that `parse` reads.
    pub fn to_string(&self) -> (r: String)
        ensures
            r@ == self@.spec_text(),
    {
        let mut r = String::new();
        match self.id {
            Some(n) => {
                append_decimal(&mut r, n as u64);
                push_char(&mut r, ':');
            },
            None => {},
        }
        if self.id.is_some() || !self.flags.is_empty() {
            push_char(&mut r, '/');
            r.append(self.expression.as_str());
            push_char(&mut r, '/');
            let t = self.flags.to_string();
            r.append(t.as_str());
        } else {
            r.append(self.expression.as_str());
        }
        assert(r@ =~= self@.spec_text());
        r
    }
}

impl std::str::FromStr for Pattern {
    type Err = CrateError;

    fn from_str(s: &str) -> (r: Result<Pattern, CrateError>)
        ensures
            parse_outcome(r, spec_parse_pattern(s@)),
    {
        Pattern::parse(s)
    }
}

/// The sequence holding `o`'s pattern, if any.
pub open spec fn opt_seq(o: Option<PatternView>) -> Seq<PatternView> {
    match o {
        Some(p) => seq![p],
        None => Seq::empty(),
    }
}

/// `a` followed by the patterns of `r`, or the failure of `r`.
pub open spec fn prepend_views(a: Seq<PatternView>, r: Result<Seq<PatternView>, ParseFailure>) -> Result<Seq<PatternView>, ParseFailure> {
    match r {
        Ok(ps) => Ok(a + ps),
        Err(f) => Err(f),
    }
}

/// What one line of a pattern list reads: nothing for a line that is empty
/// or starts with `#` once trimmed, else the pattern on it.
pub open spec fn spec_parse_line(line: Seq<char>) -> Result<Option<PatternView>, ParseFailure> {
    let t = trim(line);
    if t.len() == 0 || t[0] == '#' {
        Ok(None)
    } else {
        match spec_parse_pattern(t) {
            Ok(p) => Ok(Some(p)),
            Err(f) => Err(f),
        }
    }
}

/// What a pattern list reads from `s`: the patterns of its lines, in order;
/// the first line refused gives the failure.
pub open spec fn spec_parse_lines(s: Seq<char>) -> Result<Seq<PatternView>, ParseFailure>
    decreases s.len(),
{
    match find_char(s, '\n') {
        None => match spec_parse_line(s) {
            Err(f) => Err(f),
            Ok(o) => Ok(opt_seq(o)),
        },
        Some(i) => if 0 <= i < s.len() {
            match spec_parse_line(s.subrange(0, i)) {
                Err(f) => Err(f),
                Ok(o) => prepend_views(opt_seq(o), spec_parse_lines(s.subrange(i + 1, s.len() as int))),
            }
        } else {
            Ok(Seq::empty())
        },
    }
}

/// The views of a vector of patterns.
pub open spec fn views_of(v: Seq<Pattern>) -> Seq<PatternView> {
    v.map_values(|p: Pattern| p@)
}

/// Vec of `Pattern`
#[derive(Clone, Debug)]
pub struct Patterns(pub Vec<Pattern>);

impl View for Patterns {
    type V = Seq<PatternView>;

    open spec fn view(&self) -> Seq<PatternView> {
        views_of(self.0@)
    }
}

impl Patterns {
    fn parse_line(v: &Vec<char>, lo: usize, hi: usize) -> (r: Result<Option<Pattern>, CrateError>)
        requires
            lo <= hi <= v.len(),
        ensures
            match r {
                Ok(Some(p)) => spec_parse_line(v@.subrange(lo as int, hi as int)) == Ok::<Option<PatternView>, ParseFailure>(Some(p@)),
                Ok(None) => spec_parse_line(v@.subrange(lo as int, hi as int)) == Ok::<Option<PatternView>, ParseFailure>(None),
                Err(e) => match spec_parse_line(v@.subrange(lo as int, hi as int)) {
                    Ok(_) => false,
                    Err(f) => e.reports(f),
                },
            },
    {
        let (a, b) = trim_in(v, lo, hi);
        if a == b || v[a] == '#' {
            Ok(None)
        } else {
            let sub = sub_chars(v, a, b);
            match Pattern::parse_chars(&sub) {
                Ok(p) => Ok(Some(p)),
                Err(e) => Err(e),
            }
        }
    }

    /// Reads a list of patterns, one per line; empty lines and lines that
    /// start with `#` are skipped.
    pub fn parse(s: &str) -> (r: Result<Patterns, CrateError>)
        ensures
            match r {
                Ok(ps) => spec_parse_lines(s@) == Ok::<Seq<PatternView>, ParseFailure>(ps@),
                Err(e) => match spec_parse_lines(s@) {
                    Ok(_) => false,
                    Err(f) => e.reports(f),
                },
            },
    {
        let v = chars_of(s);
        let mut out: Vec<Pattern> = Vec::new();
        let mut start: usize = 0;
        assert(v@.subrange(0, v@.len() as int) == v@);
        loop
            invariant
                start <= v.len(),
                v@ == s@,
                spec_parse_lines(s@) == prepend_views(views_of(out@), spec_parse_lines(v@.subrange(start as int, v.len() as int))),
            decreases v.len() - start,
        {
            let ghost rest = v@.subrange(start as int, v.len() as int);
            let ghost before = views_of(out@);
            let (end, last) = match find_char_range(&v, '\n', start, v.len()) {
                None => (v.len(), true),
                Some(i) => {
                    proof {
                        lemma_find_char_from_some(rest, '\n', 0);
                    }
                    assert(rest.subrange(0, i as int) == v@.subrange(start as int, start + i));
                    assert(rest.subrange(i + 1, rest.len() as int) == v@.subrange(start + i + 1, v.len() as int));
                    (start + i, false)
                },
            };
            match Patterns::parse_line(&v, start, end) {
                Err(e) => {
                    return Err(e);
                },
                Ok(o) => {
                    let ghost ov: Option<PatternView> = match &o {
                        Some(p) => Some(p@),
                        None => None,
                    };
                    match o {
                        Some(p) => {
                            out.push(p);
                            assert(views_of(out@) =~= before + seq![p@]);
                        },
                        None => {
                            assert(before + Seq::<PatternView>::empty() =~= before);
                        },
                    }
                    assert(views_of(out@) == before + opt_seq(ov));
                    if last {
                        assert(rest == v@.subrange(start as int, end as int));
                        return Ok(Patterns(out));
                    }
                    let ghost tail = v@.subrange(end + 1, v.len() as int);
                    assert(spec_parse_lines(rest) == prepend_views(opt_seq(ov), spec_parse_lines(tail)));
                    proof {
                        match spec_parse_lines(tail) {
                            Ok(ps) => {
                                assert(before + (opt_seq(ov) + ps) =~= (before + opt_seq(ov)) + ps);
                            },
                            Err(_) => {},
                        }
                    }
                    start = end + 1;
                },
            }
        }
    }
}

impl std::str::FromStr for Patterns {
    type Err = CrateError;

    fn from_str(s: &str) -> (r: Result<Patterns, CrateError>)
        ensures
            match r {
                Ok(ps) => spec_parse_lines(s@) == Ok::<Seq<PatternView>, ParseFailure>(ps@),
                Err(e) => match spec_parse_lines(s@) {
                    Ok(_) => false,
                    Err(f) => e.reports(f),
                },
            },
    {
        Patterns::parse(s)
    }
}


impl Flags {
    /// Reading a concatenation reads the first part, then the second.
    pub proof fn lemma_parse_concat(x: Seq<char>, y: Seq<char>, acc: Flags)
        ensures
            Flags::spec_parse_from(x + y, acc) == match Flags::spec_parse_from(x, acc) {
                Ok(a) => Flags::spec_parse_from(y, a),
                Err(e) => Err(e),
            },
        decreases x.len(),
    {
        if x.len() == 0 {
            assert(x + y =~= y);
        } else {
            assert((x + y).drop_first() =~= x.drop_first() + y);
            assert((x + y)[0] == x[0]);
            match Flags::spec_flag_of(x[0]) {
                None => {},
                Some(f) => {
                    Flags::lemma_parse_concat(x.drop_first(), y, acc.spec_union(f));
                },
            }
        }
    }

    /// Reading the character of one flag, where it is printed, adds the flag.
    proof fn lemma_parse_one(c: char, b: bool, acc: Flags)
        requires
            Flags::spec_flag_of(c) is Some,
        ensures
            Flags::spec_parse_from(flag_char_if(c, b), acc) == Ok::<Flags, char>(
                if b {
                    acc.spec_union(Flags::spec_flag_of(c).unwrap())
                } else {
                    acc
                },
            ),
    {
        let s = flag_char_if(c, b);
        if b {
            assert(s.len() == 1 && s[0] == c);
            assert(s.drop_first() =~= Seq::<char>::empty());
            let f = Flags::spec_flag_of(c).unwrap();
            assert(Flags::spec_parse_from(s, acc) == Flags::spec_parse_from(s.drop_first(), acc.spec_union(f)));
        } else {
            assert(s.len() == 0);
        }
    }

    /// Reading back the flag characters of a set gives the set.
    pub proof fn lemma_parse_text(f: Flags)
        ensures
            Flags::spec_parse(f.spec_text()) == Ok::<Flags, char>(f),
    {
        let a = flag_char_if('i', f.caseless);
        let b = flag_char_if('m', f.multiline);
        let c = flag_char_if('s', f.dotall);
        let d = flag_char_if('H', f.singlematch);
        let e = flag_char_if('8', f.utf8);
        let g = flag_char_if('W', f.ucp);
        let e0 = Flags::spec_empty();
        Flags::lemma_parse_concat(a + b + c + d + e, g, e0);
        Flags::lemma_parse_concat(a + b + c + d, e, e0);
        Flags::lemma_parse_concat(a + b + c, d, e0);
        Flags::lemma_parse_concat(a + b, c, e0);
        Flags::lemma_parse_concat(a, b, e0);
        Flags::lemma_parse_one('i', f.caseless, e0);
        let s1 = Flags { caseless: f.caseless, ..e0 };
        Flags::lemma_parse_one('m', f.multiline, s1);
        let s2 = Flags { multiline: f.multiline, ..s1 };
        Flags::lemma_parse_one('s', f.dotall, s2);
        let s3 = Flags { dotall: f.dotall, ..s2 };
        Flags::lemma_parse_one('H', f.singlematch, s3);
        let s4 = Flags { singlematch: f.singlematch, ..s3 };
        Flags::lemma_parse_one('8', f.utf8, s4);
        let s5 = Flags { utf8: f.utf8, ..s4 };
        Flags::lemma_parse_one('W', f.ucp, s5);
    }

    /// The flag characters hold no delimiter of the pattern syntax.
    pub proof fn lemma_text_no_delimiters(f: Flags)
        ensures
            no_delimiters(f.spec_text()),
    {
        let t = f.spec_text();
        assert forall|j: int| 0 <= j < t.len() implies t[j] != '/' && t[j] != ':' && t[j] != '{' && t[j] != '}' by {
            let a = flag_char_if('i', f.caseless);
            let b = flag_char_if('m', f.multiline);
            let c = flag_char_if('s', f.dotall);
            let d = flag_char_if('H', f.singlematch);
            let e = flag_char_if('8', f.utf8);
            let g = flag_char_if('W', f.ucp);
            let p1 = a + b;
            let p2 = p1 + c;
            let p3 = p2 + d;
            let p4 = p3 + e;
            assert(t == p4 + g);
            if j >= p4.len() {
                assert(t[j] == g[j - p4.len()]);
            } else if j >= p3.len() {
                assert(t[j] == e[j - p3.len()]);
            } else if j >= p2.len() {
                assert(t[j] == p3[j]);
                assert(p3[j] == d[j - p2.len()]);
            } else if j >= p1.len() {
                assert(t[j] == p2[j]);
                assert(p2[j] == c[j - p1.len()]);
            } else if j >= a.len() {
                assert(t[j] == p1[j]);
                assert(p1[j] == b[j - a.len()]);
            } else {
                assert(t[j] == p1[j]);
                assert(p1[j] == a[j]);
            }
        }
    }
}

/// `e` starts with `/` and holds another `/` after it, so that the syntax
/// reads it as delimited.
pub open spec fn starts_delimited(e: Seq<char>) -> bool {
    e.len() > 0 && e[0] == '/' && rfind_char(e, '/') is Some && rfind_char(e, '/').unwrap() > 0
}

impl PatternView {
    /// The expression is printed between slashes: an id or a flag is there.
    pub open spec fn is_delimited(self) -> bool {
        self.id is Some || self.flags != Flags::spec_empty()
    }
}

proof fn lemma_parse_body_text(p: PatternView)
    requires
        p.is_delimited(),
    ensures
        spec_parse_body(p.id, seq!['/'] + p.expression + seq!['/'] + p.flags.spec_text()) == Ok::<PatternView, ParseFailure>(p),
{
    let a = seq!['/'] + p.expression + seq!['/'];
    let f = p.flags.spec_text();
    Flags::lemma_text_no_delimiters(p.flags);
    Flags::lemma_parse_text(p.flags);
    lemma_rfind_char_last(a, '/', f);
    let e = a + f;
    let end = a.len() - 1;
    assert(e[0] == '/');
    assert(e.subrange(1, end) =~= p.expression);
    assert(e.subrange(end + 1, e.len() as int) =~= f);
}

/// Reading back the text of a pattern gives the pattern, where the text
/// reads the same way: without an id, the text must hold no `:/`, and an
/// expression printed without slashes must not look delimited itself.
pub proof fn lemma_pattern_text_roundtrip(p: PatternView)
    requires
        p.id is None && p.is_delimited() ==> find_pair(p.expression.push('/'), ':', '/') is None,
        p.id is None && !p.is_delimited() ==> find_pair(p.expression, ':', '/') is None
            && !starts_delimited(p.expression),
    ensures
        spec_parse_pattern(p.spec_text()) == Ok::<PatternView, ParseFailure>(p),
{
    let f = p.flags.spec_text();
    let s = p.spec_text();
    Flags::lemma_text_no_delimiters(p.flags);
    match p.id {
        Some(n) => {
            let d = decimal(n as nat);
            let rest = seq!['/'] + p.expression + seq!['/'] + f;
            lemma_decimal_digits(n as nat);
            assert(s =~= d + seq![':'] + rest);
            let i = d.len() as int;
            assert(s[i] == ':');
            assert(s[i + 1] == '/');
            assert forall|j: int| 0 <= j < i implies !(#[trigger] s[j] == ':' && s[j + 1] == '/') by {
                assert(s[j] == d[j]);
            }
            lemma_find_pair_at(s, ':', '/', i);
            assert(s.subrange(0, i) =~= d);
            crate::text::lemma_parse_decimal(n as nat, usize::MAX as int);
            assert(s.subrange(i + 1, s.len() as int) =~= rest);
            lemma_parse_body_text(p);
        },
        None => {
            if p.is_delimited() {
                let q = p.expression.push('/');
                lemma_find_pair_from_some(q, ':', '/', 0);
                assert(s =~= seq!['/'] + q + f);
                assert forall|j: int| 0 <= j && j + 1 < s.len() implies !(#[trigger] s[j] == ':' && s[j + 1] == '/') by {
                    if 1 <= j && j + 1 <= q.len() {
                        assert(s[j] == q[j - 1]);
                        assert(s[j + 1] == q[j]);
                    } else if j > q.len() {
                        assert(s[j] == f[j - q.len() - 1]);
                    }
                }
                lemma_find_pair_none(s, ':', '/');
                assert(s =~= seq!['/'] + p.expression + seq!['/'] + f);
                lemma_parse_body_text(p);
            } else {
                assert(s =~= p.expression);
            }
        },
    }
}

impl Flags {
    /// The value of a flag set is the sum of the engine's constants of its
    /// flags, so each flag sets exactly its own constant's bit.
    pub proof fn lemma_bits_engine(f: Flags)
        ensures
            f.spec_bits() as int == (if f.caseless { CH_FLAG_CASELESS as int } else { 0 }) + (if f.dotall { CH_FLAG_DOTALL as int } else { 0 }) + (if f.multiline { CH_FLAG_MULTILINE as int } else { 0 }) + (if f.singlematch { CH_FLAG_SINGLEMATCH as int } else { 0 }) + (if f.utf8 { CH_FLAG_UTF8 as int } else { 0 }) + (if f.ucp { CH_FLAG_UCP as int } else { 0 }),
            (f.spec_bits() & CH_FLAG_CASELESS != 0) == f.caseless,
            (f.spec_bits() & CH_FLAG_DOTALL != 0) == f.dotall,
            (f.spec_bits() & CH_FLAG_MULTILINE != 0) == f.multiline,
            (f.spec_bits() & CH_FLAG_SINGLEMATCH != 0) == f.singlematch,
            (f.spec_bits() & CH_FLAG_UTF8 != 0) == f.utf8,
            (f.spec_bits() & CH_FLAG_UCP != 0) == f.ucp,
    {
        lemma_bits_of_sum(f.caseless, f.dotall, f.multiline, f.singlematch, false, f.utf8, f.ucp, false, false, false, false, f.spec_bits());
    }

    proof fn lemma_parse_from_chars(s: Seq<char>, acc: Flags)
        ensures
            Flags::spec_parse_from(s, acc) matches Ok(g) ==> {
                &&& g.caseless == (acc.caseless || s.contains('i'))
                &&& g.dotall == (acc.dotall || s.contains('s'))
                &&& g.multiline == (acc.multiline || s.contains('m'))
                &&& g.singlematch == (acc.singlematch || s.contains('H'))
                &&& g.utf8 == (acc.utf8 || s.contains('8'))
                &&& g.ucp == (acc.ucp || s.contains('W'))
            },
        decreases s.len(),
    {
        if s.len() > 0 {
            if let Some(f) = Flags::spec_flag_of(s[0]) {
                Flags::lemma_parse_from_chars(s.drop_first(), acc.spec_union(f));
                lemma_contains_first(s, 'i');
                lemma_contains_first(s, 's');
                lemma_contains_first(s, 'm');
                lemma_contains_first(s, 'H');
                lemma_contains_first(s, '8');
                lemma_contains_first(s, 'W');
            }
        }
    }

    /// Each flag character names its own flag (`i` caseless, `s` dotall, `m` multiline, `H` singlematch, `8` utf8, `W` ucp): flags read from
    /// a text hold a flag exactly when the text holds its character.
    pub proof fn lemma_parse_chars(s: Seq<char>)
        ensures
            Flags::spec_parse(s) matches Ok(g) ==> {
                &&& g.caseless == s.contains('i')
                &&& g.dotall == s.contains('s')
                &&& g.multiline == s.contains('m')
                &&& g.singlematch == s.contains('H')
                &&& g.utf8 == s.contains('8')
                &&& g.ucp == s.contains('W')
            },
    {
        Flags::lemma_parse_from_chars(s, Flags::spec_empty());
    }

    /// The text of a flag set holds a flag's character exactly when the set
    /// holds the flag.
    pub proof fn lemma_text_chars(f: Flags)
        ensures
            f.spec_text().contains('i') == f.caseless,
            f.spec_text().contains('s') == f.dotall,
            f.spec_text().contains('m') == f.multiline,
            f.spec_text().contains('H') == f.singlematch,
            f.spec_text().contains('8') == f.utf8,
            f.spec_text().contains('W') == f.ucp,
    {
        Flags::lemma_parse_text(f);
        Flags::lemma_parse_chars(f.spec_text());
    }
}

} // verus!
