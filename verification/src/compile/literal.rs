//! Pure literal expressions, with their flags and their textual syntax
//! `id:/literal/flags`.

use vstd::prelude::*;

use crate::compile::pattern::{
    lemma_bits_of_sum, lemma_contains_first, som_max, som_max_exec, starts_delimited, SomHorizon, HS_FLAG_CASELESS,
    HS_FLAG_MULTILINE, HS_FLAG_SINGLEMATCH, HS_FLAG_SOM_LEFTMOST,
};
use crate::error::{Error as CrateError, ParseFailure, ParseIntError};
use crate::text::{
    append_decimal, chars_of, decimal, find_char, find_char_in, lemma_decimal_digits,
    lemma_find_char_at, lemma_find_char_from_some, lemma_find_char_none, lemma_rfind_char_last,
    no_delimiters,
    lemma_rfind_char, parse_uint, parse_uint_in, push_char, push_char_if, rfind_char,
    rfind_char_in, string_of, flag_char_if,
};
use vstd::string::StringExecFns;

verus! {

/// Literal flags.
#[derive(Clone, Copy, Debug, PartialEq, Eq, Structural)]
pub struct Flags {
    /// Matching will be performed case-insensitively.
    pub caseless: bool,
    /// `^` and `$` anchors match any newlines in data.
    pub multiline: bool,
    /// Only one match will be generated for the expression per stream.
    pub singlematch: bool,
    /// Report the leftmost start of match offset when a match is found.
    pub som_leftmost: bool,
}

impl Flags {
    /// The set with no flag.
    pub open spec fn spec_empty() -> Flags {
        Flags { caseless: false, multiline: false, singlematch: false, som_leftmost: false }
    }

    /// Both sets together.
    pub open spec fn spec_union(self, other: Flags) -> Flags {
        Flags {
            caseless: self.caseless || other.caseless,
            multiline: self.multiline || other.multiline,
            singlematch: self.singlematch || other.singlematch,
            som_leftmost: self.som_leftmost || other.som_leftmost,
        }
    }

    /// The flag that a character of the literal flag syntax stands for.
    pub open spec fn spec_flag_of(c: char) -> Option<Flags> {
        if c == 'i' {
            Some(Flags { caseless: true, ..Flags::spec_empty() })
        } else if c == 'm' {
            Some(Flags { multiline: true, ..Flags::spec_empty() })
        } else if c == 'H' {
            Some(Flags { singlematch: true, ..Flags::spec_empty() })
        } else {
            None
        }
    }

    /// Reads flag characters left to right into `acc`; the first character
    /// that names no flag is the error.
    pub open spec fn spec_parse_from(s: Seq<char>, acc: Flags) -> Result<Flags, char>
        decreases s.len(),
    {
        if s.len() == 0 {
            Ok(acc)
        } else {
            match Flags::spec_flag_of(s[0]) {
                None => Err(s[0]),
                Some(f) => Flags::spec_parse_from(s.drop_first(), acc.spec_union(f)),
            }
        }
    }

    /// What the literal flag syntax reads from `s`.
    pub open spec fn spec_parse(s: Seq<char>) -> Result<Flags, char> {
        Flags::spec_parse_from(s, Flags::spec_empty())
    }

    /// The flag characters of the set: `i`, `m`, `H`, in this order (the
    /// leftmost start of match has no character).
    pub open spec fn spec_text(self) -> Seq<char> {
        flag_char_if('i', self.caseless) + flag_char_if('m', self.multiline) + flag_char_if('H', self.singlematch)
    }

    /// The raw bit set that the engine reads.
    pub open spec fn spec_bits(self) -> u32 {
        ((if self.caseless { 1int } else { 0 }) + (if self.multiline { 4int } else { 0 }) + (if self.singlematch {
            8int
        } else {
            0
        }) + (if self.som_leftmost { 256int } else { 0 })) as u32
    }

    /// The set with no flag.
    pub fn empty() -> (r: Flags)
        ensures
            r == Flags::spec_empty(),
    {
        Flags { caseless: false, multiline: false, singlematch: false, som_leftmost: false }
    }

    /// No flag is set.
    pub fn is_empty(&self) -> (r: bool)
        ensures
            r == (*self == Flags::spec_empty()),
    {
        !self.caseless && !self.multiline && !self.singlematch && !self.som_leftmost
    }

    /// Both sets together.
    pub fn union(self, other: Flags) -> (r: Flags)
        ensures
            r == self.spec_union(other),
    {
        Flags {
            caseless: self.caseless || other.caseless,
            multiline: self.multiline || other.multiline,
            singlematch: self.singlematch || other.singlematch,
            som_leftmost: self.som_leftmost || other.som_leftmost,
        }
    }

    /// The raw bit set that the engine reads.
    pub fn bits(&self) -> (r: u32)
        ensures
            r == self.spec_bits(),
    {
        let a: u32 = if self.caseless { 1 } else { 0 };
        let b: u32 = if self.multiline { 4 } else { 0 };
        let c: u32 = if self.singlematch { 8 } else { 0 };
        let d: u32 = if self.som_leftmost { 256 } else { 0 };
        a + b + c + d
    }

    fn flag_of(c: char) -> (r: Option<Flags>)
        ensures
            r == Flags::spec_flag_of(c),
    {
        if c == 'i' {
            Some(Flags { caseless: true, multiline: false, singlematch: false, som_leftmost: false })
        } else if c == 'm' {
            Some(Flags { caseless: false, multiline: true, singlematch: false, som_leftmost: false })
        } else if c == 'H' {
            Some(Flags { caseless: false, multiline: false, singlematch: true, som_leftmost: false })
        } else {
            None
        }
    }

    /// Reads the flag characters `s[lo..hi]`.
    pub fn parse_chars(s: &Vec<char>, lo: usize, hi: usize) -> (r: Result<Flags, char>)
        requires
            lo <= hi <= s.len(),
        ensures
            r == Flags::spec_parse(s@.subrange(lo as int, hi as int)),
    {
        let mut acc = Flags::empty();
        let mut i = lo;
        while i < hi
            invariant
                lo <= i <= hi <= s.len(),
                Flags::spec_parse(s@.subrange(lo as int, hi as int)) == Flags::spec_parse_from(
                    s@.subrange(i as int, hi as int),
                    acc,
                ),
            decreases hi - i,
        {
            assert(s@.subrange(i as int, hi as int).drop_first() == s@.subrange(i + 1, hi as int));
            match Flags::flag_of(s[i]) {
                None => {
                    return Err(s[i]);
                },
                Some(f) => {
                    acc = acc.union(f);
                },
            }
            i = i + 1;
        }
        Ok(acc)
    }

    /// Reads literal flag characters, such as `im`.
    pub fn parse(s: &str) -> (r: Result<Flags, CrateError>)
        ensures
            match Flags::spec_parse(s@) {
                Ok(f) => r == Ok::<Flags, CrateError>(f),
                Err(c) => r == Err::<Flags, CrateError>(CrateError::InvalidFlag(c)),
            },
    {
        let v = chars_of(s);
        assert(v@.subrange(0, v@.len() as int) == v@);
        match Flags::parse_chars(&v, 0, v.len()) {
            Ok(f) => Ok(f),
            Err(c) => Err(CrateError::InvalidFlag(c)),
        }
    }

    /// The flag characters of the set.
    pub fn to_string(&self) -> (r: String)
        ensures
            r@ == self.spec_text(),
    {
        let mut r = String::new();
        push_char_if(&mut r, 'i', self.caseless);
        push_char_if(&mut r, 'm', self.multiline);
        push_char_if(&mut r, 'H', self.singlematch);
        r
    }
}

impl Flags {
    /// Reading a concatenation reads the first part, then the second.
    pub proof fn lemma_parse_concat(x: Seq<char>, y: Seq<char>, acc: Flags)
        ensures
            Flags::spec_parse_from(x + y, acc) == match Flags::spec_parse_from(x, acc) {
                Ok(a) => Flags::spec_parse_from(y, a),
                Err(e) => Err(e),
            },
        decreases x.len(),
    {
        if x.len() == 0 {
            assert(x + y =~= y);
        } else {
            assert((x + y).drop_first() =~= x.drop_first() + y);
            assert((x + y)[0] == x[0]);
            match Flags::spec_flag_of(x[0]) {
                None => {},
                Some(f) => {
                    Flags::lemma_parse_concat(x.drop_first(), y, acc.spec_union(f));
                },
            }
        }
    }

    proof fn lemma_parse_one(c: char, b: bool, acc: Flags)
        requires
            Flags::spec_flag_of(c) is Some,
        ensures
            Flags::spec_parse_from(flag_char_if(c, b), acc) == Ok::<Flags, char>(
                if b {
                    acc.spec_union(Flags::spec_flag_of(c).unwrap())
                } else {
                    acc
                },
            ),
    {
        let s = flag_char_if(c, b);
        if b {
            assert(s.len() == 1 && s[0] == c);
            assert(s.drop_first() =~= Seq::<char>::empty());
            let f = Flags::spec_flag_of(c).unwrap();
            assert(Flags::spec_parse_from(s, acc) == Flags::spec_parse_from(s.drop_first(), acc.spec_union(f)));
        } else {
            assert(s.len() == 0);
        }
    }

    /// Reading back the flag characters of a set gives the set, where the
    /// set does not ask for the leftmost start of match (which has no character).
    pub proof fn lemma_parse_text(f: Flags)
        requires
            !f.som_leftmost,
        ensures
            Flags::spec_parse(f.spec_text()) == Ok::<Flags, char>(f),
    {
        let a = flag_char_if('i', f.caseless);
        let b = flag_char_if('m', f.multiline);
        let c = flag_char_if('H', f.singlematch);
        let e0 = Flags::spec_empty();
        Flags::lemma_parse_concat(a + b, c, e0);
        Flags::lemma_parse_concat(a, b, e0);
        Flags::lemma_parse_one('i', f.caseless, e0);
        let s1 = Flags { caseless: f.caseless, ..e0 };
        Flags::lemma_parse_one('m', f.multiline, s1);
        let s2 = Flags { multiline: f.multiline, ..s1 };
        Flags::lemma_parse_one('H', f.singlematch, s2);
    }
}

impl Default for Flags {
    fn default() -> (r: Flags)
        ensures
            r == Flags::spec_empty(),
    {
        Flags::empty()
    }
}


/// `c` has a special meaning in a regular expression (`regex_syntax::is_meta_character`).
pub open spec fn is_meta_character(c: char) -> bool {
    c == '\\' || c == '.' || c == '+' || c == '*' || c == '?' || c == '(' || c == ')' || c == '|'
        || c == '[' || c == ']' || c == '{' || c == '}' || c == '^' || c == '$' || c == '#' || c
        == '&' || c == '-' || c == '~'
}

/// `text` with a backslash put before each meta character.
pub open spec fn escaped(text: Seq<char>) -> Seq<char>
    decreases text.len(),
{
    if text.len() == 0 {
        Seq::empty()
    } else {
        escaped(text.drop_last()) + if is_meta_character(text.last()) {
            seq!['\\', text.last()]
        } else {
            seq![text.last()]
        }
    }
}

/// `regex_syntax::escape`: the text with a backslash before each of its meta
/// characters, as the crate's source shows it (a loop that pushes `\` before
/// each character for which `is_meta_character` holds, then the character).
#[verifier::external_body]
pub(crate) fn escape(text: &str) -> (r: String)
    ensures
        r@ == escaped(text@),
{
    regex_syntax::escape(text)
}

/// What a literal holds, with the expression as a sequence of characters.
pub struct LiteralView {
    pub expression: Seq<char>,
    pub flags: Flags,
    pub id: Option<usize>,
    pub som: Option<SomHorizon>,
}

/// The pure literal expression.
#[derive(Clone, Debug, PartialEq, Eq)]
pub struct Literal {
    /// The expression to parse.
    pub expression: String,
    /// Flags which modify the behaviour of the expression.
    pub flags: Flags,
    /// ID number to be associated with the corresponding literal in the expressions array.
    pub id: Option<usize>,
    /// The precision to track start of match offsets in stream state.
    pub som: Option<SomHorizon>,
}

impl View for Literal {
    type V = LiteralView;

    open spec fn view(&self) -> LiteralView {
        LiteralView { expression: self.expression@, flags: self.flags, id: self.id, som: self.som }
    }
}

impl LiteralView {
    /// The precision that a compile in streaming mode asks for: the literal's
    /// own, or `Medium`, where leftmost start of match is reported; else none.
    pub open spec fn spec_som(self) -> Option<SomHorizon> {
        if self.flags.som_leftmost {
            match self.som {
                Some(h) => Some(h),
                None => Some(SomHorizon::Medium),
            }
        } else {
            None
        }
    }

    /// The text of the literal: `id:` where there is an id, the escaped
    /// expression (between slashes where there is an id or a flag), and the
    /// flag characters.
    pub open spec fn spec_text(self) -> Seq<char> {
        let id_text = match self.id {
            Some(n) => decimal(n as nat) + seq![':'],
            None => Seq::empty(),
        };
        let e = escaped(self.expression);
        let body = if self.id is Some || self.flags != Flags::spec_empty() {
            seq!['/'] + e + seq!['/']
        } else {
            e
        };
        let flags_text = if self.flags != Flags::spec_empty() {
            self.flags.spec_text()
        } else {
            Seq::empty()
        };
        id_text + body + flags_text
    }
}

/// What the literal syntax reads from `e`, the text after the id: with a
/// leading `/` and a later `/`, the expression between them and the flags
/// after the last one; else the whole text as the expression.
pub open spec fn spec_literal_body(id: Option<usize>, e: Seq<char>) -> Result<LiteralView, ParseFailure> {
    if e.len() > 0 && e[0] == '/' && rfind_char(e, '/') is Some && rfind_char(e, '/').unwrap() > 0 {
        let end = rfind_char(e, '/').unwrap();
        match Flags::spec_parse(e.subrange(end + 1, e.len() as int)) {
            Err(c) => Err(ParseFailure::InvalidFlag(c)),
            Ok(flags) => Ok(LiteralView { expression: e.subrange(1, end), flags, id, som: None }),
        }
    } else {
        Ok(LiteralView { expression: e, flags: Flags::spec_empty(), id, som: None })
    }
}

/// What the literal syntax `id:/literal/flags` reads from `s`: the text
/// before the first `:` is the id, a decimal `usize`.
pub open spec fn spec_parse_literal(s: Seq<char>) -> Result<LiteralView, ParseFailure> {
    match find_char(s, ':') {
        Some(off) => match parse_uint(s.subrange(0, off), usize::MAX as int) {
            Err(k) => Err(ParseFailure::ParseInt(k)),
            Ok(id) => spec_literal_body(Some(id as usize), s.subrange(off + 1, s.len() as int)),
        },
        None => spec_literal_body(None, s),
    }
}

/// The literal holding `expression` and `flags`, with no id or precision.
pub open spec fn plain_literal(expression: Seq<char>, flags: Flags) -> LiteralView {
    LiteralView { expression, flags, id: None, som: None }
}

impl Literal {
    /// Construct a literal with expression.
    pub fn new(expr: &str) -> (r: Result<Literal, CrateError>)
        ensures
            r matches Ok(l) && l@ == plain_literal(expr@, Flags::spec_empty()),
    {
        Ok(Literal { expression: expr.to_string(), flags: Flags::empty(), id: None, som: None })
    }

    /// Construct a literal with expression and flags.
    pub fn with_flags(expr: &str, flags: Flags) -> (r: Result<Literal, CrateError>)
        ensures
            r matches Ok(l) && l@ == plain_literal(expr@, flags),
    {
        Ok(Literal { expression: expr.to_string(), flags, id: None, som: None })
    }

    fn parse_body(s: &Vec<char>, lo: usize, hi: usize, id: Option<usize>) -> (r: Result<Literal, CrateError>)
        requires
            lo <= hi <= s.len(),
        ensures
            match r {
                Ok(l) => spec_literal_body(id, s@.subrange(lo as int, hi as int)) == Ok::<LiteralView, ParseFailure>(l@),
                Err(e) => match spec_literal_body(id, s@.subrange(lo as int, hi as int)) {
                    Ok(_) => false,
                    Err(f) => e.reports(f),
                },
            },
    {
        let ghost e = s@.subrange(lo as int, hi as int);
        if lo < hi && s[lo] == '/' {
            match rfind_char_in(s, '/', lo, hi) {
                None => {},
                Some(end) => {
                    if end > 0 {
                        proof {
                            lemma_rfind_char(e, '/');
                        }
                        assert(e.subrange(end + 1, e.len() as int) == s@.subrange(lo + end + 1, hi as int));
                        assert(e.subrange(1, end as int) == s@.subrange(lo + 1, lo + end));
                        let flags = match Flags::parse_chars(s, lo + end + 1, hi) {
                            Err(c) => {
                                return Err(CrateError::InvalidFlag(c));
                            },
                            Ok(f) => f,
                        };
                        return Ok(Literal { expression: string_of(s, lo + 1, lo + end), flags, id, som: None });
                    }
                },
            }
        }
        Ok(Literal { expression: string_of(s, lo, hi), flags: Flags::empty(), id, som: None })
    }

    /// Parse a expression to a literal, in the syntax `id:/literal/flags`,
    /// where the id, the slashes and the flags may be left out.
    pub fn parse(s: &str) -> (r: Result<Literal, CrateError>)
        ensures
            match r {
                Ok(l) => spec_parse_literal(s@) == Ok::<LiteralView, ParseFailure>(l@),
                Err(e) => match spec_parse_literal(s@) {
                    Ok(_) => false,
                    Err(f) => e.reports(f),
                },
            },
    {
        let v = chars_of(s);
        match find_char_in(&v, ':', 0) {
            Some(off) => {
                proof {
                    lemma_find_char_from_some(v@, ':', 0);
                }
                match parse_uint_in(&v, 0, off, usize::MAX as u64) {
                    Err(k) => Err(CrateError::ParseInt(ParseIntError { kind: k })),
                    Ok(n) => Literal::parse_body(&v, off + 1, v.len(), Some(n as usize)),
                }
            },
            None => {
                assert(v@.subrange(0, v@.len() as int) == v@);
                Literal::parse_body(&v, 0, v.len(), None)
            },
        }
    }

    /// The text of the literal, with the meta characters of the expression escaped.
    pub fn to_string(&self) -> (r: String)
        ensures
            r@ == self@.spec_text(),
    {
        let mut r = String::new();
        match self.id {
            Some(n) => {
                append_decimal(&mut r, n as u64);
                push_char(&mut r, ':');
            },
            None => {},
        }
        let e = escape(self.expression.as_str());
        if self.id.is_some() || !self.flags.is_empty() {
            push_char(&mut r, '/');
            r.append(e.as_str());
            push_char(&mut r, '/');
        } else {
            r.append(e.as_str());
        }
        if !self.flags.is_empty() {
            let t = self.flags.to_string();
            r.append(t.as_str());
        }
        assert(r@ =~= self@.spec_text());
        r
    }

    /// The precision that a compile in streaming mode asks for.
    pub fn som(&self) -> (r: Option<SomHorizon>)
        ensures
            r == self@.spec_som(),
    {
        if self.flags.som_leftmost {
            match self.som {
                Some(h) => Some(h),
                None => Some(SomHorizon::Medium),
            }
        } else {
            None
        }
    }
}

impl std::str::FromStr for Literal {
    type Err = CrateError;

    fn from_str(s: &str) -> (r: Result<Literal, CrateError>)
        ensures
            match r {
                Ok(l) => spec_parse_literal(s@) == Ok::<LiteralView, ParseFailure>(l@),
                Err(e) => match spec_parse_literal(s@) {
                    Ok(_) => false,
                    Err(f) => e.reports(f),
                },
            },
    {
        Literal::parse(s)
    }
}

/// Vec of `Literal`
pub type Literals = Vec<Literal>;

/// The views of a vector of literals.
pub open spec fn literal_views(v: Seq<Literal>) -> Seq<LiteralView> {
    v.map_values(|l: Literal| l@)
}

/// Some literal reports the leftmost start of match.
pub open spec fn any_literal_leftmost(ls: Seq<LiteralView>) -> bool {
    exists|i: int| 0 <= i < ls.len() && (#[trigger] ls[i]).flags.som_leftmost
}

/// The latest precision that the literals name.
pub open spec fn max_literal_som(ls: Seq<LiteralView>) -> Option<SomHorizon>
    decreases ls.len(),
{
    if ls.len() == 0 {
        None
    } else {
        som_max(max_literal_som(ls.drop_last()), ls.last().som)
    }
}

/// The precision that a compile of the literals in streaming mode asks for.
pub open spec fn literals_som_spec(ls: Seq<LiteralView>) -> Option<SomHorizon> {
    if any_literal_leftmost(ls) {
        match max_literal_som(ls) {
            Some(h) => Some(h),
            None => Some(SomHorizon::Medium),
        }
    } else {
        None
    }
}

/// The precision that a compile of the literals in streaming mode asks for.
pub fn literals_som(ls: &Literals) -> (r: Option<SomHorizon>)
    ensures
        r == literals_som_spec(literal_views(ls@)),
{
    let ghost views = literal_views(ls@);
    let mut any = false;
    let mut best: Option<SomHorizon> = None;
    let mut i: usize = 0;
    while i < ls.len()
        invariant
            i <= ls.len(),
            views == literal_views(ls@),
            any == any_literal_leftmost(views.subrange(0, i as int)),
            best == max_literal_som(views.subrange(0, i as int)),
        decreases ls.len() - i,
    {
        let ghost pre = views.subrange(0, i as int);
        let ghost next = views.subrange(0, i + 1);
        assert(next.drop_last() == pre);
        assert(next.last() == ls@[i as int]@);
        if ls[i].flags.som_leftmost {
            any = true;
            assert(next[i as int].flags.som_leftmost);
        } else {
            assert(any == any_literal_leftmost(next)) by {
                if any_literal_leftmost(next) {
                    let k = choose|k: int| 0 <= k < next.len() && (#[trigger] next[k]).flags.som_leftmost;
                    if k < i {
                        assert(pre[k] == next[k]);
                    }
                }
                if any {
                    let k = choose|k: int| 0 <= k < pre.len() && (#[trigger] pre[k]).flags.som_leftmost;
                    assert(pre[k] == next[k]);
                }
            }
        }
        best = som_max_exec(best, ls[i].som);
        i = i + 1;
    }
    assert(views.subrange(0, ls.len() as int) == views);
    if any {
        match best {
            Some(h) => Some(h),
            None => Some(SomHorizon::Medium),
        }
    } else {
        None
    }
}


/// `text` holds no meta character, so that escaping leaves it as it is.
pub open spec fn no_meta(text: Seq<char>) -> bool {
    forall|j: int| 0 <= j < text.len() ==> !is_meta_character(#[trigger] text[j])
}

/// Escaping a text without meta characters leaves it as it is.
pub proof fn lemma_escaped_plain(text: Seq<char>)
    requires
        no_meta(text),
    ensures
        escaped(text) == text,
    decreases text.len(),
{
    if text.len() > 0 {
        let pre = text.drop_last();
        assert(no_meta(pre)) by {
            assert forall|j: int| 0 <= j < pre.len() implies !is_meta_character(#[trigger] pre[j]) by {
                assert(pre[j] == text[j]);
            }
        }
        lemma_escaped_plain(pre);
        assert(!is_meta_character(text[text.len() - 1]));
        assert(pre.push(text.last()) =~= text);
    }
}

impl Flags {
    /// The flag characters hold no delimiter of the syntax.
    pub proof fn lemma_text_no_delimiters(f: Flags)
        ensures
            no_delimiters(f.spec_text()),
    {
        let t = f.spec_text();
        let a = flag_char_if('i', f.caseless);
        let b = flag_char_if('m', f.multiline);
        let c = flag_char_if('H', f.singlematch);
        assert forall|j: int| 0 <= j < t.len() implies t[j] != '/' && t[j] != ':' && t[j] != '{' && t[j] != '}' by {
            assert(t == (a + b) + c);
            if j >= (a + b).len() {
                assert(t[j] == c[j - (a + b).len()]);
            } else if j >= a.len() {
                assert(t[j] == (a + b)[j]);
                assert((a + b)[j] == b[j - a.len()]);
            } else {
                assert(t[j] == (a + b)[j]);
                assert((a + b)[j] == a[j]);
            }
        }
    }
}

/// Reading back the text of a literal gives the literal, for a literal
/// without a precision, without the leftmost start of match (neither has a
/// text), and whose expression holds no meta character (which the text
/// escapes): without an id, the expression must hold no `:`, and an
/// expression printed without slashes must not look delimited itself.
pub proof fn lemma_literal_text_roundtrip(l: LiteralView)
    requires
        l.som is None,
        !l.flags.som_leftmost,
        no_meta(l.expression),
        l.id is None ==> forall|j: int| 0 <= j < l.expression.len() ==> l.expression[j] != ':',
        l.id is None && l.flags == Flags::spec_empty() ==> !starts_delimited(l.expression),
    ensures
        spec_parse_literal(l.spec_text()) == Ok::<LiteralView, ParseFailure>(l),
{
    let e = l.expression;
    let f = l.flags.spec_text();
    let s = l.spec_text();
    lemma_escaped_plain(e);
    Flags::lemma_text_no_delimiters(l.flags);
    Flags::lemma_parse_text(l.flags);
    let delimited = l.id is Some || l.flags != Flags::spec_empty();
    let body = if delimited { seq!['/'] + e + seq!['/'] + f } else { e };
    if delimited {
        let a = seq!['/'] + e + seq!['/'];
        lemma_rfind_char_last(a, '/', f);
        assert(body == a + f);
        assert(body.subrange(1, a.len() - 1) =~= e);
        assert(body.subrange(a.len() as int, body.len() as int) =~= f);
        assert(spec_literal_body(l.id, body) == Ok::<LiteralView, ParseFailure>(l));
    } else {
        assert(f.len() == 0);
        assert(spec_literal_body(l.id, body) == Ok::<LiteralView, ParseFailure>(l));
    }
    match l.id {
        Some(n) => {
            let d = decimal(n as nat);
            lemma_decimal_digits(n as nat);
            assert(s =~= d + seq![':'] + body);
            let i = d.len() as int;
            assert(s[i] == ':');
            assert forall|j: int| 0 <= j < i implies s[j] != ':' by {
                assert(s[j] == d[j]);
            }
            lemma_find_char_at(s, ':', i);
            assert(s.subrange(0, i) =~= d);
            crate::text::lemma_parse_decimal(n as nat, usize::MAX as int);
            assert(s.subrange(i + 1, s.len() as int) =~= body);
        },
        None => {
            assert(s =~= body);
            assert forall|j: int| 0 <= j < s.len() implies s[j] != ':' by {
                if delimited {
                    if 1 <= j <= e.len() {
                        assert(s[j] == e[j - 1]);
                    } else if j > e.len() + 1 {
                        assert(s[j] == f[j - e.len() - 2]);
                    }
                }
            }
            lemma_find_char_none(s, ':');
        },
    }
}

impl Flags {
    /// The value of a flag set is the sum of the engine's constants of its
    /// flags, so each flag sets exactly its own constant's bit.
    pub proof fn lemma_bits_engine(f: Flags)
        ensures
            f.spec_bits() as int == (if f.caseless { HS_FLAG_CASELESS as int } else { 0 }) + (if f.multiline { HS_FLAG_MULTILINE as int } else { 0 }) + (if f.singlematch { HS_FLAG_SINGLEMATCH as int } else { 0 }) + (if f.som_leftmost { HS_FLAG_SOM_LEFTMOST as int } else { 0 }),
            (f.spec_bits() & HS_FLAG_CASELESS != 0) == f.caseless,
            (f.spec_bits() & HS_FLAG_MULTILINE != 0) == f.multiline,
            (f.spec_bits() & HS_FLAG_SINGLEMATCH != 0) == f.singlematch,
            (f.spec_bits() & HS_FLAG_SOM_LEFTMOST != 0) == f.som_leftmost,
    {
        lemma_bits_of_sum(f.caseless, false, f.multiline, f.singlematch, false, false, false, false, f.som_leftmost, false, false, f.spec_bits());
    }

    proof fn lemma_parse_from_chars(s: Seq<char>, acc: Flags)
        ensures
            Flags::spec_parse_from(s, acc) matches Ok(g) ==> {
                &&& g.caseless == (acc.caseless || s.contains('i'))
                &&& g.multiline == (acc.multiline || s.contains('m'))
                &&& g.singlematch == (acc.singlematch || s.contains('H'))
                &&& g.som_leftmost == acc.som_leftmost
            },
        decreases s.len(),
    {
        if s.len() > 0 {
            if let Some(f) = Flags::spec_flag_of(s[0]) {
                Flags::lemma_parse_from_chars(s.drop_first(), acc.spec_union(f));
                lemma_contains_first(s, 'i');
                lemma_contains_first(s, 'm');
                lemma_contains_first(s, 'H');
            }
        }
    }

    /// Each flag character names its own flag (`i` caseless, `m` multiline, `H` singlematch): flags read from
    /// a text hold a flag exactly when the text holds its character.
    pub proof fn lemma_parse_chars(s: Seq<char>)
        ensures
            Flags::spec_parse(s) matches Ok(g) ==> {
                &&& g.caseless == s.contains('i')
                &&& g.multiline == s.contains('m')
                &&& g.singlematch == s.contains('H')
                &&& !g.som_leftmost
            },
    {
        Flags::lemma_parse_from_chars(s, Flags::spec_empty());
    }

    /// The text of a flag set holds a flag's character exactly when the set
    /// holds the flag.
    pub proof fn lemma_text_chars(f: Flags)
        ensures
            f.spec_text().contains('i') == f.caseless,
            f.spec_text().contains('m') == f.multiline,
            f.spec_text().contains('H') == f.singlematch,
    {
        let g = Flags { som_leftmost: false, ..f };
        assert(g.spec_text() == f.spec_text());
        Flags::lemma_parse_text(g);
        Flags::lemma_parse_chars(g.spec_text());
    }
}

} // verus!
