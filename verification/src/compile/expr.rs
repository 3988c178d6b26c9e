//! Extended parameters of an expression (offsets, length and distances),
//! with their textual syntax `{min_offset=50,max_offset=100}`.

use vstd::prelude::*;

use crate::error::{Error as CrateError, ParseFailure, ParseIntError};
use vstd::string::StringExecFns;

use crate::text::{
    append_decimal, chars_of, decimal, eq_chars, find_char, find_char_range, has_char,
    lemma_decimal_digits, lemma_find_char_after, no_delimiters, lemma_parse_decimal, parse_uint, parse_uint_in,
    push_char, string_of, IntErrorKind,
};

verus! {

/// The `min_offset` field is used.
pub const HS_EXT_FLAG_MIN_OFFSET: u64 = 1;

/// The `max_offset` field is used.
pub const HS_EXT_FLAG_MAX_OFFSET: u64 = 2;

/// The `min_length` field is used.
pub const HS_EXT_FLAG_MIN_LENGTH: u64 = 4;

/// The `edit_distance` field is used.
pub const HS_EXT_FLAG_EDIT_DISTANCE: u64 = 8;

/// The `hamming_distance` field is used.
pub const HS_EXT_FLAG_HAMMING_DISTANCE: u64 = 16;

/// Errors in the extended parameter syntax.
#[derive(Debug, PartialEq, Eq)]
pub enum Error {
    /// A field without a name.
    MissingParameter,
    /// A field without `=` and a value.
    MissingValue,
    /// A field with an unknown name.
    UnexpectedParameter(String),
}

/// A structure containing additional parameters related to an expression.
///
/// A parameter is in use exactly where its field is `Some`.
#[derive(Clone, Copy, Debug, PartialEq, Eq, Structural)]
pub struct ExprExt {
    /// The minimum end offset in the data stream at which this expression should match successfully.
    pub min_offset: Option<u64>,
    /// The maximum end offset in the data stream at which this expression should match successfully.
    pub max_offset: Option<u64>,
    /// The minimum match length (from start to end) required to successfully match this expression.
    pub min_length: Option<u64>,
    /// Allow patterns to approximately match within this edit distance.
    pub edit_distance: Option<u32>,
    /// Allow patterns to approximately match within this Hamming distance.
    pub hamming_distance: Option<u32>,
}

/// An extension field: its position (0..5) and its value.
pub type ExtEntry = (int, nat);

/// The name of the field at position `i`.
pub open spec fn ext_key(i: int) -> Seq<char> {
    if i == 0 {
        seq!['m', 'i', 'n', '_', 'o', 'f', 'f', 's', 'e', 't']
    } else if i == 1 {
        seq!['m', 'a', 'x', '_', 'o', 'f', 'f', 's', 'e', 't']
    } else if i == 2 {
        seq!['m', 'i', 'n', '_', 'l', 'e', 'n', 'g', 't', 'h']
    } else if i == 3 {
        seq!['e', 'd', 'i', 't', '_', 'd', 'i', 's', 't', 'a', 'n', 'c', 'e']
    } else {
        seq!['h', 'a', 'm', 'm', 'i', 'n', 'g', '_', 'd', 'i', 's', 't', 'a', 'n', 'c', 'e']
    }
}

/// The largest value of the field at position `i`.
pub open spec fn ext_max(i: int) -> int {
    if i < 3 {
        u64::MAX as int
    } else {
        u32::MAX as int
    }
}

/// The position of the field named `key`.
pub open spec fn ext_key_index(key: Seq<char>) -> Option<int> {
    if key == ext_key(0) {
        Some(0)
    } else if key == ext_key(1) {
        Some(1)
    } else if key == ext_key(2) {
        Some(2)
    } else if key == ext_key(3) {
        Some(3)
    } else if key == ext_key(4) {
        Some(4)
    } else {
        None
    }
}

/// The text `key=value` of one field.
pub open spec fn entry_text(e: ExtEntry) -> Seq<char> {
    ext_key(e.0) + seq!['='] + decimal(e.1)
}

/// The texts of the fields, joined by commas.
pub open spec fn join_entries(es: Seq<ExtEntry>) -> Seq<char>
    decreases es.len(),
{
    if es.len() == 0 {
        Seq::empty()
    } else if es.len() == 1 {
        entry_text(es[0])
    } else {
        entry_text(es[0]) + seq![','] + join_entries(es.drop_first())
    }
}

impl ExprExt {
    /// The value of the field at position `i`.
    pub open spec fn spec_value_at(self, i: int) -> Option<nat> {
        if i == 0 {
            match self.min_offset {
                Some(v) => Some(v as nat),
                None => None,
            }
        } else if i == 1 {
            match self.max_offset {
                Some(v) => Some(v as nat),
                None => None,
            }
        } else if i == 2 {
            match self.min_length {
                Some(v) => Some(v as nat),
                None => None,
            }
        } else if i == 3 {
            match self.edit_distance {
                Some(v) => Some(v as nat),
                None => None,
            }
        } else {
            match self.hamming_distance {
                Some(v) => Some(v as nat),
                None => None,
            }
        }
    }

    /// `self` with the field at position `i` set to `v`.
    pub open spec fn spec_with(self, i: int, v: nat) -> ExprExt {
        if i == 0 {
            ExprExt { min_offset: Some(v as u64), ..self }
        } else if i == 1 {
            ExprExt { max_offset: Some(v as u64), ..self }
        } else if i == 2 {
            ExprExt { min_length: Some(v as u64), ..self }
        } else if i == 3 {
            ExprExt { edit_distance: Some(v as u32), ..self }
        } else {
            ExprExt { hamming_distance: Some(v as u32), ..self }
        }
    }

    /// The extension with no parameter in use.
    pub open spec fn spec_default() -> ExprExt {
        ExprExt {
            min_offset: None,
            max_offset: None,
            min_length: None,
            edit_distance: None,
            hamming_distance: None,
        }
    }

    /// The fields in use among the first `n` positions, in order.
    pub open spec fn spec_entries_upto(self, n: nat) -> Seq<ExtEntry>
        decreases n,
    {
        if n == 0 {
            Seq::empty()
        } else {
            self.spec_entries_upto((n - 1) as nat) + match self.spec_value_at(n - 1) {
                Some(v) => seq![(n - 1, v)],
                None => Seq::empty(),
            }
        }
    }

    /// The fields in use, in order.
    pub open spec fn spec_entries(self) -> Seq<ExtEntry> {
        self.spec_entries_upto(5)
    }

    /// No parameter is in use.
    pub open spec fn spec_is_empty(self) -> bool {
        self == ExprExt::spec_default()
    }

    /// The text of the extension: `{` the fields in use `}`.
    pub open spec fn spec_text(self) -> Seq<char> {
        seq!['{'] + join_entries(self.spec_entries()) + seq!['}']
    }

    /// The extension with the field `kv` (`key=value`) read into `acc`.
    pub open spec fn spec_apply(acc: ExprExt, kv: Seq<char>) -> Result<ExprExt, ParseFailure> {
        match find_char(kv, '=') {
            None => Err(ParseFailure::MissingValue),
            Some(i) => {
                let key = kv.subrange(0, i);
                let value = kv.subrange(i + 1, kv.len() as int);
                match ext_key_index(key) {
                    None => Err(ParseFailure::UnexpectedParameter(key)),
                    Some(j) => match parse_uint(value, ext_max(j)) {
                        Ok(v) => Ok(acc.spec_with(j, v as nat)),
                        Err(k) => Err(ParseFailure::ParseInt(k)),
                    },
                }
            },
        }
    }

    /// The comma-separated fields of `s` read into `acc`, left to right;
    /// the first field refused gives the failure.
    pub open spec fn spec_parse_fields(s: Seq<char>, acc: ExprExt) -> Result<ExprExt, ParseFailure>
        decreases s.len(),
    {
        match find_char(s, ',') {
            None => ExprExt::spec_apply(acc, s),
            Some(i) => if 0 <= i < s.len() {
                match ExprExt::spec_apply(acc, s.subrange(0, i)) {
                    Err(e) => Err(e),
                    Ok(a) => ExprExt::spec_parse_fields(s.subrange(i + 1, s.len() as int), a),
                }
            } else {
                Err(ParseFailure::MissingValue)
            },
        }
    }

    /// What the extension syntax reads from `s`: the braces, where both
    /// are there, are dropped, and the fields read into the empty extension.
    pub open spec fn spec_parse(s: Seq<char>) -> Result<ExprExt, ParseFailure> {
        let body = if s.len() > 0 && s[0] == '{' && s.last() == '}' {
            s.subrange(1, s.len() - 1)
        } else {
            s
        };
        ExprExt::spec_parse_fields(body, ExprExt::spec_default())
    }

    /// The raw bit set of the parameters in use.
    pub open spec fn spec_flags(self) -> u64 {
        ((if self.min_offset is Some { 1int } else { 0 }) + (if self.max_offset is Some {
            2int
        } else {
            0
        }) + (if self.min_length is Some { 4int } else { 0 }) + (if self.edit_distance is Some {
            8int
        } else {
            0
        }) + (if self.hamming_distance is Some { 16int } else { 0 })) as u64
    }

    /// The extension with no parameter in use.
    pub fn new() -> (r: ExprExt)
        ensures
            r == ExprExt::spec_default(),
    {
        ExprExt {
            min_offset: None,
            max_offset: None,
            min_length: None,
            edit_distance: None,
            hamming_distance: None,
        }
    }

    /// The raw bit set of the parameters in use, as the engine reads it.
    pub fn flags(&self) -> (r: u64)
        ensures
            r == self.spec_flags(),
    {
        let a: u64 = if self.min_offset.is_some() { HS_EXT_FLAG_MIN_OFFSET } else { 0 };
        let b: u64 = if self.max_offset.is_some() { HS_EXT_FLAG_MAX_OFFSET } else { 0 };
        let c: u64 = if self.min_length.is_some() { HS_EXT_FLAG_MIN_LENGTH } else { 0 };
        let d: u64 = if self.edit_distance.is_some() { HS_EXT_FLAG_EDIT_DISTANCE } else { 0 };
        let e: u64 = if self.hamming_distance.is_some() { HS_EXT_FLAG_HAMMING_DISTANCE } else { 0 };
        a + b + c + d + e
    }

    /// Returns true if the expression contains no additional parameters.
    pub fn is_empty(&self) -> (r: bool)
        ensures
            r == self.spec_is_empty(),
    {
        self.min_offset.is_none() && self.max_offset.is_none() && self.min_length.is_none()
            && self.edit_distance.is_none() && self.hamming_distance.is_none()
    }

    /// The minimum end offset in the data stream at which this expression should match successfully.
    pub fn min_offset(&self) -> (r: Option<u64>)
        ensures
            r == self.min_offset,
    {
        self.min_offset
    }

    /// The maximum end offset in the data stream at which this expression should match successfully.
    pub fn max_offset(&self) -> (r: Option<u64>)
        ensures
            r == self.max_offset,
    {
        self.max_offset
    }

    /// The minimum match length (from start to end) required to successfully match this expression.
    pub fn min_length(&self) -> (r: Option<u64>)
        ensures
            r == self.min_length,
    {
        self.min_length
    }

    /// Allow patterns to approximately match within this edit distance.
    pub fn edit_distance(&self) -> (r: Option<u32>)
        ensures
            r == self.edit_distance,
    {
        self.edit_distance
    }

    /// Allow patterns to approximately match within this Hamming distance.
    pub fn hamming_distance(&self) -> (r: Option<u32>)
        ensures
            r == self.hamming_distance,
    {
        self.hamming_distance
    }

    /// Sets the value for the minimum end offset in the data stream at which this expression should match successfully.
    pub fn set_min_offset(&mut self, min_offset: u64) -> (r: &mut Self)
        ensures
            *r == (ExprExt { min_offset: Some(min_offset), ..*old(self) }),
            *final(self) == *final(r),
    {
        self.min_offset = Some(min_offset);
        self
    }

    /// Sets the value for the maximum end offset in the data stream at which this expression should match successfully.
    pub fn set_max_offset(&mut self, max_offset: u64) -> (r: &mut Self)
        ensures
            *r == (ExprExt { max_offset: Some(max_offset), ..*old(self) }),
            *final(self) == *final(r),
    {
        self.max_offset = Some(max_offset);
        self
    }

    /// Sets the value for the minimum match length (from start to end) required to successfully match this expression.
    pub fn set_min_length(&mut self, min_length: u64) -> (r: &mut Self)
        ensures
            *r == (ExprExt { min_length: Some(min_length), ..*old(self) }),
            *final(self) == *final(r),
    {
        self.min_length = Some(min_length);
        self
    }

    /// Sets the value that allow patterns to approximately match within this edit distance.
    pub fn set_edit_distance(&mut self, edit_distance: u32) -> (r: &mut Self)
        ensures
            *r == (ExprExt { edit_distance: Some(edit_distance), ..*old(self) }),
            *final(self) == *final(r),
    {
        self.edit_distance = Some(edit_distance);
        self
    }

    /// Sets the value that allow patterns to approximately match within this Hamming distance.
    pub fn set_hamming_distance(&mut self, hamming_distance: u32) -> (r: &mut Self)
        ensures
            *r == (ExprExt { hamming_distance: Some(hamming_distance), ..*old(self) }),
            *final(self) == *final(r),
    {
        self.hamming_distance = Some(hamming_distance);
        self
    }
}


impl ExprExt {
    /// The name of the field at position `i`.
    fn key_at(i: usize) -> (r: &'static str)
        requires
            i < 5,
        ensures
            r@ == ext_key(i as int),
    {
        if i == 0 {
            proof {
                reveal_strlit("min_offset");
            }
            "min_offset"
        } else if i == 1 {
            proof {
                reveal_strlit("max_offset");
            }
            "max_offset"
        } else if i == 2 {
            proof {
                reveal_strlit("min_length");
            }
            "min_length"
        } else if i == 3 {
            proof {
                reveal_strlit("edit_distance");
            }
            "edit_distance"
        } else {
            proof {
                reveal_strlit("hamming_distance");
            }
            "hamming_distance"
        }
    }

    /// The value of the field at position `i`.
    fn value_at(&self, i: usize) -> (r: Option<u64>)
        requires
            i < 5,
        ensures
            match r {
                Some(v) => self.spec_value_at(i as int) == Some(v as nat),
                None => self.spec_value_at(i as int) is None,
            },
    {
        if i == 0 {
            self.min_offset
        } else if i == 1 {
            self.max_offset
        } else if i == 2 {
            self.min_length
        } else if i == 3 {
            match self.edit_distance {
                Some(v) => Some(v as u64),
                None => None,
            }
        } else {
            match self.hamming_distance {
                Some(v) => Some(v as u64),
                None => None,
            }
        }
    }

    /// `self` with the field at position `i` set to `v`.
    fn with(self, i: usize, v: u64) -> (r: ExprExt)
        requires
            i < 5,
            v <= ext_max(i as int),
        ensures
            r == self.spec_with(i as int, v as nat),
    {
        if i == 0 {
            ExprExt { min_offset: Some(v), ..self }
        } else if i == 1 {
            ExprExt { max_offset: Some(v), ..self }
        } else if i == 2 {
            ExprExt { min_length: Some(v), ..self }
        } else if i == 3 {
            ExprExt { edit_distance: Some(v as u32), ..self }
        } else {
            ExprExt { hamming_distance: Some(v as u32), ..self }
        }
    }

    /// The position of the field named `s[lo..hi]`.
    fn key_index(s: &Vec<char>, lo: usize, hi: usize) -> (r: Option<usize>)
        requires
            lo <= hi <= s.len(),
        ensures
            match r {
                Some(j) => ext_key_index(s@.subrange(lo as int, hi as int)) == Some(j as int) && j < 5,
                None => ext_key_index(s@.subrange(lo as int, hi as int)) is None,
            },
    {
        let mut j: usize = 0;
        while j < 5
            invariant
                lo <= hi <= s.len(),
                j <= 5,
                forall|k: int| 0 <= k < j ==> s@.subrange(lo as int, hi as int) != ext_key(k),
            decreases 5 - j,
        {
            if eq_chars(s, lo, hi, ExprExt::key_at(j)) {
                return Some(j);
            }
            j = j + 1;
        }
        None
    }

    /// Reads the field `s[lo..hi]` (`key=value`) into `acc`.
    fn apply_field(acc: ExprExt, s: &Vec<char>, lo: usize, hi: usize) -> (r: Result<ExprExt, CrateError>)
        requires
            lo <= hi <= s.len(),
        ensures
            match r {
                Ok(e) => ExprExt::spec_apply(acc, s@.subrange(lo as int, hi as int)) == Ok::<ExprExt, ParseFailure>(e),
                Err(err) => match ExprExt::spec_apply(acc, s@.subrange(lo as int, hi as int)) {
                    Ok(_) => false,
                    Err(f) => err.reports(f),
                },
            },
    {
        let ghost kv = s@.subrange(lo as int, hi as int);
        match find_char_range(s, '=', lo, hi) {
            None => Err(CrateError::Expr(Error::MissingValue)),
            Some(i) => {
                proof {
                    crate::text::lemma_find_char_from_some(kv, '=', 0);
                }
                let eq = lo + i;
                assert(kv.subrange(0, i as int) == s@.subrange(lo as int, eq as int));
                assert(kv.subrange(i + 1, kv.len() as int) == s@.subrange(eq + 1, hi as int));
                match ExprExt::key_index(s, lo, eq) {
                    None => Err(CrateError::Expr(Error::UnexpectedParameter(string_of(s, lo, eq)))),
                    Some(j) => {
                        let max: u64 = if j < 3 { u64::MAX } else { u32::MAX as u64 };
                        match parse_uint_in(s, eq + 1, hi, max) {
                            Ok(v) => {
                                proof {
                                    crate::text::lemma_digits_value_bounds(
                                        s@.subrange(eq + 1, hi as int).subrange(
                                            if s@[eq + 1] == '+' { 1 } else { 0 },
                                            (hi - eq - 1) as int,
                                        ),
                                        max as int,
                                    );
                                }
                                assert(v <= max);
                                Ok(acc.with(j, v))
                            },
                            Err(k) => Err(CrateError::ParseInt(ParseIntError { kind: k })),
                        }
                    },
                }
            },
        }
    }

    /// Reads the comma-separated fields `s[lo..hi]` into the empty extension.
    fn parse_fields_in(s: &Vec<char>, lo: usize, hi: usize) -> (r: Result<ExprExt, CrateError>)
        requires
            lo <= hi <= s.len(),
        ensures
            match r {
                Ok(e) => ExprExt::spec_parse_fields(s@.subrange(lo as int, hi as int), ExprExt::spec_default()) == Ok::<ExprExt, ParseFailure>(e),
                Err(err) => match ExprExt::spec_parse_fields(s@.subrange(lo as int, hi as int), ExprExt::spec_default()) {
                    Ok(_) => false,
                    Err(f) => err.reports(f),
                },
            },
    {
        let mut acc = ExprExt::new();
        let mut start = lo;
        loop
            invariant
                lo <= start <= hi <= s.len(),
                ExprExt::spec_parse_fields(s@.subrange(lo as int, hi as int), ExprExt::spec_default())
                    == ExprExt::spec_parse_fields(s@.subrange(start as int, hi as int), acc),
            decreases hi - start,
        {
            let ghost rest = s@.subrange(start as int, hi as int);
            match find_char_range(s, ',', start, hi) {
                None => {
                    return ExprExt::apply_field(acc, s, start, hi);
                },
                Some(i) => {
                    proof {
                        crate::text::lemma_find_char_from_some(rest, ',', 0);
                    }
                    let comma = start + i;
                    assert(rest.subrange(0, i as int) == s@.subrange(start as int, comma as int));
                    assert(rest.subrange(i + 1, rest.len() as int) == s@.subrange(comma + 1, hi as int));
                    match ExprExt::apply_field(acc, s, start, comma) {
                        Err(e) => {
                            return Err(e);
                        },
                        Ok(a) => {
                            acc = a;
                            start = comma + 1;
                        },
                    }
                },
            }
        }
    }

    /// Reads the extension syntax from `s[lo..hi]`.
    pub fn parse_chars(s: &Vec<char>, lo: usize, hi: usize) -> (r: Result<ExprExt, CrateError>)
        requires
            lo <= hi <= s.len(),
        ensures
            match r {
                Ok(e) => ExprExt::spec_parse(s@.subrange(lo as int, hi as int)) == Ok::<ExprExt, ParseFailure>(e),
                Err(err) => match ExprExt::spec_parse(s@.subrange(lo as int, hi as int)) {
                    Ok(_) => false,
                    Err(f) => err.reports(f),
                },
            },
    {
        let ghost t = s@.subrange(lo as int, hi as int);
        if lo < hi && s[lo] == '{' && s[hi - 1] == '}' {
            assert(t.subrange(1, t.len() - 1) == s@.subrange(lo + 1, hi - 1));
            ExprExt::parse_fields_in(s, lo + 1, hi - 1)
        } else {
            ExprExt::parse_fields_in(s, lo, hi)
        }
    }

    /// Reads the extension syntax, such as `{min_offset=50,max_offset=100}`.
    pub fn parse(s: &str) -> (r: Result<ExprExt, CrateError>)
        ensures
            match r {
                Ok(e) => ExprExt::spec_parse(s@) == Ok::<ExprExt, ParseFailure>(e),
                Err(err) => match ExprExt::spec_parse(s@) {
                    Ok(_) => false,
                    Err(f) => err.reports(f),
                },
            },
    {
        let v = chars_of(s);
        assert(v@.subrange(0, v@.len() as int) == s@);
        ExprExt::parse_chars(&v, 0, v.len())
    }
}


impl ExprExt {
    /// The text of the extension: `{` the fields in use, joined by commas, `}`.
    pub fn to_string(&self) -> (r: String)
        ensures
            r@ == self.spec_text(),
    {
        let mut r = String::new();
        push_char(&mut r, '{');
        let mut first = true;
        let mut i: usize = 0;
        while i < 5
            invariant
                i <= 5,
                r@ == seq!['{'] + join_entries(self.spec_entries_upto(i as nat)),
                first == (self.spec_entries_upto(i as nat).len() == 0),
            decreases 5 - i,
        {
            let ghost es = self.spec_entries_upto(i as nat);
            match self.value_at(i) {
                Some(v) => {
                    let ghost e: ExtEntry = (i as int, v as nat);
                    proof {
                        lemma_join_push(es, e);
                        assert(self.spec_entries_upto((i + 1) as nat) == es.push(e));
                    }
                    if !first {
                        push_char(&mut r, ',');
                    }
                    let key = ExprExt::key_at(i);
                    r.append(key);
                    push_char(&mut r, '=');
                    append_decimal(&mut r, v);
                    assert(r@ =~= seq!['{'] + join_entries(es.push(e)));
                    first = false;
                },
                None => {
                    assert(self.spec_entries_upto((i + 1) as nat) =~= es);
                },
            }
            i = i + 1;
        }
        push_char(&mut r, '}');
        r
    }
}

/// Appending a field to the joined text adds a comma and the field's text.
pub proof fn lemma_join_push(es: Seq<ExtEntry>, x: ExtEntry)
    ensures
        join_entries(es.push(x)) == if es.len() == 0 {
            entry_text(x)
        } else {
            join_entries(es) + seq![','] + entry_text(x)
        },
    decreases es.len(),
{
    let p = es.push(x);
    if es.len() == 0 {
        assert(p.len() == 1 && p[0] == x);
    } else if es.len() == 1 {
        assert(p.drop_first() =~= seq![x]);
        assert(join_entries(seq![x]) == entry_text(x));
        assert(p[0] == es[0]);
        assert(join_entries(p) == entry_text(es[0]) + seq![','] + join_entries(p.drop_first()));
        assert(join_entries(es) == entry_text(es[0]));
    } else {
        assert(p.drop_first() =~= es.drop_first().push(x));
        lemma_join_push(es.drop_first(), x);
        assert(p[0] == es[0]);
        assert(join_entries(p) == entry_text(es[0]) + seq![','] + join_entries(p.drop_first()));
        assert(join_entries(es) == entry_text(es[0]) + seq![','] + join_entries(es.drop_first()));
        assert(join_entries(p) =~= join_entries(es) + seq![','] + entry_text(x));
    }
}

/// The fields that a sequence of entries sets, left to right.
pub open spec fn apply_all(es: Seq<ExtEntry>, acc: ExprExt) -> ExprExt
    decreases es.len(),
{
    if es.len() == 0 {
        acc
    } else {
        apply_all(es.drop_first(), acc.spec_with(es[0].0, es[0].1))
    }
}

/// Every entry names a field and holds a value that fits it.
pub open spec fn valid_entries(es: Seq<ExtEntry>) -> bool {
    forall|k: int| 0 <= k < es.len() ==> 0 <= (#[trigger] es[k]).0 < 5 && es[k].1 <= ext_max(es[k].0)
}

/// The field names hold no separator of the syntax.
pub proof fn lemma_key_chars(i: int)
    requires
        0 <= i < 5,
    ensures
        !has_char(ext_key(i), '='),
        !has_char(ext_key(i), ','),
        ext_key_index(ext_key(i)) == Some(i),
{
    let k = ext_key(i);
    assert forall|j: int| 0 <= j < k.len() implies k[j] != '=' && k[j] != ',' by {}
    assert(ext_key(1)[1] != ext_key(0)[1]);
    assert(ext_key(2)[4] != ext_key(0)[4]);
    assert(ext_key(2)[1] != ext_key(1)[1]);
    assert(ext_key(3).len() != ext_key(0).len());
    assert(ext_key(3).len() != ext_key(1).len());
    assert(ext_key(3).len() != ext_key(2).len());
    assert(ext_key(4).len() != ext_key(0).len());
    assert(ext_key(4).len() != ext_key(1).len());
    assert(ext_key(4).len() != ext_key(2).len());
    assert(ext_key(4).len() != ext_key(3).len());
}

/// The text of a field holds no comma.
pub proof fn lemma_entry_text_no_comma(e: ExtEntry)
    requires
        0 <= e.0 < 5,
    ensures
        !has_char(entry_text(e), ','),
{
    lemma_key_chars(e.0);
    lemma_decimal_digits(e.1);
    let t = entry_text(e);
    let k = ext_key(e.0);
    assert forall|j: int| 0 <= j < t.len() implies t[j] != ',' by {
        if j < k.len() {
            assert(t[j] == k[j]);
        } else if j == k.len() {
        } else {
            assert(t[j] == decimal(e.1)[j - k.len() - 1]);
        }
    }
}

/// Reading the text of a field sets that field.
pub proof fn lemma_apply_entry(acc: ExprExt, e: ExtEntry)
    requires
        0 <= e.0 < 5,
        e.1 <= ext_max(e.0),
    ensures
        ExprExt::spec_apply(acc, entry_text(e)) == Ok::<ExprExt, ParseFailure>(acc.spec_with(e.0, e.1)),
{
    let k = ext_key(e.0);
    let t = entry_text(e);
    lemma_key_chars(e.0);
    lemma_find_char_after(k, '=', decimal(e.1));
    assert(t.subrange(0, k.len() as int) =~= k);
    assert(t.subrange(k.len() as int + 1, t.len() as int) =~= decimal(e.1));
    lemma_parse_decimal(e.1, ext_max(e.0));
}

/// Reading the joined texts of valid entries sets their fields in order.
pub proof fn lemma_parse_join(es: Seq<ExtEntry>, acc: ExprExt)
    requires
        es.len() >= 1,
        valid_entries(es),
    ensures
        ExprExt::spec_parse_fields(join_entries(es), acc) == Ok::<ExprExt, ParseFailure>(apply_all(es, acc)),
    decreases es.len(),
{
    let x = es[0];
    lemma_entry_text_no_comma(x);
    lemma_apply_entry(acc, x);
    if es.len() == 1 {
        crate::text::lemma_find_char_none(entry_text(x), ',');
        assert(es.drop_first().len() == 0);
        assert(join_entries(es) == entry_text(x));
        assert(apply_all(es.drop_first(), acc.spec_with(x.0, x.1)) == acc.spec_with(x.0, x.1));
    } else {
        let rest = es.drop_first();
        let t = entry_text(x);
        let s = join_entries(es);
        lemma_find_char_after(t, ',', join_entries(rest));
        assert(s == t + seq![','] + join_entries(rest));
        assert(s.subrange(0, t.len() as int) =~= t);
        assert(s.subrange(t.len() as int + 1, s.len() as int) =~= join_entries(rest));
        assert(valid_entries(rest)) by {
            assert forall|k: int| 0 <= k < rest.len() implies 0 <= (#[trigger] rest[k]).0 < 5
                && rest[k].1 <= ext_max(rest[k].0) by {
                assert(rest[k] == es[k + 1]);
            }
        }
        lemma_parse_join(rest, acc.spec_with(x.0, x.1));
    }
}

/// Applying a concatenation applies the first part, then the second.
pub proof fn lemma_apply_all_concat(a: Seq<ExtEntry>, b: Seq<ExtEntry>, acc: ExprExt)
    ensures
        apply_all(a + b, acc) == apply_all(b, apply_all(a, acc)),
    decreases a.len(),
{
    if a.len() == 0 {
        assert(a + b =~= b);
    } else {
        assert((a + b).drop_first() =~= a.drop_first() + b);
        assert((a + b)[0] == a[0]);
        lemma_apply_all_concat(a.drop_first(), b, acc.spec_with(a[0].0, a[0].1));
    }
}

impl ExprExt {
    /// `self` with only the fields at the first `n` positions kept.
    pub open spec fn spec_restrict(self, n: nat) -> ExprExt {
        ExprExt {
            min_offset: if n > 0 { self.min_offset } else { None },
            max_offset: if n > 1 { self.max_offset } else { None },
            min_length: if n > 2 { self.min_length } else { None },
            edit_distance: if n > 3 { self.edit_distance } else { None },
            hamming_distance: if n > 4 { self.hamming_distance } else { None },
        }
    }
}

/// The entries of the first `n` positions are valid, and setting them from
/// the empty extension keeps exactly those positions.
pub proof fn lemma_apply_upto(e: ExprExt, n: nat)
    requires
        n <= 5,
    ensures
        valid_entries(e.spec_entries_upto(n)),
        apply_all(e.spec_entries_upto(n), ExprExt::spec_default()) == e.spec_restrict(n),
    decreases n,
{
    if n > 0 {
        let m = (n - 1) as nat;
        lemma_apply_upto(e, m);
        let a = e.spec_entries_upto(m);
        let opt: Seq<ExtEntry> = match e.spec_value_at(n - 1) {
            Some(v) => seq![(n - 1, v)],
            None => Seq::empty(),
        };
        assert(e.spec_entries_upto(n) == a + opt);
        lemma_apply_all_concat(a, opt, ExprExt::spec_default());
        let r = e.spec_restrict(m);
        match e.spec_value_at(n - 1) {
            Some(v) => {
                assert(opt[0] == (n - 1, v));
                assert(opt.drop_first().len() == 0);
                assert(apply_all(opt.drop_first(), r.spec_with(n - 1, v)) == r.spec_with(n - 1, v));
                assert(apply_all(opt, r) == r.spec_with(n - 1, v));
                if n == 1 {
                    assert(e.min_offset == Some(v as u64));
                } else if n == 2 {
                    assert(e.max_offset == Some(v as u64));
                } else if n == 3 {
                    assert(e.min_length == Some(v as u64));
                } else if n == 4 {
                    assert(e.edit_distance == Some(v as u32));
                } else {
                    assert(e.hamming_distance == Some(v as u32));
                }
                assert(r.spec_with(n - 1, v) == e.spec_restrict(n));
            },
            None => {
                assert(apply_all(opt, r) == r);
                assert(r == e.spec_restrict(n));
            },
        }
        assert(valid_entries(a + opt)) by {
            assert forall|k: int| 0 <= k < (a + opt).len() implies 0 <= (#[trigger] (a + opt)[k]).0
                < 5 && (a + opt)[k].1 <= ext_max((a + opt)[k].0) by {
                if k < a.len() {
                    assert((a + opt)[k] == a[k]);
                } else {
                    assert((a + opt)[k] == opt[k - a.len()]);
                }
            }
        }
    }
}

/// Reading back the text of an extension with a parameter in use gives the
/// extension.
pub proof fn lemma_ext_parse_text(e: ExprExt)
    requires
        !e.spec_is_empty(),
    ensures
        ExprExt::spec_parse(e.spec_text()) == Ok::<ExprExt, ParseFailure>(e),
{
    let es = e.spec_entries();
    lemma_apply_upto(e, 5);
    assert(e.spec_restrict(5) == e);
    if es.len() == 0 {
        assert(apply_all(es, ExprExt::spec_default()) == ExprExt::spec_default());
        assert(false);
    }
    lemma_parse_join(es, ExprExt::spec_default());
    let t = e.spec_text();
    assert(t.subrange(1, t.len() - 1) =~= join_entries(es));
}


/// The joined field texts hold no delimiter of the pattern syntax.
pub proof fn lemma_join_no_delimiters(es: Seq<ExtEntry>)
    ensures
        no_delimiters(join_entries(es)),
    decreases es.len(),
{
    if es.len() > 0 {
        let x = es[0];
        let k = ext_key(x.0);
        lemma_decimal_digits(x.1);
        assert forall|j: int| 0 <= j < k.len() implies k[j] != '/' && k[j] != ':' && k[j] != '{' && k[j] != '}' by {}
        let t = entry_text(x);
        assert(no_delimiters(t)) by {
            assert forall|j: int| 0 <= j < t.len() implies t[j] != '/' && t[j] != ':' && t[j] != '{' && t[j] != '}' by {
                if j < k.len() {
                    assert(t[j] == k[j]);
                } else if j > k.len() {
                    assert(t[j] == decimal(x.1)[j - k.len() - 1]);
                }
            }
        }
        if es.len() > 1 {
            lemma_join_no_delimiters(es.drop_first());
            let r = join_entries(es.drop_first());
            let s = join_entries(es);
            assert(s == t + seq![','] + r);
            assert forall|j: int| 0 <= j < s.len() implies s[j] != '/' && s[j] != ':' && s[j] != '{' && s[j] != '}' by {
                if j < t.len() {
                    assert(s[j] == t[j]);
                } else if j > t.len() {
                    assert(s[j] == r[j - t.len() - 1]);
                }
            }
        }
    }
}


/// Information related to an expression: the widths of its matches and
/// where they can be reported.
#[derive(Clone, Copy, Debug, PartialEq, Eq, Structural)]
pub struct ExprInfoRef {
    /// The minimum length in bytes of a match for the pattern.
    pub min_width: u32,
    /// The maximum length in bytes of a match for the pattern.
    pub max_width: u32,
    /// Nonzero where matches can be returned out of order.
    pub unordered_matches: i8,
    /// Nonzero where matches can be produced at end of data.
    pub matches_at_eod: i8,
    /// Nonzero where matches can only be produced at end of data.
    pub matches_only_at_eod: i8,
}

/// Information related to an expression, as the engine fills it in.
pub type ExprInfo = ExprInfoRef;

impl ExprInfoRef {
    /// The minimum length in bytes of a match for the pattern.
    pub fn min_width(&self) -> (r: usize)
        ensures
            r == self.min_width as usize,
    {
        self.min_width as usize
    }

    /// The maximum length in bytes of a match for the pattern.
    pub fn max_width(&self) -> (r: usize)
        ensures
            r == self.max_width as usize,
    {
        self.max_width as usize
    }

    /// Whether this expression can produce matches that are not returned in order,
    /// such as those produced by assertions.
    pub fn unordered_matches(&self) -> (r: bool)
        ensures
            r == (self.unordered_matches != 0),
    {
        self.unordered_matches != 0
    }

    /// Whether this expression can produce matches at end of data (EOD).
    pub fn matches_at_eod(&self) -> (r: bool)
        ensures
            r == (self.matches_at_eod != 0),
    {
        self.matches_at_eod != 0
    }

    /// Whether this expression can *only* produce matches at end of data (EOD).
    pub fn matches_only_at_eod(&self) -> (r: bool)
        ensures
            r == (self.matches_only_at_eod != 0),
    {
        self.matches_only_at_eod != 0
    }
}


impl Default for ExprExt {
    fn default() -> (r: ExprExt)
        ensures
            r == ExprExt::spec_default(),
    {
        ExprExt::new()
    }
}

impl std::str::FromStr for ExprExt {
    type Err = CrateError;

    fn from_str(s: &str) -> (r: Result<ExprExt, CrateError>)
        ensures
            match r {
                Ok(e) => ExprExt::spec_parse(s@) == Ok::<ExprExt, ParseFailure>(e),
                Err(err) => match ExprExt::spec_parse(s@) {
                    Ok(_) => false,
                    Err(f) => err.reports(f),
                },
            },
    {
        ExprExt::parse(s)
    }
}

/// A sum of the five lowest powers of two, each present or not, has exactly
/// the bits of the present ones.
pub proof fn lemma_ext_bits_of_sum(a: bool, b: bool, c: bool, d: bool, e: bool, v: u64)
    requires
        v == (if a { 1u64 } else { 0u64 }) + (if b { 2u64 } else { 0u64 }) + (if c { 4u64 } else { 0u64 }) + (if d {
            8u64
        } else {
            0u64
        }) + (if e { 16u64 } else { 0u64 }),
    ensures
        (v & 1 != 0) == a && (v & 2 != 0) == b && (v & 4 != 0) == c && (v & 8 != 0) == d && (v & 16 != 0) == e,
{
    assert((v & 1 != 0) == a && (v & 2 != 0) == b && (v & 4 != 0) == c && (v & 8 != 0) == d && (v & 16 != 0) == e) by (bit_vector)
        requires
            v == (if a { 1u64 } else { 0u64 }) + (if b { 2u64 } else { 0u64 }) + (if c { 4u64 } else { 0u64 }) + (if d {
            8u64
        } else {
            0u64
        }) + (if e { 16u64 } else { 0u64 }),
    ;
}

impl ExprExt {
    /// The flags of an extension are the sum of the engine's constants of
    /// the parameters in use, so each parameter in use sets exactly its own
    /// constant's bit.
    pub proof fn lemma_flags_engine(e: ExprExt)
        ensures
            e.spec_flags() as int == (if e.min_offset is Some { HS_EXT_FLAG_MIN_OFFSET as int } else { 0 }) + (if e.max_offset is Some { HS_EXT_FLAG_MAX_OFFSET as int } else { 0 }) + (if e.min_length is Some { HS_EXT_FLAG_MIN_LENGTH as int } else { 0 }) + (if e.edit_distance is Some { HS_EXT_FLAG_EDIT_DISTANCE as int } else { 0 }) + (if e.hamming_distance is Some { HS_EXT_FLAG_HAMMING_DISTANCE as int } else { 0 }),
            (e.spec_flags() & HS_EXT_FLAG_MIN_OFFSET != 0) == e.min_offset is Some,
            (e.spec_flags() & HS_EXT_FLAG_MAX_OFFSET != 0) == e.max_offset is Some,
            (e.spec_flags() & HS_EXT_FLAG_MIN_LENGTH != 0) == e.min_length is Some,
            (e.spec_flags() & HS_EXT_FLAG_EDIT_DISTANCE != 0) == e.edit_distance is Some,
            (e.spec_flags() & HS_EXT_FLAG_HAMMING_DISTANCE != 0) == e.hamming_distance is Some,
    {
        lemma_ext_bits_of_sum(e.min_offset is Some, e.max_offset is Some, e.min_length is Some, e.edit_distance is Some, e.hamming_distance is Some, e.spec_flags());
    }
}

} // verus!
