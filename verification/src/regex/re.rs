//! Regular expressions, their matches, and splits of a text around them.
//!
//! The scans themselves are run by the caller, which hands the match events
//! (start and end byte offsets, in the order the engine reported them) to
//! the functions here.

use std::ops::Range;

use vstd::prelude::*;

use crate::common::mode::HS_MODE_BLOCK;
use vstd::string::StringSliceAdditionalSpecFns;
use vstd::utf8::{is_char_boundary, valid_utf8};

use crate::regex::select::{
    first_event, first_match_from, lemma_first, lemma_first_leftmost, lemma_leftmost,
    lemma_matches_ordered, lemma_prefix_boundary, lemma_str_bytes,
    select_matches, text_matches, valid_event,
};

use crate::common::mode::Block;
use crate::compile::builder::{pattern_request, request_outcome, Builder, Database, RequestView};
use crate::compile::pattern::{plain_pattern, Flags, Pattern};
use crate::error::{Error as CrateError, ParseFailure};

verus! {

/// `bytes[a..b]` can be sliced out of a string: the offsets are in order,
/// `b` is a character boundary, and so is `a` within `bytes[..b]`.
pub open spec fn slice_ok(bytes: Seq<u8>, a: int, b: int) -> bool {
    0 <= a <= b <= bytes.len() && is_char_boundary(bytes, b) && is_char_boundary(bytes.subrange(0, b), a)
}

/// `text[a..b]`.
fn slice<'t>(text: &'t str, a: usize, b: usize) -> (r: &'t str)
    requires
        slice_ok(text.spec_bytes(), a as int, b as int),
    ensures
        r.spec_bytes() == text.spec_bytes().subrange(a as int, b as int),
{
    let (head, _) = text.split_at(b);
    let (_, mid) = head.split_at(a);
    assert(mid.spec_bytes() =~= text.spec_bytes().subrange(a as int, b as int));
    mid
}

/// `text[a..]`.
fn tail<'t>(text: &'t str, a: usize) -> (r: &'t str)
    requires
        is_char_boundary(text.spec_bytes(), a as int),
    ensures
        r.spec_bytes() == text.spec_bytes().subrange(a as int, text.spec_bytes().len() as int),
{
    let (_, rest) = text.split_at(a);
    rest
}

/// Match represents a single match of a regex in a haystack.
///
/// The lifetime parameter `'t` refers to the lifetime of the matched text.
#[derive(Copy, Clone, Debug, PartialEq, Eq)]
pub struct Match<'t> {
    text: &'t str,
    start: usize,
    end: usize,
    matched: &'t str,
}

impl<'t> Match<'t> {
    /// The offsets stand for a match of the text, and the matched text is
    /// the text between them.
    #[verifier::type_invariant]
    closed spec fn match_inv(self) -> bool {
        &&& valid_event(self.text.spec_bytes(), (self.start, self.end))
        &&& self.matched.spec_bytes() == self.text.spec_bytes().subrange(self.start as int, self.end as int)
    }

    /// The matched text.
    pub closed spec fn spec_matched(&self) -> &'t str {
        self.matched
    }

    /// The text that the match was made with.
    pub closed spec fn spec_text(&self) -> &'t str {
        self.text
    }

    /// The starting byte offset of the match.
    pub closed spec fn spec_start(&self) -> usize {
        self.start
    }

    /// The ending byte offset of the match.
    pub closed spec fn spec_end(&self) -> usize {
        self.end
    }

    fn new(text: &'t str, start: usize, end: usize) -> (r: Match<'t>)
        requires
            valid_event(text.spec_bytes(), (start, end)),
        ensures
            r.spec_text() == text,
            r.spec_start() == start,
            r.spec_end() == end,
    {
        proof {
            lemma_event_slice(text, (start, end));
        }
        let matched = slice(text, start, end);
        Match { text, start, end, matched }
    }

    /// Returns the starting byte offset of the match in the haystack.
    pub fn start(&self) -> (r: usize)
        ensures
            r == self.spec_start(),
    {
        self.start
    }

    /// Returns the ending byte offset of the match in the haystack.
    pub fn end(&self) -> (r: usize)
        ensures
            r == self.spec_end(),
    {
        self.end
    }

    /// Returns the range over the starting and ending byte offsets of the
    /// match in the haystack.
    pub fn range(&self) -> (r: Range<usize>)
        ensures
            r.start == self.spec_start(),
            r.end == self.spec_end(),
    {
        Range { start: self.start, end: self.end }
    }

    /// Returns the matched text.
    pub fn as_str(&self) -> (r: &'t str)
        ensures
            r == self.spec_matched(),
            r.spec_bytes() == self.spec_text().spec_bytes().subrange(self.spec_start() as int, self.spec_end() as int),
            valid_event(self.spec_text().spec_bytes(), (self.spec_start(), self.spec_end())),
    {
        proof {
            use_type_invariant(self);
        }
        self.matched
    }
}

/// A match event that stands for a match of `text` can be sliced out of it.
pub proof fn lemma_event_slice(text: &str, e: (usize, usize))
    requires
        valid_event(text.spec_bytes(), e),
    ensures
        slice_ok(text.spec_bytes(), e.0 as int, e.1 as int),
{
    lemma_str_bytes(text);
    lemma_prefix_boundary(text.spec_bytes(), e.0 as int, e.1 as int);
}

impl<'t> vstd::std_specs::convert::FromSpecImpl<Match<'t>> for Range<usize> {
    open spec fn obeys_from_spec() -> bool {
        true
    }

    open spec fn from_spec(m: Match<'t>) -> Range<usize> {
        Range { start: m.spec_start(), end: m.spec_end() }
    }
}

impl<'t> From<Match<'t>> for Range<usize> {
    /// The range over the starting and ending byte offsets of the match.
    fn from(m: Match<'t>) -> (r: Range<usize>) {
        Range { start: m.start, end: m.end }
    }
}

impl<'t> vstd::std_specs::convert::FromSpecImpl<Match<'t>> for &'t str {
    open spec fn obeys_from_spec() -> bool {
        true
    }

    open spec fn from_spec(m: Match<'t>) -> &'t str {
        m.spec_matched()
    }
}

impl<'t> From<Match<'t>> for &'t str {
    /// The matched text.
    fn from(m: Match<'t>) -> (r: &'t str) {
        m.matched
    }
}

/// An iterator over all non-overlapping matches for a particular string.
pub struct Matches<'t> {
    text: &'t str,
    ranges: Vec<(usize, usize)>,
    front: usize,
    back: usize,
}

impl<'t> Matches<'t> {
    /// The text being searched.
    pub closed spec fn spec_text(&self) -> &'t str {
        self.text
    }

    /// The ranges not yet handed out, in order.
    pub closed spec fn spec_ranges(&self) -> Seq<(usize, usize)> {
        self.ranges@.subrange(self.front as int, self.back as int)
    }

    /// The bounds are in order, and the ranges still to hand out are
    /// matches of the text.
    pub closed spec fn wf(&self) -> bool {
        &&& self.front <= self.back <= self.ranges.len()
        &&& forall|i: int| self.front <= i < self.back ==> valid_event(self.text.spec_bytes(), #[trigger] self.ranges@[i])
    }

    /// The matches of `text` at the ranges `ranges`, in order.
    fn from_ranges(text: &'t str, ranges: Vec<(usize, usize)>) -> (r: Matches<'t>)
        requires
            forall|i: int| 0 <= i < ranges@.len() ==> valid_event(text.spec_bytes(), #[trigger] ranges@[i]),
        ensures
            r.wf(),
            r.spec_text() == text,
            r.spec_ranges() == ranges@,
    {
        let back = ranges.len();
        let r = Matches { text, ranges, front: 0, back };
        assert(r.ranges@.subrange(0, back as int) == r.ranges@);
        r
    }

    /// Return the text being searched.
    pub fn text(&self) -> (r: &'t str)
        ensures
            r == self.spec_text(),
    {
        self.text
    }

    /// The next match, first one first.
    pub fn next(&mut self) -> (r: Option<Match<'t>>)
        requires
            old(self).wf(),
        ensures
            final(self).wf(),
            final(self).spec_text() == old(self).spec_text(),
            old(self).spec_ranges().len() == 0 ==> r is None && final(self).spec_ranges() == old(self).spec_ranges(),
            old(self).spec_ranges().len() > 0 ==> (r matches Some(m) && m.spec_text() == old(self).spec_text()
                && m.spec_start() == old(self).spec_ranges()[0].0 && m.spec_end() == old(self).spec_ranges()[0].1
                && final(self).spec_ranges() == old(self).spec_ranges().drop_first()),
    {
        if self.front < self.back {
            let (start, end) = self.ranges[self.front];
            self.front = self.front + 1;
            assert(self.spec_ranges() =~= old(self).spec_ranges().drop_first());
            Some(Match::new(self.text, start, end))
        } else {
            None
        }
    }

    /// The next match from the back, last one first.
    pub fn next_back(&mut self) -> (r: Option<Match<'t>>)
        requires
            old(self).wf(),
        ensures
            final(self).wf(),
            final(self).spec_text() == old(self).spec_text(),
            old(self).spec_ranges().len() == 0 ==> r is None && final(self).spec_ranges() == old(self).spec_ranges(),
            old(self).spec_ranges().len() > 0 ==> (r matches Some(m) && m.spec_text() == old(self).spec_text()
                && m.spec_start() == old(self).spec_ranges().last().0 && m.spec_end() == old(self).spec_ranges().last().1
                && final(self).spec_ranges() == old(self).spec_ranges().drop_last()),
    {
        if self.front < self.back {
            self.back = self.back - 1;
            let (start, end) = self.ranges[self.back];
            assert(self.spec_ranges() =~= old(self).spec_ranges().drop_last());
            Some(Match::new(self.text, start, end))
        } else {
            None
        }
    }
}

/// A compiled regular expression for matching Unicode strings: a block
/// database of the expression with leftmost start of match and UTF-8 set.
pub struct Regex(pub Database<Block>);

/// The flags that a regex adds to its own: leftmost start of match and UTF-8.
pub open spec fn regex_flags(flags: Flags) -> Flags {
    flags.spec_union(Flags { som_leftmost: true, utf8: true, ..Flags::spec_empty() })
}

/// `r` is the regex of the request `spec`, or the error that reports its failure.
pub open spec fn regex_outcome(r: Result<Regex, CrateError>, spec: Result<RequestView, ParseFailure>) -> bool {
    match r {
        Ok(re) => spec == Ok::<RequestView, ParseFailure>(re.0.spec_request()),
        Err(e) => match spec {
            Ok(_) => false,
            Err(f) => e.reports(f),
        },
    }
}

impl Regex {
    /// Compiles a regular expression.
    pub fn new(re: &str) -> (r: Result<Regex, CrateError>)
        ensures
            regex_outcome(r, pattern_request(plain_pattern(re@, regex_flags(Flags::spec_empty())), None, HS_MODE_BLOCK)),
    {
        Regex::with_flags(re, Flags::empty())
    }

    /// Compiles a regular expression with flags.
    pub fn with_flags(re: &str, flags: Flags) -> (r: Result<Regex, CrateError>)
        ensures
            regex_outcome(r, pattern_request(plain_pattern(re@, regex_flags(flags)), None, HS_MODE_BLOCK)),
    {
        let f = flags.union(Flags::som_leftmost()).union(Flags::utf8());
        assert(f == regex_flags(flags));
        match Pattern::with_flags(re, f) {
            Err(e) => Err(e),
            Ok(p) => match p.build::<Block>() {
                Err(e) => Err(e),
                Ok(db) => Ok(Regex(db)),
            },
        }
    }

    /// Whether the regex matches somewhere in `text`, given the match events
    /// of a scan of it (start and end byte offsets, in any order).
    pub fn is_match(&self, text: &str, events: &Vec<(usize, usize)>) -> (r: bool)
        ensures
            r == first_match_from(text.spec_bytes(), events@, 0) is Some,
    {
        first_event(text, events, 0).is_some()
    }

    /// The leftmost-first match in `text`: of the matches that start first,
    /// the one reported first; given the match events of a scan of it.
    pub fn find<'t>(&self, text: &'t str, events: &Vec<(usize, usize)>) -> (r: Option<Match<'t>>)
        ensures
            match first_match_from(text.spec_bytes(), events@, 0) {
                None => r is None,
                Some(e) => r matches Some(m) && m.spec_text() == text && m.spec_start() == e.0 && m.spec_end() == e.1,
            },
            r matches Some(m) ==> valid_event(text.spec_bytes(), (m.spec_start(), m.spec_end())),
    {
        proof {
            lemma_first(text.spec_bytes(), events@, 0);
        }
        match first_event(text, events, 0) {
            None => None,
            Some((start, end)) => Some(Match::new(text, start, end)),
        }
    }

    /// The successive non-overlapping matches in `text`, given the match
    /// events of a scan of it.
    pub fn find_iter<'t>(&self, text: &'t str, events: &Vec<(usize, usize)>) -> (r: Matches<'t>)
        ensures
            r.wf(),
            r.spec_text() == text,
            r.spec_ranges() == text_matches(text.spec_bytes(), events@),
            successive(text.spec_bytes(), 0, r.spec_ranges()),
    {
        proof {
            lemma_matches_ordered(text.spec_bytes(), events@, 0);
        }
        Matches::from_ranges(text, select_matches(text, events))
    }

    /// The substrings of `text` delimited by the matches, given the match
    /// events of a scan of it.
    pub fn split<'t>(&self, text: &'t str, events: &Vec<(usize, usize)>) -> (r: Split<'t>)
        requires
            text.spec_bytes().len() < usize::MAX,
        ensures
            r.inv(),
            r.spec_text() == text,
            r.spec_last() == 0,
            r.spec_ranges() == text_matches(text.spec_bytes(), events@),
    {
        proof {
            let bytes = text.spec_bytes();
            lemma_str_bytes(text);
            lemma_matches_ordered(bytes, events@, 0);
            lemma_matches_gaps(bytes, 0, text_matches(bytes, events@));
        }
        Split { finder: self.find_iter(text, events), last: 0 }
    }

    /// At most `limit` substrings of `text` delimited by the matches, given
    /// the match events of a scan of it; the last one is the rest of the text.
    pub fn splitn<'t>(&self, text: &'t str, events: &Vec<(usize, usize)>, limit: usize) -> (r: SplitN<'t>)
        requires
            text.spec_bytes().len() < usize::MAX,
        ensures
            r.inv(),
            r.spec_split().spec_text() == text,
            r.spec_split().spec_last() == 0,
            r.spec_split().spec_ranges() == text_matches(text.spec_bytes(), events@),
            r.spec_n() == limit,
    {
        SplitN { splits: self.split(text, events), n: limit }
    }
}

/// Matches of a text that follow one another: each a match event of the
/// text, starting at or after `last` and at or after the end of the one
/// before it.
pub open spec fn successive(bytes: Seq<u8>, last: int, rs: Seq<(usize, usize)>) -> bool {
    &&& forall|i: int| 0 <= i < rs.len() ==> valid_event(bytes, #[trigger] rs[i]) && rs[i].0 >= last
    &&& forall|i: int, j: int| 0 <= i < j < rs.len() ==> (#[trigger] rs[i]).1 <= (#[trigger] rs[j]).0
}

/// The gaps between successive matches of a valid UTF-8 text can be sliced
/// out of it.
proof fn lemma_matches_gaps(bytes: Seq<u8>, last: int, rs: Seq<(usize, usize)>)
    requires
        valid_utf8(bytes),
        is_char_boundary(bytes, bytes.len() as int),
        0 <= last <= bytes.len(),
        is_char_boundary(bytes, last),
        successive(bytes, last, rs),
    ensures
        gaps_ok(bytes, last, rs),
    decreases rs.len(),
{
    if rs.len() > 0 {
        let m = rs[0];
        assert(valid_event(bytes, m));
        lemma_prefix_boundary(bytes, last, m.0 as int);
        let rest = rs.drop_first();
        assert forall|i: int| 0 <= i < rest.len() implies valid_event(bytes, #[trigger] rest[i]) && rest[i].0 >= m.1 by {
            assert(rest[i] == rs[i + 1]);
        }
        assert forall|i: int, j: int| 0 <= i < j < rest.len() implies (#[trigger] rest[i]).1 <= (#[trigger] rest[j]).0 by {
            assert(rest[i] == rs[i + 1]);
            assert(rest[j] == rs[j + 1]);
        }
        lemma_matches_gaps(bytes, m.1 as int, rest);
    }
}

/// The text between `last` and each range, and the rest after the last
/// range, can be sliced out of `bytes`.
pub open spec fn gaps_ok(bytes: Seq<u8>, last: int, rs: Seq<(usize, usize)>) -> bool
    decreases rs.len(),
{
    if rs.len() == 0 {
        last <= bytes.len() ==> is_char_boundary(bytes, last)
    } else {
        &&& slice_ok(bytes, last, rs[0].0 as int)
        &&& is_char_boundary(bytes, last)
        &&& is_char_boundary(bytes, rs[0].0 as int)
        &&& gaps_ok(bytes, rs[0].1 as int, rs.drop_first())
    }
}

/// The bytes of the substring handed out, if any.
pub open spec fn str_bytes(r: Option<&str>) -> Option<Seq<u8>> {
    match r {
        Some(s) => Some(s.spec_bytes()),
        None => None,
    }
}

/// One step of a split of `bytes` that is at `last` with the matches `rs`
/// still ahead: the substring handed out, where the next one starts, and the
/// matches left. Before each match comes the text up to it; after the last
/// match, the rest of the text, once (the position then moves past the end).
pub open spec fn split_step(bytes: Seq<u8>, last: usize, rs: Seq<(usize, usize)>) -> (Option<Seq<u8>>, usize, Seq<(usize, usize)>) {
    if rs.len() > 0 {
        (Some(bytes.subrange(last as int, rs[0].0 as int)), rs[0].1, rs.drop_first())
    } else if last > bytes.len() {
        (None, last, rs)
    } else {
        (Some(bytes.subrange(last as int, bytes.len() as int)), (bytes.len() + 1) as usize, rs)
    }
}

/// The substrings that a split of `bytes` at `last`, with the matches `rs`
/// ahead, still hands out: the text up to each match, then the rest.
pub open spec fn split_pieces(bytes: Seq<u8>, last: int, rs: Seq<(usize, usize)>) -> Seq<Seq<u8>>
    decreases rs.len(),
{
    if rs.len() == 0 {
        if last > bytes.len() {
            Seq::empty()
        } else {
            seq![bytes.subrange(last, bytes.len() as int)]
        }
    } else {
        seq![bytes.subrange(last, rs[0].0 as int)] + split_pieces(bytes, rs[0].1 as int, rs.drop_first())
    }
}

/// Each step of a split hands out the first of the pieces still to come and
/// leaves the others; once none is left it hands out nothing.
pub proof fn lemma_split_step_pieces(bytes: Seq<u8>, last: usize, rs: Seq<(usize, usize)>)
    requires
        bytes.len() < usize::MAX,
    ensures
        ({
            let (out, next, rest) = split_step(bytes, last, rs);
            let pieces = split_pieces(bytes, last as int, rs);
            if pieces.len() == 0 {
                out is None && next == last && rest == rs
            } else {
                out == Some(pieces[0]) && split_pieces(bytes, next as int, rest) == pieces.drop_first()
            }
        }),
{
    let pieces = split_pieces(bytes, last as int, rs);
    if rs.len() > 0 {
        let tail = split_pieces(bytes, rs[0].1 as int, rs.drop_first());
        assert(pieces.drop_first() =~= tail);
    } else if last <= bytes.len() {
        assert(split_pieces(bytes, bytes.len() + 1 as int, rs) =~= pieces.drop_first());
    }
}

/// A split that has not yet reached the end hands out one piece more than
/// there are matches ahead: with no match, the whole rest of the text.
pub proof fn lemma_split_count(bytes: Seq<u8>, last: int, rs: Seq<(usize, usize)>)
    requires
        last <= bytes.len(),
        forall|i: int| 0 <= i < rs.len() ==> (#[trigger] rs[i]).1 <= bytes.len(),
    ensures
        split_pieces(bytes, last, rs).len() == rs.len() + 1,
    decreases rs.len(),
{
    if rs.len() > 0 {
        let rest = rs.drop_first();
        assert(rs[0].1 <= bytes.len());
        assert forall|i: int| 0 <= i < rest.len() implies (#[trigger] rest[i]).1 <= bytes.len() by {
            assert(rest[i] == rs[i + 1]);
        }
        lemma_split_count(bytes, rs[0].1 as int, rest);
    }
}

/// A split of a text hands out one substring more than the text has
/// matches.
pub proof fn lemma_split_text_count(text: &str, events: Seq<(usize, usize)>)
    ensures
        split_pieces(text.spec_bytes(), 0, text_matches(text.spec_bytes(), events)).len() == text_matches(
            text.spec_bytes(),
            events,
        ).len() + 1,
{
    let bytes = text.spec_bytes();
    lemma_matches_ordered(bytes, events, 0);
    lemma_split_count(bytes, 0, text_matches(bytes, events));
}

/// Where a split of `bytes` that is at `last`, with the matches `rs` ahead,
/// stands after `n` steps: where the next substring starts, and the matches
/// left.
pub open spec fn split_state(bytes: Seq<u8>, last: usize, rs: Seq<(usize, usize)>, n: nat) -> (usize, Seq<(usize, usize)>)
    decreases n,
{
    if n == 0 {
        (last, rs)
    } else {
        let (l, r) = split_state(bytes, last, rs, (n - 1) as nat);
        let (_, l2, r2) = split_step(bytes, l, r);
        (l2, r2)
    }
}

/// What the split hands out at its step `n` (counting from 0).
pub open spec fn split_output(bytes: Seq<u8>, last: usize, rs: Seq<(usize, usize)>, n: nat) -> Option<Seq<u8>> {
    let (l, r) = split_state(bytes, last, rs, n);
    split_step(bytes, l, r).0
}

/// The `i`-th substring of a split of `bytes` from `last` around the
/// matches `rs`: from `last` (the first) or the end of the match before it,
/// up to the start of its match or the end of the text (the last).
pub open spec fn piece_at(bytes: Seq<u8>, last: int, rs: Seq<(usize, usize)>, i: int) -> Seq<u8> {
    bytes.subrange(
        if i == 0 { last } else { rs[i - 1].1 as int },
        if i < rs.len() { rs[i].0 as int } else { bytes.len() as int },
    )
}

proof fn lemma_pieces_at(bytes: Seq<u8>, last: int, rs: Seq<(usize, usize)>)
    requires
        last <= bytes.len(),
        forall|i: int| 0 <= i < rs.len() ==> (#[trigger] rs[i]).1 <= bytes.len(),
    ensures
        split_pieces(bytes, last, rs).len() == rs.len() + 1,
        forall|i: int| 0 <= i <= rs.len() ==> #[trigger] split_pieces(bytes, last, rs)[i] == piece_at(bytes, last, rs, i),
    decreases rs.len(),
{
    lemma_split_count(bytes, last, rs);
    if rs.len() > 0 {
        let rest = rs.drop_first();
        assert forall|i: int| 0 <= i < rest.len() implies (#[trigger] rest[i]).1 <= bytes.len() by {
            assert(rest[i] == rs[i + 1]);
        }
        lemma_pieces_at(bytes, rs[0].1 as int, rest);
        let pieces = split_pieces(bytes, last, rs);
        let tail = split_pieces(bytes, rs[0].1 as int, rest);
        assert forall|i: int| 0 <= i <= rs.len() implies #[trigger] pieces[i] == piece_at(bytes, last, rs, i) by {
            if i > 0 {
                assert(pieces[i] == tail[i - 1]);
                assert(tail[i - 1] == piece_at(bytes, rs[0].1 as int, rest, i - 1));
                if i > 1 {
                    assert(rest[i - 2] == rs[i - 1]);
                }
                if i < rs.len() {
                    assert(rest[i - 1] == rs[i]);
                }
            }
        }
    }
}

proof fn lemma_split_states(bytes: Seq<u8>, last: usize, rs: Seq<(usize, usize)>, n: nat)
    requires
        bytes.len() < usize::MAX,
    ensures
        ({
            let pieces = split_pieces(bytes, last as int, rs);
            let (l, r) = split_state(bytes, last, rs, n);
            &&& n <= pieces.len() ==> split_pieces(bytes, l as int, r) == pieces.subrange(n as int, pieces.len() as int)
            &&& n > pieces.len() ==> split_pieces(bytes, l as int, r).len() == 0
            &&& split_output(bytes, last, rs, n) == if n < pieces.len() {
                Some(pieces[n as int])
            } else {
                None::<Seq<u8>>
            }
        }),
    decreases n,
{
    let pieces = split_pieces(bytes, last as int, rs);
    if n == 0 {
        assert(pieces.subrange(0, pieces.len() as int) == pieces);
    } else {
        lemma_split_states(bytes, last, rs, (n - 1) as nat);
        let (l0, r0) = split_state(bytes, last, rs, (n - 1) as nat);
        lemma_split_step_pieces(bytes, l0, r0);
        if n <= pieces.len() {
            assert(pieces.subrange(n - 1, pieces.len() as int).drop_first() =~= pieces.subrange(n as int, pieces.len() as int));
        }
    }
    let (l, r) = split_state(bytes, last, rs, n);
    lemma_split_step_pieces(bytes, l, r);
    if n < pieces.len() {
        assert(pieces.subrange(n as int, pieces.len() as int)[0] == pieces[n as int]);
    }
}

/// A split of a text hands out, one per step, the text up to its first
/// match, the text between each match and the next, and the text after its
/// last match (the whole text where there is no match): one substring more
/// than there are matches, then nothing at every later step.
pub proof fn lemma_split_whole(text: &str, events: Seq<(usize, usize)>, n: nat)
    requires
        text.spec_bytes().len() < usize::MAX,
    ensures
        ({
            let bytes = text.spec_bytes();
            let ms = text_matches(bytes, events);
            split_output(bytes, 0, ms, n) == if n <= ms.len() {
                Some(piece_at(bytes, 0, ms, n as int))
            } else {
                None::<Seq<u8>>
            }
        }),
{
    let bytes = text.spec_bytes();
    let ms = text_matches(bytes, events);
    lemma_matches_ordered(bytes, events, 0);
    lemma_pieces_at(bytes, 0, ms);
    lemma_split_states(bytes, 0, ms, n);
}

/// Whether a text matches, its leftmost-first match, and the first of its
/// successive matches agree: the regex matches exactly when there is a first
/// match, and the leftmost-first match starts where that one does.
pub proof fn lemma_is_match_find(bytes: Seq<u8>, events: Seq<(usize, usize)>)
    ensures
        (first_match_from(bytes, events, 0) is Some) == (text_matches(bytes, events).len() > 0),
        text_matches(bytes, events).len() > 0 ==> first_match_from(bytes, events, 0).unwrap().0 == text_matches(
            bytes,
            events,
        )[0].0,
{
    lemma_leftmost(bytes, events, 0);
    lemma_first_leftmost(bytes, events, 0);
}

/// Yields all substrings delimited by a regular expression match.
pub struct Split<'t> {
    finder: Matches<'t>,
    last: usize,
}

impl<'t> Split<'t> {
    /// The text being split.
    pub closed spec fn spec_text(&self) -> &'t str {
        self.finder.spec_text()
    }

    /// Where the next substring starts (past the end once the rest was handed out).
    pub closed spec fn spec_last(&self) -> usize {
        self.last
    }

    /// The matches not yet passed.
    pub closed spec fn spec_ranges(&self) -> Seq<(usize, usize)> {
        self.finder.spec_ranges()
    }

    /// The substrings still to hand out can be sliced out of the text.
    pub closed spec fn inv(&self) -> bool {
        &&& self.finder.wf()
        &&& self.spec_text().spec_bytes().len() < usize::MAX
        &&& gaps_ok(self.spec_text().spec_bytes(), self.last as int, self.spec_ranges())
    }

    /// The next substring: the text up to the next match, or the rest of the
    /// text after the last match (once), then nothing.
    pub fn next(&mut self) -> (r: Option<&'t str>)
        requires
            old(self).inv(),
        ensures
            final(self).inv(),
            final(self).spec_text() == old(self).spec_text(),
            (str_bytes(r), final(self).spec_last(), final(self).spec_ranges()) == split_step(
                old(self).spec_text().spec_bytes(),
                old(self).spec_last(),
                old(self).spec_ranges(),
            ),
    {
        let text = self.finder.text();
        let ghost rs = self.spec_ranges();
        match self.finder.next() {
            None => {
                if self.last > text.len() {
                    None
                } else {
                    let s = tail(text, self.last);
                    self.last = text.len() + 1;
                    Some(s)
                }
            },
            Some(m) => {
                let matched = slice(text, self.last, m.start());
                self.last = m.end();
                Some(matched)
            },
        }
    }
}

/// Yields at most `N` substrings delimited by a regular expression match.
///
/// The last substring will be whatever remains after splitting.
pub struct SplitN<'t> {
    splits: Split<'t>,
    n: usize,
}

impl<'t> SplitN<'t> {
    /// The split underneath.
    pub closed spec fn spec_split(&self) -> Split<'t> {
        self.splits
    }

    /// How many substrings may still be handed out.
    pub closed spec fn spec_n(&self) -> usize {
        self.n
    }

    /// The split underneath keeps its invariant.
    pub closed spec fn inv(&self) -> bool {
        self.splits.inv()
    }

    /// The next substring: none once `N` were handed out; the last one is
    /// the rest of the text.
    pub fn next(&mut self) -> (r: Option<&'t str>)
        requires
            old(self).inv(),
        ensures
            final(self).inv(),
            old(self).spec_n() == 0 ==> r is None && final(self).spec_n() == 0
                && final(self).spec_split() == old(self).spec_split(),
            old(self).spec_n() > 1 ==> final(self).spec_n() == old(self).spec_n() - 1
                && final(self).spec_split().spec_text() == old(self).spec_split().spec_text()
                && (str_bytes(r), final(self).spec_split().spec_last(), final(self).spec_split().spec_ranges())
                == split_step(
                old(self).spec_split().spec_text().spec_bytes(),
                old(self).spec_split().spec_last(),
                old(self).spec_split().spec_ranges(),
            ),
            old(self).spec_n() == 1 ==> final(self).spec_n() == 0 && final(self).spec_split()
                == old(self).spec_split() && ({
                let bytes = old(self).spec_split().spec_text().spec_bytes();
                let last = old(self).spec_split().spec_last();
                if last > bytes.len() {
                    r is None
                } else {
                    r matches Some(s) && s.spec_bytes() == bytes.subrange(last as int, bytes.len() as int)
                }
            }),
    {
        if self.n == 0 {
            return None;
        }
        self.n = self.n - 1;
        if self.n > 0 {
            return self.splits.next();
        }
        let text = self.splits.finder.text();
        if self.splits.last > text.len() {
            None
        } else {
            proof {
                lemma_gaps_ok_tail(self.splits.spec_text().spec_bytes(), self.splits.last as int, self.splits.spec_ranges());
            }
            Some(tail(text, self.splits.last))
        }
    }
}

/// Where the gaps can be sliced, `last` itself is a boundary.
proof fn lemma_gaps_ok_tail(bytes: Seq<u8>, last: int, rs: Seq<(usize, usize)>)
    requires
        gaps_ok(bytes, last, rs),
        0 <= last <= bytes.len(),
    ensures
        is_char_boundary(bytes, last),
{
}

} // verus!
