//! The matches of a pattern in a haystack as a sequence of search steps:
//! rejected stretches and the non-overlapping matches between them.

use vstd::prelude::*;

use crate::compile::pattern::{Flags, Pattern};
use crate::regex::select::{lemma_matches_ordered, lemma_str_bytes, select_matches, text_matches, valid_event};
use vstd::utf8::is_char_boundary;
use vstd::string::StringSliceAdditionalSpecFns;

verus! {

/// One step of a search through a haystack.
#[derive(Clone, Copy, Debug, PartialEq, Eq, Structural)]
pub enum SearchStep {
    /// The haystack matches in this byte range.
    Match(usize, usize),
    /// The haystack does not match in this byte range.
    Reject(usize, usize),
    /// The whole haystack has been visited.
    Done,
}

/// The steps of a haystack of byte length `len` from `pos` on, with the
/// matches `ms` ahead: the stretch up to each match is rejected, where it is
/// not empty, then the match; after the last match the rest is rejected.
pub open spec fn steps_from(len: usize, ms: Seq<(usize, usize)>, pos: usize) -> Seq<SearchStep>
    decreases ms.len(),
{
    if ms.len() == 0 {
        if pos < len {
            seq![SearchStep::Reject(pos, len)]
        } else {
            Seq::empty()
        }
    } else {
        let m = ms[0];
        let matched = seq![SearchStep::Match(m.0, m.1)] + steps_from(len, ms.drop_first(), m.1);
        if pos < m.0 {
            seq![SearchStep::Reject(pos, m.0)] + matched
        } else {
            matched
        }
    }
}

/// The search steps of the haystack with the bytes `bytes` whose scan
/// reported the match events `events`: its successive matches, and the
/// rejected stretches between them; the stretch before the first match is
/// rejected even where it is empty.
pub open spec fn search_steps(bytes: Seq<u8>, events: Seq<(usize, usize)>) -> Seq<SearchStep> {
    let ms = text_matches(bytes, events);
    let steps = steps_from(bytes.len() as usize, ms, 0);
    if ms.len() > 0 && ms[0].0 == 0 {
        seq![SearchStep::Reject(0, 0)] + steps
    } else {
        steps
    }
}

/// The steps cover the haystack with the bytes `bytes` from `from` to its
/// end, one after the other: each starts where the one before it ended, ends
/// on a character boundary at or after its start, and the last one ends at
/// the end of the haystack.
pub open spec fn tiles(bytes: Seq<u8>, steps: Seq<SearchStep>, from: int) -> bool
    decreases steps.len(),
{
    if steps.len() == 0 {
        from == bytes.len()
    } else {
        match steps[0] {
            SearchStep::Match(a, b) => a == from && a <= b && is_char_boundary(bytes, b as int) && tiles(
                bytes,
                steps.drop_first(),
                b as int,
            ),
            SearchStep::Reject(a, b) => a == from && a <= b && is_char_boundary(bytes, b as int) && tiles(
                bytes,
                steps.drop_first(),
                b as int,
            ),
            SearchStep::Done => false,
        }
    }
}

fn reverse_steps(v: &Vec<SearchStep>) -> (r: Vec<SearchStep>)
    ensures
        r@.reverse() == v@,
{
    let mut r: Vec<SearchStep> = Vec::new();
    let mut j: usize = v.len();
    while j > 0
        invariant
            j <= v.len(),
            r@ == v@.subrange(j as int, v.len() as int).reverse(),
        decreases j,
    {
        j = j - 1;
        r.push(v[j]);
        assert(r@ =~= v@.subrange(j as int, v.len() as int).reverse());
    }
    assert(r@.reverse() =~= v@);
    r
}

/// The next match among `steps`, and the steps left after it: rejected
/// stretches are passed over; the search ends at `Done` or at the end.
pub open spec fn next_match_of(steps: Seq<SearchStep>) -> (Option<(usize, usize)>, Seq<SearchStep>)
    decreases steps.len(),
{
    if steps.len() == 0 {
        (None, steps)
    } else {
        match steps[0] {
            SearchStep::Match(a, b) => (Some((a, b)), steps.drop_first()),
            SearchStep::Reject(_, _) => next_match_of(steps.drop_first()),
            SearchStep::Done => (None, steps.drop_first()),
        }
    }
}

/// A searcher over the matches of a pattern in a haystack.
pub struct Searcher<'a> {
    haystack: &'a str,
    matches: Vec<SearchStep>,
}

impl<'a> Searcher<'a> {
    /// The steps not yet handed out, first one first.
    pub closed spec fn spec_remaining(&self) -> Seq<SearchStep> {
        self.matches@.reverse()
    }

    /// The haystack searched.
    pub closed spec fn spec_haystack(&self) -> &'a str {
        self.haystack
    }

    /// The pattern as the searcher scans for it: with leftmost start of
    /// match reporting, so that the engine reports where matches start.
    pub fn searching(pattern: Pattern) -> (r: Pattern)
        ensures
            r@ == pattern@.with_flags_added(Flags { som_leftmost: true, ..Flags::spec_empty() }),
    {
        pattern.left_most()
    }

    /// The searcher of `haystack` whose scan reported the match events
    /// `events` (start and end byte offsets), in the order reported.
    pub fn new(haystack: &'a str, events: &Vec<(usize, usize)>) -> (r: Searcher<'a>)
        ensures
            r.spec_haystack() == haystack,
            r.spec_remaining() == search_steps(haystack.spec_bytes(), events@),
            tiles(haystack.spec_bytes(), r.spec_remaining(), 0),
    {
        let ms = select_matches(haystack, events);
        let len = haystack.as_bytes().len();
        let mut steps: Vec<SearchStep> = Vec::new();
        if ms.len() > 0 && ms[0].0 == 0 {
            steps.push(SearchStep::Reject(0, 0));
        }
        let ghost total = steps@ + steps_from(len, ms@, 0);
        let mut pos: usize = 0;
        let mut i: usize = 0;
        assert(ms@.subrange(0, ms@.len() as int) == ms@);
        while i < ms.len()
            invariant
                i <= ms.len(),
                steps@ + steps_from(len, ms@.subrange(i as int, ms@.len() as int), pos) == total,
            decreases ms.len() - i,
        {
            let m = ms[i];
            let ghost ahead = ms@.subrange(i as int, ms@.len() as int);
            let ghost rest = ms@.subrange(i + 1, ms@.len() as int);
            assert(ahead[0] == m);
            assert(ahead.drop_first() =~= rest);
            let ghost after = steps_from(len, rest, m.1);
            let ghost before = steps@;
            if pos < m.0 {
                steps.push(SearchStep::Reject(pos, m.0));
            }
            steps.push(SearchStep::Match(m.0, m.1));
            if pos < m.0 {
                assert(before + (seq![SearchStep::Reject(pos, m.0)] + (seq![SearchStep::Match(m.0, m.1)] + after))
                    =~= steps@ + after);
            } else {
                assert(before + (seq![SearchStep::Match(m.0, m.1)] + after) =~= steps@ + after);
            }
            pos = m.1;
            i = i + 1;
        }
        assert(ms@.subrange(i as int, ms@.len() as int) =~= Seq::<(usize, usize)>::empty());
        if pos < len {
            steps.push(SearchStep::Reject(pos, len));
        } else {
            assert(steps@ + Seq::<SearchStep>::empty() =~= steps@);
        }
        proof {
            lemma_search_steps(haystack, events@);
        }
        let reversed = reverse_steps(&steps);
        Searcher { haystack, matches: reversed }
    }

    /// The haystack searched.
    pub fn haystack(&self) -> (r: &'a str)
        ensures
            r == self.spec_haystack(),
    {
        self.haystack
    }

    /// The next step of the search, `Done` once every step was handed out.
    pub fn next(&mut self) -> (r: SearchStep)
        ensures
            final(self).spec_haystack() == old(self).spec_haystack(),
            old(self).spec_remaining().len() == 0 ==> r == SearchStep::Done
                && final(self).spec_remaining() == old(self).spec_remaining(),
            old(self).spec_remaining().len() > 0 ==> r == old(self).spec_remaining()[0]
                && final(self).spec_remaining() == old(self).spec_remaining().drop_first(),
    {
        let ghost before = self.matches@;
        match self.matches.pop() {
            Some(s) => {
                assert(before.reverse()[0] == s);
                assert(self.matches@.reverse() =~= before.reverse().drop_first());
                s
            },
            None => SearchStep::Done,
        }
    }
}


impl<'a> Searcher<'a> {
    /// The start and end of the next match, passing over rejected stretches.
    pub fn next_match(&mut self) -> (r: Option<(usize, usize)>)
        ensures
            final(self).spec_haystack() == old(self).spec_haystack(),
            (r, final(self).spec_remaining()) == next_match_of(old(self).spec_remaining()),
    {
        loop
            invariant
                self.spec_haystack() == old(self).spec_haystack(),
                next_match_of(old(self).spec_remaining()) == next_match_of(self.spec_remaining()),
            decreases self.spec_remaining().len(),
        {
            let ghost before = self.spec_remaining();
            if self.matches.len() == 0 {
                assert(before.len() == 0);
                return None;
            }
            match self.next() {
                SearchStep::Match(a, b) => {
                    return Some((a, b));
                },
                SearchStep::Reject(_, _) => {},
                SearchStep::Done => {
                    return None;
                },
            }
        }
    }
}


/// The ranges of the match steps, in order.
pub open spec fn match_ranges(steps: Seq<SearchStep>) -> Seq<(usize, usize)>
    decreases steps.len(),
{
    if steps.len() == 0 {
        Seq::empty()
    } else {
        let rest = match_ranges(steps.drop_first());
        match steps[0] {
            SearchStep::Match(a, b) => seq![(a, b)] + rest,
            _ => rest,
        }
    }
}

proof fn lemma_steps_from(bytes: Seq<u8>, ms: Seq<(usize, usize)>, pos: usize)
    requires
        pos <= bytes.len() <= usize::MAX,
        is_char_boundary(bytes, bytes.len() as int),
        forall|i: int| 0 <= i < ms.len() ==> valid_event(bytes, #[trigger] ms[i]) && ms[i].0 >= pos,
        forall|i: int, j: int| 0 <= i < j < ms.len() ==> (#[trigger] ms[i]).1 <= (#[trigger] ms[j]).0,
    ensures
        tiles(bytes, steps_from(bytes.len() as usize, ms, pos), pos as int),
        match_ranges(steps_from(bytes.len() as usize, ms, pos)) == ms,
    decreases ms.len(),
{
    let len = bytes.len() as usize;
    let steps = steps_from(len, ms, pos);
    if ms.len() == 0 {
        if pos < len {
            assert(steps.drop_first() =~= Seq::<SearchStep>::empty());
            assert(match_ranges(steps) == match_ranges(steps.drop_first()));
            assert(tiles(bytes, steps.drop_first(), len as int));
        }
    } else {
        let m = ms[0];
        let rest = ms.drop_first();
        assert(valid_event(bytes, m));
        assert forall|i: int| 0 <= i < rest.len() implies valid_event(bytes, #[trigger] rest[i]) && rest[i].0 >= m.1 by {
            assert(rest[i] == ms[i + 1]);
        }
        assert forall|i: int, j: int| 0 <= i < j < rest.len() implies (#[trigger] rest[i]).1 <= (#[trigger] rest[j]).0 by {
            assert(rest[i] == ms[i + 1]);
            assert(rest[j] == ms[j + 1]);
        }
        lemma_steps_from(bytes, rest, m.1);
        let after = steps_from(len, rest, m.1);
        let matched = seq![SearchStep::Match(m.0, m.1)] + after;
        assert(matched[0] == SearchStep::Match(m.0, m.1));
        assert(matched.drop_first() =~= after);
        assert(match_ranges(matched) =~= ms);
        assert(tiles(bytes, matched, m.0 as int));
        if pos < m.0 {
            assert(steps[0] == SearchStep::Reject(pos, m.0));
            assert(steps.drop_first() =~= matched);
            assert(match_ranges(steps) == match_ranges(matched));
        }
    }
}

/// The searcher's steps cover the haystack from its start to its end, one
/// after the other and without overlap, each ending on a character boundary;
/// and its match steps are exactly the matches that `Regex::find_iter`
/// yields for the same match events.
pub proof fn lemma_search_steps(text: &str, events: Seq<(usize, usize)>)
    requires
        text.spec_bytes().len() <= usize::MAX,
    ensures
        tiles(text.spec_bytes(), search_steps(text.spec_bytes(), events), 0),
        match_ranges(search_steps(text.spec_bytes(), events)) == text_matches(text.spec_bytes(), events),
{
    let bytes = text.spec_bytes();
    lemma_str_bytes(text);
    lemma_matches_ordered(bytes, events, 0);
    let ms = text_matches(bytes, events);
    lemma_steps_from(bytes, ms, 0);
    let steps = steps_from(bytes.len() as usize, ms, 0);
    if ms.len() > 0 && ms[0].0 == 0 {
        let all = seq![SearchStep::Reject(0, 0)] + steps;
        assert(all[0] == SearchStep::Reject(0, 0));
        assert(all.drop_first() =~= steps);
        assert(match_ranges(all) == match_ranges(steps));
    }
}

} // verus!
