//! The regex interface of the first generation.
//!
//! The scans are run by the caller, which hands the match events (start and
//! end byte offsets, in the order reported) to the functions here.

use vstd::prelude::*;

use crate::common::mode::HS_MODE_BLOCK;
use vstd::string::StringSliceAdditionalSpecFns;

use crate::error::{Error as CrateError, ParseFailure};
use crate::legacy::common::{Block, BlockDatabase};
use crate::legacy::compile::{
    compile_request, spec_parse_pattern, CompileFlags, DatabaseBuilder, LegacyRequestView, Pattern,
    PatternView,
};
use crate::regex::re::lemma_event_slice;
use crate::regex::re::successive;
use crate::regex::select::{
    first_event, first_match_from, lemma_first, lemma_matches_ordered, select_matches, text_matches, valid_event,
};

verus! {

/// A compiled regular expression: the pattern read from its text, with
/// leftmost start of match set, and its block database.
pub struct Regex {
    pattern: Pattern,
    db: BlockDatabase,
}

/// The pattern a regex is built from: the one `re` reads as, with leftmost
/// start of match added.
pub open spec fn regex_pattern(re: Seq<char>) -> Result<PatternView, ParseFailure> {
    match spec_parse_pattern(re) {
        Err(f) => Err(f),
        Ok(p) => Ok(PatternView { flags: p.flags.spec_union(CompileFlags { som_leftmost: true, ..CompileFlags::spec_empty() }), ..p }),
    }
}

impl Regex {
    /// The pattern of the regex.
    pub closed spec fn spec_pattern(&self) -> PatternView {
        self.pattern@
    }

    /// The request of the regex's database.
    pub closed spec fn spec_request(&self) -> LegacyRequestView {
        self.db.spec_request()@
    }

    /// The database of the regex.
    pub fn database(&self) -> (r: &BlockDatabase)
        ensures
            r.spec_request()@ == self.spec_request(),
    {
        &self.db
    }

    /// Compiles a regular expression.
    pub fn new(re: &str) -> (r: Result<Regex, CrateError>)
        ensures
            match r {
                Ok(rx) => regex_pattern(re@) == Ok::<PatternView, ParseFailure>(rx.spec_pattern())
                    && compile_request(rx.spec_pattern().expression, rx.spec_pattern().flags, None, HS_MODE_BLOCK)
                    == Ok::<LegacyRequestView, ParseFailure>(rx.spec_request()),
                Err(e) => match regex_pattern(re@) {
                    Err(f) => e.reports(f),
                    Ok(p) => match compile_request(p.expression, p.flags, None, HS_MODE_BLOCK) {
                        Err(f) => e.reports(f),
                        Ok(_) => false,
                    },
                },
            },
    {
        let mut pattern = match Pattern::parse(re) {
            Err(e) => {
                return Err(e);
            },
            Ok(p) => p,
        };
        pattern.flags = pattern.flags.union(CompileFlags { som_leftmost: true, ..CompileFlags::empty() });
        match pattern.build::<Block>() {
            Err(e) => Err(e),
            Ok(db) => Ok(Regex { pattern, db }),
        }
    }

    /// Whether the regex matches somewhere in `text`, given the match events
    /// of a scan of it (start and end byte offsets, in any order).
    pub fn is_match(&self, text: &str, events: &Vec<(usize, usize)>) -> (r: bool)
        ensures
            r == first_match_from(text.spec_bytes(), events@, 0) is Some,
    {
        first_event(text, events, 0).is_some()
    }

    /// The leftmost-first match in `text`: of the matches that start first,
    /// the one reported first; given the match events of a scan of it. Its offsets are on
    /// character boundaries of `text`.
    pub fn find<'t>(&self, text: &'t str, events: &Vec<(usize, usize)>) -> (r: Option<Match<'t>>)
        ensures
            match first_match_from(text.spec_bytes(), events@, 0) {
                None => r is None,
                Some(e) => r matches Some(m) && m.spec_text() == text && m.spec_start() == e.0 && m.spec_end() == e.1,
            },
            r matches Some(m) ==> valid_event(text.spec_bytes(), (m.spec_start(), m.spec_end())),
    {
        proof {
            lemma_first(text.spec_bytes(), events@, 0);
        }
        match first_event(text, events, 0) {
            None => None,
            Some((start, end)) => Some(Match { text, start, end }),
        }
    }

    /// The successive non-overlapping matches in `text`, given the match
    /// events of a scan of it.
    pub fn find_iter<'r, 't>(&'r self, text: &'t str, events: &Vec<(usize, usize)>) -> (r: Matches<'r, 't>)
        ensures
            r.wf(),
            r.spec_text() == text,
            r.spec_remaining() == text_matches(text.spec_bytes(), events@),
            successive(text.spec_bytes(), 0, r.spec_remaining()),
    {
        proof {
            lemma_matches_ordered(text.spec_bytes(), events@, 0);
        }
        let ranges = select_matches(text, events);
        let r = Matches { db: &self.db, text, ranges, front: 0 };
        assert(r.ranges@.subrange(0, r.ranges@.len() as int) == r.ranges@);
        r
    }
}

/// A match of a regex in a text.
#[derive(Clone, Debug)]
pub struct Match<'t> {
    text: &'t str,
    start: usize,
    end: usize,
}

impl<'t> Match<'t> {
    /// The text that the match is in.
    pub closed spec fn spec_text(&self) -> &'t str {
        self.text
    }

    /// The starting byte offset.
    pub closed spec fn spec_start(&self) -> usize {
        self.start
    }

    /// The ending byte offset.
    pub closed spec fn spec_end(&self) -> usize {
        self.end
    }

    /// Returns the starting byte offset of the match in the text.
    pub fn start(&self) -> (r: usize)
        ensures
            r == self.spec_start(),
    {
        self.start
    }

    /// Returns the ending byte offset of the match in the text.
    pub fn end(&self) -> (r: usize)
        ensures
            r == self.spec_end(),
    {
        self.end
    }

    /// Returns the matched text.
    pub fn as_str(&self) -> (r: &'t str)
        requires
            valid_event(self.spec_text().spec_bytes(), (self.spec_start(), self.spec_end())),
        ensures
            r.spec_bytes() == self.spec_text().spec_bytes().subrange(self.spec_start() as int, self.spec_end() as int),
    {
        proof {
            lemma_event_slice(self.text, (self.start, self.end));
        }
        let (head, _) = self.text.split_at(self.end);
        let (_, mid) = head.split_at(self.start);
        assert(mid.spec_bytes() =~= self.text.spec_bytes().subrange(self.start as int, self.end as int));
        mid
    }
}

/// The successive matches of a regex in a text.
pub struct Matches<'r, 't> {
    db: &'r BlockDatabase,
    text: &'t str,
    ranges: Vec<(usize, usize)>,
    front: usize,
}

impl<'r, 't> Matches<'r, 't> {
    /// The text searched.
    pub closed spec fn spec_text(&self) -> &'t str {
        self.text
    }

    /// The matches not yet handed out, in order.
    pub closed spec fn spec_remaining(&self) -> Seq<(usize, usize)> {
        self.ranges@.subrange(self.front as int, self.ranges@.len() as int)
    }

    /// The position of the next match is within the matches.
    pub closed spec fn wf(&self) -> bool {
        self.front <= self.ranges.len()
    }

    /// The next match: the first of those not yet handed out; none once
    /// every match was handed out.
    pub fn next(&mut self) -> (r: Option<Match<'t>>)
        requires
            old(self).wf(),
        ensures
            final(self).wf(),
            final(self).spec_text() == old(self).spec_text(),
            old(self).spec_remaining().len() == 0 ==> r is None && final(self).spec_remaining() == old(
                self,
            ).spec_remaining(),
            old(self).spec_remaining().len() > 0 ==> (r matches Some(m) && m.spec_text() == old(self).spec_text()
                && m.spec_start() == old(self).spec_remaining()[0].0 && m.spec_end() == old(
                self,
            ).spec_remaining()[0].1 && final(self).spec_remaining() == old(self).spec_remaining().drop_first()),
    {
        if self.front < self.ranges.len() {
            let (start, end) = self.ranges[self.front];
            self.front = self.front + 1;
            assert(self.spec_remaining() =~= old(self).spec_remaining().drop_first());
            Some(Match { text: self.text, start, end })
        } else {
            None
        }
    }
}

} // verus!
