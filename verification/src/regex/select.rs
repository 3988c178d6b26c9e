//! Which match events of a scan are the matches of a text. The leftmost-first
//! match starts first, and of those is the one reported first. The successive
//! matches are the leftmost match (of those that start first, the longest, as
//! a match that grows replaces the shorter one), then again after it, so that
//! they follow one another and do not overlap.

use vstd::prelude::*;
use vstd::string::StringSliceAdditionalSpecFns;
use vstd::utf8::{
    encode_utf8_valid_utf8, is_char_boundary, is_char_boundary_iff_not_is_continuation_byte,
    is_char_boundary_start_end_of_seq, valid_utf8, valid_utf8_split,
};

verus! {

/// The match event `e` stands for a match of the text with the bytes
/// `bytes`: its offsets are in order, within the text, and on character
/// boundaries.
pub open spec fn valid_event(bytes: Seq<u8>, e: (usize, usize)) -> bool {
    &&& e.0 <= e.1 <= bytes.len()
    &&& is_char_boundary(bytes, e.0 as int)
    &&& is_char_boundary(bytes, e.1 as int)
}

/// `e` is a better candidate than `best` for the leftmost match: it starts
/// earlier, or at the same place and ends later.
pub open spec fn better(e: (usize, usize), best: Option<(usize, usize)>) -> bool {
    match best {
        None => true,
        Some(b) => e.0 < b.0 || (e.0 == b.0 && e.1 > b.1),
    }
}

/// The leftmost match among the events that start at or after `pos`: the
/// one that starts first, and of those the longest.
pub open spec fn leftmost_from(bytes: Seq<u8>, events: Seq<(usize, usize)>, pos: int) -> Option<(usize, usize)>
    decreases events.len(),
{
    if events.len() == 0 {
        None
    } else {
        let best = leftmost_from(bytes, events.drop_last(), pos);
        let e = events.last();
        if valid_event(bytes, e) && e.0 >= pos && better(e, best) {
            Some(e)
        } else {
            best
        }
    }
}

/// The leftmost-first match among the events that start at or after
/// `pos`: of the events that start first, the one reported first.
pub open spec fn first_match_from(bytes: Seq<u8>, events: Seq<(usize, usize)>, pos: int) -> Option<(usize, usize)>
    decreases events.len(),
{
    if events.len() == 0 {
        None
    } else {
        let best = first_match_from(bytes, events.drop_last(), pos);
        let e = events.last();
        if valid_event(bytes, e) && e.0 >= pos && (best is None || e.0 < best.unwrap().0) {
            Some(e)
        } else {
            best
        }
    }
}

/// Where the search goes on after the match `m`: at its end, or one byte on
/// after an empty match.
pub open spec fn next_pos(m: (usize, usize)) -> int {
    if m.1 > m.0 {
        m.1 as int
    } else {
        m.0 + 1
    }
}

/// The matches of the text found from `pos` on: the leftmost match, then
/// the matches found after it.
pub open spec fn matches_from(bytes: Seq<u8>, events: Seq<(usize, usize)>, pos: int) -> Seq<(usize, usize)>
    decreases bytes.len() + 1 - pos,
{
    if pos < 0 || pos > bytes.len() {
        Seq::empty()
    } else {
        match leftmost_from(bytes, events, pos) {
            None => Seq::empty(),
            Some(m) => if pos < next_pos(m) <= bytes.len() + 1 {
                seq![m] + matches_from(bytes, events, next_pos(m))
            } else {
                Seq::empty()
            },
        }
    }
}

/// The matches of the text with the bytes `bytes`, given the match events
/// of a scan of it.
pub open spec fn text_matches(bytes: Seq<u8>, events: Seq<(usize, usize)>) -> Seq<(usize, usize)> {
    matches_from(bytes, events, 0)
}

/// The leftmost match from `pos` is a valid event of the scan that starts
/// at or after `pos`; no valid event from `pos` starts before it, nor starts
/// there and ends after it. Where there is none, no valid event starts at or
/// after `pos`.
pub proof fn lemma_leftmost(bytes: Seq<u8>, events: Seq<(usize, usize)>, pos: int)
    ensures
        leftmost_from(bytes, events, pos) matches Some(m) ==> {
            &&& events.contains(m)
            &&& valid_event(bytes, m)
            &&& m.0 >= pos
            &&& forall|k: int| 0 <= k < events.len() && valid_event(bytes, #[trigger] events[k]) && events[k].0 >= pos
                ==> m.0 <= events[k].0 && (events[k].0 == m.0 ==> events[k].1 <= m.1)
        },
        leftmost_from(bytes, events, pos) is None ==> forall|k: int|
            0 <= k < events.len() && valid_event(bytes, #[trigger] events[k]) ==> events[k].0 < pos,
    decreases events.len(),
{
    if events.len() > 0 {
        let pre = events.drop_last();
        lemma_leftmost(bytes, pre, pos);
        assert forall|k: int| 0 <= k < pre.len() implies pre[k] == events[k] by {}
        match leftmost_from(bytes, events, pos) {
            Some(m) => {
                if m == events.last() && valid_event(bytes, events.last()) && events.last().0 >= pos
                    && better(events.last(), leftmost_from(bytes, pre, pos)) {
                    assert(events[events.len() - 1] == m);
                } else {
                    assert(pre.contains(m));
                    let j = choose|j: int| 0 <= j < pre.len() && pre[j] == m;
                    assert(events[j] == m);
                }
            },
            None => {},
        }
    }
}

/// The leftmost-first match from `pos` is a valid event of the scan that
/// starts at or after `pos`, and no valid event from `pos` starts before it.
/// Where there is none, no valid event starts at or after `pos`.
pub proof fn lemma_first(bytes: Seq<u8>, events: Seq<(usize, usize)>, pos: int)
    ensures
        first_match_from(bytes, events, pos) matches Some(m) ==> {
            &&& events.contains(m)
            &&& valid_event(bytes, m)
            &&& m.0 >= pos
            &&& forall|k: int| 0 <= k < events.len() && valid_event(bytes, #[trigger] events[k]) && events[k].0 >= pos
                ==> m.0 <= events[k].0
        },
        first_match_from(bytes, events, pos) is None ==> forall|k: int|
            0 <= k < events.len() && valid_event(bytes, #[trigger] events[k]) ==> events[k].0 < pos,
    decreases events.len(),
{
    if events.len() > 0 {
        let pre = events.drop_last();
        lemma_first(bytes, pre, pos);
        assert forall|k: int| 0 <= k < pre.len() implies pre[k] == events[k] by {}
        match first_match_from(bytes, events, pos) {
            Some(m) => {
                let best = first_match_from(bytes, pre, pos);
                let e = events.last();
                if valid_event(bytes, e) && e.0 >= pos && (best is None || e.0 < best.unwrap().0) {
                    assert(events[events.len() - 1] == m);
                } else {
                    assert(pre.contains(m));
                    let j = choose|j: int| 0 <= j < pre.len() && pre[j] == m;
                    assert(events[j] == m);
                }
            },
            None => {},
        }
    }
}

/// The leftmost-first match and the leftmost longest match start at the
/// same place, and one exists exactly when the other does.
pub proof fn lemma_first_leftmost(bytes: Seq<u8>, events: Seq<(usize, usize)>, pos: int)
    ensures
        (first_match_from(bytes, events, pos) is Some) == (leftmost_from(bytes, events, pos) is Some),
        first_match_from(bytes, events, pos) is Some ==> first_match_from(bytes, events, pos).unwrap().0
            == leftmost_from(bytes, events, pos).unwrap().0,
{
    lemma_first(bytes, events, pos);
    lemma_leftmost(bytes, events, pos);
    if let Some(m) = first_match_from(bytes, events, pos) {
        let j = choose|j: int| 0 <= j < events.len() && events[j] == m;
        assert(valid_event(bytes, events[j]));
    }
    if let Some(m) = leftmost_from(bytes, events, pos) {
        let j = choose|j: int| 0 <= j < events.len() && events[j] == m;
        assert(valid_event(bytes, events[j]));
    }
}

/// The offsets of the text's bytes that are character boundaries stay
/// boundaries in a prefix that ends at a boundary.
pub proof fn lemma_prefix_boundary(bytes: Seq<u8>, a: int, b: int)
    requires
        valid_utf8(bytes),
        0 <= a <= b <= bytes.len(),
        is_char_boundary(bytes, a),
        is_char_boundary(bytes, b),
    ensures
        is_char_boundary(bytes.subrange(0, b), a),
{
    valid_utf8_split(bytes, b);
    let p = bytes.subrange(0, b);
    if a == b {
        is_char_boundary_start_end_of_seq(p);
        assert(p.len() == b);
    } else {
        is_char_boundary_iff_not_is_continuation_byte(bytes, a);
        is_char_boundary_iff_not_is_continuation_byte(p, a);
        assert(p[a] == bytes[a]);
    }
}

/// The bytes of a string are valid UTF-8, with boundaries at both ends.
pub proof fn lemma_str_bytes(text: &str)
    ensures
        valid_utf8(text.spec_bytes()),
        is_char_boundary(text.spec_bytes(), 0),
        is_char_boundary(text.spec_bytes(), text.spec_bytes().len() as int),
{
    encode_utf8_valid_utf8(text@);
    is_char_boundary_start_end_of_seq(text.spec_bytes());
}

/// The matches found from `pos` are valid events of the scan, each starting
/// at or after `pos` and at or after the end of the one before it.
pub proof fn lemma_matches_ordered(bytes: Seq<u8>, events: Seq<(usize, usize)>, pos: int)
    ensures
        forall|i: int| 0 <= i < matches_from(bytes, events, pos).len() ==> {
            &&& valid_event(bytes, #[trigger] matches_from(bytes, events, pos)[i])
            &&& events.contains(matches_from(bytes, events, pos)[i])
            &&& matches_from(bytes, events, pos)[i].0 >= pos
        },
        forall|i: int, j: int| 0 <= i < j < matches_from(bytes, events, pos).len() ==>
            (#[trigger] matches_from(bytes, events, pos)[i]).1 <= (#[trigger] matches_from(bytes, events, pos)[j]).0,
    decreases bytes.len() + 1 - pos,
{
    let ms = matches_from(bytes, events, pos);
    if 0 <= pos <= bytes.len() {
        lemma_leftmost(bytes, events, pos);
        match leftmost_from(bytes, events, pos) {
            None => {},
            Some(m) => {
                if pos < next_pos(m) <= bytes.len() + 1 {
                    let q = next_pos(m);
                    lemma_matches_ordered(bytes, events, q);
                    let rest = matches_from(bytes, events, q);
                    assert(ms == seq![m] + rest);
                    assert forall|i: int| 0 <= i < ms.len() implies {
                        &&& valid_event(bytes, #[trigger] ms[i])
                        &&& events.contains(ms[i])
                        &&& ms[i].0 >= pos
                    } by {
                        if i > 0 {
                            assert(ms[i] == rest[i - 1]);
                        }
                    }
                    assert forall|i: int, j: int| 0 <= i < j < ms.len() implies (#[trigger] ms[i]).1 <= (#[trigger] ms[j]).0 by {
                        assert(ms[j] == rest[j - 1]);
                        if i > 0 {
                            assert(ms[i] == rest[i - 1]);
                        } else {
                            assert(rest[j - 1].0 >= q);
                        }
                    }
                }
            },
        }
    }
}

/// The leftmost match from `pos`, computed over the events.
pub fn leftmost_event(text: &str, events: &Vec<(usize, usize)>, pos: usize) -> (r: Option<(usize, usize)>)
    ensures
        r == leftmost_from(text.spec_bytes(), events@, pos as int),
{
    let mut best: Option<(usize, usize)> = None;
    let mut i: usize = 0;
    let len = text.as_bytes().len();
    assert(events@.subrange(0, 0) =~= Seq::<(usize, usize)>::empty());
    while i < events.len()
        invariant
            i <= events.len(),
            len == text.spec_bytes().len(),
            best == leftmost_from(text.spec_bytes(), events@.subrange(0, i as int), pos as int),
        decreases events.len() - i,
    {
        let e = events[i];
        assert(events@.subrange(0, i + 1).drop_last() == events@.subrange(0, i as int));
        assert(events@.subrange(0, i + 1).last() == e);
        let valid = e.0 <= e.1 && e.1 <= len && text.is_char_boundary(e.0) && text.is_char_boundary(e.1);
        let is_better = match best {
            None => true,
            Some(b) => e.0 < b.0 || (e.0 == b.0 && e.1 > b.1),
        };
        if valid && e.0 >= pos && is_better {
            best = Some(e);
        }
        i = i + 1;
    }
    assert(events@.subrange(0, events.len() as int) == events@);
    best
}

/// The leftmost-first match from `pos`, computed over the events.
pub fn first_event(text: &str, events: &Vec<(usize, usize)>, pos: usize) -> (r: Option<(usize, usize)>)
    ensures
        r == first_match_from(text.spec_bytes(), events@, pos as int),
{
    let mut best: Option<(usize, usize)> = None;
    let mut i: usize = 0;
    let len = text.as_bytes().len();
    assert(events@.subrange(0, 0) =~= Seq::<(usize, usize)>::empty());
    while i < events.len()
        invariant
            i <= events.len(),
            len == text.spec_bytes().len(),
            best == first_match_from(text.spec_bytes(), events@.subrange(0, i as int), pos as int),
        decreases events.len() - i,
    {
        let e = events[i];
        assert(events@.subrange(0, i + 1).drop_last() == events@.subrange(0, i as int));
        assert(events@.subrange(0, i + 1).last() == e);
        let valid = e.0 <= e.1 && e.1 <= len && text.is_char_boundary(e.0) && text.is_char_boundary(e.1);
        let earlier = match best {
            None => true,
            Some(b) => e.0 < b.0,
        };
        if valid && e.0 >= pos && earlier {
            best = Some(e);
        }
        i = i + 1;
    }
    assert(events@.subrange(0, events.len() as int) == events@);
    best
}

/// The matches of `text`, given the match events of a scan of it.
pub fn select_matches(text: &str, events: &Vec<(usize, usize)>) -> (r: Vec<(usize, usize)>)
    ensures
        r@ == text_matches(text.spec_bytes(), events@),
{
    let ghost bytes = text.spec_bytes();
    let len = text.as_bytes().len();
    let mut out: Vec<(usize, usize)> = Vec::new();
    let mut pos: usize = 0;
    assert(out@ + matches_from(bytes, events@, 0) =~= matches_from(bytes, events@, 0));
    loop
        invariant
            len == bytes.len(),
            bytes == text.spec_bytes(),
            pos <= len,
            text_matches(bytes, events@) == out@ + matches_from(bytes, events@, pos as int),
        decreases len - pos,
    {
        proof {
            lemma_leftmost(bytes, events@, pos as int);
        }
        match leftmost_event(text, events, pos) {
            None => {
                assert(out@ + Seq::<(usize, usize)>::empty() =~= out@);
                return out;
            },
            Some(m) => {
                let ghost before = out@;
                let ghost rest = matches_from(bytes, events@, next_pos(m));
                out.push(m);
                if m.1 > m.0 {
                    assert(before + (seq![m] + rest) =~= out@ + rest);
                    pos = m.1;
                } else if m.0 < len {
                    assert(before + (seq![m] + rest) =~= out@ + rest);
                    pos = m.0 + 1;
                } else {
                    assert(next_pos(m) == len + 1);
                    assert(matches_from(bytes, events@, len + 1) == Seq::<(usize, usize)>::empty());
                    assert(before + (seq![m] + rest) =~= out@);
                    return out;
                }
            },
        }
    }
}

} // verus!
