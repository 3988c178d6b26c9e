use hyperscan::compile::pattern::{Flags, Pattern};
use hyperscan::runtime::pattern::{SearchStep, Searcher};
use hyperscan::runtime::scan::Matching;

// What the engine reports for `a+` with leftmost start of match over
// "baaaab": every end of a match that starts at 1.
fn a_plus_events() -> Vec<(usize, usize)> {
    vec![(1, 2), (1, 3), (1, 4), (1, 5)]
}

fn find(haystack: &str, events: &Vec<(usize, usize)>) -> Option<usize> {
    let mut s = Searcher::new(haystack, events);
    s.next_match().map(|(start, _)| start)
}

fn matches<'a>(haystack: &'a str, events: &Vec<(usize, usize)>) -> Vec<&'a str> {
    let mut s = Searcher::new(haystack, events);
    let mut out = vec![];
    while let Some((a, b)) = s.next_match() {
        out.push(&haystack[a..b]);
    }
    out
}

#[test]
fn test_searcher() {
    let p = Searcher::searching(Pattern::new("a+").unwrap());
    assert!(p.flags.contains(Flags::som_leftmost()));

    let events = a_plus_events();
    assert_eq!(find("baaaab", &events), Some(1));
    assert_eq!(matches("baaaab", &events), vec!["aaaa"]);
}

#[test]
fn searcher_steps() {
    let events = a_plus_events();
    let mut s = Searcher::new("baaaab", &events);
    assert_eq!(s.haystack(), "baaaab");
    assert_eq!(s.next(), SearchStep::Reject(0, 1));
    assert_eq!(s.next(), SearchStep::Match(1, 5));
    assert_eq!(s.next(), SearchStep::Reject(5, 6));
    assert_eq!(s.next(), SearchStep::Done);
    assert_eq!(s.next(), SearchStep::Done);
}

#[test]
fn searcher_gaps_between_matches() {
    let events = vec![(0, 1), (2, 3)];
    let mut s = Searcher::new("abab", &events);
    assert_eq!(s.next(), SearchStep::Reject(0, 0));
    assert_eq!(s.next(), SearchStep::Match(0, 1));
    assert_eq!(s.next(), SearchStep::Reject(1, 2));
    assert_eq!(s.next(), SearchStep::Match(2, 3));
    assert_eq!(s.next(), SearchStep::Reject(3, 4));
    assert_eq!(s.next(), SearchStep::Done);
}

#[test]
fn searcher_without_matches() {
    let mut s = Searcher::new("xyz", &vec![]);
    assert_eq!(s.next(), SearchStep::Reject(0, 3));
    assert_eq!(s.next(), SearchStep::Done);
    assert_eq!(s.next_match(), None);
}

#[test]
fn searcher_drops_overlapping_matches() {
    // `aa` over "aaa": the match at 1 overlaps the one at 0.
    let mut s = Searcher::new("aaa", &vec![(0, 2), (1, 3)]);
    assert_eq!(s.next(), SearchStep::Reject(0, 0));
    assert_eq!(s.next(), SearchStep::Match(0, 2));
    assert_eq!(s.next(), SearchStep::Reject(2, 3));
    assert_eq!(s.next(), SearchStep::Done);
}

#[test]
fn searcher_steps_cover_the_haystack() {
    let haystack = "0123456789";
    let events = vec![(1, 2), (1, 3), (5, 6), (4, 7), (4, 8)];
    let mut s = Searcher::new(haystack, &events);
    let mut pos = 0;
    loop {
        match s.next() {
            SearchStep::Match(a, b) | SearchStep::Reject(a, b) => {
                assert_eq!(a, pos);
                assert!(a <= b);
                pos = b;
            },
            SearchStep::Done => break,
        }
    }
    assert_eq!(pos, haystack.len());
}

#[test]
fn searcher_keeps_char_boundaries() {
    // "é" takes two bytes: an event that ends inside it is no match.
    let mut s = Searcher::new("éa", &vec![(0, 1), (2, 3)]);
    assert_eq!(s.next(), SearchStep::Reject(0, 2));
    assert_eq!(s.next(), SearchStep::Match(2, 3));
    assert_eq!(s.next(), SearchStep::Done);
}

#[test]
fn matching_codes() {
    assert_eq!(Matching::Continue.code(), 0);
    assert_eq!(Matching::Terminate.code(), 1);
    assert_eq!(Matching::default(), Matching::Continue);
}
