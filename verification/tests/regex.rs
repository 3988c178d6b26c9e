use hyperscan::regex::builder::RegexBuilder;
use hyperscan::regex::re::Regex;

// "a b \t  c\td    e": the runs of spaces and tabs, as reported with
// leftmost start of match (each end of a run that starts at its start).
fn blank_events() -> Vec<(usize, usize)> {
    vec![(1, 2), (3, 4), (3, 5), (3, 6), (3, 7), (8, 9), (10, 11), (10, 12), (10, 13), (10, 14)]
}

#[test]
fn regex_flags_and_request() {
    let re = Regex::new("a+").unwrap();
    let req = re.0.request();
    assert_eq!(req.expressions, vec!["a+".to_string()]);
    assert_eq!(req.flags, vec![256 | 32]);
    assert_eq!(req.mode, 1);
}

#[test]
fn regex_find() {
    let re = Regex::new(r"\b\w{13}\b").unwrap();
    let text = "I categorically deny having triskaidekaphobia.";
    let mat = re.find(text, &vec![(2, 15)]).unwrap();
    assert_eq!(mat.start(), 2);
    assert_eq!(mat.end(), 15);
    assert_eq!(mat.range(), 2..15);
    assert_eq!(mat.as_str(), "categorically");
    assert_eq!(std::ops::Range::<usize>::from(mat), 2..15);
    assert_eq!(<&str>::from(mat), "categorically");
    assert!(re.is_match(text, &vec![(2, 15)]));
    assert!(!re.is_match(text, &vec![]));
    assert!(re.find(text, &vec![]).is_none());
}

#[test]
fn test_find_iter() {
    let re = Regex::new(r"\b\w{13}\b").unwrap();
    let text = "Retroactively relinquishing remunerations is reprehensible.";
    let events = vec![(0, 13), (14, 27), (28, 41), (45, 58)];
    let mut it = re.find_iter(text, &events);
    let mut ranges = vec![];
    while let Some(m) = it.next() {
        assert_eq!(m.as_str().len(), 13);
        ranges.push(m.range());
    }
    assert_eq!(ranges, vec![0..13, 14..27, 28..41, 45..58]);
    assert_eq!(it.text(), text);
}

#[test]
fn find_iter_merges_growing_matches() {
    let re = Regex::new("a+").unwrap();
    let mut it = re.find_iter("baaab", &vec![(1, 2), (1, 3), (1, 4)]);
    let m = it.next().unwrap();
    assert_eq!(m.range(), 1..4);
    assert_eq!(m.as_str(), "aaa");
    assert!(it.next().is_none());
    let mut back = re.find_iter("abab", &vec![(0, 1), (2, 3)]);
    assert_eq!(back.next_back().unwrap().range(), 2..3);
    assert_eq!(back.next().unwrap().range(), 0..1);
    assert!(back.next().is_none());
}

#[test]
fn find_iter_skips_overlapping_matches() {
    let re = Regex::new("aa").unwrap();
    let mut it = re.find_iter("aaaa", &vec![(0, 2), (1, 3), (2, 4)]);
    let mut ranges = vec![];
    while let Some(m) = it.next() {
        ranges.push(m.range());
    }
    assert_eq!(ranges, vec![0..2, 2..4]);
}

#[test]
fn find_is_leftmost_first() {
    let re = Regex::new("abcd|c").unwrap();
    let m = re.find("abcd", &vec![(2, 3), (0, 4)]).unwrap();
    assert_eq!((m.start(), m.end()), (0, 4));
    let re = Regex::new("a|b").unwrap();
    let m = re.find("ab", &vec![(1, 2), (0, 1)]).unwrap();
    assert_eq!((m.start(), m.end()), (0, 1));
    // At the leftmost start, the match reported first.
    let re = Regex::new("a|ab").unwrap();
    let m = re.find("ab", &vec![(0, 1), (0, 2)]).unwrap();
    assert_eq!((m.start(), m.end()), (0, 1));
}

#[test]
fn is_match_agrees_with_find_and_find_iter() {
    let re = Regex::new("b").unwrap();
    for (text, events) in [("abc", vec![(1, 2)]), ("xyz", vec![]), ("é", vec![(0, 1)])] {
        let found = re.find(text, &events).is_some();
        let first = re.find_iter(text, &events).next().is_some();
        assert_eq!(re.is_match(text, &events), found);
        assert_eq!(found, first);
    }
}

#[test]
fn split_yields_one_more_than_matches() {
    let re = Regex::new("aa").unwrap();
    let mut split = re.split("aaaa", &vec![(0, 2), (1, 3), (2, 4)]);
    let mut fields = vec![];
    while let Some(f) = split.next() {
        fields.push(f);
    }
    assert_eq!(fields, vec!["", "", ""]);
    let mut split = re.split("xaay", &vec![(1, 3)]);
    assert_eq!(split.next(), Some("x"));
    assert_eq!(split.next(), Some("y"));
    assert_eq!(split.next(), None);
    assert_eq!(split.next(), None);
    let mut none = re.split("xyz", &vec![]);
    assert_eq!(none.next(), Some("xyz"));
    assert_eq!(none.next(), None);
}

#[test]
fn regex_split() {
    let re = Regex::new(r"[ \t]+").unwrap();
    let text = "a b \t  c\td    e";
    let mut split = re.split(text, &blank_events());
    let mut fields = vec![];
    while let Some(f) = split.next() {
        fields.push(f);
    }
    assert_eq!(fields, vec!["a", "b", "c", "d", "e"]);
    assert!(split.next().is_none());
}

#[test]
fn regex_splitn() {
    let re = Regex::new(r"\W+").unwrap();
    let text = "Hey! How are you?";
    let events = vec![(3, 4), (3, 5), (8, 9), (12, 13), (16, 17)];
    let mut split = re.splitn(text, &events, 3);
    let mut fields = vec![];
    while let Some(f) = split.next() {
        fields.push(f);
    }
    assert_eq!(fields, vec!["Hey", "How", "are you?"]);
    let mut none = re.splitn(text, &events, 0);
    assert!(none.next().is_none());
}

#[test]
fn regex_builder_toggles() {
    let mut b = RegexBuilder::new("abc");
    b.case_insensitive(true).multi_line(true).dot_matches_new_line(true).unicode(true);
    let re = b.build().unwrap();
    assert_eq!(re.0.request().flags, vec![1 | 4 | 2 | 64 | 256 | 32]);
    b.case_insensitive(false).unicode(false);
    let re = b.build().unwrap();
    assert_eq!(re.0.request().flags, vec![4 | 2 | 256 | 32]);
}

#[test]
fn regex_builder_starts_with_unicode() {
    let re = RegexBuilder::new("abc").build().unwrap();
    assert_eq!(re.0.request().flags, vec![64 | 256 | 32]);
}
