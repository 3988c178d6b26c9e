use hyperscan::chimera::pattern::{Flags as ChFlags, Pattern as ChPattern};
use hyperscan::compile::literal::{Flags as LiteralFlags, Literal};
use hyperscan::compile::pattern::Flags;
use hyperscan::database::SerializedDatabase;
use hyperscan::legacy::common::TuneFamily;
use hyperscan::legacy::compile::{CompileFlags, Pattern as LegacyPattern};
use hyperscan::regex::re::Regex;
use hyperscan::runtime::pattern::{SearchStep, Searcher};

#[test]
fn flags_text_roundtrip() {
    let all = Flags::all();
    assert_eq!(Flags::parse(&all.to_string()).unwrap(), all);
    let f = Flags::caseless() | Flags::ucp();
    assert_eq!(Flags::parse(&f.to_string()).unwrap(), f);

    let c = ChFlags { caseless: true, utf8: true, ucp: true, ..ChFlags::empty() };
    assert_eq!(c.to_string(), "i8W");
    assert_eq!(ChFlags::parse(&c.to_string()).unwrap(), c);

    let l = LiteralFlags { caseless: true, singlematch: true, ..LiteralFlags::empty() };
    assert_eq!(LiteralFlags::parse(&l.to_string()).unwrap(), l);
    // The leftmost start of match has no character, so it is lost on the way.
    let lost = LiteralFlags { som_leftmost: true, ..LiteralFlags::empty() };
    assert_eq!(LiteralFlags::parse(&lost.to_string()).unwrap(), LiteralFlags::empty());

    let k = CompileFlags { allowempty: true, utf8: true, ..CompileFlags::empty() };
    assert_eq!(k.to_string(), "V8");
    assert_eq!(k.to_string().parse::<CompileFlags>().unwrap(), k);
}

#[test]
fn chimera_text_roundtrip() {
    let mut p = ChPattern::with_flags("a/b", ChFlags { multiline: true, ..ChFlags::empty() });
    p.id = Some(12);
    assert_eq!(p.to_string(), "12:/a/b/m");
    assert_eq!(p.to_string().parse::<ChPattern>().unwrap(), p);
    let q = ChPattern::new("plain");
    assert_eq!(q.to_string().parse::<ChPattern>().unwrap(), q);
}

#[test]
fn literal_text_roundtrip() {
    let mut l = Literal::with_flags("hello/world", LiteralFlags { multiline: true, ..LiteralFlags::empty() }).unwrap();
    assert_eq!(Literal::parse(&l.to_string()).unwrap(), l);
    l.id = Some(9);
    assert_eq!(l.to_string(), "9:/hello/world/m");
    assert_eq!(Literal::parse(&l.to_string()).unwrap(), l);
    // An escaped meta character is read back with its backslash.
    let m = Literal::new("a.b").unwrap();
    assert_eq!(Literal::parse(&m.to_string()).unwrap().expression, "a\\.b");
}

#[test]
fn legacy_text_roundtrip() {
    let p = LegacyPattern { expression: "x:y".to_string(), flags: CompileFlags { ucp: true, ..CompileFlags::empty() }, id: None, ext: None };
    let back: LegacyPattern = p.to_string().parse().unwrap();
    assert_eq!(back.expression, "x:y");
    assert_eq!(back.flags, p.flags);
    assert_eq!(back.id, None);
    let p = LegacyPattern { expression: "abc".to_string(), flags: CompileFlags::empty(), id: Some(4), ext: None };
    let back: LegacyPattern = p.to_string().parse().unwrap();
    assert_eq!(back.id, Some(4));
    assert_eq!(back.expression, "abc");
}

#[test]
fn searcher_matches_are_find_iter_matches() {
    let events = vec![(1, 2), (1, 3), (5, 6), (4, 7), (4, 8)];
    let text = "0123456789";
    let mut s = Searcher::new(text, &events);
    let mut from_searcher = vec![];
    loop {
        match s.next() {
            SearchStep::Match(a, b) => from_searcher.push(a..b),
            SearchStep::Reject(_, _) => {},
            SearchStep::Done => break,
        }
    }
    let re = Regex::new("x").unwrap();
    let mut it = re.find_iter(text, &events);
    let mut from_find_iter = vec![];
    while let Some(m) = it.next() {
        from_find_iter.push(m.range());
    }
    assert_eq!(from_searcher, from_find_iter);
    assert_eq!(from_find_iter, vec![1..3, 4..8]);
}

#[test]
fn serialized_bytes() {
    let s = SerializedDatabase::new(vec![1, 2, 3]);
    assert_eq!(s.len(), 3);
    assert_eq!(s.as_bytes(), &[1, 2, 3]);
    assert_eq!(TuneFamily::HS_TUNE_FAMILY_GLM.value(), 8);
}
