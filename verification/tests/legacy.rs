use hyperscan::legacy::common::{Block, BlockDatabase, RawDatabase, Streaming};
use hyperscan::compile::platform::{CpuFeatures, Platform, Tune};
use hyperscan::legacy::compile::{CompileFlags, DatabaseBuilder, ExpressionExt, LegacyKind, Pattern};
use hyperscan::legacy::errors::HsError;
use hyperscan::legacy::regex::Regex;

fn caseless() -> CompileFlags {
    CompileFlags { caseless: true, ..CompileFlags::empty() }
}

fn dotall() -> CompileFlags {
    CompileFlags { dotall: true, ..CompileFlags::empty() }
}

fn legacy_pattern(expression: &str, flags: CompileFlags, id: Option<usize>) -> Pattern {
    Pattern { expression: expression.to_string(), flags, id, ext: None }
}

// The pattern list that numbers its patterns from 1.
fn legacy_patterns(expressions: &[&str], flags: CompileFlags) -> Vec<Pattern> {
    let mut v = Vec::new();
    for e in expressions {
        let id = v.len() + 1;
        v.push(legacy_pattern(e, flags, Some(id)));
    }
    v
}

#[test]
fn compile_test_pattern() {
    let p: Pattern = "test".parse().unwrap();

    assert_eq!(p.expression, "test");
    assert_eq!(p.flags, CompileFlags::empty());
    assert_eq!(p.id, None);

    let p: Pattern = "/test/".parse().unwrap();

    assert_eq!(p.expression, "test");
    assert_eq!(p.flags, CompileFlags::empty());
    assert_eq!(p.id, None);

    let p: Pattern = "/test/i".parse().unwrap();

    assert_eq!(p.expression, "test");
    assert_eq!(p.flags, caseless());
    assert_eq!(p.id, None);

    let p: Pattern = "3:/test/i".parse().unwrap();

    assert_eq!(p.expression, "test");
    assert_eq!(p.flags, caseless());
    assert_eq!(p.id, Some(3));

    let p: Pattern = "test/i".parse().unwrap();

    assert_eq!(p.expression, "test/i");
    assert_eq!(p.flags, CompileFlags::empty());
    assert_eq!(p.id, None);

    let p: Pattern = "/t/e/s/t/i".parse().unwrap();

    assert_eq!(p.expression, "t/e/s/t");
    assert_eq!(p.flags, caseless());
    assert_eq!(p.id, None);
}

#[test]
fn compile_test_pattern_build_with_flags() {
    let p = &legacy_pattern("test", caseless(), None);

    assert_eq!(p.expression, "test");
    assert_eq!(p.flags, caseless());
    assert_eq!(p.id, None);

    let db: BlockDatabase = p.build().unwrap();

    let req = db.request();
    assert_eq!(req.kind, LegacyKind::Single);
    assert_eq!(req.expressions, vec!["test".to_string()]);
    assert_eq!(req.flags, vec![1]);
    assert_eq!(req.mode, 1);
}

#[test]
fn compile_test_patterns_build() {
    let db: BlockDatabase = legacy_patterns(&["test", "foo", "bar"], CompileFlags::default()).build().unwrap();

    let req = db.request();
    assert_eq!(req.kind, LegacyKind::Multi);
    assert_eq!(req.expressions, vec!["test".to_string(), "foo".to_string(), "bar".to_string()]);
    assert_eq!(req.flags, vec![0, 0, 0]);
    assert_eq!(req.ids, vec![1, 2, 3]);
    assert!(req.exts.is_empty());
}

#[test]
fn compile_test_patterns_build_with_flags() {
    let db: BlockDatabase = legacy_patterns(&["test", "foo", "bar"], caseless() | dotall()).build().unwrap();

    let req = db.request();
    assert_eq!(req.kind, LegacyKind::Multi);
    assert_eq!(req.flags, vec![3, 3, 3]);
    assert_eq!(req.ids, vec![1, 2, 3]);
}

#[test]
fn compile_test_compile_flags() {
    let flags = caseless() | dotall();

    assert!(flags.contains(caseless()));
    assert!(!flags.contains(CompileFlags { multiline: true, ..CompileFlags::empty() }));
    assert!(flags.contains(dotall()));
    assert_eq!(flags.to_string(), "is");

    assert_eq!(flags, caseless() | dotall());

    assert_eq!(
        "ism".parse::<CompileFlags>().unwrap(),
        flags | CompileFlags { multiline: true, ..CompileFlags::empty() }
    );
    assert!("test".parse::<CompileFlags>().is_err());
}

#[test]
fn legacy_pattern_text_is_delimited_and_escaped() {
    let p = legacy_pattern("a.b", caseless(), Some(7));
    assert_eq!(p.to_string(), "7:/a\\.b/i");
    let p = legacy_pattern("test", CompileFlags::empty(), None);
    assert_eq!(p.to_string(), "/test/");
}

#[test]
fn legacy_pattern_with_unreadable_id_keeps_the_whole_text() {
    let p: Pattern = "x:/test/i".parse().unwrap();
    assert_eq!(p.id, None);
    assert_eq!(p.expression, "x:/test/i");
    assert_eq!(p.flags, CompileFlags::empty());
}

#[test]
fn legacy_streaming_mode_with_leftmost() {
    let flags = CompileFlags { som_leftmost: true, ..CompileFlags::empty() };
    let db = RawDatabase::<Streaming>::compile("test", flags, None).unwrap();
    assert_eq!(db.request().mode, 2 | (1 << 26));
    let db = RawDatabase::<Block>::compile("test", flags, None).unwrap();
    assert_eq!(db.request().mode, 1);
}

#[test]
fn legacy_extension_block() {
    let ext = ExpressionExt { min_offset: Some(5), max_offset: None, min_length: Some(2), edit_distance: None };
    let raw = ext.to_raw();
    assert_eq!(raw.flags, 1 | 4);
    assert_eq!(raw.min_offset, 5);
    assert_eq!(raw.max_offset, 0);
    assert_eq!(raw.min_length, 2);

    let mut p = legacy_pattern("test", CompileFlags::empty(), None);
    p.ext = Some(ext);
    let db: BlockDatabase = vec![p].build().unwrap();
    assert_eq!(db.request().kind, LegacyKind::ExtMulti);
    assert_eq!(db.request().ids, vec![0]);
    assert_eq!(db.request().exts, vec![Some(raw)]);
}

#[test]
fn legacy_nul_byte_refused() {
    assert!(RawDatabase::<Block>::compile("te\0st", CompileFlags::empty(), None).is_err());
}

#[test]
fn legacy_error_codes() {
    assert_eq!(HsError::from_code(-1), HsError::Invalid);
    assert_eq!(HsError::from_code(-11), HsError::UnsupportedArch);
    assert_eq!(HsError::from_code(-99), HsError::Failed(-99));
}

#[test]
fn legacy_regex_find() {
    let re = Regex::new("/a+/").unwrap();
    let text = "baaab";
    // Of the matches that start first, the one reported first.
    let m = re.find(text, &vec![(1, 2), (1, 3), (1, 4)]).unwrap();
    assert_eq!(m.start(), 1);
    assert_eq!(m.end(), 2);
    assert_eq!(m.as_str(), "a");
    assert!(re.is_match(text, &vec![(1, 2)]));
    assert!(!re.is_match(text, &vec![]));
    assert!(re.find(text, &vec![]).is_none());
    let mut it = re.find_iter(text, &vec![(1, 2), (1, 3), (1, 4)]);
    let m = it.next().unwrap();
    assert_eq!((m.start(), m.end()), (1, 4));
    assert!(it.next().is_none());
}

#[test]
fn legacy_regex_find_iter() {
    let re = Regex::new(r"/\b\w{13}\b/").unwrap();
    let text = "Retroactively relinquishing remunerations is reprehensible.";
    let events = vec![(0, 13), (14, 27), (28, 41), (45, 58)];
    let mut it = re.find_iter(text, &events);
    let mut found = vec![];
    while let Some(m) = it.next() {
        found.push((m.start(), m.end()));
    }
    assert_eq!(found, vec![(0, 13), (14, 27), (28, 41), (45, 58)]);
}

#[test]
fn legacy_regex_find_is_leftmost() {
    let re = Regex::new("/abcd|c/").unwrap();
    let m = re.find("abcd", &vec![(2, 3), (0, 4)]).unwrap();
    assert_eq!((m.start(), m.end()), (0, 4));
    assert_eq!(m.as_str(), "abcd");
    let re = Regex::new("/a|ab/").unwrap();
    let m = re.find("ab", &vec![(0, 1), (0, 2)]).unwrap();
    assert_eq!((m.start(), m.end()), (0, 1));
    // An event that ends inside a character is no match.
    assert!(re.find("é", &vec![(0, 1)]).is_none());
}

#[test]
fn compile_test_database_compile() {
    let platform = Platform::new(Tune::Haswell, CpuFeatures { avx2: true, avx512: false });
    let db = BlockDatabase::compile("test", CompileFlags::empty(), Some(&platform)).unwrap();
    let req = db.request();
    assert_eq!(req.kind, LegacyKind::Single);
    assert_eq!(req.expressions, vec!["test".to_string()]);
    assert_eq!(req.platform, Some(platform));
}

#[test]
fn compile_test_pattern_build() {
    let p = &legacy_pattern("test", CompileFlags::empty(), None);

    assert_eq!(p.expression, "test");
    assert_eq!(p.flags, CompileFlags::empty());
    assert_eq!(p.id, None);

    let info = p.info_request().unwrap();
    assert_eq!(info.expression, "test");
    assert_eq!(info.flags, 0);
    assert!(info.ext.is_none());

    let db: BlockDatabase = p.build().unwrap();
    let req = db.request();
    assert_eq!(req.kind, LegacyKind::Single);
    assert_eq!(req.expressions, vec!["test".to_string()]);
    assert_eq!(req.flags, vec![0]);
}

#[test]
fn legacy_patterns_from_a_slice() {
    let v = legacy_patterns(&["a", "b"], CompileFlags::empty());
    let slice: &[Pattern] = &v;
    let db: BlockDatabase = slice.build().unwrap();
    assert_eq!(db.request().kind, LegacyKind::Multi);
    assert_eq!(db.request().ids, vec![1, 2]);
    let bad = legacy_pattern("a\0b", CompileFlags::empty(), None);
    assert!(bad.info_request().is_err());
}
