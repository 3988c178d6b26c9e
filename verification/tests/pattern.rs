use hyperscan::common::mode::Block;
use hyperscan::compile::builder::{BlockDatabase, Builder, Database, RequestKind};
use hyperscan::compile::expr::ExprExt;
use hyperscan::compile::pattern::{Flags, Pattern, Patterns};

fn check_single(db: &BlockDatabase, expression: &str, flags: u32) {
    let req = db.request();
    assert_eq!(req.kind, RequestKind::Single);
    assert_eq!(req.expressions, vec![expression.to_string()]);
    assert_eq!(req.flags, vec![flags]);
    assert!(req.ids.is_empty());
    assert_eq!(req.mode, 1);
    assert_eq!(db.id(), 1);
    assert_eq!(db.name(), "Block");
}

fn check_multi(db: &BlockDatabase, expressions: &[&str], flags: u32) {
    let req = db.request();
    assert_eq!(req.kind, RequestKind::Multi);
    let exprs: Vec<String> = expressions.iter().map(|e| e.to_string()).collect();
    assert_eq!(req.expressions, exprs);
    assert_eq!(req.flags, vec![flags; expressions.len()]);
    let ids: Vec<u32> = (0..expressions.len() as u32).collect();
    assert_eq!(req.ids, ids);
    assert_eq!(req.mode, 1);
}

fn pattern_with(expression: &str, flags: Flags, id: Option<usize>) -> Pattern {
    Pattern { expression: expression.to_string(), flags, id, ext: ExprExt::new(), som: None }
}

#[test]
fn pattern_test_compile_flags() {
    let flags = Flags::caseless() | Flags::dotall();

    assert_eq!(flags.to_string(), "is");

    assert_eq!("ism".parse::<Flags>().unwrap(), flags | Flags::multiline());
    assert!("test".parse::<Flags>().is_err());
}

#[test]
fn pattern_test_pattern() {
    let p: Pattern = "test".parse().unwrap();

    assert_eq!(p, Pattern::new("test").unwrap());
    assert_eq!(p.expression, "test");
    assert!(p.flags.is_empty());
    assert_eq!(p.id, None);

    let p: Pattern = "/test/".parse().unwrap();

    assert_eq!(p, Pattern::new("test").unwrap());
    assert_eq!(p.expression, "test");
    assert!(p.flags.is_empty());
    assert_eq!(p.id, None);

    let p: Pattern = "/test/i".parse().unwrap();

    assert_eq!(p, Pattern::with_flags("test", Flags::caseless()).unwrap());
    assert_eq!(p.expression, "test");
    assert_eq!(p.flags, Flags::caseless());
    assert_eq!(p.id, None);

    let p: Pattern = "3:/test/i".parse().unwrap();

    assert_eq!(p, pattern_with("test", Flags::caseless(), Some(3)));
    assert_eq!(p.expression, "test");
    assert_eq!(p.flags, Flags::caseless());
    assert_eq!(p.id, Some(3));

    let s = r#"1:/hatstand.*teakettle/s{min_offset=50,max_offset=100}"#;
    let p: Pattern = s.parse().unwrap();

    assert_eq!(p, {
        let mut p = pattern_with("hatstand.*teakettle", Flags::dotall(), Some(1));
        p.ext.set_min_offset(50);
        p.ext.set_max_offset(100);
        p
    });
    assert_eq!(p.expression, "hatstand.*teakettle");
    assert_eq!(p.flags, Flags::dotall());
    assert_eq!(p.id, Some(1));
    assert_eq!(p.ext.min_offset().unwrap(), 50);
    assert_eq!(p.ext.max_offset().unwrap(), 100);
    assert_eq!(p.to_string(), s);

    let p: Pattern = "test/i".parse().unwrap();

    assert_eq!(p, Pattern::new("test/i").unwrap());
    assert_eq!(p.expression, "test/i");
    assert!(p.flags.is_empty());
    assert_eq!(p.id, None);

    let p: Pattern = "/t/e/s/t/i".parse().unwrap();

    assert_eq!(p, Pattern::with_flags("t/e/s/t", Flags::caseless()).unwrap());
    assert_eq!(p.expression, "t/e/s/t");
    assert_eq!(p.flags, Flags::caseless());
    assert_eq!(p.id, None);
}

#[test]
fn pattern_test_pattern_build_with_flags() {
    let p = &Pattern::with_flags("test", Flags::caseless()).unwrap();

    assert_eq!(p.expression, "test");
    assert_eq!(p.flags, Flags::caseless());
    assert_eq!(p.id, None);

    let db: BlockDatabase = p.build().unwrap();

    check_single(&db, "test", 1);
}

#[test]
fn pattern_test_patterns_build() {
    let ps = Patterns(vec![
        Pattern::new("test").unwrap(),
        Pattern::new("foo").unwrap(),
        Pattern::new("bar").unwrap(),
    ]);
    let db: BlockDatabase = ps.build().unwrap();

    check_multi(&db, &["test", "foo", "bar"], 0);
}

#[test]
fn pattern_test_patterns_build_with_flags() {
    let flags = Flags::caseless() | Flags::dotall();
    let ps = Patterns(vec![
        Pattern::with_flags("test", flags).unwrap(),
        Pattern::with_flags("foo", flags).unwrap(),
        Pattern::with_flags("bar", flags).unwrap(),
    ]);
    let db: BlockDatabase = ps.build().unwrap();

    check_multi(&db, &["test", "foo", "bar"], 3);
}

#[test]
fn pattern_test_pattern_build() {
    let p = &Pattern::new("test").unwrap();

    assert_eq!(p.expression, "test");
    assert!(p.flags.is_empty());
    assert_eq!(p.id, None);

    let info = p.info_request().unwrap();
    assert_eq!(info.expression, "test");
    assert_eq!(info.flags, 0);
    assert!(info.ext.is_empty());

    let db: Database<Block> = p.build().unwrap();

    check_single(&db, "test", 0);
}

#[test]
fn expr_ext_from_str() {
    let e: ExprExt = "{min_offset=5,max_offset=9}".parse().unwrap();
    assert_eq!(e.min_offset, Some(5));
    assert_eq!(e.max_offset, Some(9));
    assert_eq!(e.min_length, None);
    assert!("{bogus=1}".parse::<ExprExt>().is_err());
}
