use hyperscan::compile::expr::{Error as ExprError, ExprExt, ExprInfoRef};
use hyperscan::compile::literal::{Flags as LiteralFlags, Literal};
use hyperscan::compile::pattern::{Flags, Pattern, Patterns, SomHorizon};
use hyperscan::error::{Error, ParseIntError};
use hyperscan::text::IntErrorKind;

#[test]
fn pattern_text_roundtrip() {
    let mut p = Pattern::with_flags("a:b/c", Flags::caseless() | Flags::utf8()).unwrap();
    p.id = Some(42);
    p.ext.set_edit_distance(3);
    let text = p.to_string();
    assert_eq!(text, "42:/a:b/c/i8{edit_distance=3}");
    let back: Pattern = text.parse().unwrap();
    assert_eq!(back, p);

    let p = Pattern::new("plain").unwrap();
    assert_eq!(p.to_string(), "plain");
    assert_eq!(p.to_string().parse::<Pattern>().unwrap(), p);

    let p = Pattern::with_flags("x", Flags::all()).unwrap();
    assert_eq!(p.to_string(), "/x/imsHV8WPLCQ");
    assert_eq!(p.to_string().parse::<Pattern>().unwrap(), p);
}

#[test]
fn pattern_errors() {
    assert_eq!("/test/z".parse::<Pattern>().unwrap_err(), Error::InvalidFlag('z'));
    assert_eq!(
        "x:/test/".parse::<Pattern>().unwrap_err(),
        Error::ParseInt(ParseIntError { kind: IntErrorKind::InvalidDigit })
    );
    assert_eq!(
        ":/test/".parse::<Pattern>().unwrap_err(),
        Error::ParseInt(ParseIntError { kind: IntErrorKind::Empty })
    );
    assert_eq!(
        "99999999999999999999:/test/".parse::<Pattern>().unwrap_err(),
        Error::ParseInt(ParseIntError { kind: IntErrorKind::PosOverflow })
    );
    assert_eq!(
        "/test/{min_offset}".parse::<Pattern>().unwrap_err(),
        Error::Expr(ExprError::MissingValue)
    );
    assert_eq!(
        "/test/{colour=3}".parse::<Pattern>().unwrap_err(),
        Error::Expr(ExprError::UnexpectedParameter("colour".to_string()))
    );
    assert_eq!(
        "/test/{edit_distance=4294967296}".parse::<Pattern>().unwrap_err(),
        Error::ParseInt(ParseIntError { kind: IntErrorKind::PosOverflow })
    );
}

#[test]
fn pattern_builders_add_flags() {
    let p = Pattern::new("x").unwrap().caseless().dot_all().multi_line().single_match();
    assert_eq!(p.flags.bits(), 1 | 2 | 4 | 8);
    let p = Pattern::new("x").unwrap().allow_empty().utf8().ucp().prefilter().left_most().combination().quiet();
    assert_eq!(p.flags.bits(), 16 | 32 | 64 | 128 | 256 | 512 | 1024);
}

#[test]
fn pattern_som() {
    let p = Pattern::new("x").unwrap();
    assert_eq!(p.som(), None);
    let p = p.left_most();
    assert_eq!(p.som(), Some(SomHorizon::Medium));
    let mut q = p.clone();
    q.som = Some(SomHorizon::Large);
    assert_eq!(q.som(), Some(SomHorizon::Large));

    let ps = Patterns(vec![Pattern::new("a").unwrap(), Pattern::new("b").unwrap()]);
    assert_eq!(ps.som(), None);
    let mut small = Pattern::new("c").unwrap();
    small.som = Some(SomHorizon::Small);
    let ps = Patterns(vec![Pattern::new("a").unwrap().left_most(), small, q]);
    assert_eq!(ps.som(), Some(SomHorizon::Small));
    let ps = Patterns(vec![Pattern::new("a").unwrap().left_most()]);
    assert_eq!(ps.som(), Some(SomHorizon::Medium));
}

#[test]
fn patterns_lines() {
    let ps: Patterns = "# comment\n  /foo/i  \n\n2:/bar/\r\nbaz".parse().unwrap();
    assert_eq!(ps.0.len(), 3);
    assert_eq!(ps.0[0].expression, "foo");
    assert_eq!(ps.0[0].flags, Flags::caseless());
    assert_eq!(ps.0[1].id, Some(2));
    assert_eq!(ps.0[2].expression, "baz");
    assert!("ok\n/bad/q\n/worse/z".parse::<Patterns>().unwrap_err() == Error::InvalidFlag('q'));
}

#[test]
fn ext_text_and_parse() {
    let mut e = ExprExt::new();
    assert!(e.is_empty());
    e.set_min_offset(50).set_max_offset(100);
    assert_eq!(e.to_string(), "{min_offset=50,max_offset=100}");
    assert_eq!(e.flags(), 1 | 2);
    assert_eq!(ExprExt::parse("{min_offset=50,max_offset=100}").unwrap(), e);
    assert_eq!(ExprExt::parse("min_length=3").unwrap().min_length(), Some(3));
    assert_eq!(ExprExt::parse("=3"), Err(Error::Expr(ExprError::UnexpectedParameter(String::new()))));
    assert_eq!(ExprExt::parse("min_offset"), Err(Error::Expr(ExprError::MissingValue)));
    assert_eq!(ExprExt::parse("hamming_distance=7").unwrap().hamming_distance(), Some(7));
}

#[test]
fn expr_info_fields() {
    let info = ExprInfoRef { min_width: 4, max_width: 4, unordered_matches: 0, matches_at_eod: 1, matches_only_at_eod: 0 };
    assert_eq!(info.min_width(), 4);
    assert_eq!(info.max_width(), 4);
    assert!(!info.unordered_matches());
    assert!(info.matches_at_eod());
    assert!(!info.matches_only_at_eod());
}

#[test]
fn literal_test_compile_flags() {
    let flags = LiteralFlags { caseless: true, ..LiteralFlags::empty() };

    assert_eq!(flags.to_string(), "i");

    assert_eq!(
        LiteralFlags::parse("im").unwrap(),
        LiteralFlags { caseless: true, multiline: true, ..LiteralFlags::empty() }
    );
    assert!(LiteralFlags::parse("test").is_err());
}

#[test]
fn test_literal() {
    let caseless = LiteralFlags { caseless: true, ..LiteralFlags::empty() };

    let p = Literal::parse("test").unwrap();
    assert_eq!(p, Literal::new("test").unwrap());
    assert_eq!(p.expression, "test");
    assert!(p.flags.is_empty());
    assert_eq!(p.id, None);

    let p = Literal::parse("/test/").unwrap();
    assert_eq!(p, Literal::new("test").unwrap());

    let p = Literal::parse("/test/i").unwrap();
    assert_eq!(p, Literal::with_flags("test", caseless).unwrap());

    let p = Literal::parse("3:/test/i").unwrap();
    assert_eq!(p.expression, "test");
    assert_eq!(p.flags, caseless);
    assert_eq!(p.id, Some(3));

    let p = Literal::parse("test/i").unwrap();
    assert_eq!(p.expression, "test/i");
    assert!(p.flags.is_empty());

    let p = Literal::parse("/t/e/s/t/i").unwrap();
    assert_eq!(p.expression, "t/e/s/t");
    assert_eq!(p.flags, caseless);
}

#[test]
fn literal_text_escapes_meta_characters() {
    let mut l = Literal::with_flags("a+b(c)", LiteralFlags { singlematch: true, ..LiteralFlags::empty() }).unwrap();
    assert_eq!(l.to_string(), "/a\\+b\\(c\\)/H");
    l.id = Some(5);
    assert_eq!(l.to_string(), "5:/a\\+b\\(c\\)/H");
    let plain = Literal::new("x.y").unwrap();
    assert_eq!(plain.to_string(), "x\\.y");
}

#[test]
fn literal_errors() {
    assert_eq!(Literal::parse("/test/s").unwrap_err(), Error::InvalidFlag('s'));
    assert_eq!(
        Literal::parse("x:test").unwrap_err(),
        Error::ParseInt(ParseIntError { kind: IntErrorKind::InvalidDigit })
    );
}
