use hyperscan::chimera::compile::{compile, AsCompileResult, Builder, CompileError, MatchLimit, Mode, RequestKind};
use hyperscan::chimera::error::Error as ChError;
use hyperscan::chimera::pattern::{Flags, Pattern, Patterns};
use hyperscan::chimera::runtime::{Capture, Error as EventError, Matching};
use hyperscan::error::{Error, NulError};

#[test]
fn chimera_pattern_syntax() {
    let p: Pattern = "3:/test/is".parse().unwrap();
    assert_eq!(p.expression, "test");
    assert_eq!(p.flags, Flags { caseless: true, dotall: true, ..Flags::empty() });
    assert_eq!(p.id, Some(3));
    assert_eq!(p.to_string(), "3:/test/is");
    let p = Pattern::new("plain");
    assert_eq!(p.to_string(), "plain");
    assert_eq!("/x/q".parse::<Pattern>().unwrap_err(), Error::InvalidFlag('q'));
    let p = Pattern::new("x").caseless().dot_all().multi_line().single_match().utf8().ucp();
    assert_eq!(p.flags.bits(), 1 | 2 | 4 | 8 | 32 | 64);
    assert_eq!(p.flags.to_string(), "imsH8W");
}

#[test]
fn chimera_patterns_and_requests() {
    let ps: Patterns = "/foo/i\n# skip\n\n7:/bar/".parse().unwrap();
    assert_eq!(ps.0.len(), 2);
    let db = ps.build().unwrap();
    assert_eq!(db.request().kind, RequestKind::Multi);
    assert_eq!(db.request().ids, vec![0, 7]);
    assert_eq!(db.request().flags, vec![1, 0]);
    assert_eq!(db.request().mode, 0);

    let db = Pattern::new("x").with_groups().unwrap();
    assert_eq!(db.request().mode, 1 << 20);
    assert_eq!(db.request().kind, RequestKind::Single);

    let limit = MatchLimit { max_matches: 10, recursion_depth: 5 };
    let db = Pattern::new("x").for_platform(Mode::Groups, Some(limit), None).unwrap();
    assert_eq!(db.request().kind, RequestKind::ExtMulti);
    assert_eq!(db.request().ids, vec![0]);
    assert_eq!(db.request().match_limit, Some(limit));

    let db = compile("/foo(bar)?/i").unwrap();
    assert_eq!(db.request().expressions, vec!["foo(bar)?".to_string()]);
    assert_eq!(
        Pattern::new("a\0").build().err(),
        Some(Error::NulByte(NulError { position: 1 }))
    );
    assert_eq!(Mode::default(), Mode::NoGroups);
}

#[test]
fn chimera_compile_results() {
    let e = CompileError::new("bad".to_string(), 0);
    assert_eq!(0i32.ok_or(e), Ok(()));
    let e = CompileError::new("bad".to_string(), 2);
    match (-4i32).ok_or(e) {
        Err(Error::Chimera(ChError::CompileError(c))) => {
            assert_eq!(c.message(), "bad");
            assert_eq!(c.expression(), Some(2));
        },
        other => panic!("unexpected {:?}", other),
    }
    let e = CompileError::new("bad".to_string(), -1);
    assert_eq!((-32i32).ok_or(e), Err(Error::Chimera(ChError::FailInternal)));
}

#[test]
fn chimera_runtime_values() {
    let c = Capture { flags: 1, from: 5, to: 9 };
    assert!(c.is_active());
    assert_eq!(c.range(), 5..9);
    let c = Capture { flags: 0, from: 0, to: 0 };
    assert!(!c.is_active());
    assert_eq!(Matching::Skip.code(), 2);
    assert_eq!(Matching::default(), Matching::Continue);
    assert_eq!(EventError::from_value(1), Some(EventError::MatchLimit));
    assert_eq!(EventError::from_value(2), Some(EventError::RecursionLimit));
    assert_eq!(EventError::from_value(7), None);
}
