use hyperscan::common::error::Error as HsError;
use hyperscan::compile::error::{AsCompileResult, CompileError};
use hyperscan::error::{AsResult, Error};

#[test]
fn error_codes() {
    assert_eq!(HsError::from(-1), HsError::Invalid);
    assert_eq!(HsError::from(-2), HsError::NoMem);
    assert_eq!(HsError::from(-12), HsError::InsufficientSpace);
    assert_eq!(HsError::from(-13), HsError::UnknownError);
    assert_eq!(HsError::from(-4), HsError::Code(-4));
    assert_eq!(HsError::from(7), HsError::Code(7));
}

#[test]
fn engine_results() {
    assert_eq!(0i32.ok(), Ok(()));
    assert_eq!((-3i32).ok(), Err(Error::Hyperscan(HsError::ScanTerminated)));
}

#[test]
fn compile_results() {
    assert_eq!(0i32.ok_or(None), Ok(()));
    let e = CompileError::new("Unmatched parentheses".to_string(), 0);
    match (-4i32).ok_or(Some(e)) {
        Err(Error::Hyperscan(HsError::CompileError(c))) => {
            assert_eq!(c.message(), "Unmatched parentheses");
            assert_eq!(c.expression(), Some(0));
        },
        other => panic!("unexpected {:?}", other),
    }
    assert_eq!((-4i32).ok_or(None), Err(Error::Hyperscan(HsError::Code(-4))));
    assert_eq!((-1i32).ok_or(None), Err(Error::Hyperscan(HsError::Invalid)));
    let e = CompileError::new("x".to_string(), -1);
    assert_eq!(e.expression(), None);
}

#[test]
fn version_number_of_version_text() {
    let v = hyperscan::common::version::version_of("5.4.0 2021-01-26").unwrap();
    assert_eq!((v.major, v.minor, v.patch), (5, 4, 0));
    assert_eq!((v.pre.as_str(), v.build.as_str()), ("", ""));
    let v = hyperscan::common::version::version_of("1.2.3-rc.1+b7 2021").unwrap();
    assert_eq!((v.major, v.minor, v.patch), (1, 2, 3));
    assert_eq!((v.pre.as_str(), v.build.as_str()), ("rc.1", "b7"));
    assert!(hyperscan::common::version::version_of("five 2021").is_none());
}
