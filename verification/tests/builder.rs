use hyperscan::common::mode::{Block, Mode, Streaming, Vectored};
use hyperscan::compile::builder::{compile, BlockDatabase, Builder, Database, RequestKind, StreamingDatabase};
use hyperscan::compile::literal::{Flags as LiteralFlags, Literal};
use hyperscan::compile::pattern::{Flags, Pattern, Patterns, SomHorizon};
use hyperscan::compile::platform::{CpuFeatures, Platform, Tune};
use hyperscan::error::{Error, NulError};

#[test]
fn builder_test_database_compile() {
    let platform = Platform::new(Tune::Haswell, CpuFeatures { avx2: true, avx512: false });
    let db: BlockDatabase = Database::compile("test", Flags::empty(), Some(&platform)).unwrap();
    let req = db.request();
    assert_eq!(req.expressions, vec!["test".to_string()]);
    assert_eq!(req.platform, Some(platform));
    assert_eq!(platform.tune.value(), 3);
    assert_eq!(platform.cpu_features.bits(), 4);
}

#[test]
fn compile_text() {
    let db: BlockDatabase = compile("/foo(bar)?/i").unwrap();
    let req = db.request();
    assert_eq!(req.kind, RequestKind::Single);
    assert_eq!(req.expressions, vec!["foo(bar)?".to_string()]);
    assert_eq!(req.flags, vec![1]);
    assert!(compile::<&str, Block>("/foo/z").is_err());
}

#[test]
fn nul_byte_position() {
    let p = Pattern::new("ab\0c").unwrap();
    let r: Result<BlockDatabase, Error> = p.build();
    assert_eq!(r.err(), Some(Error::NulByte(NulError { position: 2 })));
    let p = Pattern::new("é\0").unwrap();
    let r: Result<BlockDatabase, Error> = p.build();
    assert_eq!(r.err(), Some(Error::NulByte(NulError { position: 2 })));
    let ps = Patterns(vec![Pattern::new("ok").unwrap(), Pattern::new("\0").unwrap()]);
    let r: Result<BlockDatabase, Error> = ps.build();
    assert_eq!(r.err(), Some(Error::NulByte(NulError { position: 0 })));
}

#[test]
fn streaming_mode_carries_precision() {
    let p = Pattern::new("x").unwrap().left_most();
    let db: StreamingDatabase = p.build().unwrap();
    assert_eq!(db.request().mode, 2 | (1 << 25));
    let mut q = Pattern::new("x").unwrap().left_most();
    q.som = Some(SomHorizon::Large);
    let db: StreamingDatabase = q.build().unwrap();
    assert_eq!(db.request().mode, 2 | (1 << 24));
    let db: BlockDatabase = q.build().unwrap();
    assert_eq!(db.request().mode, 1);
    let db: Database<Vectored> = q.build().unwrap();
    assert_eq!(db.request().mode, 4);
}

#[test]
fn pattern_ids() {
    let mut a = Pattern::new("a").unwrap();
    a.id = Some(10);
    let ps = Patterns(vec![a, Pattern::new("b").unwrap()]);
    let db: BlockDatabase = ps.build().unwrap();
    assert_eq!(db.request().ids, vec![10, 1]);
}

#[test]
fn literal_requests() {
    let l = Literal::with_flags("a\0b", LiteralFlags { caseless: true, ..LiteralFlags::empty() }).unwrap();
    let db: BlockDatabase = l.build().unwrap();
    assert_eq!(db.request().kind, RequestKind::Literal);
    assert_eq!(db.request().expressions, vec!["a\0b".to_string()]);
    assert_eq!(db.request().flags, vec![1]);

    let ls = vec![Literal::new("x").unwrap(), Literal::new("y").unwrap()];
    let db: BlockDatabase = ls.build().unwrap();
    assert_eq!(db.request().kind, RequestKind::LiteralMulti);
    assert_eq!(db.request().ids, vec![0, 1]);

    let db: Database<Streaming> = Database::compile_literal("z", LiteralFlags { som_leftmost: true, ..LiteralFlags::empty() }, None).unwrap();
    assert_eq!(db.request().mode, 2 | (1 << 25));
    assert_eq!(db.request().flags, vec![256]);
}

#[test]
fn modes() {
    assert_eq!(Block::id(), 1);
    assert_eq!(Streaming::name(), "Streaming");
    assert!(Vectored::is_vectored());
    assert!(!Block::is_streaming());
    assert_eq!(Tune::default(), Tune::Generic);
    assert_eq!(CpuFeatures::default().bits(), 0);
}

fn literal_caseless() -> LiteralFlags {
    LiteralFlags { caseless: true, ..LiteralFlags::empty() }
}

#[test]
fn literal_test_pattern_build() {
    let p = &Literal::new("test").unwrap();

    assert_eq!(p.expression, "test");
    assert!(p.flags.is_empty());
    assert_eq!(p.id, None);

    let db: BlockDatabase = p.build().unwrap();
    assert_eq!(db.request().kind, RequestKind::Literal);
    assert_eq!(db.request().expressions, vec!["test".to_string()]);
    assert_eq!(db.request().flags, vec![0]);
}

#[test]
fn literal_test_pattern_build_with_flags() {
    let p = &Literal::with_flags("test", literal_caseless()).unwrap();

    assert_eq!(p.expression, "test");
    assert_eq!(p.flags, literal_caseless());
    assert_eq!(p.id, None);

    let db: BlockDatabase = p.build().unwrap();
    assert_eq!(db.request().flags, vec![1]);
}

#[test]
fn literal_test_patterns_build() {
    let ls = vec![Literal::new("test").unwrap(), Literal::new("foo").unwrap(), Literal::new("bar").unwrap()];
    let db: BlockDatabase = ls.build().unwrap();
    assert_eq!(db.request().kind, RequestKind::LiteralMulti);
    assert_eq!(db.request().expressions, vec!["test".to_string(), "foo".to_string(), "bar".to_string()]);
    assert_eq!(db.request().ids, vec![0, 1, 2]);
    assert_eq!(db.request().flags, vec![0, 0, 0]);
}

#[test]
fn literal_test_patterns_build_with_flags() {
    let ls = vec![
        Literal::with_flags("test", literal_caseless()).unwrap(),
        Literal::with_flags("foo", literal_caseless()).unwrap(),
        Literal::with_flags("bar", literal_caseless()).unwrap(),
    ];
    let db: BlockDatabase = ls.build().unwrap();
    assert_eq!(db.request().flags, vec![1, 1, 1]);
}

#[test]
fn pattern_extension_goes_to_the_extended_entry_point() {
    let p: Pattern = "/test/{min_offset=10}".parse().unwrap();
    let db: BlockDatabase = p.build().unwrap();
    let req = db.request();
    assert_eq!(req.kind, RequestKind::ExtMulti);
    assert_eq!(req.expressions, vec!["test".to_string()]);
    assert_eq!(req.ids, vec![0]);
    assert_eq!(req.exts.len(), 1);
    assert_eq!(req.exts[0].unwrap().min_offset, Some(10));

    let plain: BlockDatabase = Pattern::new("test").unwrap().build().unwrap();
    assert_eq!(plain.request().kind, RequestKind::Single);
    assert!(plain.request().exts.is_empty());
}

#[test]
fn patterns_extensions_per_pattern() {
    let a: Pattern = "1:/a/{max_offset=5}".parse().unwrap();
    let b = Pattern::new("b").unwrap();
    let db: BlockDatabase = Patterns(vec![a, b.clone()]).build().unwrap();
    let req = db.request();
    assert_eq!(req.kind, RequestKind::ExtMulti);
    assert_eq!(req.ids, vec![1, 1]);
    assert_eq!(req.exts[0].unwrap().max_offset, Some(5));
    assert!(req.exts[1].is_none());

    let db: BlockDatabase = Patterns(vec![b.clone(), b]).build().unwrap();
    assert_eq!(db.request().kind, RequestKind::Multi);
    assert!(db.request().exts.is_empty());
}

#[test]
fn info_request_of_pattern() {
    let p: Pattern = "/test/i{min_length=3}".parse().unwrap();
    let req = p.info_request().unwrap();
    assert_eq!(req.expression, "test");
    assert_eq!(req.flags, 1);
    assert_eq!(req.ext.min_length, Some(3));
    let bad = Pattern::new("a\0b").unwrap();
    assert_eq!(bad.info_request().unwrap_err(), Error::NulByte(NulError { position: 1 }));
}
