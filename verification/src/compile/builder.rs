//! Compile requests: what the engine compiles a pattern database from, built
//! from patterns, pattern lists, literals and pattern text.
//!
//! A request names the engine entry point, the expressions, their flags and
//! ids, the mode and the target platform; handing it to the engine is left
//! to the caller.

use std::marker::PhantomData;

use vstd::prelude::*;
use vstd::utf8::encode_utf8;

use crate::common::mode::{Block, Mode, Streaming, Vectored, HS_MODE_STREAM};
use crate::compile::literal::{
    literal_views, literals_som, literals_som_spec, Literal, LiteralView, Literals,
    Flags as LiteralFlags,
};
use crate::compile::pattern::{
    patterns_som, spec_parse_pattern, views_of, Flags, Pattern, PatternView, Patterns, SomHorizon,
};
use crate::compile::expr::ExprExt;
use crate::compile::platform::Platform;
use crate::error::{Error as CrateError, NulError, ParseFailure};
use crate::text::opt_index;

verus! {

/// Which engine entry point compiles a request.
#[derive(Clone, Copy, Debug, PartialEq, Eq, Structural)]
pub enum RequestKind {
    /// One expression, handed over as a C string (`hs_compile`).
    Single,
    /// Several expressions with their ids (`hs_compile_multi`).
    Multi,
    /// One pure literal, handed over with its length (`hs_compile_lit`).
    Literal,
    /// Several pure literals with their ids and lengths (`hs_compile_lit_multi`).
    LiteralMulti,
    /// Several expressions with their ids and extension blocks
    /// (`hs_compile_ext_multi`).
    ExtMulti,
}

/// What a compile request holds, with the expressions as sequences of characters.
pub struct RequestView {
    pub kind: RequestKind,
    pub expressions: Seq<Seq<char>>,
    pub flags: Seq<u32>,
    pub ids: Seq<u32>,
    pub exts: Seq<Option<ExprExt>>,
    pub mode: u32,
    pub platform: Option<Platform>,
}

/// What the engine compiles a database from.
#[derive(Debug)]
pub struct CompileRequest {
    /// The engine entry point.
    pub kind: RequestKind,
    /// The expressions, in order.
    pub expressions: Vec<String>,
    /// The flags of each expression.
    pub flags: Vec<u32>,
    /// The id of each expression (empty for the single-expression entry points).
    pub ids: Vec<u32>,
    /// The extension block of each expression, for the extended entry point
    /// (empty for the others); `None` where the expression has none.
    pub exts: Vec<Option<ExprExt>>,
    /// The mode: the database mode, with the start of match precision in streaming mode.
    pub mode: u32,
    /// The target platform, or the host where there is none.
    pub platform: Option<Platform>,
}

impl View for CompileRequest {
    type V = RequestView;

    open spec fn view(&self) -> RequestView {
        RequestView {
            kind: self.kind,
            expressions: self.expressions@.map_values(|s: String| s@),
            flags: self.flags@,
            ids: self.ids@,
            exts: self.exts@,
            mode: self.mode,
            platform: self.platform,
        }
    }
}

/// A pattern database of mode `T`, described by the request that the engine
/// compiles it from.
pub struct Database<T> {
    request: CompileRequest,
    mode: PhantomData<T>,
}

/// Block scan (non-streaming) database.
pub type BlockDatabase = Database<Block>;

/// Streaming database.
pub type StreamingDatabase = Database<Streaming>;

/// Vectored scanning database.
pub type VectoredDatabase = Database<Vectored>;

impl<T: Mode> Database<T> {
    /// The request that the database is compiled from.
    pub closed spec fn spec_request(&self) -> RequestView {
        self.request@
    }

    fn from_request(request: CompileRequest) -> (r: Database<T>)
        ensures
            r.spec_request() == request@,
    {
        Database { request, mode: PhantomData }
    }

    /// The request that the database is compiled from.
    pub fn request(&self) -> (r: &CompileRequest)
        ensures
            r@ == self.spec_request(),
    {
        &self.request
    }

    /// Provides the id of compiled mode of the given database.
    pub fn id(&self) -> (r: u32)
        ensures
            r == T::spec_id(),
    {
        T::id()
    }

    /// Provides the name of compiled mode of the given database.
    pub fn name(&self) -> (r: &'static str)
        ensures
            r@ == T::spec_name(),
    {
        T::name()
    }
}

/// Index of the first zero byte of `b` at or after `from`.
pub open spec fn first_nul_from(b: Seq<u8>, from: int) -> Option<int>
    decreases b.len() - from,
{
    if from < 0 || from >= b.len() {
        None
    } else if b[from] == 0 {
        Some(from)
    } else {
        first_nul_from(b, from + 1)
    }
}

/// Index of the first NUL byte in the UTF-8 encoding of `s`.
pub open spec fn first_nul(s: Seq<char>) -> Option<int> {
    first_nul_from(encode_utf8(s), 0)
}

/// The mode of a request: the database mode, with the bit of `som` where the
/// mode is streaming.
pub open spec fn mode_bits(mode_id: u32, som: Option<SomHorizon>) -> u32 {
    mode_id | (if mode_id == HS_MODE_STREAM && som is Some {
        som.unwrap().spec_bits()
    } else {
        0u32
    })
}

/// The id that a list gives its `i`-th entry: its own, or its position.
pub open spec fn entry_id(id: Option<usize>, i: int) -> u32 {
    match id {
        Some(n) => n as u32,
        None => i as u32,
    }
}

/// The request that compiles a pattern: refused where the expression holds a NUL.
pub open spec fn pattern_request(p: PatternView, platform: Option<Platform>, mode_id: u32) -> Result<RequestView, ParseFailure> {
    match first_nul(p.expression) {
        Some(i) => Err(ParseFailure::NulByte(i as nat)),
        None => Ok(
            RequestView {
                kind: if p.ext.spec_is_empty() { RequestKind::Single } else { RequestKind::ExtMulti },
                expressions: seq![p.expression],
                flags: seq![p.flags.spec_bits() as u32],
                ids: if p.ext.spec_is_empty() { Seq::empty() } else { seq![0u32] },
                exts: if p.ext.spec_is_empty() { Seq::empty() } else { seq![Some(p.ext)] },
                mode: mode_bits(mode_id, p.spec_som()),
                platform,
            },
        ),
    }
}

/// The NUL position in the first expression, in list order, that holds one.
pub open spec fn patterns_first_nul(ps: Seq<PatternView>) -> Option<int>
    decreases ps.len(),
{
    if ps.len() == 0 {
        None
    } else {
        match first_nul(ps[0].expression) {
            Some(i) => Some(i),
            None => patterns_first_nul(ps.drop_first()),
        }
    }
}

/// Some pattern of the list has an extension block.
pub open spec fn any_ext(ps: Seq<PatternView>) -> bool {
    exists|i: int| 0 <= i < ps.len() && !(#[trigger] ps[i]).ext.spec_is_empty()
}

/// The extension block that a pattern hands to the engine: none where no
/// parameter is in use.
pub open spec fn ext_entry(p: PatternView) -> Option<ExprExt> {
    if p.ext.spec_is_empty() {
        None
    } else {
        Some(p.ext)
    }
}

/// The request that compiles a pattern list: refused where an expression
/// holds a NUL; through the extended entry point where a pattern has an
/// extension block.
pub open spec fn patterns_request(ps: Seq<PatternView>, platform: Option<Platform>, mode_id: u32) -> Result<RequestView, ParseFailure> {
    match patterns_first_nul(ps) {
        Some(i) => Err(ParseFailure::NulByte(i as nat)),
        None => Ok(
            RequestView {
                kind: if any_ext(ps) { RequestKind::ExtMulti } else { RequestKind::Multi },
                expressions: ps.map_values(|p: PatternView| p.expression),
                flags: ps.map_values(|p: PatternView| p.flags.spec_bits() as u32),
                ids: Seq::new(ps.len(), |i: int| entry_id(ps[i].id, i)),
                exts: if any_ext(ps) { ps.map_values(|p: PatternView| ext_entry(p)) } else { Seq::empty() },
                mode: mode_bits(mode_id, patterns_som(ps)),
                platform,
            },
        ),
    }
}

/// The request that compiles a literal (handed over with its length, so a NUL is kept).
pub open spec fn literal_request(l: LiteralView, platform: Option<Platform>, mode_id: u32) -> RequestView {
    RequestView {
        kind: RequestKind::Literal,
        expressions: seq![l.expression],
        flags: seq![l.flags.spec_bits()],
        ids: Seq::empty(),
        exts: Seq::empty(),
        mode: mode_bits(mode_id, l.spec_som()),
        platform,
    }
}

/// The request that compiles a literal list.
pub open spec fn literals_request(ls: Seq<LiteralView>, platform: Option<Platform>, mode_id: u32) -> RequestView {
    RequestView {
        kind: RequestKind::LiteralMulti,
        expressions: ls.map_values(|l: LiteralView| l.expression),
        flags: ls.map_values(|l: LiteralView| l.flags.spec_bits()),
        ids: Seq::new(ls.len(), |i: int| entry_id(ls[i].id, i)),
        exts: Seq::empty(),
        mode: mode_bits(mode_id, literals_som_spec(ls)),
        platform,
    }
}

/// The request that compiles the pattern that `s` reads as.
pub open spec fn text_request(s: Seq<char>, platform: Option<Platform>, mode_id: u32) -> Result<RequestView, ParseFailure> {
    match spec_parse_pattern(s) {
        Err(f) => Err(f),
        Ok(p) => pattern_request(p, platform, mode_id),
    }
}

/// The platform that an optional reference points to.
pub open spec fn platform_of(platform: Option<&Platform>) -> Option<Platform> {
    match platform {
        Some(p) => Some(*p),
        None => None,
    }
}

/// `r` is the database of the request `spec`, or the error that reports its failure.
pub open spec fn request_outcome<T: Mode>(r: Result<Database<T>, CrateError>, spec: Result<RequestView, ParseFailure>) -> bool {
    match r {
        Ok(db) => spec == Ok::<RequestView, ParseFailure>(db.spec_request()),
        Err(e) => match spec {
            Ok(_) => false,
            Err(f) => e.reports(f),
        },
    }
}

fn copy_platform(platform: Option<&Platform>) -> (r: Option<Platform>)
    ensures
        r == platform_of(platform),
{
    match platform {
        Some(p) => Some(*p),
        None => None,
    }
}

fn request_mode<T: Mode>(som: Option<SomHorizon>) -> (r: u32)
    ensures
        r == mode_bits(T::spec_id(), som),
{
    let extra: u32 = if T::is_streaming() {
        match som {
            Some(h) => h.bits(),
            None => 0,
        }
    } else {
        0
    };
    T::id() | extra
}

/// The byte position of the first NUL in the UTF-8 encoding of `s`.
pub fn nul_position(s: &String) -> (r: Option<usize>)
    ensures
        opt_index(r) == first_nul(s@),
{
    let b = s.as_str().as_bytes();
    let mut i: usize = 0;
    while i < b.len()
        invariant
            i <= b.len(),
            b@ == encode_utf8(s@),
            first_nul(s@) == first_nul_from(b@, i as int),
        decreases b.len() - i,
    {
        if b[i] == 0 {
            return Some(i);
        }
        i = i + 1;
    }
    None
}

/// The regular expression pattern database builder.
pub trait Builder {
    /// What a compile of `self` for `platform` in the mode `mode_id` asks
    /// the engine for, or why it is refused.
    spec fn spec_request(&self, platform: Option<Platform>, mode_id: u32) -> Result<RequestView, ParseFailure>;

    /// Build an expression is compiled into a Hyperscan database for a target platform.
    fn for_platform<T: Mode>(&self, platform: Option<&Platform>) -> (r: Result<Database<T>, CrateError>)
        ensures
            request_outcome(r, self.spec_request(platform_of(platform), T::spec_id())),
    ;

    /// Build an expression is compiled into a Hyperscan database which can be passed to the runtime functions
    fn build<T: Mode>(&self) -> (r: Result<Database<T>, CrateError>)
        ensures
            request_outcome(r, self.spec_request(None, T::spec_id())),
    {
        self.for_platform(None)
    }
}

/// Compile an expression into a Hyperscan database.
pub fn compile<S: Builder, T: Mode>(expression: S) -> (r: Result<Database<T>, CrateError>)
    ensures
        request_outcome(r, expression.spec_request(None, T::spec_id())),
{
    expression.build()
}

impl Builder for Pattern {
    open spec fn spec_request(&self, platform: Option<Platform>, mode_id: u32) -> Result<RequestView, ParseFailure> {
        pattern_request(self@, platform, mode_id)
    }

    fn for_platform<T: Mode>(&self, platform: Option<&Platform>) -> (r: Result<Database<T>, CrateError>) {
        match nul_position(&self.expression) {
            Some(position) => Err(CrateError::NulByte(NulError { position })),
            None => {
                let mut expressions: Vec<String> = Vec::new();
                expressions.push(self.expression.clone());
                let mut flags: Vec<u32> = Vec::new();
                flags.push(self.flags.bits());
                let plain = self.ext.is_empty();
                let mut ids: Vec<u32> = Vec::new();
                let mut exts: Vec<Option<ExprExt>> = Vec::new();
                if !plain {
                    ids.push(0);
                    exts.push(Some(self.ext));
                }
                let request = CompileRequest {
                    kind: if plain { RequestKind::Single } else { RequestKind::ExtMulti },
                    expressions,
                    flags,
                    ids,
                    exts,
                    mode: request_mode::<T>(self.som()),
                    platform: copy_platform(platform),
                };
                assert(request@.expressions =~= seq![self@.expression]);
                assert(request@.flags =~= seq![self.flags.spec_bits() as u32]);
                assert(request@.ids =~= (if plain { Seq::empty() } else { seq![0u32] }));
                assert(request@.exts =~= (if plain { Seq::empty() } else { seq![Some(self.ext)] }));
                Ok(Database::from_request(request))
            },
        }
    }
}

impl Builder for Patterns {
    open spec fn spec_request(&self, platform: Option<Platform>, mode_id: u32) -> Result<RequestView, ParseFailure> {
        patterns_request(self@, platform, mode_id)
    }

    fn for_platform<T: Mode>(&self, platform: Option<&Platform>) -> (r: Result<Database<T>, CrateError>) {
        let ghost ps = self@;
        let mut expressions: Vec<String> = Vec::new();
        let mut flags: Vec<u32> = Vec::new();
        let mut ids: Vec<u32> = Vec::new();
        let mut all_exts: Vec<Option<ExprExt>> = Vec::new();
        let mut any: bool = false;
        let mut i: usize = 0;
        assert(ps.subrange(0, ps.len() as int) == ps);
        while i < self.0.len()
            invariant
                ps == self@,
                i <= self.0.len(),
                all_exts@ =~= ps.subrange(0, i as int).map_values(|p: PatternView| ext_entry(p)),
                any == any_ext(ps.subrange(0, i as int)),
                patterns_first_nul(ps) == patterns_first_nul(ps.subrange(i as int, ps.len() as int)),
                expressions@.map_values(|s: String| s@) =~= ps.subrange(0, i as int).map_values(|p: PatternView| p.expression),
                flags@ =~= ps.subrange(0, i as int).map_values(|p: PatternView| p.flags.spec_bits() as u32),
                ids@ =~= Seq::new(i as nat, |k: int| entry_id(ps[k].id, k)),
            decreases self.0.len() - i,
        {
            let ghost rest = ps.subrange(i as int, ps.len() as int);
            assert(rest[0] == self.0@[i as int]@);
            assert(rest.drop_first() == ps.subrange(i + 1, ps.len() as int));
            let p = &self.0[i];
            match nul_position(&p.expression) {
                Some(position) => {
                    return Err(CrateError::NulByte(NulError { position }));
                },
                None => {},
            }
            let ghost e0 = expressions@.map_values(|s: String| s@);
            let ghost f0 = flags@;
            let ghost i0 = ids@;
            expressions.push(p.expression.clone());
            flags.push(p.flags.bits());
            let id: u32 = match p.id {
                Some(n) => n as u32,
                None => i as u32,
            };
            ids.push(id);
            let ghost x0 = all_exts@;
            let plain = p.ext.is_empty();
            all_exts.push(if plain { None } else { Some(p.ext) });
            let ghost was = ps.subrange(0, i as int);
            let ghost now = ps.subrange(0, i + 1);
            assert(now.map_values(|q: PatternView| ext_entry(q)) =~= was.map_values(|q: PatternView| ext_entry(q)).push(ext_entry(p@)));
            proof {
                if any_ext(was) {
                    let k = choose|k: int| 0 <= k < was.len() && !(#[trigger] was[k]).ext.spec_is_empty();
                    assert(now[k] == was[k]);
                }
                if !plain {
                    assert(now[i as int] == p@);
                }
                if any_ext(now) {
                    let k = choose|k: int| 0 <= k < now.len() && !(#[trigger] now[k]).ext.spec_is_empty();
                    if k < i {
                        assert(was[k] == now[k]);
                    }
                }
            }
            any = any || !plain;
            assert(ps[i as int] == p@);
            assert(expressions@.map_values(|s: String| s@) =~= e0.push(p@.expression));
            assert(ps.subrange(0, i + 1).map_values(|q: PatternView| q.expression) =~= ps.subrange(0, i as int).map_values(|q: PatternView| q.expression).push(p@.expression));
            assert(flags@ =~= f0.push(p.flags.spec_bits() as u32));
            assert(ps.subrange(0, i + 1).map_values(|q: PatternView| q.flags.spec_bits() as u32) =~= ps.subrange(0, i as int).map_values(|q: PatternView| q.flags.spec_bits() as u32).push(p.flags.spec_bits() as u32));
            assert(ids@ =~= i0.push(id));
            i = i + 1;
        }
        let exts = if any { all_exts } else { Vec::new() };
        let request = CompileRequest {
            kind: if any { RequestKind::ExtMulti } else { RequestKind::Multi },
            expressions,
            flags,
            ids,
            exts,
            mode: request_mode::<T>(self.som()),
            platform: copy_platform(platform),
        };
        Ok(Database::from_request(request))
    }
}

impl Builder for Literal {
    open spec fn spec_request(&self, platform: Option<Platform>, mode_id: u32) -> Result<RequestView, ParseFailure> {
        Ok(literal_request(self@, platform, mode_id))
    }

    fn for_platform<T: Mode>(&self, platform: Option<&Platform>) -> (r: Result<Database<T>, CrateError>) {
        let mut expressions: Vec<String> = Vec::new();
        expressions.push(self.expression.clone());
        let mut flags: Vec<u32> = Vec::new();
        flags.push(self.flags.bits());
        let request = CompileRequest {
            kind: RequestKind::Literal,
            expressions,
            flags,
            ids: Vec::new(),
            exts: Vec::new(),
            mode: request_mode::<T>(self.som()),
            platform: copy_platform(platform),
        };
        assert(request@.expressions =~= seq![self@.expression]);
        assert(request@.flags =~= seq![self.flags.spec_bits()]);
        Ok(Database::from_request(request))
    }
}

impl Builder for Literals {
    open spec fn spec_request(&self, platform: Option<Platform>, mode_id: u32) -> Result<RequestView, ParseFailure> {
        Ok(literals_request(literal_views(self@), platform, mode_id))
    }

    fn for_platform<T: Mode>(&self, platform: Option<&Platform>) -> (r: Result<Database<T>, CrateError>) {
        let ghost ls = literal_views(self@);
        let mut expressions: Vec<String> = Vec::new();
        let mut flags: Vec<u32> = Vec::new();
        let mut ids: Vec<u32> = Vec::new();
        let mut i: usize = 0;
        while i < self.len()
            invariant
                ls == literal_views(self@),
                i <= self.len(),
                expressions@.map_values(|s: String| s@) =~= ls.subrange(0, i as int).map_values(|l: LiteralView| l.expression),
                flags@ =~= ls.subrange(0, i as int).map_values(|l: LiteralView| l.flags.spec_bits()),
                ids@ =~= Seq::new(i as nat, |k: int| entry_id(ls[k].id, k)),
            decreases self.len() - i,
        {
            let l = &self[i];
            let ghost e0 = expressions@.map_values(|s: String| s@);
            let ghost f0 = flags@;
            let ghost i0 = ids@;
            expressions.push(l.expression.clone());
            flags.push(l.flags.bits());
            let id: u32 = match l.id {
                Some(n) => n as u32,
                None => i as u32,
            };
            ids.push(id);
            assert(ls[i as int] == l@);
            assert(expressions@.map_values(|s: String| s@) =~= e0.push(l@.expression));
            assert(ls.subrange(0, i + 1).map_values(|q: LiteralView| q.expression) =~= ls.subrange(0, i as int).map_values(|q: LiteralView| q.expression).push(l@.expression));
            assert(flags@ =~= f0.push(l.flags.spec_bits()));
            assert(ls.subrange(0, i + 1).map_values(|q: LiteralView| q.flags.spec_bits()) =~= ls.subrange(0, i as int).map_values(|q: LiteralView| q.flags.spec_bits()).push(l.flags.spec_bits()));
            assert(ids@ =~= i0.push(id));
            i = i + 1;
        }
        assert(ls.subrange(0, ls.len() as int) == ls);
        let request = CompileRequest {
            kind: RequestKind::LiteralMulti,
            expressions,
            flags,
            ids,
            exts: Vec::new(),
            mode: request_mode::<T>(literals_som(self)),
            platform: copy_platform(platform),
        };
        Ok(Database::from_request(request))
    }
}

impl<'a> Builder for &'a str {
    open spec fn spec_request(&self, platform: Option<Platform>, mode_id: u32) -> Result<RequestView, ParseFailure> {
        text_request((**self)@, platform, mode_id)
    }

    fn for_platform<T: Mode>(&self, platform: Option<&Platform>) -> (r: Result<Database<T>, CrateError>) {
        match Pattern::parse(*self) {
            Err(e) => Err(e),
            Ok(p) => p.for_platform(platform),
        }
    }
}

impl Builder for String {
    open spec fn spec_request(&self, platform: Option<Platform>, mode_id: u32) -> Result<RequestView, ParseFailure> {
        text_request(self@, platform, mode_id)
    }

    fn for_platform<T: Mode>(&self, platform: Option<&Platform>) -> (r: Result<Database<T>, CrateError>) {
        match Pattern::parse(self.as_str()) {
            Err(e) => Err(e),
            Ok(p) => p.for_platform(platform),
        }
    }
}

impl<T: Mode> Database<T> {
    /// The basic regular expression compiler: the request for `expression`
    /// with `flags`.
    pub fn compile(expression: &str, flags: Flags, platform: Option<&Platform>) -> (r: Result<Database<T>, CrateError>)
        ensures
            request_outcome(r, pattern_request(PatternView {
                expression: expression@,
                flags,
                id: None,
                ext: crate::compile::expr::ExprExt::spec_default(),
                som: None,
            }, platform_of(platform), T::spec_id())),
    {
        match Pattern::with_flags(expression, flags) {
            Err(e) => Err(e),
            Ok(p) => p.for_platform(platform),
        }
    }

    /// The pure literal expression compiler: the request for the literal
    /// `expression` with `flags`.
    pub fn compile_literal(expression: &str, flags: LiteralFlags, platform: Option<&Platform>) -> (r: Result<Database<T>, CrateError>)
        ensures
            request_outcome(r, Ok(literal_request(LiteralView {
                expression: expression@,
                flags,
                id: None,
                som: None,
            }, platform_of(platform), T::spec_id()))),
    {
        match Literal::with_flags(expression, flags) {
            Err(e) => Err(e),
            Ok(l) => l.for_platform(platform),
        }
    }
}

/// What the engine is asked for the information about a pattern
/// (`hs_expression_ext_info`): the expression, its flags and its extension
/// block.
#[derive(Debug)]
pub struct InfoRequest {
    /// The expression.
    pub expression: String,
    /// Its flags.
    pub flags: u32,
    /// Its extension block.
    pub ext: ExprExt,
}

/// What an information request holds, with the expression as a sequence of characters.
pub struct InfoRequestView {
    pub expression: Seq<char>,
    pub flags: u32,
    pub ext: ExprExt,
}

impl View for InfoRequest {
    type V = InfoRequestView;

    open spec fn view(&self) -> InfoRequestView {
        InfoRequestView { expression: self.expression@, flags: self.flags, ext: self.ext }
    }
}

/// The information request of a pattern: refused where the expression
/// holds a NUL.
pub open spec fn info_request(p: PatternView) -> Result<InfoRequestView, ParseFailure> {
    match first_nul(p.expression) {
        Some(i) => Err(ParseFailure::NulByte(i as nat)),
        None => Ok(InfoRequestView { expression: p.expression, flags: p.flags.spec_bits() as u32, ext: p.ext }),
    }
}

impl Pattern {
    /// The request for information about the pattern, such as the widths
    /// of its matches: refused where the expression holds a NUL.
    pub fn info_request(&self) -> (r: Result<InfoRequest, CrateError>)
        ensures
            match r {
                Ok(q) => info_request(self@) == Ok::<InfoRequestView, ParseFailure>(q@),
                Err(e) => match info_request(self@) {
                    Err(f) => e.reports(f),
                    Ok(_) => false,
                },
            },
    {
        match nul_position(&self.expression) {
            Some(position) => Err(CrateError::NulByte(NulError { position })),
            None => Ok(InfoRequest { expression: self.expression.clone(), flags: self.flags.bits(), ext: self.ext }),
        }
    }
}

} // verus!
