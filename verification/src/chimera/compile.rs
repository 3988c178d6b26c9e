//! Chimera compile errors, modes, match limits and compile requests.

use vstd::prelude::*;

use crate::chimera::error::{Error as ChError, CH_COMPILER_ERROR, CH_SUCCESS};
use crate::chimera::pattern::{spec_parse_pattern, Pattern, PatternView, Patterns};
use crate::compile::builder::{entry_id, first_nul, nul_position, platform_of};
use crate::compile::platform::Platform;
use crate::error::{Error as CrateError, NulError, ParseFailure};

verus! {

/// Providing details of the compile error condition.
#[derive(Debug, PartialEq, Eq)]
pub struct CompileError {
    message: String,
    expression: i32,
}

impl CompileError {
    /// A compile error with the engine's message and the index it reports
    /// (negative where the index cannot be determined).
    pub fn new(message: String, expression: i32) -> (r: CompileError)
        ensures
            r.spec_message() == message@,
            r.spec_expression_index() == expression,
    {
        CompileError { message, expression }
    }

    pub closed spec fn spec_message(&self) -> Seq<char> {
        self.message@
    }

    pub closed spec fn spec_expression_index(&self) -> i32 {
        self.expression
    }

    /// A human-readable error message describing the error.
    pub fn message(&self) -> (r: &str)
        ensures
            r@ == self.spec_message(),
    {
        self.message.as_str()
    }

    /// The zero-based number of the expression that caused the error (if this can be determined).
    pub fn expression(&self) -> (r: Option<usize>)
        ensures
            r == (if self.spec_expression_index() < 0 {
                None
            } else {
                Some(self.spec_expression_index() as usize)
            }),
    {
        if self.expression < 0 {
            None
        } else {
            Some(self.expression as usize)
        }
    }
}


/// The result of a compile call: success for `CH_SUCCESS`, the compile
/// error that the engine filled in for `CH_COMPILER_ERROR`, else the error
/// that the code stands for.
pub trait AsCompileResult: Sized {
    /// The result for the code `self` with the filled-in compile error `err`.
    spec fn spec_ok_or(self, err: CompileError) -> Result<(), CrateError>;

    /// The result for the code `self` with the filled-in compile error `err`.
    fn ok_or(self, err: CompileError) -> (r: Result<(), CrateError>)
        ensures
            r == self.spec_ok_or(err),
    ;
}

impl AsCompileResult for i32 {
    open spec fn spec_ok_or(self, err: CompileError) -> Result<(), CrateError> {
        if self == CH_SUCCESS {
            Ok(())
        } else if self == CH_COMPILER_ERROR {
            Err(CrateError::Chimera(ChError::CompileError(err)))
        } else {
            Err(CrateError::Chimera(ChError::spec_from_code(self)))
        }
    }

    fn ok_or(self, err: CompileError) -> (r: Result<(), CrateError>) {
        if self == CH_SUCCESS {
            Ok(())
        } else if self == CH_COMPILER_ERROR {
            Err(CrateError::Chimera(ChError::CompileError(err)))
        } else {
            Err(CrateError::Chimera(ChError::from_code(self)))
        }
    }
}

/// `CH_MODE_NOGROUPS`: the matcher reports no capturing groups.
pub const CH_MODE_NOGROUPS: u32 = 0;

/// `CH_MODE_GROUPS`: the matcher also reports capturing groups.
pub const CH_MODE_GROUPS: u32 = 1048576;

/// Compile mode flags: whether the matcher also reports capturing groups.
#[derive(Clone, Copy, Debug, PartialEq, Eq, Structural)]
pub enum Mode {
    /// Disable capturing groups.
    NoGroups,
    /// Enable capturing groups.
    Groups,
}

impl Mode {
    /// The mode value that the engine reads.
    pub open spec fn spec_bits(self) -> u32 {
        match self {
            Mode::NoGroups => 0,
            Mode::Groups => 1048576,
        }
    }

    /// Each mode is the engine's constant for it.
    pub proof fn lemma_bits_engine(m: Mode)
        ensures
            m.spec_bits() == (if m == Mode::Groups { CH_MODE_GROUPS } else { CH_MODE_NOGROUPS }),
    {
    }

    /// The mode value that the engine reads.
    pub fn bits(self) -> (r: u32)
        ensures
            r == self.spec_bits(),
    {
        match self {
            Mode::NoGroups => 0,
            Mode::Groups => 1048576,
        }
    }
}

impl Default for Mode {
    fn default() -> (r: Mode)
        ensures
            r == Mode::NoGroups,
    {
        Mode::NoGroups
    }
}

/// Define match limits for PCRE runtime.
#[derive(Clone, Copy, Debug, PartialEq, Eq, Structural)]
pub struct MatchLimit {
    /// A limit from pcre_extra on the amount of match function called in PCRE to limit backtracking that can take place.
    pub max_matches: u64,
    /// A limit from pcre_extra on the recursion depth of match function in PCRE.
    pub recursion_depth: u64,
}

/// Which engine entry point compiles a request.
#[derive(Clone, Copy, Debug, PartialEq, Eq, Structural)]
pub enum RequestKind {
    /// One expression (`ch_compile`).
    Single,
    /// Several expressions with their ids (`ch_compile_multi`).
    Multi,
    /// Several expressions with their ids and match limits (`ch_compile_ext_multi`).
    ExtMulti,
}

/// What a Chimera compile request holds, with the expressions as sequences of characters.
pub struct RequestView {
    pub kind: RequestKind,
    pub expressions: Seq<Seq<char>>,
    pub flags: Seq<u32>,
    pub ids: Seq<u32>,
    pub mode: u32,
    pub match_limit: Option<MatchLimit>,
    pub platform: Option<Platform>,
}

/// What the engine compiles a Chimera database from.
#[derive(Debug)]
pub struct CompileRequest {
    /// The engine entry point.
    pub kind: RequestKind,
    /// The expressions, in order.
    pub expressions: Vec<String>,
    /// The flags of each expression.
    pub flags: Vec<u32>,
    /// The id of each expression (empty for the single-expression entry point).
    pub ids: Vec<u32>,
    /// The mode value.
    pub mode: u32,
    /// The match limits, for the entry point that takes them.
    pub match_limit: Option<MatchLimit>,
    /// The target platform, or the host where there is none.
    pub platform: Option<Platform>,
}

impl View for CompileRequest {
    type V = RequestView;

    open spec fn view(&self) -> RequestView {
        RequestView {
            kind: self.kind,
            expressions: self.expressions@.map_values(|s: String| s@),
            flags: self.flags@,
            ids: self.ids@,
            mode: self.mode,
            match_limit: self.match_limit,
            platform: self.platform,
        }
    }
}

/// A Chimera pattern database, described by the request that the engine
/// compiles it from.
pub struct Database {
    request: CompileRequest,
}

impl Database {
    /// The request that the database is compiled from.
    pub closed spec fn spec_request(&self) -> RequestView {
        self.request@
    }

    /// The request that the database is compiled from.
    pub fn request(&self) -> (r: &CompileRequest)
        ensures
            r@ == self.spec_request(),
    {
        &self.request
    }
}

/// The request that compiles one pattern: refused where the expression holds a NUL.
pub open spec fn pattern_request(p: PatternView, mode: Mode, limit: Option<MatchLimit>, platform: Option<Platform>) -> Result<RequestView, ParseFailure> {
    match first_nul(p.expression) {
        Some(i) => Err(ParseFailure::NulByte(i as nat)),
        None => Ok(
            RequestView {
                kind: if limit is Some { RequestKind::ExtMulti } else { RequestKind::Single },
                expressions: seq![p.expression],
                flags: seq![p.flags.spec_bits()],
                ids: if limit is Some { seq![0u32] } else { Seq::empty() },
                mode: mode.spec_bits(),
                match_limit: limit,
                platform,
            },
        ),
    }
}

/// The NUL position in the first expression, in list order, that holds one.
pub open spec fn patterns_first_nul(ps: Seq<PatternView>) -> Option<int>
    decreases ps.len(),
{
    if ps.len() == 0 {
        None
    } else {
        match first_nul(ps[0].expression) {
            Some(i) => Some(i),
            None => patterns_first_nul(ps.drop_first()),
        }
    }
}

/// The request that compiles a pattern list: refused where an expression holds a NUL.
pub open spec fn patterns_request(ps: Seq<PatternView>, mode: Mode, limit: Option<MatchLimit>, platform: Option<Platform>) -> Result<RequestView, ParseFailure> {
    match patterns_first_nul(ps) {
        Some(i) => Err(ParseFailure::NulByte(i as nat)),
        None => Ok(
            RequestView {
                kind: if limit is Some { RequestKind::ExtMulti } else { RequestKind::Multi },
                expressions: ps.map_values(|p: PatternView| p.expression),
                flags: ps.map_values(|p: PatternView| p.flags.spec_bits()),
                ids: Seq::new(ps.len(), |i: int| entry_id(ps[i].id, i)),
                mode: mode.spec_bits(),
                match_limit: limit,
                platform,
            },
        ),
    }
}

/// The request that compiles the pattern that `s` reads as.
pub open spec fn text_request(s: Seq<char>, mode: Mode, limit: Option<MatchLimit>, platform: Option<Platform>) -> Result<RequestView, ParseFailure> {
    match spec_parse_pattern(s) {
        Err(f) => Err(f),
        Ok(p) => pattern_request(p, mode, limit, platform),
    }
}

/// `r` is the database of the request `spec`, or the error that reports its failure.
pub open spec fn request_outcome(r: Result<Database, CrateError>, spec: Result<RequestView, ParseFailure>) -> bool {
    match r {
        Ok(db) => spec == Ok::<RequestView, ParseFailure>(db.spec_request()),
        Err(e) => match spec {
            Ok(_) => false,
            Err(f) => e.reports(f),
        },
    }
}

/// The regular expression pattern database builder.
pub trait Builder {
    /// What a compile of `self` in `mode`, with `limit` and for `platform`,
    /// asks the engine for, or why it is refused.
    spec fn spec_request(&self, mode: Mode, limit: Option<MatchLimit>, platform: Option<Platform>) -> Result<RequestView, ParseFailure>;

    /// Build an expression is compiled into a Chimera database for a target platform.
    fn for_platform(&self, mode: Mode, match_limit: Option<MatchLimit>, platform: Option<&Platform>) -> (r: Result<Database, CrateError>)
        ensures
            request_outcome(r, self.spec_request(mode, match_limit, platform_of(platform))),
    ;

    /// Build an expression is compiled into a Chimera database which can be passed to the runtime functions.
    fn build(&self) -> (r: Result<Database, CrateError>)
        ensures
            request_outcome(r, self.spec_request(Mode::NoGroups, None, None)),
    {
        self.for_platform(Mode::NoGroups, None, None)
    }

    /// Build an expression is compiled into a Chimera database that reports capturing groups.
    fn with_groups(&self) -> (r: Result<Database, CrateError>)
        ensures
            request_outcome(r, self.spec_request(Mode::Groups, None, None)),
    {
        self.for_platform(Mode::Groups, None, None)
    }
}

/// Compile an expression into a Chimera database.
pub fn compile<S: Builder>(expression: S) -> (r: Result<Database, CrateError>)
    ensures
        request_outcome(r, expression.spec_request(Mode::NoGroups, None, None)),
{
    expression.build()
}

fn copy_platform(platform: Option<&Platform>) -> (r: Option<Platform>)
    ensures
        r == platform_of(platform),
{
    match platform {
        Some(p) => Some(*p),
        None => None,
    }
}

impl Builder for Pattern {
    open spec fn spec_request(&self, mode: Mode, limit: Option<MatchLimit>, platform: Option<Platform>) -> Result<RequestView, ParseFailure> {
        pattern_request(self@, mode, limit, platform)
    }

    fn for_platform(&self, mode: Mode, match_limit: Option<MatchLimit>, platform: Option<&Platform>) -> (r: Result<Database, CrateError>) {
        match nul_position(&self.expression) {
            Some(position) => Err(CrateError::NulByte(NulError { position })),
            None => {
                let mut expressions: Vec<String> = Vec::new();
                expressions.push(self.expression.clone());
                let mut flags: Vec<u32> = Vec::new();
                flags.push(self.flags.bits());
                let mut ids: Vec<u32> = Vec::new();
                let kind = match match_limit {
                    Some(_) => {
                        ids.push(0);
                        RequestKind::ExtMulti
                    },
                    None => RequestKind::Single,
                };
                let request = CompileRequest {
                    kind,
                    expressions,
                    flags,
                    ids,
                    mode: mode.bits(),
                    match_limit,
                    platform: copy_platform(platform),
                };
                assert(request@.expressions =~= seq![self@.expression]);
                assert(request@.flags =~= seq![self.flags.spec_bits()]);
                assert(match_limit is Some ==> request@.ids =~= seq![0u32]);
                assert(match_limit is None ==> request@.ids =~= Seq::<u32>::empty());
                Ok(Database { request })
            },
        }
    }
}

impl Builder for Patterns {
    open spec fn spec_request(&self, mode: Mode, limit: Option<MatchLimit>, platform: Option<Platform>) -> Result<RequestView, ParseFailure> {
        patterns_request(self@, mode, limit, platform)
    }

    fn for_platform(&self, mode: Mode, match_limit: Option<MatchLimit>, platform: Option<&Platform>) -> (r: Result<Database, CrateError>) {
        let ghost ps = self@;
        let mut expressions: Vec<String> = Vec::new();
        let mut flags: Vec<u32> = Vec::new();
        let mut ids: Vec<u32> = Vec::new();
        let mut i: usize = 0;
        assert(ps.subrange(0, ps.len() as int) == ps);
        while i < self.0.len()
            invariant
                ps == self@,
                i <= self.0.len(),
                patterns_first_nul(ps) == patterns_first_nul(ps.subrange(i as int, ps.len() as int)),
                expressions@.map_values(|s: String| s@) =~= ps.subrange(0, i as int).map_values(|p: PatternView| p.expression),
                flags@ =~= ps.subrange(0, i as int).map_values(|p: PatternView| p.flags.spec_bits()),
                ids@ =~= Seq::new(i as nat, |k: int| entry_id(ps[k].id, k)),
            decreases self.0.len() - i,
        {
            let ghost rest = ps.subrange(i as int, ps.len() as int);
            assert(rest[0] == self.0@[i as int]@);
            assert(rest.drop_first() == ps.subrange(i + 1, ps.len() as int));
            let p = &self.0[i];
            match nul_position(&p.expression) {
                Some(position) => {
                    return Err(CrateError::NulByte(NulError { position }));
                },
                None => {},
            }
            let ghost e0 = expressions@.map_values(|s: String| s@);
            let ghost f0 = flags@;
            let ghost i0 = ids@;
            expressions.push(p.expression.clone());
            flags.push(p.flags.bits());
            let id: u32 = match p.id {
                Some(n) => n as u32,
                None => i as u32,
            };
            ids.push(id);
            assert(ps[i as int] == p@);
            assert(expressions@.map_values(|s: String| s@) =~= e0.push(p@.expression));
            assert(ps.subrange(0, i + 1).map_values(|q: PatternView| q.expression) =~= ps.subrange(0, i as int).map_values(|q: PatternView| q.expression).push(p@.expression));
            assert(flags@ =~= f0.push(p.flags.spec_bits()));
            assert(ps.subrange(0, i + 1).map_values(|q: PatternView| q.flags.spec_bits()) =~= ps.subrange(0, i as int).map_values(|q: PatternView| q.flags.spec_bits()).push(p.flags.spec_bits()));
            assert(ids@ =~= i0.push(id));
            i = i + 1;
        }
        let kind = match match_limit {
            Some(_) => RequestKind::ExtMulti,
            None => RequestKind::Multi,
        };
        let request = CompileRequest {
            kind,
            expressions,
            flags,
            ids,
            mode: mode.bits(),
            match_limit,
            platform: copy_platform(platform),
        };
        Ok(Database { request })
    }
}

impl<'a> Builder for &'a str {
    open spec fn spec_request(&self, mode: Mode, limit: Option<MatchLimit>, platform: Option<Platform>) -> Result<RequestView, ParseFailure> {
        text_request((**self)@, mode, limit, platform)
    }

    fn for_platform(&self, mode: Mode, match_limit: Option<MatchLimit>, platform: Option<&Platform>) -> (r: Result<Database, CrateError>) {
        match Pattern::parse(*self) {
            Err(e) => Err(e),
            Ok(p) => p.for_platform(mode, match_limit, platform),
        }
    }
}

impl Builder for String {
    open spec fn spec_request(&self, mode: Mode, limit: Option<MatchLimit>, platform: Option<Platform>) -> Result<RequestView, ParseFailure> {
        text_request(self@, mode, limit, platform)
    }

    fn for_platform(&self, mode: Mode, match_limit: Option<MatchLimit>, platform: Option<&Platform>) -> (r: Result<Database, CrateError>) {
        match Pattern::parse(self.as_str()) {
            Err(e) => Err(e),
            Ok(p) => p.for_platform(mode, match_limit, platform),
        }
    }
}

} // verus!
