//! Lowering of typed script source into plain executable script, memoized by
//! the fingerprint of the source.

use crate::cache::{fingerprint, memo_step, stored, success, MemoCache};
use oxc_allocator::Allocator;
use oxc_ast::ast::Program;
use oxc_codegen::{Codegen, CodegenOptions};
use oxc_parser::Parser;
use oxc_semantic::{Scoping, SemanticBuilder};
use oxc_span::SourceType;
use oxc_transformer::{TransformOptions, Transformer};
use std::path::Path;
use vstd::prelude::*;

verus! {

#[verifier::external_type_specification]
#[verifier::external_body]
pub struct ExAllocator(Allocator);

#[verifier::external_type_specification]
#[verifier::external_body]
pub struct ExSourceType(SourceType);

#[verifier::external_type_specification]
#[verifier::external_body]
pub struct ExProgram<'a>(Program<'a>);

#[verifier::external_type_specification]
#[verifier::external_body]
pub struct ExScoping(Scoping);

/// Number of compiled scripts kept before the cache is emptied.
pub const TS_CACHE_CAPACITY: usize = 1000;

/// Why a script could not be compiled; each carries the stage's diagnostics.
#[derive(Debug)]
pub enum CompileError {
    ParseError(String),
    TransformError(String),
    CodegenError(String),
}

impl CompileError {
    /// The error as a message for people, naming the stage that failed.
    pub fn to_string(&self) -> (r: String)
        ensures
            match self {
                CompileError::ParseError(m) => r@ == "TypeScript parse error: "@ + m@,
                CompileError::TransformError(m) => r@ == "TypeScript transform error: "@ + m@,
                CompileError::CodegenError(m) => r@ == "JavaScript codegen error: "@ + m@,
            },
    {
        let (prefix, m) = match self {
            CompileError::ParseError(m) => ("TypeScript parse error: ", m),
            CompileError::TransformError(m) => ("TypeScript transform error: ", m),
            CompileError::CodegenError(m) => ("JavaScript codegen error: ", m),
        };
        let mut out = String::from_str(prefix);
        out.append(m.as_str());
        out
    }
}

/// The messages joined by `; `.
pub open spec fn joined(messages: Seq<Seq<char>>) -> Seq<char>
    decreases messages.len(),
{
    if messages.len() == 0 {
        Seq::empty()
    } else if messages.len() == 1 {
        messages[0]
    } else {
        joined(messages.drop_last()) + seq![';', ' '] + messages.last()
    }
}

/// The views of `messages`.
pub open spec fn message_texts(messages: Seq<String>) -> Seq<Seq<char>> {
    messages.map_values(|m: String| m@)
}

/// Joins diagnostic messages into one, separated by `; `.
pub fn join_diagnostics(messages: &Vec<String>) -> (r: String)
    ensures
        r@ == joined(message_texts(messages@)),
{
    let mut out = String::new();
    let mut i: usize = 0;
    while i < messages.len()
        invariant
            i <= messages.len(),
            out@ == joined(message_texts(messages@.take(i as int))),
        decreases messages.len() - i,
    {
        assert(message_texts(messages@.take(i as int + 1)).drop_last() =~= message_texts(
            messages@.take(i as int),
        ));
        if i > 0 {
            proof {
                reveal_strlit("; ");
            }
            out.append("; ");
        } else {
            assert(out@ =~= Seq::<char>::empty());
        }
        out.append(messages[i].as_str());
        i = i + 1;
        assert(out@ =~= joined(message_texts(messages@.take(i as int))));
    }
    assert(messages@.take(i as int) =~= messages@);
    out
}

/// Whether the file name `filename` names a script dialect by its extension.
pub uninterp spec fn has_dialect(filename: Seq<char>) -> bool;

/// The diagnostics of parsing `source` in `dialect`: `Some(f)` is the dialect
/// the file name `f` names, `None` typed script as a module.
pub uninterp spec fn ts_parse_messages(source: Seq<char>, dialect: Option<Seq<char>>) -> Seq<
    Seq<char>,
>;

/// The diagnostics of stripping the typing constructs from that program for
/// the file `filename`.
pub uninterp spec fn ts_transform_messages(
    source: Seq<char>,
    dialect: Option<Seq<char>>,
    filename: Seq<char>,
) -> Seq<Seq<char>>;

/// The text printed for that program once stripped.
pub uninterp spec fn ts_output(
    source: Seq<char>,
    dialect: Option<Seq<char>>,
    filename: Seq<char>,
) -> Seq<char>;

/// The dialect a file name selects: the one its extension names, else typed
/// script.
pub open spec fn dialect_for(filename: Seq<char>) -> Option<Seq<char>> {
    if has_dialect(filename) {
        Some(filename)
    } else {
        None
    }
}

/// The stage at which a compilation failed.
pub enum Stage {
    Parse,
    Transform,
    Codegen,
}

/// The outcome of a compilation as values: the script, or the failed stage
/// and its message.
pub open spec fn outcome(r: Result<String, CompileError>) -> Result<Seq<char>, (Stage, Seq<char>)> {
    match r {
        Ok(js) => Ok(js@),
        Err(CompileError::ParseError(m)) => Err((Stage::Parse, m@)),
        Err(CompileError::TransformError(m)) => Err((Stage::Transform, m@)),
        Err(CompileError::CodegenError(m)) => Err((Stage::Codegen, m@)),
    }
}

/// What compiling `source` from the file `filename` gives: the joined parse
/// diagnostics if there are any, else the joined lowering diagnostics if
/// there are any, else the printed program.
pub open spec fn ts_compiled(source: Seq<char>, filename: Seq<char>) -> Result<
    Seq<char>,
    (Stage, Seq<char>),
> {
    let dialect = dialect_for(filename);
    let parse_messages = ts_parse_messages(source, dialect);
    let transform_messages = ts_transform_messages(source, dialect, filename);
    if parse_messages.len() > 0 {
        Err((Stage::Parse, joined(parse_messages)))
    } else if transform_messages.len() > 0 {
        Err((Stage::Transform, joined(transform_messages)))
    } else {
        Ok(ts_output(source, dialect, filename))
    }
}

/// A script dialect, with the file name that selected it (`None` for the
/// typed fallback).
pub struct Dialect {
    source_type: SourceType,
    chosen_by: Ghost<Option<Seq<char>>>,
}

/// A parsed program, with the source and dialect it was parsed from and, once
/// stripped, the file name it was stripped for.
pub struct ParsedScript<'a> {
    program: Program<'a>,
    source: Ghost<Seq<char>>,
    dialect: Ghost<Option<Seq<char>>>,
    stripped_for: Ghost<Option<Seq<char>>>,
}

/// The scopes of a parsed program, with the source and dialect of that program.
pub struct ScriptScopes {
    scoping: Scoping,
    source: Ghost<Seq<char>>,
    dialect: Ghost<Option<Seq<char>>>,
}

/// Relies on oxc_allocator::Allocator::default: a fresh arena for one compilation.
#[verifier::external_body]
fn new_allocator() -> Allocator {
    Allocator::default()
}

/// Relies on oxc_span::SourceType::from_path: the dialect named by the file's
/// extension; whether there is one depends on the name alone.
#[verifier::external_body]
fn dialect_from_path(filename: &str) -> (r: Option<Dialect>)
    ensures
        r is Some <==> has_dialect(filename@),
        r matches Some(d) ==> d.chosen_by@ == Some(filename@),
{
    match SourceType::from_path(filename) {
        Ok(source_type) => Some(Dialect { source_type, chosen_by: Ghost(Some(filename@)) }),
        Err(_) => None,
    }
}

/// Relies on oxc_span::SourceType::default and SourceType::with_typescript:
/// typed script parsed as a module.
#[verifier::external_body]
fn typed_dialect() -> (r: Dialect)
    ensures
        r.chosen_by@ == None::<Seq<char>>,
{
    Dialect { source_type: SourceType::default().with_typescript(true), chosen_by: Ghost(None) }
}

/// Relies on oxc_parser::Parser::parse: the program and the text of each parse
/// diagnostic, which depend on the source and the dialect alone.
#[verifier::external_body]
fn parse_program<'a>(allocator: &'a Allocator, source: &'a str, dialect: &Dialect) -> (r: (
    ParsedScript<'a>,
    Vec<String>,
))
    ensures
        r.0.source@ == source@,
        r.0.dialect@ == dialect.chosen_by@,
        r.0.stripped_for@ == None::<Seq<char>>,
        message_texts(r.1@) == ts_parse_messages(source@, dialect.chosen_by@),
{
    let ret = Parser::new(allocator, source, dialect.source_type).parse();
    let messages = ret.diagnostics.iter().map(|e| e.to_string()).collect();
    let script = ParsedScript {
        program: ret.program,
        source: Ghost(source@),
        dialect: Ghost(dialect.chosen_by@),
        stripped_for: Ghost(None),
    };
    (script, messages)
}

/// Relies on oxc_semantic::SemanticBuilder::build: the scopes and symbols of a
/// program.
#[verifier::external_body]
fn build_scoping<'a>(script: &ParsedScript<'a>) -> (r: ScriptScopes)
    ensures
        r.source == script.source,
        r.dialect == script.dialect,
{
    let scoping = SemanticBuilder::new().build(&script.program).semantic.into_scoping();
    ScriptScopes { scoping, source: Ghost(script.source@), dialect: Ghost(script.dialect@) }
}

/// Relies on oxc_transformer::Transformer::build_with_scoping: strips the
/// static-typing constructs from the program in place and gives the text of
/// each diagnostic, which depend on the program's source and dialect and on
/// the file name alone.
#[verifier::external_body]
fn strip_types<'a>(
    allocator: &'a Allocator,
    filename: &str,
    scopes: ScriptScopes,
    script: &mut ParsedScript<'a>,
) -> (r: Vec<String>)
    requires
        scopes.source == old(script).source,
        scopes.dialect == old(script).dialect,
        old(script).stripped_for@ == None::<Seq<char>>,
    ensures
        final(script).source == old(script).source,
        final(script).dialect == old(script).dialect,
        final(script).stripped_for@ == Some(filename@),
        message_texts(r@) == ts_transform_messages(old(script).source@, old(script).dialect@, filename@),
{
    let options = TransformOptions::default();
    let ret = Transformer::new(allocator, Path::new(filename), &options)
        .build_with_scoping(scopes.scoping, &mut script.program);
    script.stripped_for = Ghost(Some(filename@));
    ret.diagnostics.iter().map(|e| e.to_string()).collect()
}

/// Relies on oxc_codegen::Codegen::build: the text of a stripped program,
/// which depends on what it was parsed and stripped from alone.
#[verifier::external_body]
fn render_program<'a>(script: &ParsedScript<'a>) -> (r: String)
    requires
        script.stripped_for@ is Some,
    ensures
        r@ == ts_output(script.source@, script.dialect@, script.stripped_for@->Some_0),
{
    Codegen::new().with_options(CodegenOptions::default()).build(&script.program).code
}

/// Turns the diagnostics of the parse stage into a result: an error carrying
/// them all when there is any.
pub fn parse_stage(messages: &Vec<String>) -> (r: Result<(), CompileError>)
    ensures
        messages@.len() == 0 <==> r is Ok,
        r is Err ==> outcome(Err(r->Err_0)) == Err::<Seq<char>, (Stage, Seq<char>)>(
            (Stage::Parse, joined(message_texts(messages@))),
        ),
{
    if messages.len() == 0 {
        Ok(())
    } else {
        Err(CompileError::ParseError(join_diagnostics(messages)))
    }
}

/// Turns the diagnostics of the lowering stage into a result: an error
/// carrying them all when there is any.
pub fn transform_stage(messages: &Vec<String>) -> (r: Result<(), CompileError>)
    ensures
        messages@.len() == 0 <==> r is Ok,
        r is Err ==> outcome(Err(r->Err_0)) == Err::<Seq<char>, (Stage, Seq<char>)>(
            (Stage::Transform, joined(message_texts(messages@))),
        ),
{
    if messages.len() == 0 {
        Ok(())
    } else {
        Err(CompileError::TransformError(join_diagnostics(messages)))
    }
}

/// Compiles typed script source without any cache: parse under the dialect the
/// file name gives (typed script when it gives none), analyse scopes, strip
/// the typing constructs and print the program.
pub fn compile_typescript_internal(source: &str, filename: &str) -> (r: Result<
    String,
    CompileError,
>)
    ensures
        outcome(r) == ts_compiled(source@, filename@),
{
    let allocator = new_allocator();
    let dialect = match dialect_from_path(filename) {
        Some(d) => d,
        None => typed_dialect(),
    };
    let (mut script, parse_messages) = parse_program(&allocator, source, &dialect);
    match parse_stage(&parse_messages) {
        Ok(()) => {},
        Err(e) => {
            return Err(e);
        },
    }
    let scopes = build_scoping(&script);
    let transform_messages = strip_types(&allocator, filename, scopes, &mut script);
    match transform_stage(&transform_messages) {
        Ok(()) => {},
        Err(e) => {
            return Err(e);
        },
    }
    Ok(render_program(&script))
}

/// An empty cache of `TS_CACHE_CAPACITY` compiled scripts.
pub fn new_cache() -> (r: MemoCache<String>)
    ensures
        r.wf(),
        r@ == Map::<u64, Seq<char>>::empty(),
        r.capacity() == TS_CACHE_CAPACITY,
        forall|filename: Seq<char>| #[trigger] ts_faithful(r, filename),
{
    MemoCache::new(TS_CACHE_CAPACITY)
}

/// Empties the cache.
pub fn clear_cache(cache: &mut MemoCache<String>)
    requires
        old(cache).wf(),
    ensures
        final(cache).wf(),
        final(cache)@ == Map::<u64, Seq<char>>::empty(),
        final(cache).capacity() == old(cache).capacity(),
        forall|filename: Seq<char>| #[trigger] ts_faithful(*final(cache), filename),
{
    cache.clear();
}

/// One compilation of `source` from the file `filename` on the cache
/// `before`, leaving `after`: a hit returns the stored script, a miss returns
/// what the uncached compilation gives, and only a fresh success is stored.
pub open spec fn transpile_step(
    before: MemoCache<String>,
    source: Seq<char>,
    filename: Seq<char>,
    output: Result<Seq<char>, (Stage, Seq<char>)>,
    after: MemoCache<String>,
) -> bool {
    &&& after.wf()
    &&& after.capacity() == before.capacity()
    &&& output == (if before@.contains_key(fingerprint(source)) {
        Ok(before@[fingerprint(source)])
    } else {
        ts_compiled(source, filename)
    })
    &&& memo_step(before@, before.capacity(), fingerprint(source), success(output), after@)
}

/// Each stored script is what compiling the source it came from gives, for
/// the file name `filename`.
pub open spec fn ts_faithful(cache: MemoCache<String>, filename: Seq<char>) -> bool {
    forall|k: u64| #[trigger]
        cache.origin().contains_key(k) ==> ts_compiled(cache.origin()[k], filename) == Ok::<
            Seq<char>,
            (Stage, Seq<char>),
        >(cache@[k])
}

/// Compiles typed script source into plain script. The result is looked up
/// in `cache` first by the fingerprint of `source`; on a miss it is what
/// `compile_typescript_internal` gives, a success is stored, and a failure
/// leaves the cache as it was.
pub fn compile_typescript_to_js(cache: &mut MemoCache<String>, source: &str, filename: &str) -> (r:
    Result<String, CompileError>)
    requires
        old(cache).wf(),
    ensures
        transpile_step(*old(cache), source@, filename@, outcome(r), *final(cache)),
        ts_faithful(*old(cache), filename@) ==> ts_faithful(*final(cache), filename@),
        ts_faithful(*old(cache), filename@) && (!old(cache)@.contains_key(fingerprint(source@))
            || old(cache).origin()[fingerprint(source@)] == source@) ==> outcome(r) == ts_compiled(
            source@,
            filename@,
        ),
{
    match cache.lookup(source) {
        Some(cached) => {
            proof {
                if old(cache)@.contains_key(fingerprint(source@)) {
                    assert(old(cache).origin().contains_key(fingerprint(source@)));
                }
            }
            return Ok(cached.clone());
        },
        None => {},
    }
    let compiled = match compile_typescript_internal(source, filename) {
        Ok(js) => js,
        Err(e) => {
            return Err(e);
        },
    };
    cache.store(source, compiled.clone());
    proof {
        if ts_faithful(*old(cache), filename@) {
            let key = fingerprint(source@);
            assert forall|k: u64| #[trigger] cache.origin().contains_key(k) implies ts_compiled(
                cache.origin()[k],
                filename@,
            ) == Ok::<Seq<char>, (Stage, Seq<char>)>(cache@[k]) by {
                if k != key {
                    assert(old(cache).origin().contains_key(k));
                }
            }
        }
    }
    Ok(compiled)
}

/// Records the outcome of an uncached compilation of `source`: a success is
/// stored, a failure leaves the cache as it was. Returns the outcome.
pub fn record_compilation(
    cache: &mut MemoCache<String>,
    source: &str,
    compiled: Result<String, CompileError>,
) -> (r: Result<String, CompileError>)
    requires
        old(cache).wf(),
    ensures
        final(cache).wf(),
        final(cache).capacity() == old(cache).capacity(),
        outcome(r) == outcome(compiled),
        final(cache)@ == match success(outcome(compiled)) {
            Some(js) => stored(old(cache)@, old(cache).capacity(), fingerprint(source@), js),
            None => old(cache)@,
        },
{
    match compiled {
        Ok(js) => {
            cache.store(source, js.clone());
            Ok(js)
        },
        Err(e) => Err(e),
    }
}

/// On a cache faithful for `filename` that stores no script of another source
/// under the fingerprint of `source`, a compilation gives what the uncached
/// compilation gives.
pub proof fn lemma_transpile_transparent(
    c0: MemoCache<String>,
    c1: MemoCache<String>,
    source: Seq<char>,
    filename: Seq<char>,
    output: Result<Seq<char>, (Stage, Seq<char>)>,
)
    requires
        c0.wf(),
        ts_faithful(c0, filename),
        !c0@.contains_key(fingerprint(source)) || c0.origin()[fingerprint(source)] == source,
        transpile_step(c0, source, filename, output, c1),
    ensures
        output == ts_compiled(source, filename),
{
    if c0@.contains_key(fingerprint(source)) {
        assert(c0.origin().contains_key(fingerprint(source)));
    }
}

/// Two compilations of the same source from the same file, each on a cache
/// faithful for that file name that stores no script of another source under
/// its fingerprint, give the same outcome, whatever was compiled between them.
pub proof fn lemma_transpile_repeatable(
    a0: MemoCache<String>,
    a1: MemoCache<String>,
    b0: MemoCache<String>,
    b1: MemoCache<String>,
    source: Seq<char>,
    filename: Seq<char>,
    first: Result<Seq<char>, (Stage, Seq<char>)>,
    second: Result<Seq<char>, (Stage, Seq<char>)>,
)
    requires
        a0.wf(),
        ts_faithful(a0, filename),
        !a0@.contains_key(fingerprint(source)) || a0.origin()[fingerprint(source)] == source,
        transpile_step(a0, source, filename, first, a1),
        b0.wf(),
        ts_faithful(b0, filename),
        !b0@.contains_key(fingerprint(source)) || b0.origin()[fingerprint(source)] == source,
        transpile_step(b0, source, filename, second, b1),
    ensures
        second == first,
{
    lemma_transpile_transparent(a0, a1, source, filename, first);
    lemma_transpile_transparent(b0, b1, source, filename, second);
}

/// Compiling the same source from the same file twice in a row gives the same
/// outcome, success or failure, and leaves the cache as the first compilation
/// left it; when the first one missed, both give what the uncached
/// compilation gives.
pub proof fn lemma_transpile_idempotent(
    c0: MemoCache<String>,
    c1: MemoCache<String>,
    c2: MemoCache<String>,
    source: Seq<char>,
    filename: Seq<char>,
    first: Result<Seq<char>, (Stage, Seq<char>)>,
    second: Result<Seq<char>, (Stage, Seq<char>)>,
)
    requires
        c0.wf(),
        transpile_step(c0, source, filename, first, c1),
        transpile_step(c1, source, filename, second, c2),
    ensures
        second == first,
        c2@ == c1@,
        !c0@.contains_key(fingerprint(source)) ==> second == ts_compiled(source, filename),
{
    let key = fingerprint(source);
    if !c0@.contains_key(key) {
        if let Ok(js) = first {
            crate::cache::lemma_stored(c0@, c0.capacity(), key, js);
        }
    }
}

} // verus!
