//! Assembly of WebAssembly text into a binary module, and the script snippet
//! that instantiates that module and publishes its exported functions.

use crate::cache::{fingerprint, memo_step, stored, success, MemoCache};
use crate::wasm_exports::{export_names, exported_function_names, name_views};
use vstd::prelude::*;
use vstd::slice::slice_to_vec;
use vstd::utf8::encode_utf8;

verus! {

/// Number of binaries kept before the cache is emptied.
pub const WASM_CACHE_CAPACITY: usize = 100;

/// Why a module could not be compiled.
#[derive(Debug)]
pub enum CompileError {
    ParseError(String),
}

impl CompileError {
    /// The error as a message for people.
    pub fn to_string(&self) -> (r: String)
        ensures
            match self {
                CompileError::ParseError(m) => r@ == "WAT parse error: "@ + m@,
            },
    {
        match self {
            CompileError::ParseError(m) => {
                let mut out = String::from_str("WAT parse error: ");
                out.append(m.as_str());
                out
            },
        }
    }
}

/// Whether `bytes` start with the four-byte header of a binary module (`\0asm`).
pub open spec fn starts_with_wasm_magic(bytes: Seq<u8>) -> bool {
    &&& bytes.len() >= 4
    &&& bytes[0] == 0x00u8
    &&& bytes[1] == 0x61u8
    &&& bytes[2] == 0x73u8
    &&& bytes[3] == 0x6du8
}

/// What assembling the module text `text` gives: its binary encoding, or the
/// assembler's message.
pub uninterp spec fn wat_assembly(text: Seq<char>) -> Result<Seq<u8>, Seq<char>>;

/// The binary module of `source`: the source bytes themselves when they are
/// already binary, else the assembled text.
pub open spec fn module_binary(source: Seq<char>) -> Result<Seq<u8>, Seq<char>> {
    if starts_with_wasm_magic(encode_utf8(source)) {
        Ok(encode_utf8(source))
    } else {
        wat_assembly(source)
    }
}

/// The message of a failed assembly of the file `filename`.
pub open spec fn assembly_diagnostic(filename: Seq<char>, message: Seq<char>) -> Seq<char> {
    seq!['i', 'n', ' '] + filename + seq![':', ' '] + message
}

/// The sixteen hexadecimal digits, upper case.
pub open spec fn hex_digits() -> Seq<char> {
    seq!['0', '1', '2', '3', '4', '5', '6', '7', '8', '9', 'A', 'B', 'C', 'D', 'E', 'F']
}

/// A byte as a two-digit hexadecimal literal, such as `0x0A`.
pub open spec fn byte_literal(b: u8) -> Seq<char> {
    seq!['0', 'x', hex_digits()[b as int / 16], hex_digits()[b as int % 16]]
}

/// The bytes as hexadecimal literals joined by `, `.
pub open spec fn byte_list(bytes: Seq<u8>) -> Seq<char>
    decreases bytes.len(),
{
    if bytes.len() == 0 {
        Seq::empty()
    } else if bytes.len() == 1 {
        byte_literal(bytes[0])
    } else {
        byte_list(bytes.drop_last()) + seq![',', ' '] + byte_literal(bytes.last())
    }
}

/// Checks for the binary module header at the start of `bytes`.
pub fn has_wasm_magic(bytes: &[u8]) -> (r: bool)
    ensures
        r == starts_with_wasm_magic(bytes@),
{
    bytes.len() >= 4 && bytes[0] == 0x00u8 && bytes[1] == 0x61u8 && bytes[2] == 0x73u8 && bytes[3]
        == 0x6du8
}


/// Script text that precedes the byte list of an embedding snippet.
pub const EMBED_HEAD: &'static str = r#"
(function() {
    try {
        const wasmBytes = new Uint8Array(["#;

/// Script text between the byte list and the list of exported names of an
/// embedding snippet.
pub const EMBED_MID: &'static str = r#"]);

        // The functions named in the module's export section.
        const exportedFunctions = ["#;

/// Script text that follows the list of exported names of an embedding snippet.
pub const EMBED_TAIL: &'static str = r#"];

        WebAssembly.instantiate(wasmBytes)
            .then(function(result) {
                const exports = (result.instance && result.instance.exports) || {};
                window._wasmExports = exports;

                // Publish every exported function under its export name: those
                // listed above, and any other the export table holds.
                for (const name of exportedFunctions.concat(Object.keys(exports))) {
                    const func = exports[name];
                    if (typeof func === 'function') {
                        window[name] = func;
                    }
                }

                // Reads a field of a structured object: through a get_<field>
                // export, then a struct_get_<field> export, then plain access.
                window.WasmGcStructGet = function(structObj, field) {
                    const getters = ['get_' + field, 'struct_get_' + field];
                    for (const getterName of getters) {
                        if (typeof exports[getterName] === 'function') {
                            try {
                                return exports[getterName](structObj);
                            } catch (e) {
                                console.warn('WasmGcStructGet: getter', getterName, 'failed:', e);
                            }
                        }
                    }
                    if (structObj && typeof structObj === 'object') {
                        if (structObj[field] !== undefined) {
                            return structObj[field];
                        }
                        if (structObj['field' + field] !== undefined) {
                            return structObj['field' + field];
                        }
                    }
                    return undefined;
                };

                // Renders the common fields of a structured object as Name{field=value, ...}.
                window.WasmGcStructDisplay = function(structObj, structName) {
                    if (!structObj || typeof structObj !== 'object') {
                        return String(structObj);
                    }
                    structName = structName || 'box';
                    const fields = [];
                    const commonFields = ['val', 'value', 'data', 'x', 'y', 'z', 'width', 'height'];
                    for (const fieldName of commonFields) {
                        try {
                            const fieldValue = window.WasmGcStructGet(structObj, fieldName);
                            if (fieldValue !== undefined) {
                                fields.push(fieldName + '=' + fieldValue);
                            }
                        } catch (e) {
                        }
                    }
                    return structName + '{' + fields.join(', ') + '}';
                };
            })
            .catch(function(e) {
                console.error('WASM instantiation error:', e);
            });
    } catch (e) {
        console.error('WASM error:', e);
    }
})();
"#;

/// A name of plain bytes as text.
pub open spec fn name_text(name: Seq<u8>) -> Seq<char> {
    name.map_values(|x: u8| x as char)
}

/// The names as double-quoted string literals joined by `, `.
pub open spec fn quoted_names(names: Seq<Seq<u8>>) -> Seq<char>
    decreases names.len(),
{
    if names.len() == 0 {
        Seq::empty()
    } else if names.len() == 1 {
        seq!['"'] + name_text(names[0]) + seq!['"']
    } else {
        quoted_names(names.drop_last()) + seq![',', ' ', '"'] + name_text(names.last()) + seq!['"']
    }
}

/// The embedding snippet of a binary module: a script that instantiates the
/// module from an inline byte array, publishes its exported functions as
/// globals, naming those of its export section in a list of string literals,
/// and installs the field reader and display helpers.
pub open spec fn embedding_text(binary: Seq<u8>) -> Seq<char> {
    EMBED_HEAD@ + byte_list(binary) + EMBED_MID@ + quoted_names(export_names(binary)) + EMBED_TAIL@
}

/// Relies on std's String::push: appends one character.
#[verifier::external_body]
fn push_char(out: &mut String, c: char)
    ensures
        final(out)@ == old(out)@.push(c),
{
    out.push(c);
}

/// Appends `name` as a double-quoted string literal.
fn push_quoted_name(out: &mut String, name: &Vec<u8>)
    ensures
        final(out)@ == old(out)@ + seq!['"'] + name_text(name@) + seq!['"'],
{
    let ghost start = out@;
    push_char(out, '"');
    let mut i: usize = 0;
    while i < name.len()
        invariant
            i <= name@.len(),
            out@ == start + seq!['"'] + name_text(name@.take(i as int)),
        decreases name.len() - i,
    {
        push_char(out, name[i] as char);
        i = i + 1;
        assert(name_text(name@.take(i as int)) =~= name_text(name@.take(i - 1)).push(
            name@[i - 1] as char,
        ));
        assert(out@ =~= start + seq!['"'] + name_text(name@.take(i as int)));
    }
    assert(name@.take(i as int) =~= name@);
    push_char(out, '"');
    assert(out@ =~= start + seq!['"'] + name_text(name@) + seq!['"']);
}

/// Appends the names as double-quoted string literals joined by `, `.
fn push_quoted_names(out: &mut String, names: &Vec<Vec<u8>>)
    ensures
        final(out)@ == old(out)@ + quoted_names(name_views(names@)),
{
    let ghost start = out@;
    let mut i: usize = 0;
    while i < names.len()
        invariant
            i <= names@.len(),
            out@ == start + quoted_names(name_views(names@.take(i as int))),
        decreases names.len() - i,
    {
        assert(name_views(names@.take(i as int + 1)).drop_last() =~= name_views(
            names@.take(i as int),
        ));
        assert(name_views(names@.take(i as int + 1)).last() == names@[i as int]@);
        if i > 0 {
            proof {
                reveal_strlit(", ");
            }
            out.append(", ");
        } else {
            assert(name_views(names@.take(0)) =~= Seq::<Seq<u8>>::empty());
        }
        push_quoted_name(out, &names[i]);
        i = i + 1;
        assert(out@ =~= start + quoted_names(name_views(names@.take(i as int))));
    }
    assert(names@.take(i as int) =~= names@);
}

/// The hexadecimal digit of `n`.
fn hex_digit(n: u8) -> (r: &'static str)
    requires
        n < 16,
    ensures
        r@ == seq![hex_digits()[n as int]],
{
    if n == 0 {
        proof {
            reveal_strlit("0");
        }
        "0"
    } else if n == 1 {
        proof {
            reveal_strlit("1");
        }
        "1"
    } else if n == 2 {
        proof {
            reveal_strlit("2");
        }
        "2"
    } else if n == 3 {
        proof {
            reveal_strlit("3");
        }
        "3"
    } else if n == 4 {
        proof {
            reveal_strlit("4");
        }
        "4"
    } else if n == 5 {
        proof {
            reveal_strlit("5");
        }
        "5"
    } else if n == 6 {
        proof {
            reveal_strlit("6");
        }
        "6"
    } else if n == 7 {
        proof {
            reveal_strlit("7");
        }
        "7"
    } else if n == 8 {
        proof {
            reveal_strlit("8");
        }
        "8"
    } else if n == 9 {
        proof {
            reveal_strlit("9");
        }
        "9"
    } else if n == 10 {
        proof {
            reveal_strlit("A");
        }
        "A"
    } else if n == 11 {
        proof {
            reveal_strlit("B");
        }
        "B"
    } else if n == 12 {
        proof {
            reveal_strlit("C");
        }
        "C"
    } else if n == 13 {
        proof {
            reveal_strlit("D");
        }
        "D"
    } else if n == 14 {
        proof {
            reveal_strlit("E");
        }
        "E"
    } else {
        proof {
            reveal_strlit("F");
        }
        "F"
    }
}

/// Appends the hexadecimal literal of `b` to `out`.
fn push_byte_literal(out: &mut String, b: u8)
    ensures
        final(out)@ == old(out)@ + byte_literal(b),
{
    proof {
        reveal_strlit("0x");
    }
    out.append("0x");
    out.append(hex_digit(b / 16));
    out.append(hex_digit(b % 16));
    assert(out@ =~= old(out)@ + byte_literal(b));
}

/// Appends the bytes of `binary` as hexadecimal literals joined by `, `.
fn push_byte_list(out: &mut String, binary: &[u8])
    ensures
        final(out)@ == old(out)@ + byte_list(binary@),
{
    let ghost start = out@;
    let mut i: usize = 0;
    while i < binary.len()
        invariant
            i <= binary.len(),
            out@ == start + byte_list(binary@.take(i as int)),
        decreases binary.len() - i,
    {
        assert(binary@.take(i as int + 1).drop_last() =~= binary@.take(i as int));
        if i > 0 {
            proof {
                reveal_strlit(", ");
            }
            out.append(", ");
        } else {
            assert(binary@.take(0) =~= Seq::<u8>::empty());
        }
        push_byte_literal(out, binary[i]);
        i = i + 1;
        assert(out@ =~= start + byte_list(binary@.take(i as int)));
    }
    assert(binary@.take(i as int) =~= binary@);
}

/// Renders the embedding snippet of `binary`.
pub fn embedding_snippet(binary: &[u8]) -> (r: String)
    ensures
        r@ == embedding_text(binary@),
{
    let mut out = String::from_str(EMBED_HEAD);
    push_byte_list(&mut out, binary);
    out.append(EMBED_MID);
    let names = exported_function_names(binary);
    push_quoted_names(&mut out, &names);
    out.append(EMBED_TAIL);
    assert(out@ =~= embedding_text(binary@));
    out
}

/// Relies on wat::parse_str: the binary encoding of module text, or the
/// assembler's error rendered as text; the outcome depends on the text alone.
#[verifier::external_body]
fn assemble_text(source: &str) -> (r: Result<Vec<u8>, String>)
    ensures
        match r {
            Ok(b) => wat_assembly(source@) == Ok::<Seq<u8>, Seq<char>>(b@),
            Err(m) => wat_assembly(source@) == Err::<Seq<u8>, Seq<char>>(m@),
        },
{
    wat::parse_str(source).map_err(|e| e.to_string())
}


/// The outcome of a compilation as text: the snippet, or the error's message.
pub open spec fn outcome_text(r: Result<String, CompileError>) -> Result<Seq<char>, Seq<char>> {
    match r {
        Ok(js) => Ok(js@),
        Err(CompileError::ParseError(m)) => Err(m@),
    }
}

/// The output owed for a module binary, or for the assembler's message.
pub open spec fn expected_output(binary: Result<Seq<u8>, Seq<char>>, filename: Seq<char>) -> Result<
    Seq<char>,
    Seq<char>,
> {
    match binary {
        Ok(b) => Ok(embedding_text(b)),
        Err(m) => Err(assembly_diagnostic(filename, m)),
    }
}

/// The binary used for `source` with a cache holding `cached`: the stored one on
/// a hit, else a fresh one.
pub open spec fn cached_binary(cached: Map<u64, Seq<u8>>, source: Seq<char>) -> Result<
    Seq<u8>,
    Seq<char>,
> {
    if cached.contains_key(fingerprint(source)) {
        Ok(cached[fingerprint(source)])
    } else {
        module_binary(source)
    }
}

/// Turns a failed assembly of `filename` into a `ParseError`.
fn assembly_error(filename: &str, message: String) -> (r: CompileError)
    ensures
        r matches CompileError::ParseError(m) && m@ == assembly_diagnostic(filename@, message@),
{
    proof {
        reveal_strlit("in ");
        reveal_strlit(": ");
    }
    let mut text = String::from_str("in ");
    text.append(filename);
    text.append(": ");
    text.append(message.as_str());
    assert(text@ =~= assembly_diagnostic(filename@, message@));
    CompileError::ParseError(text)
}

/// The stage that would add field accessors for structured objects to a
/// binary; it hands the binary back unchanged.
pub fn inject_gc_accessors(wasm_binary: &[u8]) -> (r: Result<Vec<u8>, CompileError>)
    ensures
        r matches Ok(b) && b@ == wasm_binary@,
{
    Ok(slice_to_vec(wasm_binary))
}

/// The binary module of `source`: its bytes when they already start with the
/// binary header, else the assembled text.
pub fn compile_wat_internal(source: &str, filename: &str) -> (r: Result<Vec<u8>, CompileError>)
    ensures
        match module_binary(source@) {
            Ok(b) => r matches Ok(v) && v@ == b,
            Err(m) => r matches Err(CompileError::ParseError(e)) && e@ == assembly_diagnostic(
                filename@,
                m,
            ),
        },
{
    let source_bytes = source.as_bytes();
    let wasm_binary = if has_wasm_magic(source_bytes) {
        slice_to_vec(source_bytes)
    } else {
        match assemble_text(source) {
            Ok(b) => b,
            Err(m) => {
                return Err(assembly_error(filename, m));
            },
        }
    };
    inject_gc_accessors(wasm_binary.as_slice())
}

/// Compiles `source` without any cache: the embedding snippet of its binary.
pub fn compile_wat_uncached(source: &str, filename: &str) -> (r: Result<String, CompileError>)
    ensures
        outcome_text(r) == expected_output(module_binary(source@), filename@),
{
    match compile_wat_internal(source, filename) {
        Ok(binary) => Ok(embedding_snippet(binary.as_slice())),
        Err(e) => Err(e),
    }
}

/// The binaries of compiled modules, keyed by the fingerprint of their source.
pub struct AssemblyCache {
    binaries: MemoCache<Vec<u8>>,
}

impl View for AssemblyCache {
    type V = Map<u64, Seq<u8>>;

    closed spec fn view(&self) -> Map<u64, Seq<u8>> {
        self.binaries@
    }
}

impl AssemblyCache {
    /// The largest number of binaries the cache holds.
    pub closed spec fn capacity(&self) -> nat {
        self.binaries.capacity()
    }

    /// For each stored binary, the source it was compiled from.
    pub closed spec fn origin(&self) -> Map<u64, Seq<char>> {
        self.binaries.origin()
    }

    /// The cache is within its capacity and keyed by fingerprints.
    pub closed spec fn wf(&self) -> bool {
        self.binaries.wf()
    }

    /// Each stored binary is the binary module of the source it came from.
    pub closed spec fn faithful(&self) -> bool {
        forall|k: u64| #[trigger]
            self.origin().contains_key(k) ==> module_binary(self.origin()[k]) == Ok::<
                Seq<u8>,
                Seq<char>,
            >(self@[k])
    }

    /// An empty cache of `WASM_CACHE_CAPACITY` binaries.
    pub fn new() -> (r: Self)
        ensures
            r.wf(),
            r.faithful(),
            r@ == Map::<u64, Seq<u8>>::empty(),
            r.capacity() == WASM_CACHE_CAPACITY,
    {
        AssemblyCache { binaries: MemoCache::new(WASM_CACHE_CAPACITY) }
    }

    /// A copy of the binary stored for the fingerprint of `source`, if any.
    pub fn lookup(&self, source: &str) -> (r: Option<Vec<u8>>)
        requires
            self.wf(),
        ensures
            match r {
                Some(b) => self@.contains_key(fingerprint(source@)) && b@ == self@[fingerprint(
                    source@,
                )],
                None => !self@.contains_key(fingerprint(source@)),
            },
    {
        match self.binaries.lookup(source) {
            Some(binary) => Some(slice_to_vec(binary.as_slice())),
            None => None,
        }
    }

    /// Stores `binary` as the binary of `source`, emptying the cache first when
    /// a new entry would exceed the capacity.
    pub fn store(&mut self, source: &str, binary: &[u8])
        requires
            old(self).wf(),
        ensures
            final(self).wf(),
            final(self).capacity() == old(self).capacity(),
            final(self)@ == stored(old(self)@, old(self).capacity(), fingerprint(source@), binary@),
            old(self).faithful() && module_binary(source@) == Ok::<Seq<u8>, Seq<char>>(binary@)
                ==> final(self).faithful(),
    {
        self.binaries.store(source, slice_to_vec(binary));
        proof {
            if old(self).faithful() && module_binary(source@) == Ok::<Seq<u8>, Seq<char>>(
                binary@,
            ) {
                let key = fingerprint(source@);
                assert forall|k: u64| #[trigger] self.origin().contains_key(k) implies module_binary(
                    self.origin()[k],
                ) == Ok::<Seq<u8>, Seq<char>>(self@[k]) by {
                    if k != key {
                        assert(old(self).origin().contains_key(k));
                    }
                }
            }
        }
    }
}

/// Records the outcome of an uncached compilation of `source`: a binary is
/// stored, a failure leaves the cache as it was. Returns the outcome.
pub fn record_assembly(
    cache: &mut AssemblyCache,
    source: &str,
    compiled: Result<Vec<u8>, CompileError>,
) -> (r: Result<Vec<u8>, CompileError>)
    requires
        old(cache).wf(),
    ensures
        final(cache).wf(),
        final(cache).capacity() == old(cache).capacity(),
        match compiled {
            Ok(b) => r matches Ok(v) && v@ == b@ && final(cache)@ == stored(
                old(cache)@,
                old(cache).capacity(),
                fingerprint(source@),
                b@,
            ),
            Err(CompileError::ParseError(m)) => r matches Err(CompileError::ParseError(e)) && e@
                == m@ && final(cache)@ == old(cache)@,
        },
        old(cache).faithful() && (compiled matches Ok(b) ==> module_binary(source@) == Ok::<
            Seq<u8>,
            Seq<char>,
        >(b@)) ==> final(cache).faithful(),
{
    match compiled {
        Ok(binary) => {
            cache.store(source, binary.as_slice());
            Ok(binary)
        },
        Err(e) => Err(e),
    }
}

/// Empties the cache.
pub fn clear_cache(cache: &mut AssemblyCache)
    requires
        old(cache).wf(),
    ensures
        final(cache).wf(),
        final(cache).faithful(),
        final(cache)@ == Map::<u64, Seq<u8>>::empty(),
        final(cache).capacity() == old(cache).capacity(),
{
    cache.binaries.clear();
}

/// One compilation of `source` on the cache `before`, leaving `after`: the
/// output is the snippet of the cached or freshly compiled binary, and only a
/// fresh success is stored.
pub open spec fn assembly_step(
    before: AssemblyCache,
    source: Seq<char>,
    filename: Seq<char>,
    output: Result<Seq<char>, Seq<char>>,
    after: AssemblyCache,
) -> bool {
    &&& after.wf()
    &&& after.capacity() == before.capacity()
    &&& output == expected_output(cached_binary(before@, source), filename)
    &&& memo_step(
        before@,
        before.capacity(),
        fingerprint(source),
        success(cached_binary(before@, source)),
        after@,
    )
}

/// Compiles WebAssembly text, or a binary module given as is, into a script
/// snippet that instantiates the module and publishes its exported functions.
/// The binary is looked up in `cache` first, and stored there after a fresh
/// success; unless another source with the same fingerprint is stored, the
/// output is the one `compile_wat_uncached` gives.
pub fn compile_wat_to_js(cache: &mut AssemblyCache, source: &str, filename: &str) -> (r: Result<
    String,
    CompileError,
>)
    requires
        old(cache).wf(),
    ensures
        assembly_step(*old(cache), source@, filename@, outcome_text(r), *final(cache)),
        old(cache).faithful() ==> final(cache).faithful(),
        old(cache).faithful() && (!old(cache)@.contains_key(fingerprint(source@)) || old(
            cache,
        ).origin()[fingerprint(source@)] == source@) ==> outcome_text(r) == expected_output(
            module_binary(source@),
            filename@,
        ),
{
    let cached = cache.lookup(source);
    let wasm_binary = match cached {
        Some(binary) => binary,
        None => {
            let binary = match compile_wat_internal(source, filename) {
                Ok(b) => b,
                Err(e) => {
                    return Err(e);
                },
            };
            cache.store(source, binary.as_slice());
            binary
        },
    };
    Ok(embedding_snippet(wasm_binary.as_slice()))
}

/// Compiling the same source twice in a row gives the same output, whether
/// the first compilation succeeded or failed.
pub proof fn lemma_assembly_idempotent(
    c0: AssemblyCache,
    c1: AssemblyCache,
    c2: AssemblyCache,
    source: Seq<char>,
    filename: Seq<char>,
    first: Result<Seq<char>, Seq<char>>,
    second: Result<Seq<char>, Seq<char>>,
)
    requires
        c0.wf(),
        assembly_step(c0, source, filename, first, c1),
        assembly_step(c1, source, filename, second, c2),
    ensures
        second == first,
{
    let key = fingerprint(source);
    if !c0@.contains_key(key) {
        if let Ok(b) = module_binary(source) {
            crate::cache::lemma_stored(c0@, c0.capacity(), key, b);
        }
    }
}

/// On a faithful cache that stores no binary of another source under the
/// fingerprint of `source`, a compilation gives what the uncached compilation
/// gives.
pub proof fn lemma_assembly_transparent(
    c0: AssemblyCache,
    c1: AssemblyCache,
    source: Seq<char>,
    filename: Seq<char>,
    output: Result<Seq<char>, Seq<char>>,
)
    requires
        c0.wf(),
        c0.faithful(),
        !c0@.contains_key(fingerprint(source)) || c0.origin()[fingerprint(source)] == source,
        assembly_step(c0, source, filename, output, c1),
    ensures
        output == expected_output(module_binary(source), filename),
{
    if c0@.contains_key(fingerprint(source)) {
        assert(c0.origin().contains_key(fingerprint(source)));
    }
}

/// Two compilations of the same source from the same file, each on a faithful
/// cache that stores no binary of another source under its fingerprint, give
/// the same output, whatever was compiled between them.
pub proof fn lemma_assembly_repeatable(
    a0: AssemblyCache,
    a1: AssemblyCache,
    b0: AssemblyCache,
    b1: AssemblyCache,
    source: Seq<char>,
    filename: Seq<char>,
    first: Result<Seq<char>, Seq<char>>,
    second: Result<Seq<char>, Seq<char>>,
)
    requires
        a0.wf(),
        a0.faithful(),
        !a0@.contains_key(fingerprint(source)) || a0.origin()[fingerprint(source)] == source,
        assembly_step(a0, source, filename, first, a1),
        b0.wf(),
        b0.faithful(),
        !b0@.contains_key(fingerprint(source)) || b0.origin()[fingerprint(source)] == source,
        assembly_step(b0, source, filename, second, b1),
    ensures
        second == first,
{
    lemma_assembly_transparent(a0, a1, source, filename, first);
    lemma_assembly_transparent(b0, b1, source, filename, second);
}

/// A source that is already a binary module compiles, without assembly, to the
/// snippet of exactly its bytes, when the cache holds no binary of another
/// source under its fingerprint.
pub proof fn lemma_binary_input_snippet(
    c0: AssemblyCache,
    c1: AssemblyCache,
    source: Seq<char>,
    filename: Seq<char>,
    output: Result<Seq<char>, Seq<char>>,
)
    requires
        c0.wf(),
        c0.faithful(),
        starts_with_wasm_magic(encode_utf8(source)),
        !c0@.contains_key(fingerprint(source)) || c0.origin()[fingerprint(source)] == source,
        assembly_step(c0, source, filename, output, c1),
    ensures
        output == Ok::<Seq<char>, Seq<char>>(embedding_text(encode_utf8(source))),
{
    if c0@.contains_key(fingerprint(source)) {
        assert(c0.origin().contains_key(fingerprint(source)));
    }
}

/// A source that is already a binary module is stored byte for byte.
pub proof fn lemma_binary_pass_through(
    c0: AssemblyCache,
    c1: AssemblyCache,
    source: Seq<char>,
    filename: Seq<char>,
    output: Result<Seq<char>, Seq<char>>,
)
    requires
        c0.wf(),
        starts_with_wasm_magic(encode_utf8(source)),
        assembly_step(c0, source, filename, output, c1),
        !c0@.contains_key(fingerprint(source)),
    ensures
        c1@.contains_key(fingerprint(source)),
        c1@[fingerprint(source)] == encode_utf8(source),
        output == Ok::<Seq<char>, Seq<char>>(embedding_text(encode_utf8(source))),
{
    crate::cache::lemma_stored(c0@, c0.capacity(), fingerprint(source), encode_utf8(source));
}

} // verus!
