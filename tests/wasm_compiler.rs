use script_compiler::wasm_compiler::{
    clear_cache, compile_wat_internal, compile_wat_to_js, compile_wat_uncached,
    embedding_snippet, has_wasm_magic, inject_gc_accessors, record_assembly, AssemblyCache,
    CompileError,
};
use script_compiler::wasm_exports::exported_function_names;

const ADD_MODULE: &str = r#"
            (module
              (func $add (param $a i32) (param $b i32) (result i32)
                local.get $a
                local.get $b
                i32.add)
              (export "add" (func $add)))
        "#;

fn compile(source: &str, filename: &str) -> Result<String, CompileError> {
    let mut cache = AssemblyCache::new();
    compile_wat_to_js(&mut cache, source, filename)
}

#[test]
fn test_simple_wasm() {
    let result = compile(ADD_MODULE, "test.wat");
    assert!(result.is_ok());

    let js = result.unwrap();
    assert!(js.contains("WebAssembly"));
    // The binary is embedded as a byte array of hexadecimal literals, not as a data URL.
    assert!(js.contains("new Uint8Array([0x00, 0x61, 0x73, 0x6D, 0x01, 0x00, 0x00, 0x00"));
}

#[test]
fn wasm_compiler_test_caching() {
    let mut cache = AssemblyCache::new();
    clear_cache(&mut cache);

    let source = "(module)";

    let result1 = compile_wat_to_js(&mut cache, source, "test.wat");
    assert!(result1.is_ok());

    let result2 = compile_wat_to_js(&mut cache, source, "test.wat");
    assert!(result2.is_ok());

    assert_eq!(result1.unwrap(), result2.unwrap());
}

#[test]
fn test_invalid_wat() {
    let source = "(module (invalid syntax))";

    let result = compile(source, "test.wat");
    assert!(result.is_err());
}

#[test]
fn add_module_compiled_twice_gives_one_snippet() {
    let mut cache = AssemblyCache::new();
    let first = compile_wat_to_js(&mut cache, ADD_MODULE, "test.wat").unwrap();
    let second = compile_wat_to_js(&mut cache, ADD_MODULE, "test.wat").unwrap();
    assert_eq!(first, second);
    assert!(first.contains("new Uint8Array([0x00, 0x61, 0x73, 0x6D"));
    // The export name "add" is in the embedded binary ...
    assert!(first.contains("0x61, 0x64, 0x64"));
    // ... its name is listed as a string literal in the publication code ...
    assert!(first.contains("const exportedFunctions = [\"add\"];"));
    // ... and every exported function is published under its export name.
    assert!(first.contains("window[name] = func;"));
    assert!(first.contains("exportedFunctions.concat(Object.keys(exports))"));
    assert!(first.contains("window.WasmGcStructGet"));
    assert!(first.contains("window.WasmGcStructDisplay"));
}

#[test]
fn binary_input_passes_through() {
    let source = "\0asm\u{1}\0\0\0";
    let mut cache = AssemblyCache::new();
    let js = compile_wat_to_js(&mut cache, source, "module.wasm").unwrap();
    assert_eq!(cache.lookup(source), Some(source.as_bytes().to_vec()));
    assert!(js.contains("new Uint8Array([0x00, 0x61, 0x73, 0x6D, 0x01, 0x00, 0x00, 0x00]);"));
    assert_eq!(js, embedding_snippet(source.as_bytes()));
}

#[test]
fn binary_header_needs_four_bytes() {
    assert!(has_wasm_magic(&[0x00, 0x61, 0x73, 0x6d]));
    assert!(has_wasm_magic(&[0x00, 0x61, 0x73, 0x6d, 0x01]));
    assert!(!has_wasm_magic(&[0x00, 0x61, 0x73]));
    assert!(!has_wasm_magic(&[0x00, 0x61, 0x73, 0x6e]));
    assert!(!has_wasm_magic(b"(module)"));
    assert!(!has_wasm_magic(&[]));
}

#[test]
fn snippet_lists_each_byte_in_hex() {
    let js = embedding_snippet(&[0x00, 0x0a, 0xff, 0x7f]);
    assert!(js.contains("new Uint8Array([0x00, 0x0A, 0xFF, 0x7F]);"));
    let empty = embedding_snippet(&[]);
    assert!(empty.contains("new Uint8Array([]);"));
}

#[test]
fn text_module_is_assembled() {
    let binary = compile_wat_internal("(module)", "empty.wat").unwrap();
    assert_eq!(binary, vec![0x00, 0x61, 0x73, 0x6d, 0x01, 0x00, 0x00, 0x00]);
}

#[test]
fn assembly_failure_names_the_file() {
    match compile_wat_internal("(module (invalid syntax))", "broken.wat") {
        Err(CompileError::ParseError(m)) => assert!(m.starts_with("in broken.wat: ")),
        Ok(_) => panic!("expected a parse error"),
    }
}

#[test]
fn failures_repeat_identically_and_are_not_cached() {
    let mut cache = AssemblyCache::new();
    let source = "(module (invalid syntax))";
    let first = compile_wat_to_js(&mut cache, source, "x.wat").unwrap_err();
    assert!(cache.lookup(source).is_none());
    let second = compile_wat_to_js(&mut cache, source, "x.wat").unwrap_err();
    match (first, second) {
        (CompileError::ParseError(a), CompileError::ParseError(b)) => assert_eq!(a, b),
    }
}

#[test]
fn accessor_stage_is_identity() {
    let bytes = vec![0x00, 0x61, 0x73, 0x6d, 0x01, 0x00, 0x00, 0x00, 0x2a];
    assert_eq!(inject_gc_accessors(&bytes).unwrap(), bytes);
}

#[test]
fn cached_snippet_equals_uncached_snippet() {
    let mut cache = AssemblyCache::new();
    let cached = compile_wat_to_js(&mut cache, ADD_MODULE, "test.wat").unwrap();
    let hit = compile_wat_to_js(&mut cache, ADD_MODULE, "test.wat").unwrap();
    let cold = compile_wat_uncached(ADD_MODULE, "test.wat").unwrap();
    assert_eq!(cached, cold);
    assert_eq!(hit, cold);
}

#[test]
fn clear_cache_forgets_binaries() {
    let mut cache = AssemblyCache::new();
    assert!(compile_wat_to_js(&mut cache, "(module)", "m.wat").is_ok());
    assert!(cache.lookup("(module)").is_some());
    clear_cache(&mut cache);
    assert!(cache.lookup("(module)").is_none());
}

#[test]
fn error_message_names_the_format() {
    assert_eq!(
        CompileError::ParseError("bad".to_string()).to_string(),
        "WAT parse error: bad"
    );
}

#[test]
fn store_then_lookup_returns_the_binary() {
    let mut cache = AssemblyCache::new();
    cache.store("(module)", &[1, 2, 3]);
    assert_eq!(cache.lookup("(module)"), Some(vec![1, 2, 3]));
}

#[test]
fn export_section_names_are_read() {
    let source = r#"(module
        (func $f (result i32) i32.const 1)
        (memory $m 1)
        (export "first" (func $f))
        (export "mem" (memory $m))
        (export "has space" (func $f))
        (export "second_2" (func $f)))"#;
    let binary = compile_wat_internal(source, "m.wat").unwrap();
    let names = exported_function_names(&binary);
    assert_eq!(names, vec![b"first".to_vec(), b"second_2".to_vec()]);
    let js = embedding_snippet(&binary);
    assert!(js.contains("const exportedFunctions = [\"first\", \"second_2\"];"));
}

#[test]
fn malformed_binary_lists_no_names() {
    assert!(exported_function_names(&[0x00, 0x61, 0x73, 0x6d]).is_empty());
    assert!(exported_function_names(&[0x00, 0x61, 0x73, 0x6d, 1, 0, 0, 0, 7, 0xff]).is_empty());
    let js = embedding_snippet(&[0x00, 0x61, 0x73, 0x6d, 1, 0, 0, 0]);
    assert!(js.contains("const exportedFunctions = [];"));
}

#[test]
fn record_assembly_stores_only_binaries() {
    let mut cache = AssemblyCache::new();
    let failed = record_assembly(&mut cache, "x", Err(CompileError::ParseError("no".to_string())));
    assert!(failed.is_err());
    assert!(cache.lookup("x").is_none());
    let stored = record_assembly(&mut cache, "x", Ok(vec![9, 8])).unwrap();
    assert_eq!(stored, vec![9, 8]);
    assert_eq!(cache.lookup("x"), Some(vec![9, 8]));
}
