use script_compiler::cache::MemoCache;
use script_compiler::typescript_compiler::{
    clear_cache, compile_typescript_internal, compile_typescript_to_js, join_diagnostics,
    record_compilation, new_cache, parse_stage,
    transform_stage, CompileError,
};

fn compile(source: &str, filename: &str) -> Result<String, CompileError> {
    let mut cache = new_cache();
    compile_typescript_to_js(&mut cache, source, filename)
}

#[test]
fn test_simple_typescript() {
    let source = r#"
            const greeting: string = "Hello, TypeScript!";
            console.log(greeting);
        "#;

    let result = compile(source, "test.ts");
    assert!(result.is_ok());

    let js = result.ok().unwrap();
    assert!(js.contains("Hello, TypeScript!"));
    assert!(!js.contains(": string"));
}

#[test]
fn test_function_with_types() {
    let source = r#"
            function add(a: number, b: number): number {
                return a + b;
            }
        "#;

    let result = compile(source, "test.ts");
    assert!(result.is_ok());

    let js = result.ok().unwrap();
    assert!(js.contains("function add"));
    assert!(!js.contains(": number"));
}

#[test]
fn typescript_compiler_test_caching() {
    let mut cache = new_cache();
    clear_cache(&mut cache);

    let source = "const x: number = 42;";

    let result1 = compile_typescript_to_js(&mut cache, source, "test.ts");
    assert!(result1.is_ok());

    let result2 = compile_typescript_to_js(&mut cache, source, "test.ts");
    assert!(result2.is_ok());

    assert_eq!(result1.ok().unwrap(), result2.ok().unwrap());
}

#[test]
fn test_invalid_typescript() {
    let source = "const x: = 42;";

    let result = compile(source, "test.ts");
    assert!(result.is_err());
}

#[test]
fn annotated_constant_keeps_its_statement() {
    let js = compile("const x: number = 42;", "test.ts").ok().unwrap();
    assert!(js.contains("const x = 42;"));
    assert!(!js.contains(": number"));
}

#[test]
fn annotated_function_keeps_its_body() {
    let source = "function add(a: number, b: number): number { return a + b; }";
    let js = compile(source, "test.ts").ok().unwrap();
    assert!(js.contains("function add"));
    assert!(js.contains("return a + b;"));
    assert!(!js.contains(": number"));
}

#[test]
fn malformed_source_is_a_parse_error() {
    let result = compile("const x: = 42;", "test.ts");
    assert!(matches!(result, Err(CompileError::ParseError(_))));
}

#[test]
fn unknown_extension_falls_back_to_typed_dialect() {
    let js = compile("let n: number = 1;", "script.unknown").ok().unwrap();
    assert!(js.contains("let n = 1;"));
    assert!(!js.contains(": number"));
}

#[test]
fn statements_stay_in_order() {
    let source = "interface P { x: number }\nconst a: string = \"first\";\nconst b: P = { x: 2 };\nconsole.log(a, b);";
    let js = compile(source, "test.ts").ok().unwrap();
    assert!(!js.contains("interface"));
    assert!(!js.contains(": string"));
    let first = js.find("const a = \"first\";").unwrap();
    let second = js.find("const b = { x: 2 };").unwrap();
    let third = js.find("console.log(a, b);").unwrap();
    assert!(first < second && second < third);
}

#[test]
fn cache_hit_returns_stored_script() {
    let mut cache = new_cache();
    let source = "const y: number = 7;";
    let first = compile_typescript_to_js(&mut cache, source, "a.ts").ok().unwrap();
    // A different label gives the same fingerprint, so the stored script comes back.
    let second = compile_typescript_to_js(&mut cache, source, "b.ts").ok().unwrap();
    assert_eq!(first, second);
    assert_eq!(cache.lookup(source), Some(&first));
}

#[test]
fn cached_script_equals_uncached_script() {
    let source = "const z: boolean = true;";
    let mut cache = new_cache();
    let cached_first = compile_typescript_to_js(&mut cache, source, "test.ts").ok().unwrap();
    let cached_second = compile_typescript_to_js(&mut cache, source, "test.ts").ok().unwrap();
    let mut always_cold: MemoCache<String> = new_cache();
    let cold = compile_typescript_to_js(&mut always_cold, source, "test.ts").ok().unwrap();
    assert_eq!(cached_first, cold);
    assert_eq!(cached_second, cold);
}

#[test]
fn failure_is_not_cached() {
    let mut cache = new_cache();
    let source = "const x: = 42;";
    assert!(compile_typescript_to_js(&mut cache, source, "test.ts").is_err());
    assert!(cache.lookup(source).is_none());
    assert!(compile_typescript_to_js(&mut cache, source, "test.ts").is_err());
}

#[test]
fn clear_cache_empties_scripts() {
    let mut cache = new_cache();
    let source = "const q: number = 3;";
    assert!(compile_typescript_to_js(&mut cache, source, "test.ts").is_ok());
    assert!(cache.lookup(source).is_some());
    clear_cache(&mut cache);
    assert!(cache.lookup(source).is_none());
}

#[test]
fn diagnostics_are_joined_with_semicolons() {
    let messages = vec!["first".to_string(), "second".to_string(), "third".to_string()];
    assert_eq!(join_diagnostics(&messages), "first; second; third");
    assert_eq!(join_diagnostics(&vec!["only".to_string()]), "only");
    assert_eq!(join_diagnostics(&Vec::new()), "");
}

#[test]
fn stage_errors_carry_their_kind() {
    let messages = vec!["bad token".to_string(), "unexpected end".to_string()];
    match parse_stage(&messages) {
        Err(CompileError::ParseError(m)) => assert_eq!(m, "bad token; unexpected end"),
        _ => panic!("expected a parse error"),
    }
    match transform_stage(&messages) {
        Err(CompileError::TransformError(m)) => assert_eq!(m, "bad token; unexpected end"),
        _ => panic!("expected a transform error"),
    }
    assert!(parse_stage(&Vec::new()).is_ok());
    assert!(transform_stage(&Vec::new()).is_ok());
}

#[test]
fn error_messages_name_the_stage() {
    assert_eq!(
        CompileError::ParseError("x".to_string()).to_string(),
        "TypeScript parse error: x"
    );
    assert_eq!(
        CompileError::TransformError("y".to_string()).to_string(),
        "TypeScript transform error: y"
    );
    assert_eq!(
        CompileError::CodegenError("z".to_string()).to_string(),
        "JavaScript codegen error: z"
    );
}

#[test]
fn name_without_extension_compiles_as_typed_script() {
    let js = compile_typescript_internal("const x: number = 42;", "noext").unwrap();
    assert!(js.contains("const x = 42;"));
    assert!(!js.contains(": number"));
}

#[test]
fn miss_returns_the_uncached_outcome() {
    let source = "let v: string = \"s\";";
    let uncached = compile_typescript_internal(source, "m.ts").unwrap();
    let mut cache = new_cache();
    assert_eq!(compile_typescript_to_js(&mut cache, source, "m.ts").unwrap(), uncached);
    let failed = compile_typescript_internal("const x: = 42;", "m.ts").unwrap_err();
    let again = compile_typescript_to_js(&mut cache, "const x: = 42;", "m.ts").unwrap_err();
    assert_eq!(failed.to_string(), again.to_string());
}

#[test]
fn record_compilation_stores_only_successes() {
    let mut cache = new_cache();
    let failed = record_compilation(&mut cache, "s", Err(CompileError::ParseError("e".to_string())));
    assert!(failed.is_err());
    assert!(cache.lookup("s").is_none());
    let ok = record_compilation(&mut cache, "s", Ok("let s = 1;".to_string())).unwrap();
    assert_eq!(ok, "let s = 1;");
    assert_eq!(cache.lookup("s"), Some(&"let s = 1;".to_string()));
}
