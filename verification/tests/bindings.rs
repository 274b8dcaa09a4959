use equilibrium_ffi::{
    c_type_to_rust, check_header, generate_bindings_from_source, generate_enum, generate_function,
    generate_struct, generate_typedef, header_is_parsable, parse_c_header, parse_function_line,
    parse_typedef_line, sanitize_path_for_comment, should_include, BindingOptions, EnumDef,
    FunctionDef, StructDef, TypedefDef, MAX_HEADER_BYTES, MAX_HEADER_LINES,
};

#[test]
fn test_c_type_to_rust() {
    assert_eq!(c_type_to_rust("int"), "c_int");
    assert_eq!(c_type_to_rust("void"), "()");
    assert_eq!(c_type_to_rust("char *"), "*mut c_char");
    assert_eq!(c_type_to_rust("const char *"), "*const c_char");
}

#[test]
fn test_c_type_to_rust_extended() {
    assert_eq!(c_type_to_rust("unsigned int"), "c_uint");
    assert_eq!(c_type_to_rust("unsigned long"), "c_ulong");
    assert_eq!(c_type_to_rust("long long"), "c_longlong");
    assert_eq!(c_type_to_rust("size_t"), "usize");
    assert_eq!(c_type_to_rust("ssize_t"), "isize");
    assert_eq!(c_type_to_rust("bool"), "bool");
    assert_eq!(c_type_to_rust("float"), "c_float");
    assert_eq!(c_type_to_rust("double"), "c_double");
    assert_eq!(c_type_to_rust("void*"), "*mut c_void");
    // const stripping
    assert_eq!(c_type_to_rust("const int"), "c_int");
}

#[test]
fn c_type_pointers_and_custom_types() {
    assert_eq!(c_type_to_rust("const void *"), "*const c_void");
    assert_eq!(c_type_to_rust("uint8_t **"), "*mut *mut u8");
    assert_eq!(c_type_to_rust("  int32_t  "), "i32");
    assert_eq!(c_type_to_rust("struct Point"), "struct Point");
    assert_eq!(c_type_to_rust("Point*"), "*mut Point");
    assert_eq!(c_type_to_rust("const const char"), "c_char");
    assert_eq!(c_type_to_rust(""), "");
    assert_eq!(c_type_to_rust("_Bool"), "bool");
}

#[test]
fn test_parse_function() {
    let func = parse_function_line("int add(int a, int b);").unwrap();
    assert_eq!(func.name, "add");
    assert_eq!(func.return_type, "int");
    assert_eq!(func.params.len(), 2);
}

#[test]
fn test_parse_function_void_params() {
    let func = parse_function_line("void cleanup(void);").unwrap();
    assert_eq!(func.name, "cleanup");
    assert_eq!(func.return_type, "void");
    assert_eq!(func.params.len(), 0);
}

#[test]
fn test_parse_function_no_params() {
    let func = parse_function_line("int get_count();").unwrap();
    assert_eq!(func.name, "get_count");
    assert_eq!(func.return_type, "int");
    assert_eq!(func.params.len(), 0);
}

#[test]
fn test_parse_function_pointer_param() {
    let func = parse_function_line("int string_length(const char* str);").unwrap();
    assert_eq!(func.name, "string_length");
    assert_eq!(func.return_type, "int");
    assert_eq!(func.params.len(), 1);
}

#[test]
fn parse_function_details() {
    let func = parse_function_line("const char *name_of(int id, char *out, size_t n);").unwrap();
    assert_eq!(func.return_type, "const char");
    assert_eq!(func.name, "*name_of");
    assert_eq!(
        func.params,
        vec![
            ("int".to_string(), "id".to_string()),
            ("char *".to_string(), "out".to_string()),
            ("size_t".to_string(), "n".to_string()),
        ]
    );
    let bare = parse_function_line("go();").unwrap();
    assert_eq!(bare.name, "go");
    assert_eq!(bare.return_type, "void");
    let skipped = parse_function_line("int f(a, int b);").unwrap();
    assert_eq!(skipped.params, vec![("int".to_string(), "b".to_string())]);
    assert!(parse_function_line("int f(int a)").is_none());
    assert!(parse_function_line("int f;").is_none());
}

#[test]
fn test_parse_typedef() {
    let (target, name) = parse_typedef_line("typedef int myint;").unwrap();
    assert_eq!(name, "myint");
    assert_eq!(target, "int");
}

#[test]
fn parse_typedef_details() {
    let (target, name) = parse_typedef_line("typedef unsigned long long u64_t ;").unwrap();
    assert_eq!(target, "unsigned long long");
    assert_eq!(name, "u64_t");
    assert!(parse_typedef_line("typedef int;").is_none());
    assert!(parse_typedef_line("int x;").is_none());
    assert!(parse_typedef_line("typedef int x").is_none());
}

#[test]
fn test_parse_header_with_guards() {
    // Preprocessor directives should be ignored; typedefs inside guards should parse
    let content =
        "#ifndef MYLIB_H\n#define MYLIB_H\ntypedef int myint;\nint add(int a, int b);\n#endif\n";
    let parsed = parse_c_header(content);
    assert_eq!(parsed.typedefs.len(), 1);
    assert_eq!(parsed.typedefs[0].name, "myint");
    assert_eq!(parsed.functions.len(), 1);
    assert_eq!(parsed.functions[0].name, "add");
}

#[test]
fn parse_header_blocks() {
    let content = "typedef struct {\n    uint32_t pin;\n    char* name;\n    int values[4];\n} Config;\n\
                   typedef enum {\n  RED = 0,\n  GREEN,\n  // note\n  BLUE = 5\n} Color;\n\
                   Config make(int pin);\n";
    let parsed = parse_c_header(content);
    assert_eq!(parsed.structs.len(), 1);
    assert_eq!(parsed.structs[0].name, "Config");
    assert_eq!(
        parsed.structs[0].fields,
        vec![
            ("uint32_t".to_string(), "pin".to_string()),
            ("char*".to_string(), "name".to_string()),
            ("int".to_string(), "values[4]".to_string()),
        ]
    );
    assert_eq!(parsed.enums.len(), 1);
    assert_eq!(parsed.enums[0].name, "Color");
    assert_eq!(
        parsed.enums[0].variants,
        vec![
            ("RED".to_string(), Some("0".to_string())),
            ("GREEN".to_string(), None),
        ]
    );
    // the block is read as one line, so everything after `//` up to the next
    // comma is a comment: BLUE is not a variant
    assert_eq!(parsed.typedefs.len(), 2);
    assert_eq!(parsed.typedefs[0].target, "struct Config");
    assert_eq!(parsed.typedefs[1].target, "enum Color");
    assert_eq!(parsed.functions.len(), 1);
    assert_eq!(parsed.functions[0].return_type, "Config");
}

#[test]
fn unclosed_block_consumes_the_rest() {
    let content = "typedef struct {\n int a;\nint f(void);\n";
    let parsed = parse_c_header(content);
    assert_eq!(parsed.structs.len(), 0);
    assert_eq!(parsed.functions.len(), 0);
}

#[test]
fn parsability() {
    assert!(header_is_parsable("int add(int a, int b);\n"));
    assert!(!header_is_parsable("int f)(;\n"));
    assert!(!header_is_parsable("typedef struct }{ x;\n"));
    assert!(header_is_parsable("typedef struct { int a; } S;\n"));
}

#[test]
fn test_generate_bindings_basic() {
    let opts = BindingOptions::default();
    let binding = generate_bindings_from_source(
        "mylib.h",
        "int add(int a, int b);\nvoid noop(void);\n",
        &opts,
    )
    .unwrap();

    assert!(binding.code.contains("extern \"C\""));
    assert!(binding.code.contains("pub fn add("));
    assert!(binding.code.contains("pub fn noop()"));
    assert!(binding.warnings.is_empty());
}

#[test]
fn generated_code_exactly() {
    let opts = BindingOptions::default();
    let binding =
        generate_bindings_from_source("dir/my\nlib.h", "int add(int a, int b);\nvoid noop(void);\n", &opts)
            .unwrap();
    assert_eq!(
        binding.code,
        "// Auto-generated bindings by equilibrium-ffi\n//\n// Source: dir/mylib.h\n\nuse std::os::raw::*;\n\n\
         #[allow(non_camel_case_types, non_snake_case, dead_code)]\nextern \"C\" {\n    pub fn add(a: c_int, b: c_int) -> c_int;\n    pub fn noop();\n}\n"
    );
    assert_eq!(binding.source_header, "dir/my\nlib.h");
}

#[test]
fn module_name_wraps_the_items() {
    let opts = BindingOptions {
        module_name: Some("mylib_ffi".to_string()),
        ..Default::default()
    };
    let binding =
        generate_bindings_from_source("mylib.h", "int add(int a, int b);\n", &opts).unwrap();
    assert!(binding.code.contains("mod mylib_ffi {"));
    assert_eq!(
        binding.code,
        "// Auto-generated bindings by equilibrium-ffi\n//\n// Source: mylib.h\n\npub mod mylib_ffi {\nuse std::os::raw::*;\n\n\
         #[allow(non_camel_case_types, non_snake_case, dead_code)]\nextern \"C\" {\n    pub fn add(a: c_int, b: c_int) -> c_int;\n}\n}\n"
    );
}

#[test]
fn test_generate_bindings_missing_file() {
    let result = check_header("/nonexistent/header.h", false, false, Err("missing".to_string()));
    assert!(result.is_err());
    assert!(result.unwrap_err().contains("not found"));
}

#[test]
fn test_generate_bindings_rejects_too_many_lines() {
    let mut body = String::with_capacity(MAX_HEADER_LINES * 4 + 16);
    for _ in 0..=MAX_HEADER_LINES {
        body.push_str("//x\n");
    }
    let opts = BindingOptions::default();
    let err = generate_bindings_from_source("long.h", &body, &opts).err().unwrap();
    assert!(err.contains("too many lines"), "got: {err}");
    assert_eq!(err, "Header has too many lines (200001; max 200000)");
}

#[test]
fn test_generate_bindings_rejects_oversized_file() {
    let err = check_header("huge.h", true, true, Ok(MAX_HEADER_BYTES + 1)).unwrap_err();
    assert!(err.contains("too large"), "got: {err}");
    assert_eq!(err, "Header too large (10485761 bytes; max 10485760 bytes)");
}

#[test]
fn header_checks() {
    assert!(check_header("h.h", true, true, Ok(MAX_HEADER_BYTES)).is_ok());
    assert_eq!(
        check_header("d", true, false, Ok(0)).unwrap_err(),
        "Header path is not a regular file: d"
    );
    assert_eq!(
        check_header("h.h", true, true, Err("denied".into())).unwrap_err(),
        "Failed to read header metadata: denied"
    );
}

#[test]
fn test_generate_bindings_allowlist_functions() {
    let opts = BindingOptions {
        allowlist_functions: vec!["add".to_string()],
        ..Default::default()
    };
    let binding = generate_bindings_from_source(
        "mylib.h",
        "int add(int a, int b);\nint sub(int a, int b);\n",
        &opts,
    )
    .unwrap();
    assert!(binding.code.contains("pub fn add("));
    assert!(!binding.code.contains("pub fn sub("));
    assert_eq!(binding.warnings.len(), 1);
    assert!(binding.warnings[0].contains("sub"));
    assert_eq!(binding.warnings[0], "Skipped function: sub");
}

#[test]
fn test_generate_bindings_mathlib_header() {
    let header = "#ifndef MATHLIB_H\n#define MATHLIB_H\n\n\
                  int add(int a, int b);\nint subtract(int a, int b);\nint multiply(int a, int b);\n\
                  long fibonacci(int n);\nint string_length(const char* str);\n\n#endif\n";
    let opts = BindingOptions::default();
    let binding = generate_bindings_from_source("examples/c-ffi/mathlib.h", header, &opts).unwrap();

    assert!(binding.code.contains("pub fn add("));
    assert!(binding.code.contains("pub fn subtract("));
    assert!(binding.code.contains("pub fn multiply("));
    assert!(binding.code.contains("pub fn fibonacci("));
    assert!(binding.code.contains("pub fn string_length("));
}

#[test]
fn test_generate_bindings_with_typedef() {
    let opts = BindingOptions::default();
    let binding = generate_bindings_from_source(
        "types.h",
        "typedef int handle_t;\nhandle_t open(void);\n",
        &opts,
    )
    .unwrap();
    assert!(binding.code.contains("pub type handle_t = c_int;"));
    assert!(binding.code.contains("pub fn open()"));
}

#[test]
fn struct_and_enum_generation() {
    let content = "typedef struct {\n    uint32_t pin;\n    char* name;\n} Config;\n\
                   typedef enum { OFF = 0, ON } Mode;\n";
    let opts = BindingOptions { derive_debug: true, ..Default::default() };
    let binding = generate_bindings_from_source("x.h", content, &opts).unwrap();
    assert!(binding.code.contains(
        "#[derive(Copy, Clone, Debug)]\n#[repr(C)]\npub struct Config {\n    pub pin: u32,\n    pub name: *mut c_char,\n}\n"
    ));
    assert!(binding.code.contains(
        "#[repr(C)]\n#[derive(Debug, Copy, Clone, PartialEq, Eq)]\npub enum Mode {\n    OFF = 0,\n    ON,\n}\n"
    ));
    // the typedefs that name the blocks are not emitted again
    assert!(!binding.code.contains("pub type Config"));
    assert!(!binding.code.contains("pub type Mode"));
}

#[test]
fn type_allowlist() {
    let content = "typedef int a_t;\ntypedef int b_t;\n";
    let opts = BindingOptions { allowlist_types: vec!["b_t".to_string()], ..Default::default() };
    let binding = generate_bindings_from_source("x.h", content, &opts).unwrap();
    assert!(!binding.code.contains("a_t"));
    assert!(binding.code.contains("pub type b_t = c_int;"));
    assert!(binding.warnings.is_empty());
}

#[test]
fn single_generators() {
    let opts = BindingOptions { derive_debug: true, derive_default: true, ..Default::default() };
    let s = StructDef { name: "P".into(), fields: vec![("double".into(), "x".into())] };
    assert_eq!(
        generate_struct(&s, &opts),
        "#[derive(Copy, Clone, Debug, Default)]\n#[repr(C)]\npub struct P {\n    pub x: c_double,\n}\n"
    );
    let e = EnumDef { name: "E".into(), variants: vec![("A".into(), None)] };
    assert_eq!(
        generate_enum(&e, &opts),
        "#[repr(C)]\n#[derive(Debug, Copy, Clone, PartialEq, Eq)]\npub enum E {\n    A,\n}\n"
    );
    let t = TypedefDef { name: "h".into(), target: "void *".into() };
    assert_eq!(generate_typedef(&t, &opts), "pub type h = *mut c_void;\n");
    let f = FunctionDef {
        name: "f".into(),
        return_type: "void".into(),
        params: vec![("int".into(), "a".into()), ("const char *".into(), "s".into())],
    };
    assert_eq!(generate_function(&f), "    pub fn f(a: c_int, s: *const c_char);\n");
}

#[test]
fn allowlist_and_sanitizing() {
    assert!(should_include("x", &[]));
    assert!(should_include("x", &["y".to_string(), "x".to_string()]));
    assert!(!should_include("x", &["y".to_string()]));
    assert_eq!(sanitize_path_for_comment("a\nb\rc\0d"), "abcd");
    assert_eq!(sanitize_path_for_comment("plain/path.h"), "plain/path.h");
    assert_eq!(sanitize_path_for_comment("a\tb"), "ab");
    assert_eq!(sanitize_path_for_comment("x\u{7f}y\u{85}z\u{9f}.h"), "xyz.h");
    assert_eq!(sanitize_path_for_comment("caf\u{e9}\u{a0}.h"), "caf\u{e9}\u{a0}.h");
    assert_eq!(sanitize_path_for_comment("a\nb\r.h"), "ab.h");
}

#[test]
fn parse_blocks_directly() {
    let s = equilibrium_ffi::parse_typedef_struct("typedef struct { int x; unsigned char b[2]; } Pair;")
        .unwrap();
    assert_eq!(s.name, "Pair");
    assert_eq!(
        s.fields,
        vec![
            ("int".to_string(), "x".to_string()),
            ("unsigned char".to_string(), "b[2]".to_string()),
        ]
    );
    assert!(equilibrium_ffi::parse_typedef_struct("typedef struct { int x; }").is_none());
    let e = equilibrium_ffi::parse_typedef_enum("typedef enum { A = 1, B , } E;").unwrap();
    assert_eq!(e.name, "E");
    assert_eq!(
        e.variants,
        vec![("A".to_string(), Some("1".to_string())), ("B".to_string(), None)]
    );
    // the name is the last word before the `;`, here the brace itself
    let unnamed = equilibrium_ffi::parse_typedef_enum("typedef enum { A } ;").unwrap();
    assert_eq!(unnamed.name, "}");
    assert!(equilibrium_ffi::parse_typedef_enum("typedef enum { A } E").is_none());
}

#[test]
fn functions_come_from_declaration_lines() {
    let content = "#include <x.h>\nint a(void);\ntypedef struct {\n  int f(int);\n} S;\n// void c(int x);\nvoid b(int x);\n";
    assert!(header_is_parsable(content));
    let parsed = parse_c_header(content);
    let names: Vec<&str> = parsed.functions.iter().map(|f| f.name.as_str()).collect();
    assert_eq!(names, vec!["a", "b"]);
    assert_eq!(parsed.structs.len(), 1);
}

#[test]
fn ordered_brackets_are_parsable() {
    assert!(header_is_parsable("typedef struct { int x; } P;\nint g(int (*cb)(int), char c);\n"));
    assert!(header_is_parsable("typedef enum {\n  A,\n  B\n} E;\n"));
    assert!(!header_is_parsable("int g)(int;\n"));
}

#[test]
fn typedefs_cover_blocks() {
    let parsed = parse_c_header(
        "typedef struct { int a; } S;\ntypedef enum { X, Y } E;\ntypedef int myint;\nint f(void);\n",
    );
    assert_eq!(parsed.structs.len(), 1);
    assert_eq!(parsed.enums.len(), 1);
    assert_eq!(parsed.typedefs.len(), 3);
    assert!(parsed.typedefs.len() >= parsed.structs.len() + parsed.enums.len());
    assert!(parsed.functions.len() <= 4);
}
