use equilibrium_ffi::{
    compile_batch, compile_to_c, compile_to_c_with_lang, CompileAction, CompileError,
    CompileEvent, CompileStage, IoError, IoErrorKind, Language, LanguageInfo, ProcessOutput,
};

fn found(language: Language, compiler: &str) -> CompileEvent {
    CompileEvent::CompilerLookup(Some(LanguageInfo {
        language,
        compiler: Some(compiler.to_string()),
        version: None,
    }))
}

fn exited(success: bool, code: i32, stdout: &str, stderr: &str) -> CompileEvent {
    CompileEvent::ProcessFinished(Ok(ProcessOutput {
        success,
        exit_code: Some(code),
        stdout: stdout.to_string(),
        stderr: stderr.to_string(),
    }))
}

#[test]
fn test_compile_error_display() {
    let err = CompileError::CompilerNotFound {
        language: Language::V,
    };
    assert!(err.to_string().contains("V"));
}

#[test]
fn test_compile_nonexistent() {
    let (mut task, first) = compile_to_c("/nonexistent/file.v", "/tmp/eq-out").unwrap();
    assert!(matches!(first, CompileAction::FindCompiler { language: Language::V }));
    // Whatever the machine holds, the compilation of a missing file fails:
    // either no compiler is found, or the compiler cannot run in a missing directory.
    let without = task.step(CompileEvent::CompilerLookup(None));
    match without {
        CompileAction::Finished(result) => assert!(result.is_err()),
        _ => panic!("expected the end"),
    }
    let (mut task2, _) = compile_to_c("/nonexistent/file.v", "/tmp/eq-out").unwrap();
    let run = task2.step(found(Language::V, "v"));
    assert!(matches!(run, CompileAction::Run { .. }));
    let after = task2.step(CompileEvent::ProcessFinished(Err(IoError::new(
        IoErrorKind::NotFound,
        "No such file or directory (os error 2)",
    ))));
    match after {
        CompileAction::Finished(result) => assert!(result.is_err()),
        _ => panic!("expected the end"),
    }
    assert_eq!(task.stage, CompileStage::Done);
}

#[test]
fn error_messages() {
    assert_eq!(
        CompileError::CompilerNotFound { language: Language::CSharp }.to_string(),
        "Compiler for CSharp not found"
    );
    assert_eq!(
        CompileError::CompilationFailed { stderr: "boom".into(), exit_code: Some(-2) }.to_string(),
        "Compilation failed (exit Some(-2)): boom"
    );
    assert_eq!(
        CompileError::CompilationFailed { stderr: "x".into(), exit_code: None }.to_string(),
        "Compilation failed (exit None): x"
    );
    assert_eq!(
        CompileError::CompilationFailed { stderr: "".into(), exit_code: Some(i32::MIN) }.to_string(),
        "Compilation failed (exit Some(-2147483648)): "
    );
    assert_eq!(
        CompileError::Io(IoError::new(IoErrorKind::Other, "gone")).to_string(),
        "IO error: gone"
    );
    assert_eq!(
        CompileError::UnsupportedCOutput { language: Language::Zig }.to_string(),
        "Zig doesn't support direct C output"
    );
}

#[test]
fn unknown_language_is_an_io_error() {
    match compile_to_c("notes.txt", "out") {
        Err(CompileError::Io(e)) => {
            assert_eq!(e.kind(), IoErrorKind::InvalidInput);
            assert_eq!(e.to_string(), "Unknown source language");
        }
        _ => panic!("expected an IO error"),
    }
    match compile_to_c("notes.py", "build") {
        Err(CompileError::Io(e)) => assert_eq!(e.kind(), IoErrorKind::InvalidInput),
        _ => panic!("expected an IO error"),
    }
}

#[test]
fn detected_language_is_compiled() {
    let (task, first) = compile_to_c("src/mylib.v", "build").unwrap();
    assert_eq!(task.language, Language::V);
    assert!(matches!(first, CompileAction::FindCompiler { language: Language::V }));
    assert_eq!(task.c_output, "build/mylib.c");
    assert_eq!(task.working_dir, "src");
    let (task, _) = compile_to_c("/nonexistent/file.v", "/tmp/eq-out").unwrap();
    assert_eq!(task.working_dir, "/nonexistent");
    assert_eq!(task.c_output, "/tmp/eq-out/file.c");
    let (task, _) = compile_to_c("/top.c", "o").unwrap();
    assert_eq!(task.working_dir, "/");
    assert_eq!(task.header_output, "o/top.h");
}

#[test]
fn failed_spawn_keeps_the_error_kind() {
    let (mut task, _) = compile_to_c_with_lang("a/b/x.zig", "out", Language::Zig);
    match task.step(found(Language::Zig, "zig")) {
        CompileAction::Run { args, working_dir, .. } => {
            assert_eq!(
                args,
                vec!["build-obj", "-OReleaseFast", "-fPIC", "-femit-bin", "-femit-bin=out/x.c", "a/b/x.zig"]
            );
            assert_eq!(working_dir.as_deref(), Some("a/b"));
        }
        _ => panic!("expected a run"),
    }
    match task.step(CompileEvent::ProcessFinished(Err(IoError::new(
        IoErrorKind::PermissionDenied,
        "Permission denied (os error 13)",
    )))) {
        CompileAction::Finished(Err(CompileError::Io(e))) => {
            assert_eq!(e.kind(), IoErrorKind::PermissionDenied);
            assert_eq!(e.to_string(), "Permission denied (os error 13)");
        }
        _ => panic!("expected an IO error"),
    }
}

#[test]
fn plan_of_a_plain_file() {
    let (task, _) = compile_to_c_with_lang("math.v", "build", Language::V);
    assert_eq!(task.c_output, "build/math.c");
    assert_eq!(task.header_output, "build/math.h");
    assert_eq!(task.working_dir, "");
    let (task, _) = compile_to_c_with_lang("src/lib.rs", "out/", Language::Rust);
    assert_eq!(task.c_output, "out/lib.c");
    assert_eq!(task.working_dir, "src");
    let (task, _) = compile_to_c_with_lang("/", "o", Language::C);
    assert_eq!(task.c_output, "o/output.c");
    assert_eq!(task.working_dir, ".");
}

#[test]
fn successful_compile_with_header() {
    let (mut task, _) = compile_to_c_with_lang("src/math.c", "build", Language::C);
    match task.step(found(Language::C, "clang")) {
        CompileAction::Run { program, args, working_dir } => {
            assert_eq!(program, "clang");
            assert_eq!(args, vec!["-E", "-o", "build/math.c", "src/math.c"]);
            assert_eq!(working_dir.as_deref(), Some("src"));
        }
        _ => panic!("expected a run"),
    }
    match task.step(exited(true, 0, "out", "warn")) {
        CompileAction::CheckFile { path } => assert_eq!(path, "build/math.h"),
        _ => panic!("expected a file check"),
    }
    match task.step(CompileEvent::FileExists(true)) {
        CompileAction::Finished(Ok(r)) => {
            assert_eq!(r.output_path, "build/math.c");
            assert_eq!(r.header_path.as_deref(), Some("build/math.h"));
            assert_eq!(r.language, Language::C);
            assert_eq!(r.stdout, "out");
            assert_eq!(r.stderr, "warn");
        }
        _ => panic!("expected success"),
    }
}

#[test]
fn failed_compile_reports_stderr_and_code() {
    let (mut task, _) = compile_to_c_with_lang("a.zig", "o", Language::Zig);
    task.step(found(Language::Zig, "zig"));
    match task.step(exited(false, 3, "", "error: bad")) {
        CompileAction::Finished(Err(CompileError::CompilationFailed { stderr, exit_code })) => {
            assert_eq!(stderr, "error: bad");
            assert_eq!(exit_code, Some(3));
        }
        _ => panic!("expected a failure"),
    }
}

#[test]
fn missing_compiler() {
    let (mut task, _) = compile_to_c_with_lang("a.cs", "o", Language::CSharp);
    match task.step(CompileEvent::CompilerLookup(None)) {
        CompileAction::Finished(Err(CompileError::CompilerNotFound { language })) => {
            assert_eq!(language, Language::CSharp)
        }
        _ => panic!("expected compiler not found"),
    }
}

#[test]
fn header_absent_for_cpp() {
    let (mut task, _) = compile_to_c_with_lang("a.cpp", "o", Language::Cpp);
    task.step(found(Language::Cpp, "clang++"));
    task.step(exited(true, 0, "", ""));
    match task.step(CompileEvent::FileExists(false)) {
        CompileAction::Finished(Ok(r)) => assert!(r.header_path.is_none()),
        _ => panic!("expected success without header"),
    }
}

#[test]
fn v_header_checked_twice() {
    let (mut task, _) = compile_to_c_with_lang("m.v", "o", Language::V);
    task.step(found(Language::V, "v"));
    task.step(exited(true, 0, "", ""));
    match task.step(CompileEvent::FileExists(false)) {
        CompileAction::CheckFile { path } => assert_eq!(path, "o/m.h"),
        _ => panic!("expected a second check"),
    }
    match task.step(CompileEvent::FileExists(true)) {
        CompileAction::Finished(Ok(r)) => assert_eq!(r.header_path.as_deref(), Some("o/m.h")),
        _ => panic!("expected success"),
    }
}

#[test]
fn rust_header_from_cbindgen() {
    let (mut task, _) = compile_to_c_with_lang("crate/src/lib.rs", "o", Language::Rust);
    task.step(found(Language::Rust, "rustc"));
    task.step(exited(true, 0, "", ""));
    match task.step(CompileEvent::FileExists(false)) {
        CompileAction::FindTool { name } => assert_eq!(name, "cbindgen"),
        _ => panic!("expected a tool lookup"),
    }
    match task.step(CompileEvent::ToolLookup(true)) {
        CompileAction::Run { program, args, working_dir } => {
            assert_eq!(program, "cbindgen");
            assert_eq!(args, vec!["--lang", "c", "--output", "o/lib.h", "crate/src"]);
            assert!(working_dir.is_none());
        }
        _ => panic!("expected cbindgen to run"),
    }
    task.step(exited(true, 0, "", ""));
    match task.step(CompileEvent::FileExists(true)) {
        CompileAction::Finished(Ok(r)) => assert_eq!(r.header_path.as_deref(), Some("o/lib.h")),
        _ => panic!("expected success"),
    }
}

#[test]
fn rust_without_cbindgen_has_no_header() {
    let (mut task, _) = compile_to_c_with_lang("lib.rs", "o", Language::Rust);
    task.step(found(Language::Rust, "rustc"));
    task.step(exited(true, 0, "", ""));
    task.step(CompileEvent::FileExists(false));
    match task.step(CompileEvent::ToolLookup(false)) {
        CompileAction::Finished(Ok(r)) => assert!(r.header_path.is_none()),
        _ => panic!("expected success without header"),
    }
}

#[test]
fn batch_keeps_order() {
    let files = vec![
        ("a.v".to_string(), Language::V),
        ("b.c".to_string(), Language::C),
        ("c.zig".to_string(), Language::Zig),
    ];
    let tasks = compile_batch(&files, "out");
    assert_eq!(tasks.len(), 3);
    assert_eq!(tasks[0].0.input, "a.v");
    assert_eq!(tasks[1].0.language, Language::C);
    assert_eq!(tasks[2].0.c_output, "out/c.c");
    assert_eq!(tasks[1].0.header_output, "out/b.h");
    assert_eq!(tasks[0].0.working_dir, "");
    assert!(tasks.iter().all(|(t, _)| t.stage == CompileStage::FindingCompiler));
}

#[test]
fn plan_of_paths_with_ignored_pieces() {
    let (task, _) = compile_to_c_with_lang("./x.v", "build", Language::V);
    assert_eq!(task.working_dir, ".");
    assert_eq!(task.c_output, "build/x.c");
    let (task, _) = compile_to_c_with_lang("a//b/./m.c", "out/", Language::C);
    assert_eq!(task.working_dir, "a//b");
    assert_eq!(task.c_output, "out/m.c");
    let (task, _) = compile_to_c_with_lang("math.v", "", Language::V);
    assert_eq!(task.c_output, "math.c");
    let (task, _) = compile_to_c_with_lang("math.v", "build", Language::V);
    assert_eq!(task.c_output, "build/math.c");
    assert_eq!(task.header_output, "build/math.h");
}

#[test]
fn native_input_picks_its_language() {
    let (task, first) = compile_to_c("C:\\work\\m.cpp", "out").unwrap();
    assert_eq!(task.language, Language::Cpp);
    assert!(matches!(first, CompileAction::FindCompiler { language: Language::Cpp }));
    assert!(compile_to_c("C:\\work\\notes", "out").is_err());
}

#[test]
fn exit_codes_print_in_full() {
    let mut s = String::new();
    equilibrium_ffi::text::push_signed_decimal(&mut s, i64::MIN);
    assert_eq!(s, "-9223372036854775808");
    let mut t = String::from("x");
    equilibrium_ffi::text::push_signed_decimal(&mut t, -7);
    assert_eq!(t, "x-7");
}
