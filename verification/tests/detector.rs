use equilibrium_ffi::{
    classify_entry, compiler_info, detect_language, detect_language_from_extension,
    language_for_extension, scan_tree, version_from_output, Language, ScanEntry, ScanNode,
};

#[test]
fn test_detect_v() {
    let path = "mylib.v";
    assert_eq!(detect_language(path), Some(Language::V));
}

#[test]
fn test_detect_zig() {
    let path = "mylib.zig";
    assert_eq!(detect_language(path), Some(Language::Zig));
}

#[test]
fn test_detect_cpp() {
    assert_eq!(detect_language("foo.cpp"), Some(Language::Cpp));
    assert_eq!(detect_language("foo.cxx"), Some(Language::Cpp));
    assert_eq!(detect_language("foo.cc"), Some(Language::Cpp));
}

#[test]
fn test_detect_unknown() {
    assert_eq!(detect_language("foo.py"), None);
    assert_eq!(detect_language("foo.js"), None);
}

#[test]
fn detect_is_case_insensitive() {
    assert_eq!(detect_language("LIB.CPP"), Some(Language::Cpp));
    assert_eq!(detect_language("Main.Rs"), Some(Language::Rust));
    assert_eq!(detect_language("x.H"), Some(Language::C));
}

#[test]
fn detect_paths_with_directories() {
    assert_eq!(detect_language("src/native/math.c"), Some(Language::C));
    assert_eq!(detect_language("/abs/dir/lib.zig"), Some(Language::Zig));
    assert_eq!(detect_language("dir.v/noext"), None);
    assert_eq!(detect_language(".v"), None);
    assert_eq!(detect_language("noext"), None);
    assert_eq!(detect_language(""), None);
}

#[test]
fn every_extension_detects_its_language() {
    for lang in [
        Language::V,
        Language::Zig,
        Language::C,
        Language::Cpp,
        Language::CSharp,
        Language::Rust,
        Language::D,
        Language::Nim,
        Language::Odin,
        Language::Hare,
    ] {
        for ext in lang.extensions() {
            assert_eq!(language_for_extension(ext), Some(lang));
            assert_eq!(detect_language(&format!("file.{ext}")), Some(lang));
            assert_eq!(detect_language(&format!("src/f.{ext}")), Some(lang));
            assert_eq!(detect_language(&format!("F.{}", ext.to_uppercase())), Some(lang));
        }
    }
}

#[test]
fn extension_lists() {
    assert_eq!(Language::C.extensions(), &["c", "h"]);
    assert_eq!(Language::Cpp.extensions(), &["cpp", "cxx", "cc", "hpp", "hxx"]);
    assert_eq!(Language::V.extensions(), &["v"]);
    assert_eq!(Language::D.extensions(), &["d"]);
    assert_eq!(Language::Nim.extensions(), &["nim"]);
    assert_eq!(Language::Odin.extensions(), &["odin"]);
    assert_eq!(Language::Hare.extensions(), &["ha"]);
}

#[test]
fn detect_from_extension() {
    assert_eq!(detect_language_from_extension(Some("CS")), Some(Language::CSharp));
    assert_eq!(detect_language_from_extension(Some("py")), None);
    assert_eq!(detect_language_from_extension(None), None);
}

#[test]
fn default_compilers() {
    assert_eq!(Language::V.default_compiler(), "v");
    assert_eq!(Language::Zig.default_compiler(), "zig");
    assert_eq!(Language::C.default_compiler(), "clang");
    assert_eq!(Language::Cpp.default_compiler(), "clang++");
    assert_eq!(Language::CSharp.default_compiler(), "csc");
    assert_eq!(Language::Rust.default_compiler(), "rustc");
    assert_eq!(Language::D.default_compiler(), "ldc2");
    assert_eq!(Language::Nim.default_compiler(), "nim");
    assert_eq!(Language::Odin.default_compiler(), "odin");
    assert_eq!(Language::Hare.default_compiler(), "hare");
}

#[test]
fn c_args_per_language() {
    assert_eq!(
        Language::V.to_c_args("a.v", "out/a.c"),
        vec!["-o", "out/a.c", "-backend", "c", "a.v"]
    );
    assert_eq!(
        Language::Zig.to_c_args("a.zig", "o.c"),
        vec!["build-obj", "-OReleaseFast", "-fPIC", "-femit-bin", "-femit-bin=o.c", "a.zig"]
    );
    assert_eq!(Language::C.to_c_args("a.c", "o.c"), vec!["-E", "-o", "o.c", "a.c"]);
    assert_eq!(Language::Cpp.to_c_args("a.cpp", "o.c"), vec!["-c", "-o", "o.c", "a.cpp"]);
    assert_eq!(
        Language::CSharp.to_c_args("a.cs", "o.c"),
        vec!["-target:library", "-out:o.c", "a.cs"]
    );
    assert_eq!(
        Language::Rust.to_c_args("a.rs", "o.c"),
        vec!["--crate-type=cdylib", "-o", "o.c", "a.rs"]
    );
    assert_eq!(Language::D.to_c_args("a.d", "o.c"), vec!["-c", "-HC", "-of=o.c", "a.d"]);
    assert_eq!(
        Language::Nim.to_c_args("a.nim", "o.c"),
        vec!["c", "--mm:none", "--app:staticlib", "--out:o.c", "a.nim"]
    );
    assert_eq!(
        Language::Odin.to_c_args("a.odin", "o.c"),
        vec!["build", "a.odin", "-file", "-build-mode:obj", "-reloc-mode:pic", "-out:o.c"]
    );
    assert_eq!(Language::Hare.to_c_args("a.ha", "o.c"), vec!["build", "-o", "o.c", "a.ha"]);
    let zig = Language::Zig.to_c_args("m.zig", "m.o");
    assert_eq!(zig[0], "build-obj");
    assert_eq!(zig.last().map(|s| s.as_str()), Some("m.zig"));
    assert!(zig.iter().any(|a| a == "-OReleaseFast"));
    assert!(zig.iter().any(|a| a == "-fPIC"));
}

#[test]
fn compiler_lookup_results() {
    let info = compiler_info(Language::Zig, true, Some("0.13.0".to_string())).unwrap();
    assert_eq!(info.language, Language::Zig);
    assert_eq!(info.compiler.as_deref(), Some("zig"));
    assert_eq!(info.version.as_deref(), Some("0.13.0"));
    assert!(compiler_info(Language::Zig, false, None).is_none());
}

#[test]
fn version_is_first_line() {
    assert_eq!(
        version_from_output(true, "clang version 17.0.6\nTarget: x86_64\n").as_deref(),
        Some("clang version 17.0.6")
    );
    assert_eq!(version_from_output(true, "v 0.4\r\n").as_deref(), Some("v 0.4"));
    assert_eq!(version_from_output(true, ""), None);
    assert_eq!(version_from_output(false, "ok\n"), None);
}

#[test]
fn scan_decisions() {
    assert_eq!(classify_entry("target", true), ScanEntry::SkipDirectory);
    assert_eq!(classify_entry("node_modules", true), ScanEntry::SkipDirectory);
    assert_eq!(classify_entry(".git", true), ScanEntry::SkipDirectory);
    assert_eq!(classify_entry("build", true), ScanEntry::SkipDirectory);
    assert_eq!(classify_entry("dist", true), ScanEntry::SkipDirectory);
    assert_eq!(classify_entry("src", true), ScanEntry::Descend);
    assert_eq!(classify_entry("targets", true), ScanEntry::Descend);
    assert_eq!(classify_entry("Target", true), ScanEntry::Descend);
    assert_eq!(classify_entry("", true), ScanEntry::Descend);
    assert_eq!(classify_entry("lib.zig", false), ScanEntry::Source(Language::Zig));
    assert_eq!(classify_entry("target", false), ScanEntry::Ignore);
    assert_eq!(classify_entry("MAIN.CPP", false), ScanEntry::Source(Language::Cpp));
    assert_eq!(classify_entry("README.md", false), ScanEntry::Ignore);
}

#[test]
fn paths_with_directories_are_detected() {
    assert_eq!(detect_language("src/mylib.v"), Some(Language::V));
    assert_eq!(detect_language("/nonexistent/file.v"), Some(Language::V));
    assert_eq!(detect_language("a/b/c/F.HPP"), Some(Language::Cpp));
    assert_eq!(detect_language("src/.v"), None);
    assert_eq!(detect_language("src.v/readme"), None);
    assert_eq!(detect_language("FOO.CPP"), Some(Language::Cpp));
    assert_eq!(detect_language("mylib.h"), Some(Language::C));
}

#[test]
fn readme_languages_are_detected() {
    assert_eq!(detect_language("lib.d"), Some(Language::D));
    assert_eq!(detect_language("mod.nim"), Some(Language::Nim));
    assert_eq!(detect_language("main.odin"), Some(Language::Odin));
    assert_eq!(detect_language("src/x.ha"), Some(Language::Hare));
}

#[test]
fn ignored_path_pieces_do_not_change_detection() {
    assert_eq!(detect_language("./foo.v"), Some(Language::V));
    assert_eq!(detect_language("a//b.c"), Some(Language::C));
    assert_eq!(detect_language("foo.v/"), Some(Language::V));
    assert_eq!(detect_language("a/./b.zig/."), Some(Language::Zig));
    assert_eq!(detect_language("./"), None);
    assert_eq!(detect_language("x.v/.."), None);
}

fn file(path: &str, name: &str) -> ScanNode {
    ScanNode { path: path.to_string(), name: name.to_string(), is_dir: false, children: vec![] }
}

fn dir(path: &str, name: &str, children: Vec<ScanNode>) -> ScanNode {
    ScanNode { path: path.to_string(), name: name.to_string(), is_dir: true, children }
}

#[test]
fn scan_walks_the_tree_in_order() {
    let tree = vec![
        file("p/a.v", "a.v"),
        dir("p/src", "src", vec![file("p/src/m.zig", "m.zig"), file("p/src/README", "README")]),
        dir("p/target", "target", vec![file("p/target/gen.c", "gen.c")]),
        dir("p/node_modules", "node_modules", vec![]),
        file("p/z.CPP", "z.CPP"),
    ];
    let found = scan_tree(&tree);
    assert_eq!(
        found,
        vec![
            ("p/a.v".to_string(), Language::V),
            ("p/src/m.zig".to_string(), Language::Zig),
            ("p/z.CPP".to_string(), Language::Cpp),
        ]
    );
    assert!(scan_tree(&vec![]).is_empty());
}

#[test]
fn native_paths_are_detected() {
    assert_eq!(detect_language("C:\\src\\mylib.v"), Some(Language::V));
    assert_eq!(detect_language("src\\mylib.v"), Some(Language::V));
    assert_eq!(detect_language("D:lib.ZIG"), Some(Language::Zig));
    assert_eq!(detect_language("C:\\src\\README"), None);
    assert_eq!(classify_entry("odd\\name.rs", false), ScanEntry::Source(Language::Rust));
    let tree = vec![file("p/odd:name.nim", "odd:name.nim"), file("p/x\\y.d", "x\\y.d")];
    assert_eq!(
        scan_tree(&tree),
        vec![("p/odd:name.nim".to_string(), Language::Nim), ("p/x\\y.d".to_string(), Language::D)]
    );
}
