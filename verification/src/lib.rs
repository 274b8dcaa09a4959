//! **equilibrium-ffi** — the verified core of automatic C FFI generation.
//!
//! Source files in C-compiling languages (V, Zig, C, C++, C#, Rust, D, Nim,
//! Odin, Hare) are
//! recognized by their extension, compiled to C by a compilation task that asks
//! its caller for each outside step, and Rust bindings are generated from the
//! resulting C headers.
use vstd::prelude::*;

pub mod bindings;
pub mod compiler;
pub mod ctype;
pub mod detector;
pub mod header;
pub mod paths;
pub mod text;

pub use bindings::{
    check_header, generate_bindings_from_source, generate_enum, generate_function,
    generate_struct, generate_typedef, sanitize_path_for_comment, should_include, BindingOptions,
    GeneratedBinding, MAX_HEADER_BYTES, MAX_HEADER_LINES,
};
pub use compiler::{
    compile_batch, compile_to_c, compile_to_c_with_lang, CompileAction, CompileError,
    CompileEvent, CompileResult, CompileStage, CompileTask, IoError, IoErrorKind, ProcessOutput,
};
pub use ctype::c_type_to_rust;
pub use detector::{
    classify_entry, compiler_info, detect_language, detect_language_from_extension,
    language_for_extension, scan_tree, version_from_output, Language, LanguageInfo, ScanEntry,
    ScanNode,
};
pub use header::{
    header_is_parsable, parse_c_header, parse_function_line, parse_typedef_enum, parse_typedef_line,
    parse_typedef_struct, EnumDef,
    FunctionDef, ParsedHeader, StructDef, TypedefDef,
};

verus! {

} // verus!
