//! Compiling a source file to C: the decisions of a compilation, as a task
//! that names each outside step (a compiler lookup, a process run, a file check)
//! and is told what the step gave.
use vstd::prelude::*;

use crate::detector::{
    c_args, debug_name_of, detect_language, detected_language, language_for, Language, LanguageInfo,
};
use crate::paths::{
    ascii_lower, extension_settled, is_ascii_text, settled_extension, is_plain_name, is_portable_path, join_safe, joined, last_component,
    path_file_stem, path_join, path_parent, parent_of, stem_of_name,
};
use crate::text::{push_signed_decimal, push_str, signed_decimal, string_views};

verus! {

/// The kind of an IO error, as `std::io::ErrorKind` names it; kinds that this
/// library does not tell apart are `Other`.
#[derive(Clone, Copy, Debug, PartialEq, Eq, Structural)]
pub enum IoErrorKind {
    NotFound,
    PermissionDenied,
    ConnectionRefused,
    ConnectionReset,
    ConnectionAborted,
    NotConnected,
    AddrInUse,
    AddrNotAvailable,
    BrokenPipe,
    AlreadyExists,
    WouldBlock,
    InvalidInput,
    InvalidData,
    TimedOut,
    WriteZero,
    Interrupted,
    Unsupported,
    UnexpectedEof,
    OutOfMemory,
    Other,
}

/// An IO error: its kind and its message.
#[derive(Debug)]
pub struct IoError {
    pub kind: IoErrorKind,
    pub message: String,
}

impl IoError {
    /// An error of `kind` with `message`.
    pub fn new(kind: IoErrorKind, message: &str) -> (r: IoError)
        ensures
            r.kind == kind,
            r.message@ == message@,
    {
        IoError { kind, message: String::from_str(message) }
    }

    /// The error's kind.
    pub fn kind(&self) -> (k: IoErrorKind)
        ensures
            k == self.kind,
    {
        self.kind
    }

    /// The error's message, as its `Display` writes it.
    pub fn to_string(&self) -> (r: String)
        ensures
            r@ == self.message@,
    {
        self.message.clone()
    }
}

/// Error during compilation.
#[derive(Debug)]
pub enum CompileError {
    /// Compiler not found on system.
    CompilerNotFound { language: Language },
    /// Compilation failed.
    CompilationFailed { stderr: String, exit_code: Option<i32> },
    /// IO error.
    Io(IoError),
    /// Language doesn't support C output.
    UnsupportedCOutput { language: Language },
}

/// The message of an error, as its `Display` writes it.
pub open spec fn error_message(e: CompileError) -> Seq<char> {
    match e {
        CompileError::CompilerNotFound { language } => "Compiler for "@ + debug_name_of(language)
            + " not found"@,
        CompileError::CompilationFailed { stderr, exit_code } => "Compilation failed (exit "@
            + match exit_code {
            Some(c) => "Some("@ + signed_decimal(c as int) + ")"@,
            None => "None"@,
        } + "): "@ + stderr@,
        CompileError::Io(e) => "IO error: "@ + e.message@,
        CompileError::UnsupportedCOutput { language } => debug_name_of(language)
            + " doesn't support direct C output"@,
    }
}

impl CompileError {
    /// The error's message.
    pub fn to_string(&self) -> (r: String)
        ensures
            r@ == error_message(*self),
    {
        match self {
            CompileError::CompilerNotFound { language } => {
                let mut m = String::from_str("Compiler for ");
                push_str(&mut m, language.debug_name());
                push_str(&mut m, " not found");
                m
            },
            CompileError::CompilationFailed { stderr, exit_code } => {
                let mut m = String::from_str("Compilation failed (exit ");
                match exit_code {
                    Some(c) => {
                        push_str(&mut m, "Some(");
                        push_signed_decimal(&mut m, *c as i64);
                        push_str(&mut m, ")");
                    },
                    None => {
                        push_str(&mut m, "None");
                    },
                }
                push_str(&mut m, "): ");
                push_str(&mut m, stderr.as_str());
                assert(m@ =~= error_message(*self));
                m
            },
            CompileError::Io(e) => {
                let mut m = String::from_str("IO error: ");
                push_str(&mut m, e.message.as_str());
                m
            },
            CompileError::UnsupportedCOutput { language } => {
                let mut m = String::from_str(language.debug_name());
                push_str(&mut m, " doesn't support direct C output");
                m
            },
        }
    }
}

/// Result of a successful compilation.
#[derive(Debug)]
pub struct CompileResult {
    /// Path to the generated C file or object.
    pub output_path: String,
    /// Path to the generated header (if any).
    pub header_path: Option<String>,
    /// The language that was compiled.
    pub language: Language,
    /// Compiler output (stdout).
    pub stdout: String,
    /// Compiler warnings (stderr, if successful).
    pub stderr: String,
}

/// What a finished process gave back.
#[derive(Debug)]
pub struct ProcessOutput {
    /// Whether it exited with success.
    pub success: bool,
    /// Its exit code, where it had one.
    pub exit_code: Option<i32>,
    /// Its standard output, decoded.
    pub stdout: String,
    /// Its standard error, decoded.
    pub stderr: String,
}

/// An outside step that a compilation asks for.
#[derive(Debug)]
pub enum CompileAction {
    /// Look the compiler for `language` up; answer with `CompilerLookup`.
    FindCompiler { language: Language },
    /// Run `program` with `args`, in `working_dir` where one is given; answer
    /// with `ProcessFinished`.
    Run { program: String, args: Vec<String>, working_dir: Option<String> },
    /// Check whether a file exists at `path`; answer with `FileExists`.
    CheckFile { path: String },
    /// Look a tool up by name; answer with `ToolLookup`.
    FindTool { name: String },
    /// The compilation is over.
    Finished(Result<CompileResult, CompileError>),
}

/// What an outside step gave.
#[derive(Debug)]
pub enum CompileEvent {
    CompilerLookup(Option<LanguageInfo>),
    /// The process's output, or the error that kept it from running.
    ProcessFinished(Result<ProcessOutput, IoError>),
    FileExists(bool),
    ToolLookup(bool),
}

/// Where a compilation stands.
#[derive(Clone, Copy, Debug, PartialEq, Eq, Structural)]
pub enum CompileStage {
    FindingCompiler,
    Compiling,
    CheckingHeader,
    CheckingGeneratedHeader,
    FindingCbindgen,
    RunningCbindgen,
    CheckingCbindgenHeader,
    Done,
}

/// One compilation of a source file to C.
#[derive(Debug)]
pub struct CompileTask {
    pub input: String,
    pub output_dir: String,
    pub language: Language,
    /// The C (or object) file that the compiler writes: `<stem>.c` in `output_dir`.
    pub c_output: String,
    /// The header looked for beside it: `<stem>.h` in `output_dir`.
    pub header_output: String,
    /// The directory of the input (`.` when it has none).
    pub working_dir: String,
    /// The compiler's output, once it succeeded.
    pub stdout: String,
    pub stderr: String,
    pub stage: CompileStage,
}

impl CompileTask {
    /// Whether `event` answers the step that the task asked for last.
    pub open spec fn accepts(&self, event: CompileEvent) -> bool {
        match self.stage {
            CompileStage::FindingCompiler => match event {
                CompileEvent::CompilerLookup(info) => info matches Some(i) ==> i.compiler is Some,
                _ => false,
            },
            CompileStage::Compiling | CompileStage::RunningCbindgen => event is ProcessFinished,
            CompileStage::CheckingHeader | CompileStage::CheckingGeneratedHeader
            | CompileStage::CheckingCbindgenHeader => event is FileExists,
            CompileStage::FindingCbindgen => event is ToolLookup,
            CompileStage::Done => false,
        }
    }

    /// The successful result, with the header that was found, if any.
    pub open spec fn success(&self, header: Option<String>) -> CompileAction {
        CompileAction::Finished(
            Ok(
                CompileResult {
                    output_path: self.c_output,
                    header_path: header,
                    language: self.language,
                    stdout: self.stdout,
                    stderr: self.stderr,
                },
            ),
        )
    }

    /// The parts of the task that no step changes.
    pub open spec fn same_plan(&self, other: &CompileTask) -> bool {
        &&& self.input == other.input
        &&& self.output_dir == other.output_dir
        &&& self.language == other.language
        &&& self.c_output == other.c_output
        &&& self.header_output == other.header_output
        &&& self.working_dir == other.working_dir
    }

    /// The paths that the task plans, where they mean the same on every
    /// platform: for a portable input, the compiler runs in the input's parent,
    /// and for an output directory that `Path::join` extends in place, the
    /// compiler writes `<stem>.c` there and `<stem>.h` is looked for beside it,
    /// `<stem>` being the input's file stem.
    pub open spec fn planned(&self) -> bool {
        is_portable_path(self.input@) ==> {
            let stem = stem_of_name(last_component(self.input@));
            &&& self.working_dir@ == parent_of(self.input@)
            &&& join_safe(self.output_dir@) ==> joined(self.output_dir@, stem + ".c"@, self.c_output@)
            &&& join_safe(self.output_dir@) ==> joined(
                self.output_dir@,
                stem + ".h"@,
                self.header_output@,
            )
        }
    }

    /// The task is a new compilation of `input` as `language` into `output_dir`,
    /// about to look its compiler up.
    pub open spec fn started(
        &self,
        input: Seq<char>,
        output_dir: Seq<char>,
        language: Language,
    ) -> bool {
        &&& self.input@ == input
        &&& self.output_dir@ == output_dir
        &&& self.language == language
        &&& self.stage == CompileStage::FindingCompiler
        &&& self.stdout@ == Seq::<char>::empty()
        &&& self.stderr@ == Seq::<char>::empty()
        &&& self.planned()
    }

    fn finish_ok(&self, header: Option<String>) -> (r: CompileAction)
        ensures
            r == self.success(header),
    {
        CompileAction::Finished(
            Ok(
                CompileResult {
                    output_path: self.c_output.clone(),
                    header_path: header,
                    language: self.language,
                    stdout: self.stdout.clone(),
                    stderr: self.stderr.clone(),
                },
            ),
        )
    }
}


/// What one step of a compilation does: from task `t`, told `event`, it moves to
/// `t2` and asks for `r`.
pub open spec fn step_spec(
    t: CompileTask,
    event: CompileEvent,
    t2: CompileTask,
    r: CompileAction,
) -> bool {
    &&& t2.same_plan(&t)
    &&& t.stage != CompileStage::Compiling ==> t2.stdout == t.stdout && t2.stderr == t.stderr
    &&& match t.stage {
        CompileStage::FindingCompiler => match event {
            CompileEvent::CompilerLookup(None) => r == CompileAction::Finished(
                Err(CompileError::CompilerNotFound { language: t.language }),
            ) && t2.stage == CompileStage::Done,
            CompileEvent::CompilerLookup(Some(info)) => t2.stage == CompileStage::Compiling
                && match r {
                CompileAction::Run { program, args, working_dir } => program@
                    == info.compiler.unwrap()@ && string_views(args@) == c_args(
                    t.language,
                    t.input@,
                    t.c_output@,
                ) && working_dir == Some(t.working_dir),
                _ => false,
            },
            _ => false,
        },
        CompileStage::Compiling => match event {
            CompileEvent::ProcessFinished(Err(e)) => r == CompileAction::Finished(
                Err(CompileError::Io(e)),
            ) && t2.stage == CompileStage::Done,
            CompileEvent::ProcessFinished(Ok(out)) => if out.success {
                &&& t2.stdout == out.stdout
                &&& t2.stderr == out.stderr
                &&& t2.stage == CompileStage::CheckingHeader
                &&& r == CompileAction::CheckFile { path: t.header_output }
            } else {
                &&& r == CompileAction::Finished(
                    Err(
                        CompileError::CompilationFailed {
                            stderr: out.stderr,
                            exit_code: out.exit_code,
                        },
                    ),
                )
                &&& t2.stage == CompileStage::Done
                &&& t2.stdout == t.stdout && t2.stderr == t.stderr
            },
            _ => false,
        },
        CompileStage::CheckingHeader => match event {
            CompileEvent::FileExists(true) => r == t.success(Some(t.header_output)) && t2.stage
                == CompileStage::Done,
            CompileEvent::FileExists(false) => match t.language {
                Language::Rust => t2.stage == CompileStage::FindingCbindgen && match r {
                    CompileAction::FindTool { name } => name@ == "cbindgen"@,
                    _ => false,
                },
                Language::V => r == CompileAction::CheckFile { path: t.header_output } && t2.stage
                    == CompileStage::CheckingGeneratedHeader,
                _ => r == t.success(None) && t2.stage == CompileStage::Done,
            },
            _ => false,
        },
        CompileStage::CheckingGeneratedHeader
        | CompileStage::CheckingCbindgenHeader => match event {
            CompileEvent::FileExists(b) => r == t.success(
                if b {
                    Some(t.header_output)
                } else {
                    None
                },
            ) && t2.stage == CompileStage::Done,
            _ => false,
        },
        CompileStage::FindingCbindgen => match event {
            CompileEvent::ToolLookup(false) => r == t.success(None) && t2.stage
                == CompileStage::Done,
            CompileEvent::ToolLookup(true) => t2.stage == CompileStage::RunningCbindgen && match r {
                CompileAction::Run { program, args, working_dir } => program@ == "cbindgen"@
                    && string_views(args@) == seq![
                    "--lang"@,
                    "c"@,
                    "--output"@,
                    t.header_output@,
                    t.working_dir@,
                ] && working_dir is None,
                _ => false,
            },
            _ => false,
        },
        CompileStage::RunningCbindgen => match event {
            CompileEvent::ProcessFinished(Ok(out)) => if out.success {
                r == CompileAction::CheckFile { path: t.header_output } && t2.stage
                    == CompileStage::CheckingCbindgenHeader
            } else {
                r == t.success(None) && t2.stage == CompileStage::Done
            },
            CompileEvent::ProcessFinished(Err(_)) => r == t.success(None) && t2.stage
                == CompileStage::Done,
            _ => false,
        },
        CompileStage::Done => false,
    }
}

proof fn lemma_plain_with_suffix(stem: Seq<char>, ext: Seq<char>)
    requires
        stem.len() > 0,
        !crate::text::has_char(stem, '/'),
        !crate::text::has_char(stem, '\\'),
        !crate::text::has_char(stem, ':'),
        ext == ".c"@ || ext == ".h"@,
    ensures
        is_plain_name(stem + ext),
{
    reveal_strlit(".c");
    reveal_strlit(".h");
    reveal_strlit(".");
    reveal_strlit("..");
    let p = stem + ext;
    assert(p.len() >= 3);
    assert forall|i: int| 0 <= i < p.len() implies p[i] != '/' && p[i] != '\\' && p[i] != ':' by {
        if i < stem.len() {
            assert(p[i] == stem[i]);
        } else {
            assert(p[i] == ext[i - stem.len()]);
        }
    }
}

proof fn lemma_stem_plain(p: Seq<char>)
    requires
        is_plain_name(p),
    ensures
        stem_of_name(p).len() > 0,
        !crate::text::has_char(stem_of_name(p), '/'),
        !crate::text::has_char(stem_of_name(p), '\\'),
        !crate::text::has_char(stem_of_name(p), ':'),
{
    crate::text::lemma_rfind_before(p, '.', p.len() as int);
    let s = stem_of_name(p);
    assert forall|i: int| 0 <= i < s.len() implies s[i] != '/' && s[i] != '\\' && s[i] != ':' by {
        assert(s[i] == p[i]);
    }
}

impl CompileTask {
    /// Starts compiling `input` as `language` into `output_dir`: the output is
    /// `<stem>.c` in `output_dir` (`output` where the input has no file stem),
    /// the compiler runs in the input's directory (`.` where it has none), and
    /// the first step looks the compiler up.
    pub fn start(input: &str, output_dir: &str, language: Language) -> (r: (
        CompileTask,
        CompileAction,
    ))
        ensures
            r.0.started(input@, output_dir@, language),
            r.1 == (CompileAction::FindCompiler { language }),
    {
        let stem = match path_file_stem(input) {
            Some(s) => s,
            None => String::from_str("output"),
        };
        let mut c_name = stem.clone();
        push_str(&mut c_name, ".c");
        let mut h_name = stem.clone();
        push_str(&mut h_name, ".h");
        proof {
            if is_portable_path(input@) {
                lemma_stem_plain(last_component(input@));
                lemma_plain_with_suffix(stem@, ".c"@);
                lemma_plain_with_suffix(stem@, ".h"@);
            }
        }
        let c_output = path_join(output_dir, c_name.as_str());
        let header_output = path_join(output_dir, h_name.as_str());
        let working_dir = match path_parent(input) {
            Some(p) => p,
            None => String::from_str("."),
        };
        let task = CompileTask {
            input: String::from_str(input),
            output_dir: String::from_str(output_dir),
            language,
            c_output,
            header_output,
            working_dir,
            stdout: String::new(),
            stderr: String::new(),
            stage: CompileStage::FindingCompiler,
        };
        (task, CompileAction::FindCompiler { language })
    }

    /// Whether `event` answers the last step; see `accepts`.
    pub fn accepts_event(&self, event: &CompileEvent) -> (b: bool)
        ensures
            b == self.accepts(*event),
    {
        match self.stage {
            CompileStage::FindingCompiler => match event {
                CompileEvent::CompilerLookup(info) => match info {
                    Some(i) => i.compiler.is_some(),
                    None => true,
                },
                _ => false,
            },
            CompileStage::Compiling | CompileStage::RunningCbindgen => match event {
                CompileEvent::ProcessFinished(_) => true,
                _ => false,
            },
            CompileStage::CheckingHeader | CompileStage::CheckingGeneratedHeader
            | CompileStage::CheckingCbindgenHeader => match event {
                CompileEvent::FileExists(_) => true,
                _ => false,
            },
            CompileStage::FindingCbindgen => match event {
                CompileEvent::ToolLookup(_) => true,
                _ => false,
            },
            CompileStage::Done => false,
        }
    }

    /// Takes what the last step gave and decides the next one (see `step_spec`).
    pub fn step(&mut self, event: CompileEvent) -> (r: CompileAction)
        requires
            old(self).accepts(event),
        ensures
            step_spec(*old(self), event, *final(self), r),
    {
        match event {
            CompileEvent::CompilerLookup(info) => {
                match info {
                    None => {
                        self.stage = CompileStage::Done;
                        CompileAction::Finished(
                            Err(CompileError::CompilerNotFound { language: self.language }),
                        )
                    },
                    Some(info) => {
                        let program = match info.compiler {
                            Some(c) => c,
                            None => String::new(),
                        };
                        let args = self.language.to_c_args(
                            self.input.as_str(),
                            self.c_output.as_str(),
                        );
                        self.stage = CompileStage::Compiling;
                        CompileAction::Run {
                            program,
                            args,
                            working_dir: Some(self.working_dir.clone()),
                        }
                    },
                }
            },
            CompileEvent::ProcessFinished(outcome) => {
                if self.stage == CompileStage::Compiling {
                    match outcome {
                        Err(e) => {
                            self.stage = CompileStage::Done;
                            CompileAction::Finished(Err(CompileError::Io(e)))
                        },
                        Ok(out) => {
                            if out.success {
                                self.stdout = out.stdout;
                                self.stderr = out.stderr;
                                self.stage = CompileStage::CheckingHeader;
                                CompileAction::CheckFile { path: self.header_output.clone() }
                            } else {
                                self.stage = CompileStage::Done;
                                CompileAction::Finished(
                                    Err(
                                        CompileError::CompilationFailed {
                                            stderr: out.stderr,
                                            exit_code: out.exit_code,
                                        },
                                    ),
                                )
                            }
                        },
                    }
                } else {
                    match outcome {
                        Ok(out) => {
                            if out.success {
                                self.stage = CompileStage::CheckingCbindgenHeader;
                                CompileAction::CheckFile { path: self.header_output.clone() }
                            } else {
                                self.stage = CompileStage::Done;
                                self.finish_ok(None)
                            }
                        },
                        Err(_) => {
                            self.stage = CompileStage::Done;
                            self.finish_ok(None)
                        },
                    }
                }
            },
            CompileEvent::FileExists(exists) => {
                if self.stage == CompileStage::CheckingHeader && !exists {
                    match self.language {
                        Language::Rust => {
                            self.stage = CompileStage::FindingCbindgen;
                            CompileAction::FindTool { name: String::from_str("cbindgen") }
                        },
                        Language::V => {
                            self.stage = CompileStage::CheckingGeneratedHeader;
                            CompileAction::CheckFile { path: self.header_output.clone() }
                        },
                        _ => {
                            self.stage = CompileStage::Done;
                            self.finish_ok(None)
                        },
                    }
                } else {
                    self.stage = CompileStage::Done;
                    if exists {
                        let h = self.header_output.clone();
                        self.finish_ok(Some(h))
                    } else {
                        self.finish_ok(None)
                    }
                }
            },
            CompileEvent::ToolLookup(found) => {
                if found {
                    let mut args: Vec<String> = Vec::new();
                    args.push(String::from_str("--lang"));
                    args.push(String::from_str("c"));
                    args.push(String::from_str("--output"));
                    args.push(self.header_output.clone());
                    args.push(self.working_dir.clone());
                    assert(string_views(args@) =~= seq![
                        "--lang"@,
                        "c"@,
                        "--output"@,
                        self.header_output@,
                        self.working_dir@,
                    ]);
                    self.stage = CompileStage::RunningCbindgen;
                    CompileAction::Run {
                        program: String::from_str("cbindgen"),
                        args,
                        working_dir: None,
                    }
                } else {
                    self.stage = CompileStage::Done;
                    self.finish_ok(None)
                }
            },
        }
    }
}

/// Compiles a source file to C with an explicit language: the task and its first step.
pub fn compile_to_c_with_lang(input: &str, output_dir: &str, language: Language) -> (r: (
    CompileTask,
    CompileAction,
))
    ensures
        r.0.started(input@, output_dir@, language),
        r.1 == (CompileAction::FindCompiler { language }),
{
    CompileTask::start(input, output_dir, language)
}

/// The error for a file in no known language.
pub open spec fn unknown_language(e: CompileError) -> bool {
    e matches CompileError::Io(io) && io.kind == IoErrorKind::InvalidInput && io.message@
        == "Unknown source language"@
}

/// Compiles a source file to C in the language its extension names: the task
/// and its first step, or an invalid-input IO error where no language is
/// detected.
pub fn compile_to_c(input: &str, output_dir: &str) -> (r: Result<
    (CompileTask, CompileAction),
    CompileError,
>)
    ensures
        r matches Err(e) ==> unknown_language(e),
        r matches Ok(p) ==> {
            &&& p.0.started(input@, output_dir@, p.0.language)
            &&& p.1 == (CompileAction::FindCompiler { language: p.0.language })
        },
        extension_settled(input@) ==> match detected_language(input@) {
            None => r is Err,
            Some(l) => r matches Ok(p) && p.0.language == l,
        },
        extension_settled(input@) ==> match settled_extension(input@) {
            Some(e) => is_ascii_text(e) ==> match language_for(ascii_lower(e)) {
                None => r is Err,
                Some(l) => r matches Ok(p) && p.0.language == l,
            },
            None => r is Err,
        },
{
    match detect_language(input) {
        None => Err(
            CompileError::Io(IoError::new(IoErrorKind::InvalidInput, "Unknown source language")),
        ),
        Some(language) => Ok(compile_to_c_with_lang(input, output_dir, language)),
    }
}

/// Compiles several files: one task, with its first step, for each file, in order.
pub fn compile_batch(files: &[(String, Language)], output_dir: &str) -> (r: Vec<
    (CompileTask, CompileAction),
>)
    ensures
        r@.len() == files@.len(),
        forall|i: int|
            0 <= i < r@.len() ==> {
                &&& (#[trigger] r@[i]).0.started(files@[i].0@, output_dir@, files@[i].1)
                &&& r@[i].1 == (CompileAction::FindCompiler { language: files@[i].1 })
            },
{
    let mut out: Vec<(CompileTask, CompileAction)> = Vec::new();
    let mut i: usize = 0;
    while i < files.len()
        invariant
            i <= files@.len(),
            out@.len() == i,
            forall|j: int|
                0 <= j < i ==> {
                    &&& (#[trigger] out@[j]).0.started(files@[j].0@, output_dir@, files@[j].1)
                    &&& out@[j].1 == (CompileAction::FindCompiler { language: files@[j].1 })
                },
        decreases files@.len() - i,
    {
        let (path, lang) = &files[i];
        let started = compile_to_c_with_lang(path.as_str(), output_dir, *lang);
        out.push(started);
        i += 1;
    }
    out
}

// ---------------------------------------------------------------------------
// Laws
// ---------------------------------------------------------------------------

/// The order in which a compilation passes through its stages.
pub open spec fn stage_rank(s: CompileStage) -> int {
    match s {
        CompileStage::FindingCompiler => 0,
        CompileStage::Compiling => 1,
        CompileStage::CheckingHeader => 2,
        CompileStage::CheckingGeneratedHeader => 3,
        CompileStage::FindingCbindgen => 3,
        CompileStage::RunningCbindgen => 4,
        CompileStage::CheckingCbindgenHeader => 5,
        CompileStage::Done => 6,
    }
}

/// Every step moves a compilation forward, so it finishes after at most six
/// steps; it asks for nothing more exactly when it has finished; and no step
/// changes the paths that the compilation planned.
pub proof fn law_steps_move_forward(
    t: CompileTask,
    event: CompileEvent,
    t2: CompileTask,
    r: CompileAction,
)
    requires
        t.accepts(event),
        step_spec(t, event, t2, r),
    ensures
        stage_rank(t2.stage) > stage_rank(t.stage),
        stage_rank(t2.stage) <= 6,
        r is Finished <==> t2.stage == CompileStage::Done,
        t2.stage == CompileStage::Done ==> forall|e: CompileEvent| !t2.accepts(e),
        t.planned() ==> t2.planned(),
{
}

/// A compilation fails only when its compiler is missing, cannot run, or
/// rejects the source: once the compiler has succeeded, a missing header never
/// turns the result into an error, and a success reports the planned output.
pub proof fn law_failures_come_from_the_compiler(
    t: CompileTask,
    event: CompileEvent,
    t2: CompileTask,
    r: CompileAction,
)
    requires
        t.accepts(event),
        step_spec(t, event, t2, r),
    ensures
        r matches CompileAction::Finished(Err(_)) ==> (t.stage == CompileStage::FindingCompiler
            || t.stage == CompileStage::Compiling),
        r matches CompileAction::Finished(Ok(res)) ==> {
            &&& res.output_path == t.c_output
            &&& res.language == t.language
            &&& t.stage != CompileStage::FindingCompiler
            &&& t.stage != CompileStage::Compiling
        },
        r matches CompileAction::Finished(
            Err(CompileError::CompilationFailed { stderr, exit_code }),
        ) ==> (event matches CompileEvent::ProcessFinished(Ok(out)) && !out.success && stderr
            == out.stderr && exit_code == out.exit_code),
{
}

/// A header check that finds the header, wherever it comes after a successful
/// compile (the first check, the re-check for V, or the check after
/// cbindgen), ends the compilation at once with success, reporting that
/// header, the planned output, the language and the compiler's output, for
/// every language.
pub proof fn law_found_header_is_kept(
    t: CompileTask,
    event: CompileEvent,
    t2: CompileTask,
    r: CompileAction,
)
    requires
        t.stage == CompileStage::CheckingHeader || t.stage == CompileStage::CheckingGeneratedHeader
            || t.stage == CompileStage::CheckingCbindgenHeader,
        event == CompileEvent::FileExists(true),
        step_spec(t, event, t2, r),
    ensures
        t2.stage == CompileStage::Done,
        r matches CompileAction::Finished(Ok(res)) && res.header_path == Some(t.header_output)
            && res.output_path == t.c_output && res.language == t.language && res.stdout
            == t.stdout && res.stderr == t.stderr,
{
}

} // verus!
