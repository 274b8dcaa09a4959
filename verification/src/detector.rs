//! Language detection for source files, and what each language's compiler is
//! called with.
use vstd::prelude::*;

use crate::paths::{
    ascii_lower, ascii_upper, dot_after_boundaries, extension_of_name, extension_settled,
    is_boundary, is_slash, last_boundary, settled_extension, is_ascii_text, is_plain_name,
    is_portable_path, join_safe, last_component, lowercase_of, path_extension, piece_start, tail_end,
    to_lowercase,
};
use crate::text::{
    eq_str, has_char, lemma_rfind_before, lines, rfind, split_lines, starts_with,
    string_of, string_views, to_chars,
};

verus! {

/// Supported languages that can be compiled to C.
#[derive(Clone, Copy, Debug, PartialEq, Eq, Structural)]
pub enum Language {
    /// V language (vlang.io)
    V,
    /// Zig language
    Zig,
    /// C (already native)
    C,
    /// C++
    Cpp,
    /// C#
    CSharp,
    /// Rust (for cbindgen)
    Rust,
    /// D
    D,
    /// Nim
    Nim,
    /// Odin
    Odin,
    /// Hare
    Hare,
}

/// Information about a detected language.
#[derive(Debug)]
pub struct LanguageInfo {
    pub language: Language,
    pub compiler: Option<String>,
    pub version: Option<String>,
}

/// The languages, in the order in which detection tries them.
pub open spec fn all_languages() -> Seq<Language> {
    seq![
        Language::V,
        Language::Zig,
        Language::C,
        Language::Cpp,
        Language::CSharp,
        Language::Rust,
        Language::D,
        Language::Nim,
        Language::Odin,
        Language::Hare,
    ]
}

pub open spec fn extensions_of(l: Language) -> Seq<Seq<char>> {
    match l {
        Language::V => seq!["v"@],
        Language::Zig => seq!["zig"@],
        Language::C => seq!["c"@, "h"@],
        Language::Cpp => seq!["cpp"@, "cxx"@, "cc"@, "hpp"@, "hxx"@],
        Language::CSharp => seq!["cs"@],
        Language::Rust => seq!["rs"@],
        Language::D => seq!["d"@],
        Language::Nim => seq!["nim"@],
        Language::Odin => seq!["odin"@],
        Language::Hare => seq!["ha"@],
    }
}

pub open spec fn compiler_of(l: Language) -> Seq<char> {
    match l {
        Language::V => "v"@,
        Language::Zig => "zig"@,
        Language::C => "clang"@,
        Language::Cpp => "clang++"@,
        Language::CSharp => "csc"@,
        Language::Rust => "rustc"@,
        Language::D => "ldc2"@,
        Language::Nim => "nim"@,
        Language::Odin => "odin"@,
        Language::Hare => "hare"@,
    }
}

/// The name that `Debug` writes for a language.
pub open spec fn debug_name_of(l: Language) -> Seq<char> {
    match l {
        Language::V => "V"@,
        Language::Zig => "Zig"@,
        Language::C => "C"@,
        Language::Cpp => "Cpp"@,
        Language::CSharp => "CSharp"@,
        Language::Rust => "Rust"@,
        Language::D => "D"@,
        Language::Nim => "Nim"@,
        Language::Odin => "Odin"@,
        Language::Hare => "Hare"@,
    }
}

/// The arguments that compile `input` to `output` for a language.
pub open spec fn c_args(l: Language, input: Seq<char>, output: Seq<char>) -> Seq<Seq<char>> {
    match l {
        Language::V => seq!["-o"@, output, "-backend"@, "c"@, input],
        Language::Zig => seq![
            "build-obj"@,
            "-OReleaseFast"@,
            "-fPIC"@,
            "-femit-bin"@,
            "-femit-bin="@ + output,
            input,
        ],
        Language::C => seq!["-E"@, "-o"@, output, input],
        Language::Cpp => seq!["-c"@, "-o"@, output, input],
        Language::CSharp => seq!["-target:library"@, "-out:"@ + output, input],
        Language::Rust => seq!["--crate-type=cdylib"@, "-o"@, output, input],
        Language::D => seq!["-c"@, "-HC"@, "-of="@ + output, input],
        Language::Nim => seq!["c"@, "--mm:none"@, "--app:staticlib"@, "--out:"@ + output, input],
        Language::Odin => seq![
            "build"@,
            input,
            "-file"@,
            "-build-mode:obj"@,
            "-reloc-mode:pic"@,
            "-out:"@ + output,
        ],
        Language::Hare => seq!["build"@, "-o"@, output, input],
    }
}

/// The first language, in detection order, one of whose extensions is `ext`.
pub open spec fn language_for(ext: Seq<char>) -> Option<Language> {
    if extensions_of(Language::V).contains(ext) {
        Some(Language::V)
    } else if extensions_of(Language::Zig).contains(ext) {
        Some(Language::Zig)
    } else if extensions_of(Language::C).contains(ext) {
        Some(Language::C)
    } else if extensions_of(Language::Cpp).contains(ext) {
        Some(Language::Cpp)
    } else if extensions_of(Language::CSharp).contains(ext) {
        Some(Language::CSharp)
    } else if extensions_of(Language::Rust).contains(ext) {
        Some(Language::Rust)
    } else if extensions_of(Language::D).contains(ext) {
        Some(Language::D)
    } else if extensions_of(Language::Nim).contains(ext) {
        Some(Language::Nim)
    } else if extensions_of(Language::Odin).contains(ext) {
        Some(Language::Odin)
    } else if extensions_of(Language::Hare).contains(ext) {
        Some(Language::Hare)
    } else {
        None
    }
}

/// The language of a file with extension `ext`, compared in lower case.
pub open spec fn language_for_extension_spec(ext: Option<Seq<char>>) -> Option<Language> {
    match ext {
        None => None,
        Some(e) => language_for(lowercase_of(e)),
    }
}


impl Language {
    /// Get the file extensions for this language.
    pub fn extensions(&self) -> (r: &'static [&'static str])
        ensures
            r@.map_values(|s: &str| s@) == extensions_of(*self),
    {
        let r: &'static [&'static str] = match self {
            Language::V => &["v"],
            Language::Zig => &["zig"],
            Language::C => &["c", "h"],
            Language::Cpp => &["cpp", "cxx", "cc", "hpp", "hxx"],
            Language::CSharp => &["cs"],
            Language::Rust => &["rs"],
            Language::D => &["d"],
            Language::Nim => &["nim"],
            Language::Odin => &["odin"],
            Language::Hare => &["ha"],
        };
        assert(r@.map_values(|s: &str| s@) =~= extensions_of(*self));
        r
    }

    /// Get the typical compiler command for this language.
    pub fn default_compiler(&self) -> (r: &'static str)
        ensures
            r@ == compiler_of(*self),
    {
        match self {
            Language::V => "v",
            Language::Zig => "zig",
            Language::C => "clang",
            Language::Cpp => "clang++",
            Language::CSharp => "csc",
            Language::Rust => "rustc",
            Language::D => "ldc2",
            Language::Nim => "nim",
            Language::Odin => "odin",
            Language::Hare => "hare",
        }
    }

    /// The name of the language as `Debug` writes it.
    pub fn debug_name(&self) -> (r: &'static str)
        ensures
            r@ == debug_name_of(*self),
    {
        match self {
            Language::V => "V",
            Language::Zig => "Zig",
            Language::C => "C",
            Language::Cpp => "Cpp",
            Language::CSharp => "CSharp",
            Language::Rust => "Rust",
            Language::D => "D",
            Language::Nim => "Nim",
            Language::Odin => "Odin",
            Language::Hare => "Hare",
        }
    }

    /// Get the command to compile to C intermediate.
    pub fn to_c_args(&self, input: &str, output: &str) -> (r: Vec<String>)
        ensures
            string_views(r@) == c_args(*self, input@, output@),
    {
        let mut r: Vec<String> = Vec::new();
        match self {
            Language::V => {
                r.push(String::from_str("-o"));
                r.push(String::from_str(output));
                r.push(String::from_str("-backend"));
                r.push(String::from_str("c"));
                r.push(String::from_str(input));
            },
            Language::Zig => {
                // Zig has no direct C output; a position-independent, optimized
                // object file is emitted instead, to link into a Rust binary.
                r.push(String::from_str("build-obj"));
                r.push(String::from_str("-OReleaseFast"));
                r.push(String::from_str("-fPIC"));
                r.push(String::from_str("-femit-bin"));
                let mut emit = String::from_str("-femit-bin=");
                crate::text::push_str(&mut emit, output);
                r.push(emit);
                r.push(String::from_str(input));
            },
            Language::C => {
                // C is already C: only preprocess.
                r.push(String::from_str("-E"));
                r.push(String::from_str("-o"));
                r.push(String::from_str(output));
                r.push(String::from_str(input));
            },
            Language::Cpp => {
                // Compiled to an object; headers come separately.
                r.push(String::from_str("-c"));
                r.push(String::from_str("-o"));
                r.push(String::from_str(output));
                r.push(String::from_str(input));
            },
            Language::CSharp => {
                // C# to native needs ahead-of-time compilation.
                r.push(String::from_str("-target:library"));
                let mut out = String::from_str("-out:");
                crate::text::push_str(&mut out, output);
                r.push(out);
                r.push(String::from_str(input));
            },
            Language::Rust => {
                // Rust uses cbindgen for headers and a normal compilation.
                r.push(String::from_str("--crate-type=cdylib"));
                r.push(String::from_str("-o"));
                r.push(String::from_str(output));
                r.push(String::from_str(input));
            },
            Language::D => {
                // An object file, with a C header from `-HC`.
                r.push(String::from_str("-c"));
                r.push(String::from_str("-HC"));
                let mut out = String::from_str("-of=");
                crate::text::push_str(&mut out, output);
                r.push(out);
                r.push(String::from_str(input));
            },
            Language::Nim => {
                // Nim compiles through C; a static library without a memory manager.
                r.push(String::from_str("c"));
                r.push(String::from_str("--mm:none"));
                r.push(String::from_str("--app:staticlib"));
                let mut out = String::from_str("--out:");
                crate::text::push_str(&mut out, output);
                r.push(out);
                r.push(String::from_str(input));
            },
            Language::Odin => {
                // A position-independent object file from a single source file.
                r.push(String::from_str("build"));
                r.push(String::from_str(input));
                r.push(String::from_str("-file"));
                r.push(String::from_str("-build-mode:obj"));
                r.push(String::from_str("-reloc-mode:pic"));
                let mut out = String::from_str("-out:");
                crate::text::push_str(&mut out, output);
                r.push(out);
            },
            Language::Hare => {
                // Hare builds through its QBE backend.
                r.push(String::from_str("build"));
                r.push(String::from_str("-o"));
                r.push(String::from_str(output));
                r.push(String::from_str(input));
            },
        }
        assert(string_views(r@) =~= c_args(*self, input@, output@));
        r
    }
}

proof fn lemma_first_language(ext: Seq<char>, i: int)
    requires
        0 <= i < 10,
        forall|j: int| 0 <= j < i ==> !extensions_of(#[trigger] all_languages()[j]).contains(ext),
        extensions_of(all_languages()[i]).contains(ext),
    ensures
        language_for(ext) == Some(all_languages()[i]),
{
    let l = all_languages();
    assert forall|j: int| 0 <= j < i implies !extensions_of(l[j]).contains(ext) by {}
    if i >= 1 {
        assert(!extensions_of(l[0]).contains(ext));
    }
    if i >= 2 {
        assert(!extensions_of(l[1]).contains(ext));
    }
    if i >= 3 {
        assert(!extensions_of(l[2]).contains(ext));
    }
    if i >= 4 {
        assert(!extensions_of(l[3]).contains(ext));
    }
    if i >= 5 {
        assert(!extensions_of(l[4]).contains(ext));
    }
    if i >= 6 {
        assert(!extensions_of(l[5]).contains(ext));
    }
    if i >= 7 {
        assert(!extensions_of(l[6]).contains(ext));
    }
    if i >= 8 {
        assert(!extensions_of(l[7]).contains(ext));
    }
    if i >= 9 {
        assert(!extensions_of(l[8]).contains(ext));
    }
}

/// The language whose extension list holds `ext` exactly.
pub fn language_for_extension(ext: &str) -> (r: Option<Language>)
    ensures
        r == language_for(ext@),
{
    let e = to_chars(ext);
    let langs = [
        Language::V,
        Language::Zig,
        Language::C,
        Language::Cpp,
        Language::CSharp,
        Language::Rust,
        Language::D,
        Language::Nim,
        Language::Odin,
        Language::Hare,
    ];
    let mut i: usize = 0;
    while i < 10
        invariant
            e@ == ext@,
            i <= 10,
            langs@ == all_languages(),
            forall|j: int|
                0 <= j < i ==> !extensions_of(#[trigger] all_languages()[j]).contains(ext@),
        decreases 10 - i,
    {
        let lang = langs[i];
        let exts = lang.extensions();
        let ghost es = exts@.map_values(|s: &str| s@);
        let mut k: usize = 0;
        while k < exts.len()
            invariant
                e@ == ext@,
                i < 10,
                langs@ == all_languages(),
                lang == all_languages()[i as int],
                forall|j: int|
                    0 <= j < i ==> !extensions_of(#[trigger] all_languages()[j]).contains(ext@),
                es == exts@.map_values(|s: &str| s@),
                es == extensions_of(lang),
                k <= exts@.len(),
                forall|j: int| 0 <= j < k ==> es[j] != ext@,
            decreases exts@.len() - k,
        {
            if eq_str(e.as_slice(), exts[k]) {
                assert(es[k as int] == ext@);
                assert(es.contains(ext@));
                proof {
                    lemma_first_language(ext@, i as int);
                }
                return Some(lang);
            }
            k += 1;
        }
        assert(!es.contains(ext@));
        i += 1;
    }
    proof {
        let l = all_languages();
        assert(!extensions_of(l[0]).contains(ext@));
        assert(!extensions_of(l[1]).contains(ext@));
        assert(!extensions_of(l[2]).contains(ext@));
        assert(!extensions_of(l[3]).contains(ext@));
        assert(!extensions_of(l[4]).contains(ext@));
        assert(!extensions_of(l[5]).contains(ext@));
        assert(!extensions_of(l[6]).contains(ext@));
        assert(!extensions_of(l[7]).contains(ext@));
        assert(!extensions_of(l[8]).contains(ext@));
        assert(!extensions_of(l[9]).contains(ext@));
    }
    None
}

/// The language of a file whose extension is `ext` (as `Path::extension` gives
/// it): the extension is lowered and looked up.
pub fn detect_language_from_extension(ext: Option<&str>) -> (r: Option<Language>)
    ensures
        r == language_for_extension_spec(
            match ext {
                Some(e) => Some(e@),
                None => None,
            },
        ),
        ext is Some && is_ascii_text(ext->0@) ==> r == language_for(ascii_lower(ext->0@)),
{
    match ext {
        None => None,
        Some(e) => {
            let lower = to_lowercase(e);
            language_for_extension(lower.as_str())
        },
    }
}

/// The language that detection gives for a path whose extension is settled:
/// that of its extension, lowered.
pub open spec fn detected_language(path: Seq<char>) -> Option<Language> {
    language_for_extension_spec(settled_extension(path))
}

/// Detect the language of a source file based on extension.
pub fn detect_language(path: &str) -> (r: Option<Language>)
    ensures
        extension_settled(path@) ==> r == detected_language(path@),
        extension_settled(path@) ==> match settled_extension(path@) {
            Some(e) => is_ascii_text(e) ==> r == language_for(ascii_lower(e)),
            None => r is None,
        },
{
    match path_extension(path) {
        Some(e) => detect_language_from_extension(Some(e.as_str())),
        None => None,
    }
}

/// What a compiler lookup finds: the language's default compiler, with the
/// version it reported, when the compiler was found.
pub fn compiler_info(language: Language, found: bool, version: Option<String>) -> (r: Option<
    LanguageInfo,
>)
    ensures
        found ==> (r matches Some(info) && info.language == language && info.version == version
            && (info.compiler matches Some(c) && c@ == compiler_of(language))),
        !found ==> r is None,
{
    if found {
        Some(
            LanguageInfo {
                language,
                compiler: Some(String::from_str(language.default_compiler())),
                version,
            },
        )
    } else {
        None
    }
}

/// The version that a compiler reported: the first line of its output, when
/// the `--version` run succeeded.
pub fn version_from_output(success: bool, stdout: &str) -> (r: Option<String>)
    ensures
        !success ==> r is None,
        success && lines(stdout@).len() == 0 ==> r is None,
        success && lines(stdout@).len() > 0 ==> (r matches Some(v) && v@ == lines(stdout@)[0]),
{
    if !success {
        return None;
    }
    let c = to_chars(stdout);
    let ls = split_lines(c.as_slice());
    if ls.len() == 0 {
        None
    } else {
        assert(crate::text::seqs(ls@)[0] == ls@[0]@);
        Some(string_of(ls[0].as_slice()))
    }
}

/// What a directory scan does with an entry.
#[derive(Clone, Copy, Debug, PartialEq, Eq, Structural)]
pub enum ScanEntry {
    /// A directory to scan.
    Descend,
    /// A directory that is not scanned (build output, dependencies, VCS data).
    SkipDirectory,
    /// A source file in a known language.
    Source(Language),
    /// A file in no known language.
    Ignore,
}

/// Directory names that a scan passes over.
pub open spec fn skipped_dir(name: Seq<char>) -> bool {
    name == "target"@ || name == "node_modules"@ || name == ".git"@ || name == "build"@ || name
        == "dist"@
}

/// Decides what a directory scan does with an entry, given its file name: a
/// directory is skipped when its name is one of `skipped_dir`, a file is a
/// source file when its extension names a language.
pub fn classify_entry(name: &str, is_dir: bool) -> (r: ScanEntry)
    ensures
        is_dir ==> r == (if skipped_dir(name@) {
            ScanEntry::SkipDirectory
        } else {
            ScanEntry::Descend
        }),
        !is_dir ==> (r is Source || r is Ignore),
        !is_dir && extension_settled(name@) ==> r == match detected_language(name@) {
            Some(l) => ScanEntry::Source(l),
            None => ScanEntry::Ignore,
        },
{
    if is_dir {
        let nc = to_chars(name);
        if eq_str(nc.as_slice(), "target") || eq_str(nc.as_slice(), "node_modules") || eq_str(
            nc.as_slice(),
            ".git",
        ) || eq_str(nc.as_slice(), "build") || eq_str(nc.as_slice(), "dist") {
            ScanEntry::SkipDirectory
        } else {
            ScanEntry::Descend
        }
    } else {
        match detect_language(name) {
            Some(l) => ScanEntry::Source(l),
            None => ScanEntry::Ignore,
        }
    }
}

/// An entry of a directory as a scan read it: its path, its file name, whether
/// it is a directory, and, for a directory that the scan read, its entries in
/// the order in which they were read.
pub struct ScanNode {
    pub path: String,
    pub name: String,
    pub is_dir: bool,
    pub children: Vec<ScanNode>,
}

/// The source files that a scan finds among `nodes`, in order: each file whose
/// name gives a language, with that language, and what the scan finds inside
/// each directory that is not skipped.
pub open spec fn walk(nodes: Seq<ScanNode>) -> Seq<(Seq<char>, Language)>
    decreases nodes,
{
    if nodes.len() == 0 {
        seq![]
    } else {
        walk(nodes.subrange(0, nodes.len() - 1)) + walk_node(nodes[nodes.len() - 1])
    }
}

pub open spec fn walk_node(n: ScanNode) -> Seq<(Seq<char>, Language)>
    decreases n,
{
    if n.is_dir {
        if skipped_dir(n.name@) {
            seq![]
        } else {
            walk(n.children@)
        }
    } else {
        match detected_language(n.name@) {
            Some(l) => seq![(n.path@, l)],
            None => seq![],
        }
    }
}

/// Whether every file name among `nodes`, at any depth, has a settled
/// extension, on which detection is stated.
pub open spec fn names_settled(nodes: Seq<ScanNode>) -> bool
    decreases nodes,
{
    if nodes.len() == 0 {
        true
    } else {
        names_settled(nodes.subrange(0, nodes.len() - 1)) && node_names_settled(
            nodes[nodes.len() - 1],
        )
    }
}

pub open spec fn node_names_settled(n: ScanNode) -> bool
    decreases n,
{
    if n.is_dir {
        names_settled(n.children@)
    } else {
        extension_settled(n.name@)
    }
}

pub open spec fn found_views(v: Seq<(String, Language)>) -> Seq<(Seq<char>, Language)> {
    v.map_values(|x: (String, Language)| (x.0@, x.1))
}

proof fn lemma_settled_prefix(s: Seq<ScanNode>, k: int)
    requires
        names_settled(s),
        0 <= k <= s.len(),
    ensures
        names_settled(s.subrange(0, k)),
    decreases s.len(),
{
    if k < s.len() {
        let init = s.subrange(0, s.len() - 1);
        lemma_settled_prefix(init, k);
        assert(init.subrange(0, k) =~= s.subrange(0, k));
    } else {
        assert(s.subrange(0, k) =~= s);
    }
}

fn scan_into(nodes: &Vec<ScanNode>, out: &mut Vec<(String, Language)>)
    ensures
        names_settled(nodes@) ==> found_views(final(out)@) == found_views(old(out)@) + walk(
            nodes@,
        ),
    decreases nodes@,
{
    let n = nodes.len();
    let mut i: usize = 0;
    while i < n
        invariant
            n == nodes@.len(),
            i <= n,
            names_settled(nodes@.subrange(0, i as int)) ==> found_views(out@) == found_views(
                old(out)@,
            ) + walk(nodes@.subrange(0, i as int)),
            names_settled(nodes@) ==> names_settled(nodes@.subrange(0, i as int)),
        decreases n - i,
    {
        let ghost before = out@;
        let ghost prefix = nodes@.subrange(0, i as int);
        let ghost next = nodes@.subrange(0, i + 1);
        assert(next.subrange(0, i as int) =~= prefix);
        assert(next[i as int] == nodes@[i as int]);
        let node = &nodes[i];
        match classify_entry(node.name.as_str(), node.is_dir) {
            ScanEntry::Descend => {
                assert(decreases_to!(nodes@ => nodes@[i as int]));
                assert(decreases_to!(nodes@[i as int] => nodes@[i as int].children));
                assert(decreases_to!(nodes@[i as int].children => nodes@[i as int].children@));
                scan_into(&node.children, out);
            },
            ScanEntry::Source(l) => {
                out.push((node.path.clone(), l));
                assert(found_views(out@) =~= found_views(before).push((node.path@, l)));
            },
            _ => {
                assert(found_views(out@) =~= found_views(before));
            },
        }
        proof {
            if names_settled(next) {
                assert(names_settled(prefix));
                assert(node_names_settled(nodes@[i as int]));
                assert(walk(next) == walk(prefix) + walk_node(nodes@[i as int]));
                assert(found_views(out@) =~= found_views(before) + walk_node(nodes@[i as int]));
                assert(found_views(out@) =~= found_views(old(out)@) + walk(next));
            }
            if names_settled(nodes@) {
                lemma_settled_prefix(nodes@, i + 1);
            }
        }
        i += 1;
    }
    assert(nodes@.subrange(0, n as int) =~= nodes@);
}

/// The source files found in a directory tree that a scan read, each with its
/// language, in the order of a depth-first walk: `walk` says which.
pub fn scan_tree(nodes: &Vec<ScanNode>) -> (r: Vec<(String, Language)>)
    ensures
        names_settled(nodes@) ==> found_views(r@) == walk(nodes@),
{
    let mut out: Vec<(String, Language)> = Vec::new();
    scan_into(nodes, &mut out);
    proof {
        if names_settled(nodes@) {
            assert(found_views(Seq::<(String, Language)>::empty()) + walk(nodes@) =~= walk(nodes@));
        }
    }
    out
}

// ---------------------------------------------------------------------------
// Laws
// ---------------------------------------------------------------------------

/// Where the `i`-th extension of `l` stands in the list of all extensions.
spec fn position(l: Language, i: int) -> int {
    match l {
        Language::V => 0,
        Language::Zig => 1,
        Language::C => 2 + i,
        Language::Cpp => 4 + i,
        Language::CSharp => 9,
        Language::Rust => 10,
        Language::D => 11,
        Language::Nim => 12,
        Language::Odin => 13,
        Language::Hare => 14,
    }
}

/// Every extension of a language is detected as that language: the extension
/// lists of different languages are disjoint.
pub proof fn law_extensions_detect_their_language(l: Language, e: Seq<char>)
    requires
        extensions_of(l).contains(e),
    ensures
        language_for(e) == Some(l),
{
    reveal_strlit("v");
    reveal_strlit("zig");
    reveal_strlit("c");
    reveal_strlit("h");
    reveal_strlit("cpp");
    reveal_strlit("cxx");
    reveal_strlit("cc");
    reveal_strlit("hpp");
    reveal_strlit("hxx");
    reveal_strlit("cs");
    reveal_strlit("rs");
    reveal_strlit("d");
    reveal_strlit("nim");
    reveal_strlit("odin");
    reveal_strlit("ha");
    let k = choose|k: int| 0 <= k < extensions_of(l).len() && extensions_of(l)[k] == e;
    let all = seq![
        "v"@,
        "zig"@,
        "c"@,
        "h"@,
        "cpp"@,
        "cxx"@,
        "cc"@,
        "hpp"@,
        "hxx"@,
        "cs"@,
        "rs"@,
        "d"@,
        "nim"@,
        "odin"@,
        "ha"@,
    ];
    // each extension differs from all others
    assert forall|x: int, y: int| 0 <= x < all.len() && 0 <= y < all.len() && x != y implies all[x]
        != all[y] by {
        if all[x] == all[y] {
            assert(all[x].len() == all[y].len());
            assert(all[x][0] == all[y][0]);
            if all[x].len() > 1 {
                assert(all[x][1] == all[y][1]);
            }
            if all[x].len() > 2 {
                assert(all[x][2] == all[y][2]);
            }
        }
    }
    assert forall|m: Language, i: int|
        0 <= i < extensions_of(m).len() && m != l implies #[trigger] extensions_of(m)[i] != e by {
        assert(extensions_of(m)[i] == all[position(m, i)]);
        assert(e == all[position(l, k)]);
    }
    assert forall|m: Language| m != l implies !(#[trigger] extensions_of(m)).contains(e) by {
        if extensions_of(m).contains(e) {
            let i = choose|i: int| 0 <= i < extensions_of(m).len() && extensions_of(m)[i] == e;
        }
    }
}

/// The source file is one argument of the compiler command, the last one for
/// every language but Odin, which takes it right after `build`.
pub proof fn law_input_is_an_argument(l: Language, input: Seq<char>, output: Seq<char>)
    ensures
        c_args(l, input, output).contains(input),
        l != Language::Odin ==> c_args(l, input, output).last() == input,
        l == Language::Odin ==> c_args(l, input, output)[1] == input,
        c_args(l, input, output).len() >= 3,
{
    let a = c_args(l, input, output);
    if l == Language::Odin {
        assert(a[1] == input);
    } else {
        assert(a[a.len() - 1] == input);
    }
}

/// Every extension is made of lower-case ASCII letters.
proof fn lemma_extension_letters(l: Language, x: Seq<char>)
    requires
        extensions_of(l).contains(x),
    ensures
        x.len() > 0,
        forall|i: int| 0 <= i < x.len() ==> 'a' <= #[trigger] x[i] && x[i] <= 'z',
{
    reveal_strlit("v");
    reveal_strlit("zig");
    reveal_strlit("c");
    reveal_strlit("h");
    reveal_strlit("cpp");
    reveal_strlit("cxx");
    reveal_strlit("cc");
    reveal_strlit("hpp");
    reveal_strlit("hxx");
    reveal_strlit("cs");
    reveal_strlit("rs");
    reveal_strlit("d");
    reveal_strlit("nim");
    reveal_strlit("odin");
    reveal_strlit("ha");
    let k = choose|k: int| 0 <= k < extensions_of(l).len() && extensions_of(l)[k] == x;
}

/// A file whose extension is one of a language's, in lower or in upper case,
/// is detected as that language wherever it lies: `dir` + `stem` + `.` + the
/// extension is a portable path whose extension is ASCII and lowers to the
/// language's, which `detect_language` then reports.
#[verifier::rlimit(60)]
#[verifier::spinoff_prover]
pub proof fn law_extensions_detect_anywhere(
    l: Language,
    x: Seq<char>,
    dir: Seq<char>,
    stem: Seq<char>,
    upper: bool,
)
    requires
        extensions_of(l).contains(x),
        join_safe(dir),
        dir.len() == 0 || dir.last() == '/',
        stem.len() > 0,
        !has_char(stem, '/'),
        !has_char(stem, '\\'),
        !has_char(stem, ':'),
    ensures
        ({
            let ext = if upper {
                ascii_upper(x)
            } else {
                x
            };
            let p = dir + stem + seq!['.'] + ext;
            &&& is_portable_path(p)
            &&& extension_of_name(last_component(p)) == Some(ext)
            &&& extension_settled(p)
            &&& settled_extension(p) == Some(ext)
            &&& is_ascii_text(ext)
            &&& language_for(ascii_lower(ext)) == Some(l)
        }),
{
    lemma_extension_letters(l, x);
    law_extensions_detect_their_language(l, x);
    let ext = if upper {
        ascii_upper(x)
    } else {
        x
    };
    assert(ascii_lower(ext) =~= x);
    assert(forall|i: int| 0 <= i < ext.len() ==> ('a' <= #[trigger] ext[i] && ext[i] <= 'z') || (
    'A' <= ext[i] && ext[i] <= 'Z'));
    let name = stem + seq!['.'] + ext;
    let p = dir + name;
    assert(p =~= dir + stem + seq!['.'] + ext);
    let n = p.len() as int;
    // The path ends with a letter, so nothing is dropped at its end.
    assert(p[n - 1] == ext[ext.len() - 1]);
    assert(tail_end(p, n) == n);
    // The last `/` is the one that ends `dir`, if any.
    assert forall|i: int| dir.len() <= i < n implies p[i] != '/' && p[i] != '\\' && p[i] != ':' by {
        assert(p[i] == name[i - dir.len()]);
        if i - dir.len() < stem.len() {
            assert(name[i - dir.len()] == stem[i - dir.len()]);
        }
    }
    lemma_rfind_before(p, '/', n);
    if dir.len() > 0 {
        assert(p[dir.len() - 1] == '/');
    }
    assert(piece_start(p, n) == dir.len());
    assert(last_component(p) =~= name);
    // The name is plain.
    assert forall|i: int| 0 <= i < name.len() implies name[i] != '/' && name[i] != '\\' && name[i]
        != ':' by {
        assert(p[dir.len() + i] == name[i]);
    }
    assert(name != "."@ && name != ".."@) by {
        reveal_strlit(".");
        reveal_strlit("..");
        assert(name.len() >= 3);
    }
    assert(is_plain_name(name));
    // The whole path holds no `\` or `:`, and does not begin with `//`.
    assert forall|i: int| 0 <= i < n implies p[i] != '\\' && p[i] != ':' by {
        if i < dir.len() {
            assert(p[i] == dir[i]);
        }
    }
    assert(!starts_with(p, "//"@)) by {
        reveal_strlit("//");
        if starts_with(p, "//"@) {
            assert(p.subrange(0, 2)[0] == '/' && p.subrange(0, 2)[1] == '/');
            if dir.len() >= 2 {
                assert(dir.subrange(0, 2) =~= p.subrange(0, 2));
            }
            assert(p[1] == '/');
        }
    }
    // The extension is what follows the last `.`.
    lemma_rfind_before(name, '.', name.len() as int);
    assert(name[stem.len() as int] == '.');
    assert forall|i: int| stem.len() < i < name.len() implies name[i] != '.' by {
        assert(name[i] == ext[i - stem.len() - 1]);
    }
    assert(rfind(name, '.') == Some(stem.len() as int));
    assert(name.subrange(stem.len() as int + 1, name.len() as int) =~= ext);
}

proof fn lemma_last_boundary_skips(p: Seq<char>, m: int, n: int)
    requires
        0 <= m <= n <= p.len(),
        forall|i: int| m <= i < n ==> !is_boundary(#[trigger] p[i]),
    ensures
        last_boundary(p, n) == last_boundary(p, m),
    decreases n - m,
{
    if n > m {
        lemma_last_boundary_skips(p, m, n - 1);
    }
}

/// Where a native-style path is portable too, both readings of its extension agree.
proof fn lemma_native_path_is_portable_alike(
    l: Language,
    x: Seq<char>,
    dir: Seq<char>,
    stem: Seq<char>,
    upper: bool,
)
    requires
        extensions_of(l).contains(x),
        dir.len() == 0 || is_boundary(dir.last()),
        stem.len() > 0,
        forall|i: int| 0 <= i < stem.len() ==> !is_boundary(#[trigger] stem[i]),
        is_portable_path(
            dir + stem + seq!['.'] + (if upper {
                ascii_upper(x)
            } else {
                x
            }),
        ),
    ensures
        ({
            let ext = if upper {
                ascii_upper(x)
            } else {
                x
            };
            settled_extension(dir + stem + seq!['.'] + ext) == Some(ext)
        }),
{
    let ext = if upper {
        ascii_upper(x)
    } else {
        x
    };
    let p = dir + stem + seq!['.'] + ext;
    let d = dir.len() as int;
    assert(p =~= dir + (stem + seq!['.'] + ext));
    assert(forall|i: int| 0 <= i < d ==> p[i] == dir[i]);
    // `dir` ends with `/`, and the law for portable paths applies.
    assert forall|i: int| 0 <= i < d implies dir[i] != '\\' && dir[i] != ':' by {
        assert(p[i] == dir[i]);
    }
    if d > 0 {
        assert(p[d - 1] == dir.last());
    }
    assert(!starts_with(dir, "//"@)) by {
        reveal_strlit("//");
        if starts_with(dir, "//"@) {
            assert(dir.subrange(0, 2)[0] == dir[0]);
            assert(dir.subrange(0, 2)[1] == dir[1]);
            assert(p[0] == dir[0] && p[1] == dir[1]);
            assert(p.subrange(0, 2) =~= "//"@);
            assert(starts_with(p, "//"@));
        }
    }
    law_extensions_detect_anywhere(l, x, dir, stem, upper);
}

/// A file whose extension is one of a language's, in lower or in upper case,
/// is detected as that language also under a native directory such as
/// `C:\src\` or `src\`: `dir` + `stem` + `.` + the extension, where `dir` is
/// empty or ends with `/`, `\` or `:` and does not begin with two separators,
/// has that extension on every platform, and it lowers to the language's.
#[verifier::rlimit(60)]
#[verifier::spinoff_prover]
pub proof fn law_extensions_detect_in_native_paths(
    l: Language,
    x: Seq<char>,
    dir: Seq<char>,
    stem: Seq<char>,
    upper: bool,
)
    requires
        extensions_of(l).contains(x),
        dir.len() == 0 || is_boundary(dir.last()),
        !(dir.len() >= 2 && is_slash(dir[0]) && is_slash(dir[1])),
        stem.len() > 0,
        forall|i: int| 0 <= i < stem.len() ==> !is_boundary(#[trigger] stem[i]),
    ensures
        ({
            let ext = if upper {
                ascii_upper(x)
            } else {
                x
            };
            let p = dir + stem + seq!['.'] + ext;
            &&& extension_settled(p)
            &&& settled_extension(p) == Some(ext)
            &&& is_ascii_text(ext)
            &&& language_for(ascii_lower(ext)) == Some(l)
        }),
{
    lemma_extension_letters(l, x);
    law_extensions_detect_their_language(l, x);
    let ext = if upper {
        ascii_upper(x)
    } else {
        x
    };
    assert(ascii_lower(ext) =~= x);
    assert(forall|i: int| 0 <= i < ext.len() ==> ('a' <= #[trigger] ext[i] && ext[i] <= 'z') || (
    'A' <= ext[i] && ext[i] <= 'Z'));
    let name = stem + seq!['.'] + ext;
    let p = dir + name;
    assert(p =~= dir + stem + seq!['.'] + ext);
    let n = p.len() as int;
    let d = dir.len() as int;
    let k = d + stem.len();
    assert forall|i: int| d <= i < n implies !is_boundary(#[trigger] p[i]) by {
        assert(p[i] == name[i - d]);
        if i - d < stem.len() {
            assert(name[i - d] == stem[i - d]);
        }
    }
    lemma_last_boundary_skips(p, d, n);
    if d > 0 {
        assert(p[d - 1] == dir.last());
    }
    assert(last_boundary(p, n) == d - 1);
    assert forall|i: int| k < i < n implies p[i] != '.' by {
        assert(p[i] == ext[i - k - 1]);
    }
    assert(p[k] == '.');
    lemma_rfind_before(p, '.', n);
    assert(rfind(p, '.') == Some(k));
    assert(p.subrange(d, n) =~= name);
    assert(name != ".."@) by {
        reveal_strlit("..");
        assert(name.len() >= 3);
    }
    assert(!(p.len() >= 2 && is_slash(p[0]) && is_slash(p[1]))) by {
        if p.len() >= 2 && is_slash(p[0]) && is_slash(p[1]) {
            if d >= 2 {
                assert(p[0] == dir[0] && p[1] == dir[1]);
            } else if d == 1 {
                assert(p[1] == stem[0]);
            } else {
                assert(p[0] == stem[0]);
            }
        }
    }
    assert(dot_after_boundaries(p));
    assert(p.subrange(k + 1, n) =~= ext);
    if is_portable_path(p) {
        lemma_native_path_is_portable_alike(l, x, dir, stem, upper);
    }
}

} // verus!
