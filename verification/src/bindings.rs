//! Rust binding generation from a parsed C header: the `extern "C"` block,
//! `#[repr(C)]` structs and enums, and type aliases.
use vstd::prelude::*;

use crate::ctype::{rust_type, rust_type_chars};
use crate::header::{
    enum_alias, header_model, header_ok, law_blocks_have_aliases, pairs_view, parse_header_checked,
    struct_alias, variants_view, EnumDef, EnumModel, FunctionDef, FunctionModel, HeaderModel,
    StructDef, StructModel, TypedefDef, TypedefModel,
};
use crate::text::{
    decimal, join, lines, push_char, push_chars, push_decimal, push_str, split_lines, starts_with,
    starts_with_str, string_views, to_chars,
};

verus! {

/// Largest header, in bytes, that bindings are generated for.
pub const MAX_HEADER_BYTES: u64 = 10485760;

/// Largest number of lines in a header that bindings are generated for.
pub const MAX_HEADER_LINES: usize = 200000;

/// Options for binding generation.
#[derive(Debug)]
pub struct BindingOptions {
    /// Module name for the generated bindings.
    pub module_name: Option<String>,
    /// Additional include paths.
    pub include_paths: Vec<String>,
    /// Functions to allowlist (if empty, include all).
    pub allowlist_functions: Vec<String>,
    /// Types to allowlist (if empty, include all).
    pub allowlist_types: Vec<String>,
    /// Derive `Debug` on generated structs.
    pub derive_debug: bool,
    /// Derive `Default` on generated structs.
    pub derive_default: bool,
}

impl Default for BindingOptions {
    fn default() -> (r: Self)
        ensures
            r.module_name is None,
            r.include_paths@.len() == 0,
            r.allowlist_functions@.len() == 0,
            r.allowlist_types@.len() == 0,
            !r.derive_debug,
            !r.derive_default,
    {
        BindingOptions {
            module_name: None,
            include_paths: Vec::new(),
            allowlist_functions: Vec::new(),
            allowlist_types: Vec::new(),
            derive_debug: false,
            derive_default: false,
        }
    }
}

/// A generated Rust binding.
#[derive(Debug)]
pub struct GeneratedBinding {
    /// The generated Rust code.
    pub code: String,
    /// The source header, as it was named.
    pub source_header: String,
    /// Any warnings during generation.
    pub warnings: Vec<String>,
}


// ---------------------------------------------------------------------------
// The generated text
// ---------------------------------------------------------------------------

/// A declaration is generated when the allowlist is empty or names it.
pub open spec fn included(name: Seq<char>, allow: Seq<Seq<char>>) -> bool {
    allow.len() == 0 || allow.contains(name)
}

/// `char::is_control`: the characters of the Unicode category Cc, U+0000 to
/// U+001F and U+007F to U+009F.
pub open spec fn is_control(c: char) -> bool {
    c <= '\u{1f}' || ('\u{7f}' <= c && c <= '\u{9f}')
}

/// The path with its control characters removed.
pub open spec fn sanitized(p: Seq<char>) -> Seq<char>
    decreases p.len(),
{
    if p.len() == 0 {
        seq![]
    } else {
        let c = p.last();
        let rest = sanitized(p.drop_last());
        if is_control(c) {
            rest
        } else {
            rest.push(c)
        }
    }
}

pub open spec fn variant_line(v: (Seq<char>, Option<Seq<char>>)) -> Seq<char> {
    match v.1 {
        Some(value) => "    "@ + v.0 + " = "@ + value + ",\n"@,
        None => "    "@ + v.0 + ",\n"@,
    }
}

pub open spec fn variants_code(vs: Seq<(Seq<char>, Option<Seq<char>>)>) -> Seq<char>
    decreases vs.len(),
{
    if vs.len() == 0 {
        seq![]
    } else {
        variants_code(vs.drop_last()) + variant_line(vs.last())
    }
}

/// A `#[repr(C)]` Rust enum for a C enum.
pub open spec fn enum_code(e: EnumModel) -> Seq<char> {
    "#[repr(C)]\n"@ + "#[derive(Debug, Copy, Clone, PartialEq, Eq)]\n"@ + "pub enum "@ + e.name
        + " {\n"@ + variants_code(e.variants) + "}\n"@
}

pub open spec fn field_line(f: (Seq<char>, Seq<char>)) -> Seq<char> {
    "    pub "@ + f.1 + ": "@ + rust_type(f.0) + ",\n"@
}

pub open spec fn fields_code(fs: Seq<(Seq<char>, Seq<char>)>) -> Seq<char>
    decreases fs.len(),
{
    if fs.len() == 0 {
        seq![]
    } else {
        fields_code(fs.drop_last()) + field_line(fs.last())
    }
}

/// The derived traits of a generated struct: `Copy, Clone`, then `Debug` and
/// `Default` where the options ask for them.
pub open spec fn derive_list(debug: bool, default: bool) -> Seq<char> {
    "Copy, Clone"@ + (if debug {
        ", Debug"@
    } else {
        seq![]
    }) + (if default {
        ", Default"@
    } else {
        seq![]
    })
}

/// A `#[repr(C)]` Rust struct for a C struct.
pub open spec fn struct_code(s: StructModel, debug: bool, default: bool) -> Seq<char> {
    "#[derive("@ + derive_list(debug, default) + ")]\n"@ + "#[repr(C)]\n"@ + "pub struct "@
        + s.name + " {\n"@ + fields_code(s.fields) + "}\n"@
}

/// A Rust type alias for a C typedef.
pub open spec fn typedef_code(t: TypedefModel) -> Seq<char> {
    "pub type "@ + t.name + " = "@ + rust_type(t.target) + ";\n"@
}

pub open spec fn param_text(p: (Seq<char>, Seq<char>)) -> Seq<char> {
    p.1 + ": "@ + rust_type(p.0)
}

pub open spec fn params_text(ps: Seq<(Seq<char>, Seq<char>)>) -> Seq<Seq<char>> {
    ps.map_values(|p: (Seq<char>, Seq<char>)| param_text(p))
}

/// ` -> T`, or nothing for `()`.
pub open spec fn return_clause(r: Seq<char>) -> Seq<char> {
    if r == "()"@ {
        seq![]
    } else {
        " -> "@ + r
    }
}

/// One declaration inside the `extern "C"` block.
pub open spec fn function_code(f: FunctionModel) -> Seq<char> {
    "    pub fn "@ + f.name + "("@ + join(params_text(f.params), ", "@) + ")"@ + return_clause(
        rust_type(f.return_type),
    ) + ";\n"@
}

pub open spec fn enums_section(es: Seq<EnumModel>, allow: Seq<Seq<char>>) -> Seq<char>
    decreases es.len(),
{
    if es.len() == 0 {
        seq![]
    } else {
        enums_section(es.drop_last(), allow) + if included(es.last().name, allow) {
            enum_code(es.last()) + "\n"@
        } else {
            seq![]
        }
    }
}

pub open spec fn structs_section(
    ss: Seq<StructModel>,
    allow: Seq<Seq<char>>,
    debug: bool,
    default: bool,
) -> Seq<char>
    decreases ss.len(),
{
    if ss.len() == 0 {
        seq![]
    } else {
        structs_section(ss.drop_last(), allow, debug, default) + if included(
            ss.last().name,
            allow,
        ) {
            struct_code(ss.last(), debug, default) + "\n"@
        } else {
            seq![]
        }
    }
}

/// A typedef that only names a struct generated from a block.
pub open spec fn is_struct_alias(t: TypedefModel, ss: Seq<StructModel>) -> bool {
    starts_with(t.target, "struct "@) && exists|i: int|
        0 <= i < ss.len() && "struct "@ + ss[i].name == t.target
}

/// A typedef that only names an enum generated from a block.
pub open spec fn is_enum_alias(t: TypedefModel, es: Seq<EnumModel>) -> bool {
    starts_with(t.target, "enum "@) && exists|i: int|
        0 <= i < es.len() && "enum "@ + es[i].name == t.target
}

pub open spec fn typedefs_section(
    ts: Seq<TypedefModel>,
    ss: Seq<StructModel>,
    es: Seq<EnumModel>,
    allow: Seq<Seq<char>>,
) -> Seq<char>
    decreases ts.len(),
{
    if ts.len() == 0 {
        seq![]
    } else {
        let t = ts.last();
        typedefs_section(ts.drop_last(), ss, es, allow) + if included(t.name, allow)
            && !is_struct_alias(t, ss) && !is_enum_alias(t, es) {
            typedef_code(t) + "\n"@
        } else {
            seq![]
        }
    }
}

pub open spec fn functions_section(fs: Seq<FunctionModel>, allow: Seq<Seq<char>>) -> Seq<char>
    decreases fs.len(),
{
    if fs.len() == 0 {
        seq![]
    } else {
        functions_section(fs.drop_last(), allow) + if included(fs.last().name, allow) {
            function_code(fs.last())
        } else {
            seq![]
        }
    }
}

/// One warning for each function that the allowlist leaves out.
pub open spec fn skipped_warnings(fs: Seq<FunctionModel>, allow: Seq<Seq<char>>) -> Seq<
    Seq<char>,
>
    decreases fs.len(),
{
    if fs.len() == 0 {
        seq![]
    } else {
        let rest = skipped_warnings(fs.drop_last(), allow);
        if included(fs.last().name, allow) {
            rest
        } else {
            rest.push("Skipped function: "@ + fs.last().name)
        }
    }
}

/// The comment lines that open the generated code; they name the header.
pub open spec fn comment_lines(header: Seq<char>) -> Seq<char> {
    "// Auto-generated bindings by equilibrium-ffi\n"@ + "//\n"@ + "// Source: "@ + sanitized(
        header,
    ) + "\n"@ + "\n"@
}

/// The `extern "C"` block's opening lines.
pub open spec fn extern_open() -> Seq<char> {
    "#[allow(non_camel_case_types, non_snake_case, dead_code)]\n"@ + "extern \"C\" {\n"@
}

/// The generated items: the `use` line, the types, and the `extern "C"` block
/// with the functions.
pub open spec fn items_code(h: HeaderModel, o: BindingOptions) -> Seq<char> {
    "use std::os::raw::*;\n"@ + "\n"@ + enums_section(h.enums, string_views(o.allowlist_types@))
        + structs_section(
        h.structs,
        string_views(o.allowlist_types@),
        o.derive_debug,
        o.derive_default,
    ) + typedefs_section(h.typedefs, h.structs, h.enums, string_views(o.allowlist_types@))
        + extern_open() + functions_section(h.functions, string_views(o.allowlist_functions@))
        + "}\n"@
}

/// The opening line of the module that holds the items, when a module name is given.
pub open spec fn module_open(m: Seq<char>) -> Seq<char> {
    "pub mod "@ + m + " {\n"@
}

/// The whole generated code for a parsed header: the comment lines, then the
/// items, inside `pub mod <name> { .. }` when the options name a module.
pub open spec fn binding_code(header: Seq<char>, h: HeaderModel, o: BindingOptions) -> Seq<char> {
    comment_lines(header) + match o.module_name {
        None => items_code(h, o),
        Some(m) => module_open(m@) + items_code(h, o) + "}\n"@,
    }
}


// ---------------------------------------------------------------------------
// Generating the text
// ---------------------------------------------------------------------------

/// Whether `name` passes the allowlist: the list is empty or holds it.
pub fn should_include(name: &str, allowlist: &[String]) -> (b: bool)
    ensures
        b == included(name@, string_views(allowlist@)),
{
    let n = allowlist.len();
    if n == 0 {
        return true;
    }
    let nc = to_chars(name);
    let mut i: usize = 0;
    while i < n
        invariant
            n == allowlist@.len(),
            i <= n,
            nc@ == name@,
            forall|j: int| 0 <= j < i ==> allowlist@[j]@ != name@,
        decreases n - i,
    {
        if crate::text::eq_str(nc.as_slice(), allowlist[i].as_str()) {
            assert(string_views(allowlist@)[i as int] == name@);
            return true;
        }
        i += 1;
    }
    assert(!string_views(allowlist@).contains(name@)) by {
        if string_views(allowlist@).contains(name@) {
            let j = choose|j: int| 0 <= j < n && string_views(allowlist@)[j] == name@;
            assert(allowlist@[j]@ == name@);
        }
    }
    false
}

/// The path with its control characters (line breaks, NUL, tabs and the
/// others of `char::is_control`) removed, so that a `//` comment that holds it
/// stays on one line.
pub fn sanitize_path_for_comment(path: &str) -> (r: String)
    ensures
        r@ == sanitized(path@),
{
    let c = to_chars(path);
    let n = c.len();
    let mut r = String::new();
    let mut i: usize = 0;
    while i < n
        invariant
            n == c@.len(),
            c@ == path@,
            i <= n,
            r@ == sanitized(c@.subrange(0, i as int)),
        decreases n - i,
    {
        let ch = c[i];
        assert(c@.subrange(0, i + 1).drop_last() =~= c@.subrange(0, i as int));
        if !(ch <= '\u{1f}' || ('\u{7f}' <= ch && ch <= '\u{9f}')) {
            push_char(&mut r, ch);
        }
        i += 1;
    }
    assert(c@.subrange(0, n as int) =~= c@);
    r
}

fn push_rust_type(out: &mut String, c: &str)
    ensures
        final(out)@ == old(out)@ + rust_type(c@),
{
    let cc = to_chars(c);
    let t = rust_type_chars(cc.as_slice());
    push_chars(out, t.as_slice());
}

/// The Rust enum for a parsed C enum.
pub fn generate_enum(enum_def: &EnumDef, _options: &BindingOptions) -> (r: String)
    ensures
        r@ == enum_code(enum_def@),
{
    let mut code = String::new();
    push_str(&mut code, "#[repr(C)]\n");
    push_str(&mut code, "#[derive(Debug, Copy, Clone, PartialEq, Eq)]\n");
    push_str(&mut code, "pub enum ");
    push_str(&mut code, enum_def.name.as_str());
    push_str(&mut code, " {\n");
    let ghost start = code@;
    let ghost vs = variants_view(enum_def.variants@);
    let n = enum_def.variants.len();
    let mut i: usize = 0;
    while i < n
        invariant
            n == enum_def.variants@.len(),
            vs == variants_view(enum_def.variants@),
            i <= n,
            code@ == start + variants_code(vs.subrange(0, i as int)),
        decreases n - i,
    {
        let ghost before = code@;
        assert(vs.subrange(0, i + 1).drop_last() =~= vs.subrange(0, i as int));
        let (vname, value) = &enum_def.variants[i];
        push_str(&mut code, "    ");
        push_str(&mut code, vname.as_str());
        match value {
            Some(v) => {
                push_str(&mut code, " = ");
                push_str(&mut code, v.as_str());
                push_str(&mut code, ",\n");
            },
            None => {
                push_str(&mut code, ",\n");
            },
        }
        assert(code@ =~= before + variant_line(vs[i as int]));
        i += 1;
    }
    assert(vs.subrange(0, n as int) =~= vs);
    push_str(&mut code, "}\n");
    assert(code@ =~= enum_code(enum_def@));
    code
}

/// The Rust struct for a parsed C struct.
pub fn generate_struct(struct_def: &StructDef, options: &BindingOptions) -> (r: String)
    ensures
        r@ == struct_code(struct_def@, options.derive_debug, options.derive_default),
{
    let mut code = String::new();
    push_str(&mut code, "#[derive(");
    push_str(&mut code, "Copy, Clone");
    if options.derive_debug {
        push_str(&mut code, ", Debug");
    }
    if options.derive_default {
        push_str(&mut code, ", Default");
    }
    push_str(&mut code, ")]\n");
    push_str(&mut code, "#[repr(C)]\n");
    push_str(&mut code, "pub struct ");
    push_str(&mut code, struct_def.name.as_str());
    push_str(&mut code, " {\n");
    let ghost start = code@;
    assert(start =~= "#[derive("@ + derive_list(options.derive_debug, options.derive_default)
        + ")]\n"@ + "#[repr(C)]\n"@ + "pub struct "@ + struct_def.name@ + " {\n"@);
    let ghost fs = pairs_view(struct_def.fields@);
    let n = struct_def.fields.len();
    let mut i: usize = 0;
    while i < n
        invariant
            n == struct_def.fields@.len(),
            fs == pairs_view(struct_def.fields@),
            i <= n,
            code@ == start + fields_code(fs.subrange(0, i as int)),
        decreases n - i,
    {
        let ghost before = code@;
        assert(fs.subrange(0, i + 1).drop_last() =~= fs.subrange(0, i as int));
        let (ftype, fname) = &struct_def.fields[i];
        push_str(&mut code, "    pub ");
        push_str(&mut code, fname.as_str());
        push_str(&mut code, ": ");
        push_rust_type(&mut code, ftype.as_str());
        push_str(&mut code, ",\n");
        assert(code@ =~= before + field_line(fs[i as int]));
        i += 1;
    }
    assert(fs.subrange(0, n as int) =~= fs);
    push_str(&mut code, "}\n");
    assert(code@ =~= struct_code(struct_def@, options.derive_debug, options.derive_default));
    code
}

/// The Rust type alias for a parsed typedef.
pub fn generate_typedef(typedef: &TypedefDef, _options: &BindingOptions) -> (r: String)
    ensures
        r@ == typedef_code(typedef@),
{
    let mut code = String::new();
    push_str(&mut code, "pub type ");
    push_str(&mut code, typedef.name.as_str());
    push_str(&mut code, " = ");
    push_rust_type(&mut code, typedef.target.as_str());
    push_str(&mut code, ";\n");
    assert(code@ =~= typedef_code(typedef@));
    code
}

/// The declaration of a parsed function inside the `extern "C"` block.
pub fn generate_function(func: &FunctionDef) -> (r: String)
    ensures
        r@ == function_code(func@),
{
    let mut code = String::new();
    push_str(&mut code, "    pub fn ");
    push_str(&mut code, func.name.as_str());
    push_str(&mut code, "(");
    let ghost start = code@;
    let ghost ps = params_text(pairs_view(func.params@));
    let n = func.params.len();
    let mut i: usize = 0;
    while i < n
        invariant
            n == func.params@.len(),
            ps == params_text(pairs_view(func.params@)),
            ps.len() == n,
            i <= n,
            code@ == start + join(ps.subrange(0, i as int), ", "@),
        decreases n - i,
    {
        let ghost before = code@;
        let ghost pre = ps.subrange(0, i + 1);
        assert(pre.drop_last() =~= ps.subrange(0, i as int));
        if i > 0 {
            push_str(&mut code, ", ");
        }
        let (ptype, pname) = &func.params[i];
        push_str(&mut code, pname.as_str());
        push_str(&mut code, ": ");
        push_rust_type(&mut code, ptype.as_str());
        assert(ps[i as int] == pname@ + ": "@ + rust_type(ptype@));
        assert(code@ =~= start + join(pre, ", "@));
        i += 1;
    }
    assert(ps.subrange(0, n as int) =~= ps);
    push_str(&mut code, ")");
    let rc = to_chars(func.return_type.as_str());
    let rt = rust_type_chars(rc.as_slice());
    if !crate::text::eq_str(rt.as_slice(), "()") {
        push_str(&mut code, " -> ");
        push_chars(&mut code, rt.as_slice());
    }
    push_str(&mut code, ";\n");
    assert(code@ =~= function_code(func@));
    code
}


// ---------------------------------------------------------------------------
// Whole bindings
// ---------------------------------------------------------------------------

/// `Header file not found: <header>` and the other refusals of a header file.
pub open spec fn header_refusal(
    header: Seq<char>,
    exists: bool,
    is_file: bool,
    size: Result<u64, Seq<char>>,
) -> Option<Seq<char>> {
    if !exists {
        Some("Header file not found: "@ + header)
    } else if !is_file {
        Some("Header path is not a regular file: "@ + header)
    } else {
        match size {
            Err(e) => Some("Failed to read header metadata: "@ + e),
            Ok(len) => if len > MAX_HEADER_BYTES {
                Some(
                    "Header too large ("@ + decimal(len as nat) + " bytes; max "@ + decimal(
                        MAX_HEADER_BYTES as nat,
                    ) + " bytes)"@,
                )
            } else {
                None
            },
        }
    }
}

pub open spec fn size_view(size: Result<u64, String>) -> Result<u64, Seq<char>> {
    match size {
        Ok(n) => Ok(n),
        Err(e) => Err(e@),
    }
}

/// Decides whether a header file is taken: it must exist, be a regular file and
/// be at most `MAX_HEADER_BYTES` long. `header` is the path as displayed,
/// `size` its length or the error met in reading it.
pub fn check_header(header: &str, exists: bool, is_file: bool, size: Result<u64, String>) -> (r:
    Result<(), String>)
    ensures
        r matches Err(e) ==> header_refusal(header@, exists, is_file, size_view(size)) == Some(
            e@,
        ),
        r is Ok ==> header_refusal(header@, exists, is_file, size_view(size)) is None,
{
    if !exists {
        let mut m = String::from_str("Header file not found: ");
        push_str(&mut m, header);
        return Err(m);
    }
    if !is_file {
        let mut m = String::from_str("Header path is not a regular file: ");
        push_str(&mut m, header);
        return Err(m);
    }
    match size {
        Err(e) => {
            let mut m = String::from_str("Failed to read header metadata: ");
            push_str(&mut m, e.as_str());
            Err(m)
        },
        Ok(len) => {
            if len > MAX_HEADER_BYTES {
                let mut m = String::from_str("Header too large (");
                push_decimal(&mut m, len);
                push_str(&mut m, " bytes; max ");
                push_decimal(&mut m, MAX_HEADER_BYTES);
                push_str(&mut m, " bytes)");
                Err(m)
            } else {
                Ok(())
            }
        },
    }
}

/// `Header has too many lines (<n>; max 200000)`.
pub open spec fn too_many_lines(n: nat) -> Seq<char> {
    "Header has too many lines ("@ + decimal(n) + "; max "@ + decimal(MAX_HEADER_LINES as nat)
        + ")"@
}

fn push_enums(code: &mut String, enums: &Vec<EnumDef>, options: &BindingOptions)
    ensures
        final(code)@ == old(code)@ + enums_section(
            enums@.map_values(|e: EnumDef| e@),
            string_views(options.allowlist_types@),
        ),
{
    let ghost es = enums@.map_values(|e: EnumDef| e@);
    let ghost allow = string_views(options.allowlist_types@);
    let n = enums.len();
    let mut i: usize = 0;
    while i < n
        invariant
            n == enums@.len(),
            es == enums@.map_values(|e: EnumDef| e@),
            allow == string_views(options.allowlist_types@),
            i <= n,
            code@ == old(code)@ + enums_section(es.subrange(0, i as int), allow),
        decreases n - i,
    {
        let ghost before = code@;
        assert(es.subrange(0, i + 1).drop_last() =~= es.subrange(0, i as int));
        if should_include(enums[i].name.as_str(), options.allowlist_types.as_slice()) {
            let text = generate_enum(&enums[i], options);
            push_str(code, text.as_str());
            push_str(code, "\n");
        }
        assert(code@ =~= old(code)@ + enums_section(es.subrange(0, i + 1), allow));
        i += 1;
    }
    assert(es.subrange(0, n as int) =~= es);
}

fn push_structs(code: &mut String, structs: &Vec<StructDef>, options: &BindingOptions)
    ensures
        final(code)@ == old(code)@ + structs_section(
            structs@.map_values(|s: StructDef| s@),
            string_views(options.allowlist_types@),
            options.derive_debug,
            options.derive_default,
        ),
{
    let ghost ss = structs@.map_values(|s: StructDef| s@);
    let ghost allow = string_views(options.allowlist_types@);
    let n = structs.len();
    let mut i: usize = 0;
    while i < n
        invariant
            n == structs@.len(),
            ss == structs@.map_values(|s: StructDef| s@),
            allow == string_views(options.allowlist_types@),
            i <= n,
            code@ == old(code)@ + structs_section(
                ss.subrange(0, i as int),
                allow,
                options.derive_debug,
                options.derive_default,
            ),
        decreases n - i,
    {
        assert(ss.subrange(0, i + 1).drop_last() =~= ss.subrange(0, i as int));
        if should_include(structs[i].name.as_str(), options.allowlist_types.as_slice()) {
            let text = generate_struct(&structs[i], options);
            push_str(code, text.as_str());
            push_str(code, "\n");
        }
        assert(code@ =~= old(code)@ + structs_section(
            ss.subrange(0, i + 1),
            allow,
            options.derive_debug,
            options.derive_default,
        ));
        i += 1;
    }
    assert(ss.subrange(0, n as int) =~= ss);
}

/// Whether `target` is `prefix` followed by the name of one of `names`.
fn names_prefixed(target: &str, prefix: &str, items: &Vec<String>) -> (b: bool)
    ensures
        b == exists|i: int| 0 <= i < items@.len() && prefix@ + items@[i]@ == target@,
{
    let tc = to_chars(target);
    let n = items.len();
    let mut i: usize = 0;
    while i < n
        invariant
            n == items@.len(),
            tc@ == target@,
            i <= n,
            forall|j: int| 0 <= j < i ==> prefix@ + items@[j]@ != target@,
        decreases n - i,
    {
        let mut cand = String::from_str(prefix);
        push_str(&mut cand, items[i].as_str());
        if crate::text::eq_str(tc.as_slice(), cand.as_str()) {
            return true;
        }
        i += 1;
    }
    false
}

fn struct_names(structs: &Vec<StructDef>) -> (r: Vec<String>)
    ensures
        r@.len() == structs@.len(),
        forall|i: int| 0 <= i < r@.len() ==> r@[i]@ == structs@[i].name@,
{
    let mut r: Vec<String> = Vec::new();
    let mut i: usize = 0;
    while i < structs.len()
        invariant
            i <= structs@.len(),
            r@.len() == i,
            forall|j: int| 0 <= j < i ==> r@[j]@ == structs@[j].name@,
        decreases structs@.len() - i,
    {
        r.push(structs[i].name.clone());
        i += 1;
    }
    r
}

fn enum_names(enums: &Vec<EnumDef>) -> (r: Vec<String>)
    ensures
        r@.len() == enums@.len(),
        forall|i: int| 0 <= i < r@.len() ==> r@[i]@ == enums@[i].name@,
{
    let mut r: Vec<String> = Vec::new();
    let mut i: usize = 0;
    while i < enums.len()
        invariant
            i <= enums@.len(),
            r@.len() == i,
            forall|j: int| 0 <= j < i ==> r@[j]@ == enums@[j].name@,
        decreases enums@.len() - i,
    {
        r.push(enums[i].name.clone());
        i += 1;
    }
    r
}

fn push_typedefs(
    code: &mut String,
    typedefs: &Vec<TypedefDef>,
    structs: &Vec<StructDef>,
    enums: &Vec<EnumDef>,
    options: &BindingOptions,
)
    ensures
        final(code)@ == old(code)@ + typedefs_section(
            typedefs@.map_values(|t: TypedefDef| t@),
            structs@.map_values(|s: StructDef| s@),
            enums@.map_values(|e: EnumDef| e@),
            string_views(options.allowlist_types@),
        ),
{
    let ghost ts = typedefs@.map_values(|t: TypedefDef| t@);
    let ghost ss = structs@.map_values(|s: StructDef| s@);
    let ghost es = enums@.map_values(|e: EnumDef| e@);
    let ghost allow = string_views(options.allowlist_types@);
    let snames = struct_names(structs);
    let enames = enum_names(enums);
    let n = typedefs.len();
    let mut i: usize = 0;
    while i < n
        invariant
            n == typedefs@.len(),
            ts == typedefs@.map_values(|t: TypedefDef| t@),
            ss == structs@.map_values(|s: StructDef| s@),
            es == enums@.map_values(|e: EnumDef| e@),
            allow == string_views(options.allowlist_types@),
            snames@.len() == structs@.len(),
            forall|j: int| 0 <= j < snames@.len() ==> snames@[j]@ == structs@[j].name@,
            enames@.len() == enums@.len(),
            forall|j: int| 0 <= j < enames@.len() ==> enames@[j]@ == enums@[j].name@,
            i <= n,
            code@ == old(code)@ + typedefs_section(ts.subrange(0, i as int), ss, es, allow),
        decreases n - i,
    {
        assert(ts.subrange(0, i + 1).drop_last() =~= ts.subrange(0, i as int));
        let t = &typedefs[i];
        if should_include(t.name.as_str(), options.allowlist_types.as_slice()) {
            let tc = to_chars(t.target.as_str());
            let struct_alias = starts_with_str(tc.as_slice(), "struct ") && names_prefixed(
                t.target.as_str(),
                "struct ",
                &snames,
            );
            let enum_alias = starts_with_str(tc.as_slice(), "enum ") && names_prefixed(
                t.target.as_str(),
                "enum ",
                &enames,
            );
            proof {
                if struct_alias != is_struct_alias(t@, ss) {
                    if struct_alias {
                        let j = choose|j: int|
                            0 <= j < snames@.len() && "struct "@ + snames@[j]@ == t.target@;
                        assert("struct "@ + ss[j].name == t@.target);
                    } else {
                        let j = choose|j: int|
                            0 <= j < ss.len() && "struct "@ + ss[j].name == t@.target;
                        assert("struct "@ + snames@[j]@ == t.target@);
                    }
                }
                if enum_alias != is_enum_alias(t@, es) {
                    if enum_alias {
                        let j = choose|j: int|
                            0 <= j < enames@.len() && "enum "@ + enames@[j]@ == t.target@;
                        assert("enum "@ + es[j].name == t@.target);
                    } else {
                        let j = choose|j: int|
                            0 <= j < es.len() && "enum "@ + es[j].name == t@.target;
                        assert("enum "@ + enames@[j]@ == t.target@);
                    }
                }
            }
            if !struct_alias && !enum_alias {
                let text = generate_typedef(t, options);
                push_str(code, text.as_str());
                push_str(code, "\n");
            }
        }
        assert(code@ =~= old(code)@ + typedefs_section(ts.subrange(0, i + 1), ss, es, allow));
        i += 1;
    }
    assert(ts.subrange(0, n as int) =~= ts);
}

fn push_functions(
    code: &mut String,
    warnings: &mut Vec<String>,
    functions: &Vec<FunctionDef>,
    options: &BindingOptions,
)
    ensures
        final(code)@ == old(code)@ + functions_section(
            functions@.map_values(|f: FunctionDef| f@),
            string_views(options.allowlist_functions@),
        ),
        string_views(final(warnings)@) == string_views(old(warnings)@) + skipped_warnings(
            functions@.map_values(|f: FunctionDef| f@),
            string_views(options.allowlist_functions@),
        ),
{
    let ghost fs = functions@.map_values(|f: FunctionDef| f@);
    let ghost allow = string_views(options.allowlist_functions@);
    let n = functions.len();
    let mut i: usize = 0;
    assert(string_views(warnings@) =~= string_views(old(warnings)@) + skipped_warnings(
        fs.subrange(0, 0),
        allow,
    ));
    while i < n
        invariant
            n == functions@.len(),
            fs == functions@.map_values(|f: FunctionDef| f@),
            allow == string_views(options.allowlist_functions@),
            i <= n,
            code@ == old(code)@ + functions_section(fs.subrange(0, i as int), allow),
            string_views(warnings@) == string_views(old(warnings)@) + skipped_warnings(
                fs.subrange(0, i as int),
                allow,
            ),
        decreases n - i,
    {
        let ghost w0 = warnings@;
        assert(fs.subrange(0, i + 1).drop_last() =~= fs.subrange(0, i as int));
        if should_include(functions[i].name.as_str(), options.allowlist_functions.as_slice()) {
            let text = generate_function(&functions[i]);
            push_str(code, text.as_str());
        } else {
            let mut w = String::from_str("Skipped function: ");
            push_str(&mut w, functions[i].name.as_str());
            warnings.push(w);
            assert(string_views(warnings@) =~= string_views(w0).push(w@));
        }
        assert(code@ =~= old(code)@ + functions_section(fs.subrange(0, i + 1), allow));
        assert(string_views(warnings@) =~= string_views(old(warnings)@) + skipped_warnings(
            fs.subrange(0, i + 1),
            allow,
        ));
        i += 1;
    }
    assert(fs.subrange(0, n as int) =~= fs);
}

/// Generates the bindings for the text of a header. `header` is the header's
/// path as displayed; it is recorded and named in the generated comment.
/// A header of more than `MAX_HEADER_LINES` lines is refused.
pub fn generate_bindings_from_source(header: &str, content: &str, options: &BindingOptions) -> (r:
    Result<GeneratedBinding, String>)
    requires
        lines(content@).len() <= MAX_HEADER_LINES ==> header_ok(content@),
    ensures
        lines(content@).len() > MAX_HEADER_LINES ==> (r matches Err(e) && e@ == too_many_lines(
            lines(content@).len(),
        )),
        lines(content@).len() <= MAX_HEADER_LINES ==> (r matches Ok(b) && b.code@ == binding_code(
            header@,
            header_model(content@),
            *options,
        ) && b.source_header@ == header@ && string_views(b.warnings@) == skipped_warnings(
            header_model(content@).functions,
            string_views(options.allowlist_functions@),
        )),
{
    let c = to_chars(content);
    let ls = split_lines(c.as_slice());
    let line_count = ls.len();
    assert(crate::text::seqs(ls@).len() == ls@.len());
    if line_count > MAX_HEADER_LINES {
        let mut m = String::from_str("Header has too many lines (");
        push_decimal(&mut m, line_count as u64);
        push_str(&mut m, "; max ");
        push_decimal(&mut m, MAX_HEADER_LINES as u64);
        push_str(&mut m, ")");
        return Err(m);
    }
    let parsed = match parse_header_checked(c.as_slice()) {
        Some(h) => h,
        None => {
            assert(false);
            return Err(String::new());
        },
    };
    let mut warnings: Vec<String> = Vec::new();
    let mut code = String::new();
    push_str(&mut code, "// Auto-generated bindings by equilibrium-ffi\n");
    push_str(&mut code, "//\n");
    push_str(&mut code, "// Source: ");
    let path = sanitize_path_for_comment(header);
    push_str(&mut code, path.as_str());
    push_str(&mut code, "\n");
    push_str(&mut code, "\n");
    let ghost comments = code@;
    match &options.module_name {
        Some(m) => {
            push_str(&mut code, "pub mod ");
            push_str(&mut code, m.as_str());
            push_str(&mut code, " {\n");
        },
        None => {},
    }
    let ghost opened = code@;
    push_str(&mut code, "use std::os::raw::*;\n");
    push_str(&mut code, "\n");
    push_enums(&mut code, &parsed.enums, options);
    push_structs(&mut code, &parsed.structs, options);
    push_typedefs(&mut code, &parsed.typedefs, &parsed.structs, &parsed.enums, options);
    push_str(&mut code, "#[allow(non_camel_case_types, non_snake_case, dead_code)]\n");
    push_str(&mut code, "extern \"C\" {\n");
    push_functions(&mut code, &mut warnings, &parsed.functions, options);
    push_str(&mut code, "}\n");
    assert(code@ =~= opened + items_code(header_model(content@), *options));
    if options.module_name.is_some() {
        push_str(&mut code, "}\n");
    }
    assert(comments =~= comment_lines(header@));
    assert(string_views(warnings@) =~= skipped_warnings(
        header_model(content@).functions,
        string_views(options.allowlist_functions@),
    ));
    assert(code@ =~= binding_code(header@, header_model(content@), *options));
    Ok(GeneratedBinding { code, source_header: String::from_str(header), warnings })
}


// ---------------------------------------------------------------------------
// Laws
// ---------------------------------------------------------------------------

/// The path named in the generated comment holds no control character, so no
/// line break or NUL and the comment stays on one line; sanitizing twice
/// changes nothing more.
pub proof fn law_sanitized_is_single_line(p: Seq<char>)
    ensures
        forall|i: int| 0 <= i < sanitized(p).len() ==> !is_control(#[trigger] sanitized(p)[i]),
        !crate::text::has_char(sanitized(p), '\n'),
        !crate::text::has_char(sanitized(p), '\r'),
        !crate::text::has_char(sanitized(p), '\0'),
        sanitized(sanitized(p)) == sanitized(p),
    decreases p.len(),
{
    if p.len() > 0 {
        law_sanitized_is_single_line(p.drop_last());
        let rest = sanitized(p.drop_last());
        let c = p.last();
        if !is_control(c) {
            let r = rest.push(c);
            assert(r.drop_last() =~= rest);
            assert forall|i: int| 0 <= i < r.len() implies !is_control(r[i]) by {
                if i < rest.len() {
                    assert(r[i] == rest[i]);
                }
            }
        }
    }
}

/// With an empty allowlist nothing is skipped: generation gives no warnings.
pub proof fn law_no_warnings_without_allowlist(fs: Seq<FunctionModel>)
    ensures
        skipped_warnings(fs, seq![]) == Seq::<Seq<char>>::empty(),
    decreases fs.len(),
{
    if fs.len() > 0 {
        law_no_warnings_without_allowlist(fs.drop_last());
    }
}

pub open spec fn count_skipped(fs: Seq<FunctionModel>, allow: Seq<Seq<char>>) -> nat
    decreases fs.len(),
{
    if fs.len() == 0 {
        0
    } else {
        count_skipped(fs.drop_last(), allow) + if included(fs.last().name, allow) {
            0nat
        } else {
            1nat
        }
    }
}

/// There is one warning for each function that the allowlist leaves out, and
/// each names the function.
pub proof fn law_one_warning_per_skipped_function(fs: Seq<FunctionModel>, allow: Seq<Seq<char>>)
    ensures
        skipped_warnings(fs, allow).len() == count_skipped(fs, allow),
        forall|w: Seq<char>|
            #[trigger] skipped_warnings(fs, allow).contains(w) ==> exists|i: int|
                0 <= i < fs.len() && !included(fs[i].name, allow) && w == "Skipped function: "@
                    + fs[i].name,
    decreases fs.len(),
{
    if fs.len() > 0 {
        let init = fs.drop_last();
        law_one_warning_per_skipped_function(init, allow);
        let rest = skipped_warnings(init, allow);
        assert forall|w: Seq<char>|
            #[trigger] skipped_warnings(fs, allow).contains(w) implies exists|i: int|
                0 <= i < fs.len() && !included(fs[i].name, allow) && w == "Skipped function: "@
                    + fs[i].name by {
            let k = choose|k: int|
                0 <= k < skipped_warnings(fs, allow).len() && skipped_warnings(fs, allow)[k] == w;
            if k < rest.len() {
                assert(rest.contains(w));
                let i = choose|i: int|
                    0 <= i < init.len() && !included(init[i].name, allow) && w
                        == "Skipped function: "@ + init[i].name;
                assert(fs[i] == init[i]);
            } else {
                assert(fs[fs.len() - 1] == fs.last());
            }
        }
    }
}

proof fn lemma_occurs_in_prefix(a: Seq<char>, b: Seq<char>, p: Seq<char>, k: int)
    requires
        crate::text::occurs_at(a, p, k),
    ensures
        crate::text::occurs_at(a + b, p, k),
{
    assert((a + b).subrange(k, k + p.len()) =~= a.subrange(k, k + p.len()));
}

proof fn lemma_occurs_in_suffix(a: Seq<char>, b: Seq<char>, p: Seq<char>, k: int)
    requires
        crate::text::occurs_at(b, p, k),
    ensures
        crate::text::occurs_at(a + b, p, a.len() + k),
{
    assert((a + b).subrange(a.len() + k, a.len() + k + p.len()) =~= b.subrange(k, k + p.len()));
}

/// Every function that passes the allowlist has its declaration in the
/// `extern "C"` block.
pub proof fn law_included_functions_are_declared(
    fs: Seq<FunctionModel>,
    allow: Seq<Seq<char>>,
    i: int,
)
    requires
        0 <= i < fs.len(),
        included(fs[i].name, allow),
    ensures
        crate::text::has_sub(functions_section(fs, allow), function_code(fs[i])),
    decreases fs.len(),
{
    let init = fs.drop_last();
    let tail = if included(fs.last().name, allow) {
        function_code(fs.last())
    } else {
        seq![]
    };
    assert(functions_section(fs, allow) == functions_section(init, allow) + tail);
    if i < fs.len() - 1 {
        assert(fs[i] == init[i]);
        law_included_functions_are_declared(init, allow, i);
        let k = choose|k: int|
            crate::text::occurs_at(functions_section(init, allow), function_code(fs[i]), k);
        lemma_occurs_in_prefix(functions_section(init, allow), tail, function_code(fs[i]), k);
    } else {
        let c = function_code(fs[i]);
        assert(c.subrange(0, c.len() as int) =~= c);
        assert(crate::text::occurs_at(tail, c, 0));
        lemma_occurs_in_suffix(functions_section(init, allow), tail, c, 0);
    }
}

/// The generated code opens with its comment lines; then, when the options
/// name a module, with that module's opening line, and otherwise with the `use`
/// line; and it closes a block at its end.
pub proof fn law_code_frame(header: Seq<char>, h: HeaderModel, o: BindingOptions)
    ensures
        starts_with(binding_code(header, h, o), comment_lines(header)),
        o.module_name matches Some(m) ==> starts_with(
            binding_code(header, h, o),
            comment_lines(header) + module_open(m@),
        ),
        o.module_name is None ==> starts_with(
            binding_code(header, h, o),
            comment_lines(header) + "use std::os::raw::*;\n"@,
        ),
        crate::text::ends_with(binding_code(header, h, o), "}\n"@),
{
    let code = binding_code(header, h, o);
    let pre = comment_lines(header);
    assert(code.subrange(0, pre.len() as int) =~= pre);
    match o.module_name {
        Some(m) => {
            let p = pre + module_open(m@);
            assert(code.subrange(0, p.len() as int) =~= p);
        },
        None => {
            let p = pre + "use std::os::raw::*;\n"@;
            assert(code.subrange(0, p.len() as int) =~= p);
        },
    }
    let close = "}\n"@;
    assert(code.subrange(code.len() - close.len(), code.len() as int) =~= close);
}

/// A struct or enum read from a `typedef` block is generated once: the typedef
/// of its name that comes with it is recognized as an alias and not generated
/// again as a type alias.
pub proof fn law_block_aliases_not_generated(content: Seq<char>, j: int)
    ensures
        0 <= j < header_model(content).structs.len() ==> {
            let h = header_model(content);
            &&& h.typedefs.contains(struct_alias(h.structs[j].name))
            &&& is_struct_alias(struct_alias(h.structs[j].name), h.structs)
        },
        0 <= j < header_model(content).enums.len() ==> {
            let h = header_model(content);
            &&& h.typedefs.contains(enum_alias(h.enums[j].name))
            &&& is_enum_alias(enum_alias(h.enums[j].name), h.enums)
        },
{
    law_blocks_have_aliases(content);
    let h = header_model(content);
    if 0 <= j < h.structs.len() {
        let t = struct_alias(h.structs[j].name);
        assert(t.target.subrange(0, "struct "@.len() as int) =~= "struct "@);
    }
    if 0 <= j < h.enums.len() {
        let t = enum_alias(h.enums[j].name);
        assert(t.target.subrange(0, "enum "@.len() as int) =~= "enum "@);
    }
}

/// Every function declared in a header that passes the allowlist is declared,
/// with its Rust types, in the generated bindings.
pub proof fn law_header_functions_are_bound(
    header: Seq<char>,
    content: Seq<char>,
    o: BindingOptions,
    i: int,
)
    requires
        0 <= i < header_model(content).functions.len(),
        included(header_model(content).functions[i].name, string_views(o.allowlist_functions@)),
    ensures
        crate::text::has_sub(
            binding_code(header, header_model(content), o),
            function_code(header_model(content).functions[i]),
        ),
{
    let h = header_model(content);
    let allow = string_views(o.allowlist_functions@);
    let types = string_views(o.allowlist_types@);
    let before = "use std::os::raw::*;\n"@ + "\n"@ + enums_section(h.enums, types) + structs_section(
        h.structs,
        types,
        o.derive_debug,
        o.derive_default,
    ) + typedefs_section(h.typedefs, h.structs, h.enums, types) + extern_open();
    let fsec = functions_section(h.functions, allow);
    let c = function_code(h.functions[i]);
    law_included_functions_are_declared(h.functions, allow, i);
    let k = choose|k: int| crate::text::occurs_at(fsec, c, k);
    lemma_occurs_in_suffix(before, fsec, c, k);
    lemma_occurs_in_prefix(before + fsec, "}\n"@, c, before.len() + k);
    let items = items_code(h, o);
    assert(items == before + fsec + "}\n"@);
    let k2 = before.len() + k;
    let opening = match o.module_name {
        Some(m) => module_open(m@),
        None => Seq::<char>::empty(),
    };
    let closing = match o.module_name {
        Some(m) => "}\n"@,
        None => Seq::<char>::empty(),
    };
    lemma_occurs_in_suffix(comment_lines(header) + opening, items, c, k2);
    lemma_occurs_in_prefix(comment_lines(header) + opening + items, closing, c, (comment_lines(header) + opening).len() + k2);
    assert(binding_code(header, h, o) =~= comment_lines(header) + opening + items + closing);
}

proof fn lemma_functions_filter(
    fs: Seq<FunctionModel>,
    allow: Seq<Seq<char>>,
    keep: spec_fn(FunctionModel) -> bool,
)
    requires
        forall|f: FunctionModel| #[trigger] keep(f) == included(f.name, allow),
    ensures
        functions_section(fs, allow) == functions_section(fs.filter(keep), seq![]),
    decreases fs.len(),
{
    reveal(Seq::filter);
    if fs.len() > 0 {
        lemma_functions_filter(fs.drop_last(), allow, keep);
        let rest = fs.drop_last().filter(keep);
        if keep(fs.last()) {
            assert(rest.push(fs.last()).drop_last() =~= rest);
        }
    }
}

proof fn lemma_warnings_filter(
    fs: Seq<FunctionModel>,
    allow: Seq<Seq<char>>,
    skip: spec_fn(FunctionModel) -> bool,
    warn: spec_fn(FunctionModel) -> Seq<char>,
)
    requires
        forall|f: FunctionModel| #[trigger] skip(f) == !included(f.name, allow),
        forall|f: FunctionModel| #[trigger] warn(f) == "Skipped function: "@ + f.name,
    ensures
        skipped_warnings(fs, allow) == fs.filter(skip).map_values(warn),
    decreases fs.len(),
{
    reveal(Seq::filter);
    if fs.len() > 0 {
        lemma_warnings_filter(fs.drop_last(), allow, skip, warn);
        let rest = fs.drop_last().filter(skip);
        if skip(fs.last()) {
            assert(rest.push(fs.last()).map_values(warn) =~= rest.map_values(warn).push(
                warn(fs.last()),
            ));
        }
    }
}

proof fn lemma_enums_filter(es: Seq<EnumModel>, allow: Seq<Seq<char>>, keep: spec_fn(EnumModel) -> bool)
    requires
        forall|e: EnumModel| #[trigger] keep(e) == included(e.name, allow),
    ensures
        enums_section(es, allow) == enums_section(es.filter(keep), seq![]),
    decreases es.len(),
{
    reveal(Seq::filter);
    if es.len() > 0 {
        lemma_enums_filter(es.drop_last(), allow, keep);
        let rest = es.drop_last().filter(keep);
        if keep(es.last()) {
            assert(rest.push(es.last()).drop_last() =~= rest);
        }
    }
}

proof fn lemma_structs_filter(
    ss: Seq<StructModel>,
    allow: Seq<Seq<char>>,
    debug: bool,
    default: bool,
    keep: spec_fn(StructModel) -> bool,
)
    requires
        forall|t: StructModel| #[trigger] keep(t) == included(t.name, allow),
    ensures
        structs_section(ss, allow, debug, default) == structs_section(
            ss.filter(keep),
            seq![],
            debug,
            default,
        ),
    decreases ss.len(),
{
    reveal(Seq::filter);
    if ss.len() > 0 {
        lemma_structs_filter(ss.drop_last(), allow, debug, default, keep);
        let rest = ss.drop_last().filter(keep);
        if keep(ss.last()) {
            assert(rest.push(ss.last()).drop_last() =~= rest);
        }
    }
}

/// What the allowlists keep: the `extern "C"` block declares exactly the
/// functions that the function allowlist lets through, in header order; the
/// warnings name exactly the others, in header order; and the enums and
/// structs generated are exactly those that the type allowlist lets through,
/// in header order. A type left out gives no warning.
pub proof fn law_allowlists_filter_in_order(
    fs: Seq<FunctionModel>,
    es: Seq<EnumModel>,
    ss: Seq<StructModel>,
    fallow: Seq<Seq<char>>,
    tallow: Seq<Seq<char>>,
    debug: bool,
    default: bool,
)
    ensures
        functions_section(fs, fallow) == functions_section(
            fs.filter(|f: FunctionModel| included(f.name, fallow)),
            seq![],
        ),
        skipped_warnings(fs, fallow) == fs.filter(
            |f: FunctionModel| !included(f.name, fallow),
        ).map_values(|f: FunctionModel| "Skipped function: "@ + f.name),
        enums_section(es, tallow) == enums_section(
            es.filter(|e: EnumModel| included(e.name, tallow)),
            seq![],
        ),
        structs_section(ss, tallow, debug, default) == structs_section(
            ss.filter(|t: StructModel| included(t.name, tallow)),
            seq![],
            debug,
            default,
        ),
{
    lemma_functions_filter(fs, fallow, |f: FunctionModel| included(f.name, fallow));
    lemma_warnings_filter(
        fs,
        fallow,
        |f: FunctionModel| !included(f.name, fallow),
        |f: FunctionModel| "Skipped function: "@ + f.name,
    );
    lemma_enums_filter(es, tallow, |e: EnumModel| included(e.name, tallow));
    lemma_structs_filter(ss, tallow, debug, default, |t: StructModel| included(t.name, tallow));
}

/// A text that lacks a character of `p` does not hold `p`.
proof fn lemma_missing_char(s: Seq<char>, p: Seq<char>, c: char)
    requires
        crate::text::has_char(p, c),
        !crate::text::has_char(s, c),
    ensures
        !crate::text::has_sub(s, p),
{
    if crate::text::has_sub(s, p) {
        let i = choose|i: int| crate::text::occurs_at(s, p, i);
        let j = choose|j: int| 0 <= j < p.len() && p[j] == c;
        assert(s.subrange(i, i + p.len())[j] == c);
        assert(s[i + j] == c);
    }
}

/// A generated struct derives `Default` exactly when `default` is asked for,
/// and `Debug` exactly when `debug` is, each whatever the other is; it always
/// derives `Copy` and `Clone`, on the line that opens it.
pub proof fn law_derives_follow_the_options(s: StructModel, debug: bool, default: bool)
    ensures
        starts_with(
            struct_code(s, debug, default),
            "#[derive("@ + derive_list(debug, default) + ")]\n"@,
        ),
        starts_with(derive_list(debug, default), "Copy, Clone"@),
        crate::text::has_sub(derive_list(debug, default), ", Default"@) <==> default,
        crate::text::has_sub(derive_list(debug, default), ", Debug"@) <==> debug,
{
    reveal_strlit("Copy, Clone");
    reveal_strlit(", Debug");
    reveal_strlit(", Default");
    let d = derive_list(debug, default);
    let open = "#[derive("@ + d + ")]\n"@;
    let code = struct_code(s, debug, default);
    assert(code.subrange(0, open.len() as int) =~= open);
    assert(d.subrange(0, 11) =~= "Copy, Clone"@);
    let base = "Copy, Clone"@;
    let dbg = if debug {
        ", Debug"@
    } else {
        seq![]
    };
    assert(d =~= base + dbg + (if default {
        ", Default"@
    } else {
        seq![]
    }));
    if default {
        let k = (base + dbg).len() as int;
        assert(d.subrange(k, k + 9) =~= ", Default"@);
        assert(crate::text::occurs_at(d, ", Default"@, k));
    } else {
        assert(", Default"@[4] == 'f');
        assert forall|i: int| 0 <= i < d.len() implies d[i] != 'f' by {
            if i >= 11 {
                assert(d[i] == dbg[i - 11]);
            }
        }
        lemma_missing_char(d, ", Default"@, 'f');
    }
    if debug {
        assert(d.subrange(11, 18) =~= ", Debug"@);
        assert(crate::text::occurs_at(d, ", Debug"@, 11));
    } else {
        assert(", Debug"@[4] == 'b');
        assert forall|i: int| 0 <= i < d.len() implies d[i] != 'b' by {
            if i >= 11 {
                assert(d[i] == (if default {
                    ", Default"@
                } else {
                    seq![]
                })[i - 11]);
            }
        }
        lemma_missing_char(d, ", Debug"@, 'b');
    }
}

} // verus!
