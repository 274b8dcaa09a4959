//! A simple C header parser: typedefs, `typedef struct`/`typedef enum` blocks
//! and function declarations, one declaration per line.
use vstd::prelude::*;

use crate::text::{
    contains_char, contains_str, copy_range, eq_str, find, find_char, has_char, has_sub, join,
    leading_run, lemma_find_from, lemma_rfind_before, lines, push_chars, push_str, rfind,
    rfind_char, rsplit_once_space, rsplit_space, run_end, seqs, split, split_char, split_lines,
    split_once, split_once_char, split_whitespace, starts_with, starts_with_str, string_of,
    to_chars, trim, trim_chars, trim_end_char, trim_end_matching, words, lemma_trim_span,
    lemma_find_in_span, is_ws,
};

verus! {

// ---------------------------------------------------------------------------
// Parsed declarations and their models
// ---------------------------------------------------------------------------

/// `typedef <target> <name>;`
#[derive(Debug)]
pub struct TypedefDef {
    pub name: String,
    pub target: String,
}

/// `typedef struct { <type> <name>; ... } <name>;`
#[derive(Debug)]
pub struct StructDef {
    pub name: String,
    /// `(type, name)` of each field.
    pub fields: Vec<(String, String)>,
}

/// `typedef enum { <name> [= <value>], ... } <name>;`
#[derive(Debug)]
pub struct EnumDef {
    pub name: String,
    /// `(name, value)` of each variant.
    pub variants: Vec<(String, Option<String>)>,
}

/// `<return type> <name>(<type> <name>, ...);`
#[derive(Debug)]
pub struct FunctionDef {
    pub name: String,
    pub return_type: String,
    /// `(type, name)` of each parameter.
    pub params: Vec<(String, String)>,
}

/// Everything found in a header, each kind in the order of appearance.
#[derive(Debug)]
pub struct ParsedHeader {
    pub typedefs: Vec<TypedefDef>,
    pub structs: Vec<StructDef>,
    pub enums: Vec<EnumDef>,
    pub functions: Vec<FunctionDef>,
}

pub struct TypedefModel {
    pub name: Seq<char>,
    pub target: Seq<char>,
}

pub struct StructModel {
    pub name: Seq<char>,
    pub fields: Seq<(Seq<char>, Seq<char>)>,
}

pub struct EnumModel {
    pub name: Seq<char>,
    pub variants: Seq<(Seq<char>, Option<Seq<char>>)>,
}

pub struct FunctionModel {
    pub name: Seq<char>,
    pub return_type: Seq<char>,
    pub params: Seq<(Seq<char>, Seq<char>)>,
}

#[verifier::ext_equal]
pub struct HeaderModel {
    pub typedefs: Seq<TypedefModel>,
    pub structs: Seq<StructModel>,
    pub enums: Seq<EnumModel>,
    pub functions: Seq<FunctionModel>,
}

pub open spec fn pairs_view(v: Seq<(String, String)>) -> Seq<(Seq<char>, Seq<char>)> {
    v.map_values(|p: (String, String)| (p.0@, p.1@))
}

pub open spec fn opt_view(o: Option<String>) -> Option<Seq<char>> {
    match o {
        Some(s) => Some(s@),
        None => None,
    }
}

pub open spec fn variants_view(v: Seq<(String, Option<String>)>) -> Seq<
    (Seq<char>, Option<Seq<char>>),
> {
    v.map_values(|p: (String, Option<String>)| (p.0@, opt_view(p.1)))
}

impl View for TypedefDef {
    type V = TypedefModel;

    open spec fn view(&self) -> TypedefModel {
        TypedefModel { name: self.name@, target: self.target@ }
    }
}

impl View for StructDef {
    type V = StructModel;

    open spec fn view(&self) -> StructModel {
        StructModel { name: self.name@, fields: pairs_view(self.fields@) }
    }
}

impl View for EnumDef {
    type V = EnumModel;

    open spec fn view(&self) -> EnumModel {
        EnumModel { name: self.name@, variants: variants_view(self.variants@) }
    }
}

impl View for FunctionDef {
    type V = FunctionModel;

    open spec fn view(&self) -> FunctionModel {
        FunctionModel {
            name: self.name@,
            return_type: self.return_type@,
            params: pairs_view(self.params@),
        }
    }
}

impl View for ParsedHeader {
    type V = HeaderModel;

    open spec fn view(&self) -> HeaderModel {
        HeaderModel {
            typedefs: self.typedefs@.map_values(|t: TypedefDef| t@),
            structs: self.structs@.map_values(|s: StructDef| s@),
            enums: self.enums@.map_values(|e: EnumDef| e@),
            functions: self.functions@.map_values(|f: FunctionDef| f@),
        }
    }
}

/// Whether the last character of `s` is `c` (`str::ends_with` with a character).
pub open spec fn ends_char(s: Seq<char>, c: char) -> bool {
    s.len() > 0 && s.last() == c
}

// ---------------------------------------------------------------------------
// Function declarations
// ---------------------------------------------------------------------------

/// One parameter `<type> <name>`; a `*` stuck to the name moves to the type.
pub open spec fn param_model(p: Seq<char>) -> Option<(Seq<char>, Seq<char>)> {
    let p = trim(p);
    match rsplit_space(p) {
        None => None,
        Some((typ, name)) => if name.len() > 0 && name[0] == '*' {
            let k = run_end(name, '*', 0);
            Some((typ + " "@ + name.subrange(0, k), name.subrange(k, name.len() as int)))
        } else {
            Some((typ, name))
        },
    }
}

/// The parameters of the comma-separated pieces, those without a space dropped.
pub open spec fn params_model(pieces: Seq<Seq<char>>) -> Seq<(Seq<char>, Seq<char>)>
    decreases pieces.len(),
{
    if pieces.len() == 0 {
        seq![]
    } else {
        let rest = params_model(pieces.drop_last());
        match param_model(pieces.last()) {
            Some(p) => rest.push(p),
            None => rest,
        }
    }
}

/// The declaration with the `;` and the outer whitespace removed.
pub open spec fn decl_body(line: Seq<char>) -> Seq<char> {
    trim(line.drop_last())
}

/// Whether parsing `line` as a function declaration stays within its bounds:
/// the last `)` does not come before the first `(`.
pub open spec fn function_line_ok(line: Seq<char>) -> bool {
    let l = decl_body(line);
    ends_char(line, ';') ==> match (find(l, '('), rfind(l, ')')) {
        (Some(ps), Some(pe)) => ps < pe,
        _ => true,
    }
}

/// A function declaration `ret name(params);` as the parser reads it.
pub open spec fn function_model(line: Seq<char>) -> Option<FunctionModel> {
    if !ends_char(line, ';') {
        None
    } else {
        let l = decl_body(line);
        match (find(l, '('), rfind(l, ')')) {
            (Some(ps), Some(pe)) => {
                let sig = trim(l.subrange(0, ps));
                let params_str = l.subrange(ps + 1, pe);
                let (ret, name) = match rsplit_space(sig) {
                    Some((before, after)) => (before, after),
                    None => ("void"@, sig),
                };
                let params = if trim(params_str) == "void"@ || params_str.len() == 0 {
                    seq![]
                } else {
                    params_model(split(params_str, ','))
                };
                Some(FunctionModel { name, return_type: ret, params })
            },
            _ => None,
        }
    }
}

fn param_of(piece: &[char]) -> (r: Option<(String, String)>)
    ensures
        r matches Some(p) ==> param_model(piece@) == Some((p.0@, p.1@)),
        r is None ==> param_model(piece@) is None,
{
    let p = trim_chars(piece);
    match rsplit_once_space(p.as_slice()) {
        None => None,
        Some((typ, name)) => {
            if name.len() > 0 && name[0] == '*' {
                let k = leading_run(name.as_slice(), '*');
                let stars = copy_range(name.as_slice(), 0, k);
                let rest = copy_range(name.as_slice(), k, name.len());
                let mut t = string_of(typ.as_slice());
                crate::text::push_char(&mut t, ' ');
                push_chars(&mut t, stars.as_slice());
                proof {
                    reveal_strlit(" ");
                    assert(t@ =~= typ@ + " "@ + stars@);
                }
                Some((t, string_of(rest.as_slice())))
            } else {
                Some((string_of(typ.as_slice()), string_of(name.as_slice())))
            }
        },
    }
}

fn params_of(pieces: &Vec<Vec<char>>) -> (r: Vec<(String, String)>)
    ensures
        pairs_view(r@) == params_model(seqs(pieces@)),
{
    let n = pieces.len();
    let mut out: Vec<(String, String)> = Vec::new();
    let mut i: usize = 0;
    while i < n
        invariant
            n == pieces@.len(),
            i <= n,
            pairs_view(out@) == params_model(seqs(pieces@).subrange(0, i as int)),
        decreases n - i,
    {
        let ghost old_out = out@;
        let ghost pre = seqs(pieces@).subrange(0, i + 1);
        assert(pre.drop_last() =~= seqs(pieces@).subrange(0, i as int));
        assert(pre.last() == pieces@[i as int]@);
        match param_of(pieces[i].as_slice()) {
            Some(p) => {
                out.push(p);
                assert(pairs_view(out@) =~= pairs_view(old_out).push((p.0@, p.1@)));
            },
            None => {},
        }
        i += 1;
    }
    assert(seqs(pieces@).subrange(0, n as int) =~= seqs(pieces@));
    out
}

/// Parses `ret name(params);` on characters.
pub fn parse_function_chars(line: &[char]) -> (r: Option<FunctionDef>)
    requires
        function_line_ok(line@),
    ensures
        r matches Some(f) ==> function_model(line@) == Some(f@),
        r is None ==> function_model(line@) is None,
{
    let n = line.len();
    if n == 0 || line[n - 1] != ';' {
        return None;
    }
    let head = copy_range(line, 0, n - 1);
    assert(head@ =~= line@.drop_last());
    let l = trim_chars(head.as_slice());
    let ps = match find_char(l.as_slice(), '(') {
        Some(k) => k,
        None => {
            return None;
        },
    };
    let pe = match rfind_char(l.as_slice(), ')') {
        Some(k) => k,
        None => {
            return None;
        },
    };
    proof {
        lemma_find_from(l@, '(', 0);
        lemma_rfind_before(l@, ')', l@.len() as int);
    }
    let sig_raw = copy_range(l.as_slice(), 0, ps);
    let sig = trim_chars(sig_raw.as_slice());
    let params_str = copy_range(l.as_slice(), ps + 1, pe);
    let (ret, name) = match rsplit_once_space(sig.as_slice()) {
        Some((before, after)) => (string_of(before.as_slice()), string_of(after.as_slice())),
        None => (String::from_str("void"), string_of(sig.as_slice())),
    };
    let pt = trim_chars(params_str.as_slice());
    let params = if eq_str(pt.as_slice(), "void") || params_str.len() == 0 {
        Vec::new()
    } else {
        let pieces = split_char(params_str.as_slice(), ',');
        params_of(&pieces)
    };
    let f = FunctionDef { name, return_type: ret, params };
    assert(pairs_view(f.params@) =~= function_model(line@).unwrap().params);
    Some(f)
}

/// Parses a function declaration such as `int add(int a, int b);`.
pub fn parse_function_line(line: &str) -> (r: Option<FunctionDef>)
    requires
        function_line_ok(line@),
    ensures
        r matches Some(f) ==> function_model(line@) == Some(f@),
        r is None ==> function_model(line@) is None,
{
    let c = to_chars(line);
    parse_function_chars(c.as_slice())
}


// ---------------------------------------------------------------------------
// Simple typedefs
// ---------------------------------------------------------------------------

/// `typedef <target> <name>;` read as `(target, name)`: the text between
/// `typedef` and `;`, split at its last space.
pub open spec fn typedef_line_model(line: Seq<char>) -> Option<(Seq<char>, Seq<char>)> {
    if !starts_with(line, "typedef"@) {
        None
    } else {
        let rest = trim(line.subrange("typedef"@.len() as int, line.len() as int));
        if !ends_char(rest, ';') {
            None
        } else {
            match rsplit_space(trim(rest.drop_last())) {
                Some((before, after)) => Some((before, after)),
                None => None,
            }
        }
    }
}

/// Parses `typedef <target> <name>;` on characters into `(target, name)`.
pub fn parse_typedef_chars(line: &[char]) -> (r: Option<(String, String)>)
    ensures
        r matches Some(p) ==> typedef_line_model(line@) == Some((p.0@, p.1@)),
        r is None ==> typedef_line_model(line@) is None,
{
    if !starts_with_str(line, "typedef") {
        return None;
    }
    let kw = to_chars("typedef");
    let tail = copy_range(line, kw.len(), line.len());
    let rest = trim_chars(tail.as_slice());
    let n = rest.len();
    if n == 0 || rest[n - 1] != ';' {
        return None;
    }
    let head = copy_range(rest.as_slice(), 0, n - 1);
    assert(head@ =~= rest@.drop_last());
    let body = trim_chars(head.as_slice());
    match rsplit_once_space(body.as_slice()) {
        Some((before, after)) => Some((string_of(before.as_slice()), string_of(after.as_slice()))),
        None => None,
    }
}

/// Parses a simple typedef such as `typedef int myint;` into `(target, name)`.
pub fn parse_typedef_line(line: &str) -> (r: Option<(String, String)>)
    ensures
        r matches Some(p) ==> typedef_line_model(line@) == Some((p.0@, p.1@)),
        r is None ==> typedef_line_model(line@) is None,
{
    let c = to_chars(line);
    parse_typedef_chars(c.as_slice())
}

// ---------------------------------------------------------------------------
// typedef struct / typedef enum blocks
// ---------------------------------------------------------------------------

/// The name at the end of a block, `} NAME;`: the last word before the final `;`.
pub open spec fn block_name(c: Seq<char>) -> Option<Seq<char>> {
    if !ends_char(c, ';') {
        None
    } else {
        let ws = words(trim(c.drop_last()));
        if ws.len() == 0 {
            None
        } else {
            Some(ws.last())
        }
    }
}

/// Whether the body of a block can be cut out: once the name, a `{` and a `}` are
/// found, the last `}` does not come before the first `{`.
pub open spec fn block_ok(content: Seq<char>) -> bool {
    let c = trim(content);
    block_name(c) is Some ==> match (find(c, '{'), rfind(c, '}')) {
        (Some(start), Some(end)) => start < end,
        _ => true,
    }
}

/// The text between the first `{` and the last `}` of a named block.
pub open spec fn block_body(content: Seq<char>) -> Option<(Seq<char>, Seq<char>)> {
    let c = trim(content);
    match block_name(c) {
        None => None,
        Some(name) => match (find(c, '{'), rfind(c, '}')) {
            (Some(start), Some(end)) => Some((name, c.subrange(start + 1, end))),
            _ => None,
        },
    }
}

/// One field `<type words> <name>`: at least two words; the name loses trailing `[`.
pub open spec fn field_model(piece: Seq<char>) -> Option<(Seq<char>, Seq<char>)> {
    let f = trim(piece);
    if f.len() == 0 || starts_with(f, "//"@) {
        None
    } else {
        let parts = words(f);
        if parts.len() >= 2 {
            Some((join(parts.drop_last(), " "@), trim_end_char(parts.last(), '[')))
        } else {
            None
        }
    }
}

pub open spec fn fields_model(pieces: Seq<Seq<char>>) -> Seq<(Seq<char>, Seq<char>)>
    decreases pieces.len(),
{
    if pieces.len() == 0 {
        seq![]
    } else {
        let rest = fields_model(pieces.drop_last());
        match field_model(pieces.last()) {
            Some(p) => rest.push(p),
            None => rest,
        }
    }
}

/// `typedef struct { ... } NAME;` with its `;`-separated fields.
pub open spec fn struct_model(content: Seq<char>) -> Option<StructModel> {
    match block_body(content) {
        None => None,
        Some((name, body)) => Some(StructModel { name, fields: fields_model(split(body, ';')) }),
    }
}

/// One variant `NAME` or `NAME = VALUE`.
pub open spec fn variant_model(piece: Seq<char>) -> Option<(Seq<char>, Option<Seq<char>>)> {
    let item = trim(piece);
    if item.len() == 0 || starts_with(item, "//"@) {
        None
    } else {
        match split_once(item, '=') {
            Some((name, value)) => Some((trim(name), Some(trim(value)))),
            None => Some((item, None)),
        }
    }
}

pub open spec fn variants_model(pieces: Seq<Seq<char>>) -> Seq<(Seq<char>, Option<Seq<char>>)>
    decreases pieces.len(),
{
    if pieces.len() == 0 {
        seq![]
    } else {
        let rest = variants_model(pieces.drop_last());
        match variant_model(pieces.last()) {
            Some(p) => rest.push(p),
            None => rest,
        }
    }
}

/// `typedef enum { ... } NAME;` with its `,`-separated variants.
pub open spec fn enum_model(content: Seq<char>) -> Option<EnumModel> {
    match block_body(content) {
        None => None,
        Some((name, body)) => Some(
            EnumModel { name, variants: variants_model(split(body, ',')) },
        ),
    }
}

/// `[T]::join` of character vectors.
fn join_words(parts: &[Vec<char>], sep: &str) -> (r: Vec<char>)
    ensures
        r@ == join(seqs(parts@), sep@),
{
    let sepc = to_chars(sep);
    let n = parts.len();
    let mut out: Vec<char> = Vec::new();
    let mut i: usize = 0;
    while i < n
        invariant
            n == parts@.len(),
            i <= n,
            sepc@ == sep@,
            out@ == join(seqs(parts@).subrange(0, i as int), sep@),
        decreases n - i,
    {
        let ghost pre = seqs(parts@).subrange(0, i + 1);
        assert(pre.drop_last() =~= seqs(parts@).subrange(0, i as int));
        if i > 0 {
            let mut t = copy_range(sepc.as_slice(), 0, sepc.len());
            assert(sepc@.subrange(0, sepc@.len() as int) =~= sepc@);
            out.append(&mut t);
        }
        let mut w = copy_range(parts[i].as_slice(), 0, parts[i].len());
        assert(parts@[i as int]@.subrange(0, parts@[i as int]@.len() as int) =~= parts@[i as int]@);
        out.append(&mut w);
        i += 1;
        assert(out@ =~= join(pre, sep@));
    }
    assert(seqs(parts@).subrange(0, n as int) =~= seqs(parts@));
    out
}

fn field_of(piece: &[char]) -> (r: Option<(String, String)>)
    ensures
        r matches Some(p) ==> field_model(piece@) == Some((p.0@, p.1@)),
        r is None ==> field_model(piece@) is None,
{
    let f = trim_chars(piece);
    if f.len() == 0 || starts_with_str(f.as_slice(), "//") {
        return None;
    }
    let parts = split_whitespace(f.as_slice());
    let k = parts.len();
    if k >= 2 {
        let ghost ps = seqs(parts@);
        let firsts = join_words(&parts.as_slice()[0..k - 1], " ");
        assert(seqs(parts@.subrange(0, k - 1)) =~= ps.drop_last());
        let name = trim_end_matching(parts[k - 1].as_slice(), '[');
        Some((string_of(firsts.as_slice()), string_of(name.as_slice())))
    } else {
        None
    }
}

fn variant_of(piece: &[char]) -> (r: Option<(String, Option<String>)>)
    ensures
        r matches Some(p) ==> variant_model(piece@) == Some((p.0@, opt_view(p.1))),
        r is None ==> variant_model(piece@) is None,
{
    let item = trim_chars(piece);
    if item.len() == 0 || starts_with_str(item.as_slice(), "//") {
        return None;
    }
    match split_once_char(item.as_slice(), '=') {
        Some((name, value)) => {
            let n = trim_chars(name.as_slice());
            let v = trim_chars(value.as_slice());
            Some((string_of(n.as_slice()), Some(string_of(v.as_slice()))))
        },
        None => Some((string_of(item.as_slice()), None)),
    }
}

/// Name and body of a block, on characters.
fn block_parts(content: &[char]) -> (r: Option<(Vec<char>, Vec<char>)>)
    requires
        block_ok(content@),
    ensures
        r matches Some(p) ==> block_body(content@) == Some((p.0@, p.1@)),
        r is None ==> block_body(content@) is None,
{
    let c = trim_chars(content);
    let n = c.len();
    if n == 0 || c[n - 1] != ';' {
        return None;
    }
    let head = copy_range(c.as_slice(), 0, n - 1);
    assert(head@ =~= c@.drop_last());
    let end_part = trim_chars(head.as_slice());
    let ws = split_whitespace(end_part.as_slice());
    if ws.len() == 0 {
        return None;
    }
    let name = copy_range(ws[ws.len() - 1].as_slice(), 0, ws[ws.len() - 1].len());
    assert(ws@[ws@.len() - 1]@.subrange(0, ws@[ws@.len() - 1]@.len() as int) =~= ws@[ws@.len()
        - 1]@);
    assert(seqs(ws@).last() == ws@[ws@.len() - 1]@);
    let start = match find_char(c.as_slice(), '{') {
        Some(k) => k,
        None => {
            return None;
        },
    };
    let end = match rfind_char(c.as_slice(), '}') {
        Some(k) => k,
        None => {
            return None;
        },
    };
    proof {
        lemma_find_from(c@, '{', 0);
        lemma_rfind_before(c@, '}', c@.len() as int);
    }
    let body = copy_range(c.as_slice(), start + 1, end);
    Some((name, body))
}

/// Parses a `typedef struct { ... } NAME;` block on characters.
pub fn parse_typedef_struct_chars(content: &[char]) -> (r: Option<StructDef>)
    requires
        block_ok(content@),
    ensures
        r matches Some(d) ==> struct_model(content@) == Some(d@),
        r is None ==> struct_model(content@) is None,
{
    let (name, body) = match block_parts(content) {
        Some(p) => p,
        None => {
            return None;
        },
    };
    let pieces = split_char(body.as_slice(), ';');
    let n = pieces.len();
    let mut fields: Vec<(String, String)> = Vec::new();
    let mut i: usize = 0;
    while i < n
        invariant
            n == pieces@.len(),
            i <= n,
            pairs_view(fields@) == fields_model(seqs(pieces@).subrange(0, i as int)),
        decreases n - i,
    {
        let ghost old_fields = fields@;
        let ghost pre = seqs(pieces@).subrange(0, i + 1);
        assert(pre.drop_last() =~= seqs(pieces@).subrange(0, i as int));
        assert(pre.last() == pieces@[i as int]@);
        match field_of(pieces[i].as_slice()) {
            Some(p) => {
                fields.push(p);
                assert(pairs_view(fields@) =~= pairs_view(old_fields).push((p.0@, p.1@)));
            },
            None => {},
        }
        i += 1;
    }
    assert(seqs(pieces@).subrange(0, n as int) =~= seqs(pieces@));
    Some(StructDef { name: string_of(name.as_slice()), fields })
}

/// Parses a `typedef enum { ... } NAME;` block on characters.
pub fn parse_typedef_enum_chars(content: &[char]) -> (r: Option<EnumDef>)
    requires
        block_ok(content@),
    ensures
        r matches Some(d) ==> enum_model(content@) == Some(d@),
        r is None ==> enum_model(content@) is None,
{
    let (name, body) = match block_parts(content) {
        Some(p) => p,
        None => {
            return None;
        },
    };
    let pieces = split_char(body.as_slice(), ',');
    let n = pieces.len();
    let mut variants: Vec<(String, Option<String>)> = Vec::new();
    let mut i: usize = 0;
    while i < n
        invariant
            n == pieces@.len(),
            i <= n,
            variants_view(variants@) == variants_model(seqs(pieces@).subrange(0, i as int)),
        decreases n - i,
    {
        let ghost old_variants = variants@;
        let ghost pre = seqs(pieces@).subrange(0, i + 1);
        assert(pre.drop_last() =~= seqs(pieces@).subrange(0, i as int));
        assert(pre.last() == pieces@[i as int]@);
        match variant_of(pieces[i].as_slice()) {
            Some(p) => {
                variants.push(p);
                assert(variants_view(variants@) =~= variants_view(old_variants).push(
                    (p.0@, opt_view(p.1)),
                ));
            },
            None => {},
        }
        i += 1;
    }
    assert(seqs(pieces@).subrange(0, n as int) =~= seqs(pieces@));
    Some(EnumDef { name: string_of(name.as_slice()), variants })
}


/// Parses a `typedef struct { ... } NAME;` block.
pub fn parse_typedef_struct(content: &str) -> (r: Option<StructDef>)
    requires
        block_ok(content@),
    ensures
        r matches Some(d) ==> struct_model(content@) == Some(d@),
        r is None ==> struct_model(content@) is None,
{
    let c = to_chars(content);
    parse_typedef_struct_chars(c.as_slice())
}

/// Parses a `typedef enum { ... } NAME;` block.
pub fn parse_typedef_enum(content: &str) -> (r: Option<EnumDef>)
    requires
        block_ok(content@),
    ensures
        r matches Some(d) ==> enum_model(content@) == Some(d@),
        r is None ==> enum_model(content@) is None,
{
    let c = to_chars(content);
    parse_typedef_enum_chars(c.as_slice())
}

// ---------------------------------------------------------------------------
// Whether a declaration can be parsed without leaving its bounds
// ---------------------------------------------------------------------------

/// `function_line_ok`, computed.
pub fn function_line_check(line: &[char]) -> (b: bool)
    ensures
        b == function_line_ok(line@),
{
    let n = line.len();
    if n == 0 || line[n - 1] != ';' {
        return true;
    }
    let head = copy_range(line, 0, n - 1);
    assert(head@ =~= line@.drop_last());
    let l = trim_chars(head.as_slice());
    match (find_char(l.as_slice(), '('), rfind_char(l.as_slice(), ')')) {
        (Some(ps), Some(pe)) => ps < pe,
        _ => true,
    }
}

/// `block_ok`, computed.
pub fn block_check(content: &[char]) -> (b: bool)
    ensures
        b == block_ok(content@),
{
    let c = trim_chars(content);
    let n = c.len();
    if n == 0 || c[n - 1] != ';' {
        return true;
    }
    let head = copy_range(c.as_slice(), 0, n - 1);
    assert(head@ =~= c@.drop_last());
    let end_part = trim_chars(head.as_slice());
    let ws = split_whitespace(end_part.as_slice());
    if ws.len() == 0 {
        return true;
    }
    match (find_char(c.as_slice(), '{'), rfind_char(c.as_slice(), '}')) {
        (Some(start), Some(end)) => start < end,
        _ => true,
    }
}

// ---------------------------------------------------------------------------
// The whole header
// ---------------------------------------------------------------------------

/// A block is no longer collected after this many lines without a `}`.
pub const MAX_TYPEDEF_BLOCK_LINES: usize = 16384;

/// The line at which the block that starts at line `i` stops: the first line
/// with a `}`, the end of the input, or the line after the last one allowed.
pub open spec fn block_end(ls: Seq<Seq<char>>, i: int, extend: int) -> int
    decreases ls.len() - i,
{
    if 0 <= i < ls.len() && !has_char(ls[i], '}') && extend < MAX_TYPEDEF_BLOCK_LINES {
        block_end(ls, i + 1, extend + 1)
    } else {
        i
    }
}

/// The text of the block that starts at line `i`: each line without a `}`
/// followed by a space, then the line with the `}` if the block reached one.
pub open spec fn block_text(ls: Seq<Seq<char>>, i: int, extend: int) -> Seq<char>
    decreases ls.len() - i,
{
    if 0 <= i < ls.len() && !has_char(ls[i], '}') && extend < MAX_TYPEDEF_BLOCK_LINES {
        ls[i] + seq![' '] + block_text(ls, i + 1, extend + 1)
    } else if 0 <= i < ls.len() && has_char(ls[i], '}') {
        ls[i]
    } else {
        seq![]
    }
}

pub proof fn lemma_block_end(ls: Seq<Seq<char>>, i: int, extend: int)
    requires
        0 <= i,
    ensures
        i <= block_end(ls, i, extend),
        i <= ls.len() ==> block_end(ls, i, extend) <= ls.len(),
    decreases ls.len() - i,
{
    if 0 <= i < ls.len() && !has_char(ls[i], '}') && extend < MAX_TYPEDEF_BLOCK_LINES {
        lemma_block_end(ls, i + 1, extend + 1);
    }
}

/// Whether a (trimmed) line is read as a function declaration.
pub open spec fn is_function_decl(line: Seq<char>) -> bool {
    &&& !starts_with(line, "typedef"@)
    &&& !starts_with(line, "struct"@)
    &&& !starts_with(line, "enum"@)
    &&& !starts_with(line, "//"@)
    &&& !starts_with(line, "#"@)
    &&& has_char(line, '(')
    &&& ends_char(line, ';')
}

pub open spec fn opens_enum(line: Seq<char>) -> bool {
    starts_with(line, "typedef"@) && has_sub(line, "enum"@) && has_char(line, '{')
}

pub open spec fn opens_struct(line: Seq<char>) -> bool {
    starts_with(line, "typedef"@) && !opens_enum(line) && has_sub(line, "struct"@) && has_char(
        line,
        '{',
    )
}

/// The last line that the step at line `i` consumes.
pub open spec fn step_last(ls: Seq<Seq<char>>, i: int) -> int {
    let line = trim(ls[i]);
    if opens_enum(line) || opens_struct(line) {
        block_end(ls, i, 0)
    } else {
        i
    }
}

/// What the step at line `i` adds to what was found before it.
pub open spec fn step_model(ls: Seq<Seq<char>>, i: int, acc: HeaderModel) -> HeaderModel {
    let line = trim(ls[i]);
    if opens_enum(line) {
        match enum_model(block_text(ls, i, 0)) {
            Some(e) => HeaderModel {
                typedefs: acc.typedefs.push(
                    TypedefModel { name: e.name, target: "enum "@ + e.name },
                ),
                structs: acc.structs,
                enums: acc.enums.push(e),
                functions: acc.functions,
            },
            None => acc,
        }
    } else if opens_struct(line) {
        match struct_model(block_text(ls, i, 0)) {
            Some(s) => HeaderModel {
                typedefs: acc.typedefs.push(
                    TypedefModel { name: s.name, target: "struct "@ + s.name },
                ),
                structs: acc.structs.push(s),
                enums: acc.enums,
                functions: acc.functions,
            },
            None => acc,
        }
    } else if starts_with(line, "typedef"@) && ends_char(line, ';') {
        match typedef_line_model(line) {
            Some((target, name)) => HeaderModel {
                typedefs: acc.typedefs.push(TypedefModel { name, target }),
                structs: acc.structs,
                enums: acc.enums,
                functions: acc.functions,
            },
            None => acc,
        }
    } else if is_function_decl(line) {
        match function_model(line) {
            Some(f) => HeaderModel {
                typedefs: acc.typedefs,
                structs: acc.structs,
                enums: acc.enums,
                functions: acc.functions.push(f),
            },
            None => acc,
        }
    } else {
        acc
    }
}

/// Whether the step at line `i` stays within the bounds of what it cuts out.
pub open spec fn step_ok(ls: Seq<Seq<char>>, i: int) -> bool {
    let line = trim(ls[i]);
    if opens_enum(line) || opens_struct(line) {
        block_ok(block_text(ls, i, 0))
    } else if starts_with(line, "typedef"@) {
        true
    } else if is_function_decl(line) {
        function_line_ok(line)
    } else {
        true
    }
}

/// The declarations of lines `i..`, after those in `acc`.
pub open spec fn header_from(ls: Seq<Seq<char>>, i: int, acc: HeaderModel) -> HeaderModel
    decreases ls.len() + 1 - i,
{
    if i < 0 || i >= ls.len() {
        acc
    } else {
        proof {
            lemma_block_end(ls, i, 0);
            assert(step_last(ls, i) >= i);
        }
        header_from(ls, step_last(ls, i) + 1, step_model(ls, i, acc))
    }
}

pub open spec fn header_ok_from(ls: Seq<Seq<char>>, i: int) -> bool
    decreases ls.len() + 1 - i,
{
    if i < 0 || i >= ls.len() {
        true
    } else {
        proof {
            lemma_block_end(ls, i, 0);
            assert(step_last(ls, i) >= i);
        }
        step_ok(ls, i) && header_ok_from(ls, step_last(ls, i) + 1)
    }
}

pub open spec fn empty_header() -> HeaderModel {
    HeaderModel { typedefs: seq![], structs: seq![], enums: seq![], functions: seq![] }
}

/// The declarations that the parser finds in a header.
pub open spec fn header_model(content: Seq<char>) -> HeaderModel {
    header_from(lines(content), 0, empty_header())
}

/// Whether the parser can read the header without cutting out of bounds: every
/// block and function declaration has its closing bracket after its opening one.
pub open spec fn header_ok(content: Seq<char>) -> bool {
    header_ok_from(lines(content), 0)
}

fn collect_block(ls: &Vec<Vec<char>>, i: usize) -> (r: (Vec<char>, usize))
    requires
        i < ls@.len(),
    ensures
        r.0@ == block_text(seqs(ls@), i as int, 0),
        r.1 == block_end(seqs(ls@), i as int, 0),
        i <= r.1 <= ls@.len(),
{
    let ghost l = seqs(ls@);
    let n = ls.len();
    let mut text: Vec<char> = Vec::new();
    let mut k = i;
    let mut extend: usize = 0;
    while k < n && !contains_char(ls[k].as_slice(), '}') && extend < MAX_TYPEDEF_BLOCK_LINES
        invariant
            n == ls@.len(),
            l == seqs(ls@),
            i <= k <= n,
            extend <= MAX_TYPEDEF_BLOCK_LINES,
            text@ + block_text(l, k as int, extend as int) == block_text(l, i as int, 0),
            block_end(l, k as int, extend as int) == block_end(l, i as int, 0),
        decreases n - k,
    {
        let ghost t0 = text@;
        let mut line = copy_range(ls[k].as_slice(), 0, ls[k].len());
        assert(ls@[k as int]@.subrange(0, ls@[k as int]@.len() as int) =~= l[k as int]);
        text.append(&mut line);
        text.push(' ');
        assert(text@ + block_text(l, k + 1, extend + 1) =~= t0 + block_text(
            l,
            k as int,
            extend as int,
        ));
        k += 1;
        extend += 1;
    }
    if k < n && contains_char(ls[k].as_slice(), '}') {
        let ghost t0 = text@;
        let mut line = copy_range(ls[k].as_slice(), 0, ls[k].len());
        assert(ls@[k as int]@.subrange(0, ls@[k as int]@.len() as int) =~= l[k as int]);
        text.append(&mut line);
        assert(text@ =~= t0 + block_text(l, k as int, extend as int));
    } else {
        assert(text@ =~= text@ + block_text(l, k as int, extend as int));
    }
    proof {
        lemma_block_end(l, k as int, extend as int);
    }
    (text, k)
}

/// Parses a header; `None` where a block or declaration would be cut out of bounds.
pub fn parse_header_checked(content: &[char]) -> (r: Option<ParsedHeader>)
    ensures
        r is Some <==> header_ok(content@),
        r matches Some(h) ==> h@ == header_model(content@),
{
    let ls = split_lines(content);
    let ghost l = seqs(ls@);
    let n = ls.len();
    let mut acc = ParsedHeader {
        typedefs: Vec::new(),
        structs: Vec::new(),
        enums: Vec::new(),
        functions: Vec::new(),
    };
    assert(acc@ =~= empty_header());
    let mut i: usize = 0;
    while i < n
        invariant
            n == ls@.len(),
            l == seqs(ls@),
            l == lines(content@),
            i <= n,
            header_from(l, i as int, acc@) == header_model(content@),
            header_ok(content@) <==> header_ok_from(l, i as int),
        decreases n - i,
    {
        let ghost acc0 = acc@;
        proof {
            lemma_block_end(l, i as int, 0);
        }
        let line = trim_chars(ls[i].as_slice());
        assert(line@ == trim(l[i as int]));
        let mut last = i;
        if starts_with_str(line.as_slice(), "typedef") {
            let is_enum = contains_str(line.as_slice(), "enum") && contains_char(
                line.as_slice(),
                '{',
            );
            let is_struct = !is_enum && contains_str(line.as_slice(), "struct") && contains_char(
                line.as_slice(),
                '{',
            );
            if is_enum || is_struct {
                let (text, k) = collect_block(&ls, i);
                if !block_check(text.as_slice()) {
                    return None;
                }
                if is_enum {
                    match parse_typedef_enum_chars(text.as_slice()) {
                        Some(e) => {
                            let mut target = String::from_str("enum ");
                            push_str(&mut target, e.name.as_str());
                            acc.typedefs.push(TypedefDef { name: e.name.clone(), target });
                            acc.enums.push(e);
                        },
                        None => {},
                    }
                } else {
                    match parse_typedef_struct_chars(text.as_slice()) {
                        Some(sd) => {
                            let mut target = String::from_str("struct ");
                            push_str(&mut target, sd.name.as_str());
                            acc.typedefs.push(TypedefDef { name: sd.name.clone(), target });
                            acc.structs.push(sd);
                        },
                        None => {},
                    }
                }
                last = k;
            } else if line.len() > 0 && line[line.len() - 1] == ';' {
                match parse_typedef_chars(line.as_slice()) {
                    Some((target, name)) => {
                        acc.typedefs.push(TypedefDef { name, target });
                    },
                    None => {},
                }
            }
        } else if !starts_with_str(line.as_slice(), "struct") && !starts_with_str(
            line.as_slice(),
            "enum",
        ) && !starts_with_str(line.as_slice(), "//") && !starts_with_str(line.as_slice(), "#")
            && contains_char(line.as_slice(), '(') && line.len() > 0 && line[line.len() - 1]
            == ';' {
            if !function_line_check(line.as_slice()) {
                return None;
            }
            match parse_function_chars(line.as_slice()) {
                Some(f) => {
                    acc.functions.push(f);
                },
                None => {},
            }
        }
        assert(acc@ =~= step_model(l, i as int, acc0));
        assert(last == step_last(l, i as int));
        proof {
            assert(step_ok(l, i as int));
            assert(header_from(l, i as int, acc0) == header_from(l, last + 1, acc@));
            assert(header_ok_from(l, i as int) == header_ok_from(l, last + 1));
            if last == n {
                assert(header_from(l, last + 1, acc@) == header_from(l, n as int, acc@));
                assert(header_ok_from(l, last + 1) == header_ok_from(l, n as int));
            }
        }
        i = if last < n {
            last + 1
        } else {
            n
        };
    }
    Some(acc)
}

/// Parses a header into its typedefs, struct and enum blocks and function
/// declarations.
pub fn parse_c_header(content: &str) -> (r: ParsedHeader)
    requires
        header_ok(content@),
    ensures
        r@ == header_model(content@),
{
    let c = to_chars(content);
    match parse_header_checked(c.as_slice()) {
        Some(h) => h,
        None => {
            assert(false);
            ParsedHeader {
                typedefs: Vec::new(),
                structs: Vec::new(),
                enums: Vec::new(),
                functions: Vec::new(),
            }
        },
    }
}

/// Whether `parse_c_header` can read `content` (see `header_ok`).
pub fn header_is_parsable(content: &str) -> (b: bool)
    ensures
        b == header_ok(content@),
{
    let c = to_chars(content);
    parse_header_checked(c.as_slice()).is_some()
}


// ---------------------------------------------------------------------------
// Laws
// ---------------------------------------------------------------------------

/// A preprocessor line (`#...`) or a comment line (`//...`) adds no declaration
/// and is read on its own.
pub proof fn law_directives_are_ignored(ls: Seq<Seq<char>>, i: int, acc: HeaderModel)
    requires
        0 <= i < ls.len(),
        starts_with(trim(ls[i]), "#"@) || starts_with(trim(ls[i]), "//"@),
    ensures
        step_model(ls, i, acc) == acc,
        step_last(ls, i) == i,
{
    reveal_strlit("#");
    reveal_strlit("//");
    reveal_strlit("typedef");
    let line = trim(ls[i]);
    if starts_with(line, "#"@) {
        assert(line.subrange(0, 1)[0] == "#"@[0]);
    } else {
        assert(line.subrange(0, 2)[0] == "//"@[0]);
    }
    assert(line[0] == '#' || line[0] == '/');
    assert(!starts_with(line, "typedef"@)) by {
        if starts_with(line, "typedef"@) {
            assert(line.subrange(0, 7)[0] == 't');
        }
    }
}

/// The typedef that a `typedef struct` block adds for its name.
pub open spec fn struct_alias(name: Seq<char>) -> TypedefModel {
    TypedefModel { name, target: "struct "@ + name }
}

/// The typedef that a `typedef enum` block adds for its name.
pub open spec fn enum_alias(name: Seq<char>) -> TypedefModel {
    TypedefModel { name, target: "enum "@ + name }
}

/// Each `typedef struct` or `typedef enum` block that the parser reads comes with
/// a typedef of its name for `struct NAME` or `enum NAME`.
pub open spec fn blocks_have_aliases(h: HeaderModel) -> bool {
    &&& forall|j: int|
        0 <= j < h.structs.len() ==> #[trigger] h.typedefs.contains(struct_alias(h.structs[j].name))
    &&& forall|j: int|
        0 <= j < h.enums.len() ==> #[trigger] h.typedefs.contains(enum_alias(h.enums[j].name))
}

proof fn lemma_step_keeps_aliases(ls: Seq<Seq<char>>, i: int, acc: HeaderModel)
    requires
        0 <= i < ls.len(),
        blocks_have_aliases(acc),
    ensures
        blocks_have_aliases(step_model(ls, i, acc)),
{
    let h = step_model(ls, i, acc);
    let line = trim(ls[i]);
    let prefix = h.typedefs.len() >= acc.typedefs.len() && forall|k: int|
        0 <= k < acc.typedefs.len() ==> h.typedefs[k] == acc.typedefs[k];
    let structs_ok = h.structs == acc.structs || (h.structs.len() == acc.structs.len() + 1
        && h.structs.drop_last() == acc.structs && h.typedefs.len() > 0 && h.typedefs.last() == (
    TypedefModel { name: h.structs.last().name, target: "struct "@ + h.structs.last().name }));
    let enums_ok = h.enums == acc.enums || (h.enums.len() == acc.enums.len() + 1
        && h.enums.drop_last() == acc.enums && h.typedefs.len() > 0 && h.typedefs.last() == (
    TypedefModel { name: h.enums.last().name, target: "enum "@ + h.enums.last().name }));
    if opens_enum(line) {
        match enum_model(block_text(ls, i, 0)) {
            Some(e) => {
                assert(h.enums.drop_last() =~= acc.enums);
            },
            None => {},
        }
    } else if opens_struct(line) {
        match struct_model(block_text(ls, i, 0)) {
            Some(st) => {
                assert(h.structs.drop_last() =~= acc.structs);
            },
            None => {},
        }
    }
    assert(prefix);
    assert(structs_ok);
    assert(enums_ok);
    assert forall|j: int| 0 <= j < h.structs.len() implies #[trigger] h.typedefs.contains(
        struct_alias(h.structs[j].name),
    ) by {
        if j < acc.structs.len() {
            if h.structs != acc.structs {
                assert(h.structs[j] == h.structs.drop_last()[j]);
            }
            assert(h.structs[j] == acc.structs[j]);
            assert(acc.typedefs.contains(struct_alias(acc.structs[j].name)));
            let k = choose|k: int|
                0 <= k < acc.typedefs.len() && acc.typedefs[k] == struct_alias(acc.structs[j].name);
            assert(h.typedefs[k] == acc.typedefs[k]);
        } else {
            assert(h.typedefs[h.typedefs.len() - 1] == struct_alias(h.structs[j].name));
        }
    }
    assert forall|j: int| 0 <= j < h.enums.len() implies #[trigger] h.typedefs.contains(
        enum_alias(h.enums[j].name),
    ) by {
        if j < acc.enums.len() {
            if h.enums != acc.enums {
                assert(h.enums[j] == h.enums.drop_last()[j]);
            }
            assert(h.enums[j] == acc.enums[j]);
            assert(acc.typedefs.contains(enum_alias(acc.enums[j].name)));
            let k = choose|k: int|
                0 <= k < acc.typedefs.len() && acc.typedefs[k] == enum_alias(acc.enums[j].name);
            assert(h.typedefs[k] == acc.typedefs[k]);
        } else {
            assert(h.typedefs[h.typedefs.len() - 1] == enum_alias(h.enums[j].name));
        }
    }
    assert(blocks_have_aliases(h));
}

proof fn lemma_header_from_keeps_aliases(ls: Seq<Seq<char>>, i: int, acc: HeaderModel)
    requires
        blocks_have_aliases(acc),
    ensures
        blocks_have_aliases(header_from(ls, i, acc)),
    decreases ls.len() + 1 - i,
{
    if 0 <= i < ls.len() {
        lemma_block_end(ls, i, 0);
        lemma_step_keeps_aliases(ls, i, acc);
        lemma_header_from_keeps_aliases(ls, step_last(ls, i) + 1, step_model(ls, i, acc));
    }
}

/// In every parsed header, each struct and enum read from a block has the
/// typedef of its name beside it.
pub proof fn law_blocks_have_aliases(content: Seq<char>)
    ensures
        blocks_have_aliases(header_model(content)),
{
    lemma_header_from_keeps_aliases(lines(content), 0, empty_header());
}

/// Whether a line has its brackets in order: the first `(` before the last `)`,
/// and the first `{` before the last `}`, wherever it has both.
pub open spec fn brackets_in_order(l: Seq<char>) -> bool {
    &&& match (find(l, '('), rfind(l, ')')) {
        (Some(a), Some(b)) => a < b,
        _ => true,
    }
    &&& match (find(l, '{'), rfind(l, '}')) {
        (Some(a), Some(b)) => a < b,
        _ => true,
    }
}

/// A function declaration line reads within its bounds when the line has its
/// brackets in order.
proof fn lemma_function_line_ok(raw: Seq<char>)
    requires
        brackets_in_order(raw),
    ensures
        function_line_ok(trim(raw)),
{
    let line = trim(raw);
    let (a1, b1) = lemma_trim_span(raw);
    if line.len() > 0 && line.last() == ';' {
        let d = line.drop_last();
        let (a2, b2) = lemma_trim_span(d);
        let a = a1 + a2;
        let b = a1 + b2;
        assert(decl_body(line) =~= raw.subrange(a, b));
        assert forall|k: int| 0 <= k < a || b <= k < raw.len() implies !(#[trigger] raw[k] == '('
            || raw[k] == ')') by {
            if a1 <= k < a {
                assert(d[k - a1] == raw[k]);
                assert(is_ws(d[k - a1]));
            } else if b <= k < b1 - 1 {
                assert(d[k - a1] == raw[k]);
                assert(is_ws(d[k - a1]));
            } else if k == b1 - 1 {
                assert(raw[k] == line.last());
            } else {
                assert(is_ws(raw[k]));
            }
        }
        lemma_find_in_span(raw, '(', a, b);
        lemma_find_in_span(raw, ')', a, b);
    }
}

/// A block that opens on a line whose brackets are in order is cut out within
/// its bounds.
proof fn lemma_block_ok(ls: Seq<Seq<char>>, i: int)
    requires
        0 <= i < ls.len(),
        brackets_in_order(ls[i]),
        has_char(ls[i], '{'),
    ensures
        block_ok(block_text(ls, i, 0)),
{
    let text = block_text(ls, i, 0);
    let raw = ls[i];
    let (a, b) = lemma_trim_span(text);
    assert forall|k: int| 0 <= k < a || b <= k < text.len() implies !(#[trigger] text[k] == '{'
        || text[k] == '}') by {
        assert(is_ws(text[k]));
    }
    lemma_find_in_span(text, '{', a, b);
    lemma_find_in_span(text, '}', a, b);
    lemma_find_from(text, '{', 0);
    lemma_rfind_before(text, '}', text.len() as int);
    if !has_char(raw, '}') {
        assert(text == raw + seq![' '] + block_text(ls, i + 1, 1));
        let q = choose|q: int| 0 <= q < raw.len() && raw[q] == '{';
        assert(text[q] == '{');
        match rfind(text, '}') {
            Some(e) => {
                if e < raw.len() {
                    assert(raw[e] == text[e]);
                }
                assert(e != raw.len());
            },
            None => {},
        }
    }
}

proof fn lemma_ok_from(ls: Seq<Seq<char>>, i: int)
    requires
        forall|j: int| 0 <= j < ls.len() ==> brackets_in_order(#[trigger] ls[j]),
    ensures
        header_ok_from(ls, i),
    decreases ls.len() + 1 - i,
{
    if 0 <= i < ls.len() {
        lemma_block_end(ls, i, 0);
        let line = trim(ls[i]);
        if opens_enum(line) || opens_struct(line) {
            let (a, b) = lemma_trim_span(ls[i]);
            let q = choose|q: int| 0 <= q < line.len() && line[q] == '{';
            assert(ls[i][a + q] == '{');
            lemma_block_ok(ls, i);
        } else if is_function_decl(line) {
            lemma_function_line_ok(ls[i]);
        }
        lemma_ok_from(ls, step_last(ls, i) + 1);
    }
}

/// A header whose every line has its brackets in order is read without cutting
/// out of bounds: the parser's precondition holds.
pub proof fn law_ordered_brackets_are_parsable(content: Seq<char>)
    requires
        forall|j: int|
            0 <= j < lines(content).len() ==> brackets_in_order(#[trigger] lines(content)[j]),
    ensures
        header_ok(content),
{
    lemma_ok_from(lines(content), 0);
}

/// The function that line `j` declares, read on its own.
pub open spec fn line_function(line: Seq<char>) -> Option<FunctionModel> {
    if is_function_decl(trim(line)) {
        function_model(trim(line))
    } else {
        None
    }
}

/// The functions that lines `i..` declare, each line read on its own, in order.
pub open spec fn declared_functions(ls: Seq<Seq<char>>, i: int) -> Seq<FunctionModel>
    decreases ls.len() - i,
{
    if i < 0 || i >= ls.len() {
        seq![]
    } else {
        match line_function(ls[i]) {
            Some(f) => seq![f] + declared_functions(ls, i + 1),
            None => declared_functions(ls, i + 1),
        }
    }
}

/// Whether a line opens a `typedef struct` or `typedef enum` block.
pub open spec fn opens_block(line: Seq<char>) -> bool {
    opens_enum(trim(line)) || opens_struct(trim(line))
}

proof fn lemma_function_step(ls: Seq<Seq<char>>, i: int, acc: HeaderModel)
    requires
        0 <= i < ls.len(),
        !opens_block(ls[i]),
    ensures
        step_last(ls, i) == i,
        step_model(ls, i, acc).functions == match line_function(ls[i]) {
            Some(f) => acc.functions.push(f),
            None => acc.functions,
        },
{
    reveal_strlit("typedef");
}

proof fn lemma_functions_without_blocks(ls: Seq<Seq<char>>, i: int, acc: HeaderModel)
    requires
        0 <= i,
        forall|j: int| i <= j < ls.len() ==> !opens_block(#[trigger] ls[j]),
    ensures
        header_from(ls, i, acc).functions == acc.functions + declared_functions(ls, i),
    decreases ls.len() + 1 - i,
{
    if i < ls.len() {
        lemma_function_step(ls, i, acc);
        let next = step_model(ls, i, acc);
        lemma_functions_without_blocks(ls, i + 1, next);
        match line_function(ls[i]) {
            Some(f) => {
                assert(acc.functions.push(f) + declared_functions(ls, i + 1) =~= acc.functions + (
                seq![f] + declared_functions(ls, i + 1)));
            },
            None => {},
        }
    } else {
        assert(acc.functions + declared_functions(ls, i) =~= acc.functions);
    }
}

proof fn lemma_functions_from_lines(ls: Seq<Seq<char>>, i: int, acc: HeaderModel)
    requires
        0 <= i,
    ensures
        forall|f: FunctionModel|
            #[trigger] header_from(ls, i, acc).functions.contains(f) ==> acc.functions.contains(f)
                || exists|j: int| i <= j < ls.len() && line_function(ls[j]) == Some(f),
    decreases ls.len() + 1 - i,
{
    if i < ls.len() {
        reveal_strlit("typedef");
        lemma_block_end(ls, i, 0);
        let next = step_model(ls, i, acc);
        let k = step_last(ls, i) + 1;
        lemma_functions_from_lines(ls, k, next);
        assert forall|f: FunctionModel|
            #[trigger] header_from(ls, i, acc).functions.contains(f) implies acc.functions.contains(
            f) || exists|j: int| i <= j < ls.len() && line_function(ls[j]) == Some(f) by {
            assert(header_from(ls, i, acc) == header_from(ls, k, next));
            if next.functions.contains(f) && !acc.functions.contains(f) {
                let line = trim(ls[i]);
                if next.functions != acc.functions {
                    assert(next.functions == acc.functions.push(function_model(line).unwrap()));
                    let x = choose|x: int| 0 <= x < next.functions.len() && next.functions[x] == f;
                    if x < acc.functions.len() {
                        assert(acc.functions[x] == f);
                    }
                    assert(line_function(ls[i]) == Some(f));
                }
            }
        }
    }
}

/// The functions of a header come from its function declaration lines, each
/// read on its own: every function is what one such line declares, and where
/// no line opens a `typedef` block, they are exactly the functions of those
/// lines, in order.
pub proof fn law_functions_are_declaration_lines(content: Seq<char>)
    ensures
        forall|f: FunctionModel|
            #[trigger] header_model(content).functions.contains(f) ==> exists|j: int|
                0 <= j < lines(content).len() && line_function(lines(content)[j]) == Some(f),
        (forall|j: int|
            0 <= j < lines(content).len() ==> !opens_block(#[trigger] lines(content)[j]))
            ==> header_model(content).functions == declared_functions(lines(content), 0),
{
    let ls = lines(content);
    lemma_functions_from_lines(ls, 0, empty_header());
    if forall|j: int| 0 <= j < ls.len() ==> !opens_block(#[trigger] ls[j]) {
        lemma_functions_without_blocks(ls, 0, empty_header());
        assert(empty_header().functions + declared_functions(ls, 0) =~= declared_functions(ls, 0));
    }
}

/// The functions that the lines read on their own from line `i` on declare, in
/// order: a `typedef` block is read as a whole, so the lines inside it declare
/// none.
pub open spec fn top_level_functions(ls: Seq<Seq<char>>, i: int) -> Seq<FunctionModel>
    decreases ls.len() + 1 - i,
{
    if i < 0 || i >= ls.len() {
        seq![]
    } else {
        proof {
            lemma_block_end(ls, i, 0);
        }
        let here = if opens_block(ls[i]) {
            Seq::<FunctionModel>::empty()
        } else {
            match line_function(ls[i]) {
                Some(f) => seq![f],
                None => Seq::<FunctionModel>::empty(),
            }
        };
        here + top_level_functions(ls, step_last(ls, i) + 1)
    }
}

proof fn lemma_top_level_functions(ls: Seq<Seq<char>>, i: int, acc: HeaderModel)
    requires
        0 <= i,
    ensures
        header_from(ls, i, acc).functions == acc.functions + top_level_functions(ls, i),
        i <= ls.len() ==> top_level_functions(ls, i).len() <= ls.len() - i,
    decreases ls.len() + 1 - i,
{
    if i < ls.len() {
        reveal_strlit("typedef");
        lemma_block_end(ls, i, 0);
        let next = step_model(ls, i, acc);
        let k = step_last(ls, i) + 1;
        lemma_top_level_functions(ls, k, next);
        if !opens_block(ls[i]) {
            lemma_function_step(ls, i, acc);
        }
        let here = if opens_block(ls[i]) {
            Seq::<FunctionModel>::empty()
        } else {
            match line_function(ls[i]) {
                Some(f) => seq![f],
                None => Seq::<FunctionModel>::empty(),
            }
        };
        assert(next.functions == acc.functions + here);
        assert(acc.functions + here + top_level_functions(ls, k) =~= acc.functions + (here
            + top_level_functions(ls, k)));
    } else {
        assert(acc.functions + top_level_functions(ls, i) =~= acc.functions);
    }
}

/// The functions of a header are exactly those declared by the lines read on
/// their own (not inside a `typedef` block), in the order of the lines, so
/// there are no more functions than lines.
pub proof fn law_functions_in_header_order(content: Seq<char>)
    ensures
        header_model(content).functions == top_level_functions(lines(content), 0),
        header_model(content).functions.len() <= lines(content).len(),
{
    lemma_top_level_functions(lines(content), 0, empty_header());
    assert(empty_header().functions + top_level_functions(lines(content), 0) =~= top_level_functions(
        lines(content),
        0,
    ));
}

proof fn lemma_typedef_count(ls: Seq<Seq<char>>, i: int, acc: HeaderModel)
    requires
        0 <= i,
        acc.typedefs.len() >= acc.structs.len() + acc.enums.len(),
    ensures
        header_from(ls, i, acc).typedefs.len() >= header_from(ls, i, acc).structs.len()
            + header_from(ls, i, acc).enums.len(),
    decreases ls.len() + 1 - i,
{
    if i < ls.len() {
        lemma_block_end(ls, i, 0);
        lemma_typedef_count(ls, step_last(ls, i) + 1, step_model(ls, i, acc));
    }
}

/// A header has at least as many typedefs as structs and enums together: each
/// `typedef struct` or `typedef enum` block also gives a typedef of its name.
pub proof fn law_typedefs_cover_blocks(content: Seq<char>)
    ensures
        header_model(content).typedefs.len() >= header_model(content).structs.len()
            + header_model(content).enums.len(),
{
    lemma_typedef_count(lines(content), 0, empty_header());
}

/// A line that ends with `;` and holds a `(`, and does not begin with
/// `typedef`, `struct`, `enum`, `//` or `#`, is read as a function declaration,
/// whatever else it begins with (a `const` return type, a storage class):
/// where it has its parentheses, the function it declares is added after
/// those found before it, and nothing else changes; the line is read on its own.
pub proof fn law_declaration_lines_are_read(ls: Seq<Seq<char>>, i: int, acc: HeaderModel)
    requires
        0 <= i < ls.len(),
        ends_char(trim(ls[i]), ';'),
        has_char(trim(ls[i]), '('),
        !starts_with(trim(ls[i]), "typedef"@),
        !starts_with(trim(ls[i]), "struct"@),
        !starts_with(trim(ls[i]), "enum"@),
        !starts_with(trim(ls[i]), "//"@),
        !starts_with(trim(ls[i]), "#"@),
    ensures
        step_last(ls, i) == i,
        step_model(ls, i, acc) == match function_model(trim(ls[i])) {
            Some(f) => HeaderModel {
                typedefs: acc.typedefs,
                structs: acc.structs,
                enums: acc.enums,
                functions: acc.functions.push(f),
            },
            None => acc,
        },
        has_char(trim(ls[i]), ')') ==> function_model(trim(ls[i])) is Some,
{
    let line = trim(ls[i]);
    let l = decl_body(line);
    if has_char(line, ')') {
        // The parentheses survive cutting off the `;` and the outer whitespace.
        let (a1, b1) = lemma_trim_span(line.drop_last());
        assert(l == line.drop_last().subrange(a1, b1));
        let po = choose|k: int| 0 <= k < line.len() && line[k] == '(';
        let pc = choose|k: int| 0 <= k < line.len() && line[k] == ')';
        assert(po < line.len() - 1 && pc < line.len() - 1);
        assert(line.drop_last()[po] == '(' && line.drop_last()[pc] == ')');
        assert(!is_ws('(') && !is_ws(')'));
        assert(a1 <= po < b1 && a1 <= pc < b1);
        assert(l[po - a1] == '(' && l[pc - a1] == ')');
        lemma_find_from(l, '(', 0);
        lemma_rfind_before(l, ')', l.len() as int);
    }
}

proof fn lemma_run_end(s: Seq<char>, c: char, i: int)
    requires
        0 <= i <= s.len(),
    ensures
        i <= run_end(s, c, i) <= s.len(),
        forall|j: int| i <= j < run_end(s, c, i) ==> s[j] == c,
        run_end(s, c, i) < s.len() ==> s[run_end(s, c, i)] != c,
    decreases s.len() - i,
{
    if i < s.len() && s[i] == c {
        lemma_run_end(s, c, i + 1);
    }
}

/// The name of a parameter never begins with `*`: a run of `*` glued to the
/// name moves, whole, to the type.
pub proof fn law_param_names_hold_no_leading_star(p: Seq<char>)
    ensures
        param_model(p) matches Some(pair) ==> pair.1.len() == 0 || pair.1[0] != '*',
{
    let q = trim(p);
    match rsplit_space(q) {
        Some((typ, name)) => {
            if name.len() > 0 && name[0] == '*' {
                lemma_run_end(name, '*', 0);
            }
        },
        None => {},
    }
}

/// A parameter written `T *..*n` with the stars glued to its name `n` has the
/// name `n` and the type `T` followed by a space and the whole run of stars:
/// `char **argv` is `("char **", "argv")`.
pub proof fn law_starred_parameters(p: Seq<char>, typ: Seq<char>, stars: Seq<char>, name: Seq<char>)
    requires
        trim(p) == typ + seq![' '] + stars + name,
        stars.len() >= 1,
        forall|i: int| 0 <= i < stars.len() ==> #[trigger] stars[i] == '*',
        name.len() == 0 || name[0] != '*',
        !has_char(name, ' '),
    ensures
        param_model(p) == Some((typ + " "@ + stars, name)),
{
    reveal_strlit(" ");
    let q = trim(p);
    let k = typ.len() as int;
    let nm = stars + name;
    assert(q =~= typ + seq![' '] + nm);
    assert(q[k] == ' ');
    assert forall|i: int| k < i < q.len() implies q[i] != ' ' by {
        assert(q[i] == nm[i - k - 1]);
        if i - k - 1 >= stars.len() {
            assert(nm[i - k - 1] == name[i - k - 1 - stars.len()]);
        }
    }
    lemma_rfind_before(q, ' ', q.len() as int);
    assert(rfind(q, ' ') == Some(k));
    assert(q.subrange(0, k) =~= typ);
    assert(q.subrange(k + 1, q.len() as int) =~= nm);
    lemma_run_end(nm, '*', 0);
    let e = run_end(nm, '*', 0);
    if e < stars.len() {
        assert(nm[e] == stars[e]);
    }
    if e > stars.len() {
        assert(nm[stars.len() as int] == '*');
        assert(nm[stars.len() as int] == name[0]);
    }
    assert(e == stars.len());
    assert(nm.subrange(0, e) =~= stars);
    assert(nm.subrange(e, nm.len() as int) =~= name);
    assert(seq![' '] =~= " "@);
}

} // verus!
