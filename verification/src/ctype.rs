//! Mapping of C type spellings to the Rust FFI types that stand for them.
use vstd::prelude::*;

use crate::text::{
    copy_range, eq_str, is_ws, lemma_trim_idempotent, lemma_trim_len, starts_with,
    starts_with_str, string_of, to_chars, trim, trim_chars, trim_start,
};

verus! {

/// The C type names that map to a fixed Rust type, with that type, in the order
/// in which they are tried.
pub open spec fn named_types() -> Seq<(Seq<char>, Seq<char>)> {
    seq![
        ("void"@, "()"@),
        ("int"@, "c_int"@),
        ("unsigned int"@, "c_uint"@),
        ("uint"@, "c_uint"@),
        ("long"@, "c_long"@),
        ("unsigned long"@, "c_ulong"@),
        ("ulong"@, "c_ulong"@),
        ("long long"@, "c_longlong"@),
        ("unsigned long long"@, "c_ulonglong"@),
        ("short"@, "c_short"@),
        ("unsigned short"@, "c_ushort"@),
        ("ushort"@, "c_ushort"@),
        ("char"@, "c_char"@),
        ("unsigned char"@, "c_uchar"@),
        ("uchar"@, "c_uchar"@),
        ("signed char"@, "c_schar"@),
        ("float"@, "c_float"@),
        ("double"@, "c_double"@),
        ("size_t"@, "usize"@),
        ("ssize_t"@, "isize"@),
        ("bool"@, "bool"@),
        ("_Bool"@, "bool"@),
        ("uint8_t"@, "u8"@),
        ("uint16_t"@, "u16"@),
        ("uint32_t"@, "u32"@),
        ("uint64_t"@, "u64"@),
        ("int8_t"@, "i8"@),
        ("int16_t"@, "i16"@),
        ("int32_t"@, "i32"@),
        ("int64_t"@, "i64"@),
    ]
}

/// The value of the first entry whose key is `t`.
pub open spec fn lookup(table: Seq<(Seq<char>, Seq<char>)>, t: Seq<char>) -> Option<Seq<char>>
    decreases table.len(),
{
    if table.len() == 0 {
        None
    } else if table[0].0 == t {
        Some(table[0].1)
    } else {
        lookup(table.drop_first(), t)
    }
}

/// The Rust type for a C type spelling, as the binding generator writes it:
/// a fixed name from `named_types`, a pointer (`*mut`, or `*const` for a
/// `const` pointee; `c_void` for `void`), a `const` qualifier dropped, or else
/// the (trimmed) spelling itself.
pub open spec fn rust_type(c: Seq<char>) -> Seq<char>
    decreases c.len(),
{
    let t = trim(c);
    match lookup(named_types(), t) {
        Some(r) => r,
        None => {
            if t.len() > 0 && t.last() == '*' {
                let inner = trim(t.drop_last());
                proof {
                    lemma_trim_len(c);
                    lemma_trim_len(t.drop_last());
                    reveal_strlit("const ");
                }
                if inner == "void"@ {
                    "*mut c_void"@
                } else if inner == "const void"@ {
                    "*const c_void"@
                } else if starts_with(inner, "const "@) {
                    "*const "@ + rust_type(inner.subrange(6, inner.len() as int))
                } else {
                    "*mut "@ + rust_type(inner)
                }
            } else if starts_with(t, "const "@) {
                proof {
                    lemma_trim_len(c);
                    reveal_strlit("const ");
                }
                rust_type(t.subrange(6, t.len() as int))
            } else {
                t
            }
        },
    }
}

fn named_type_table() -> (r: &'static [(&'static str, &'static str)])
    ensures
        r@.map_values(|p: (&str, &str)| (p.0@, p.1@)) == named_types(),
{
    let r: &'static [(&'static str, &'static str)] = &[
        ("void", "()"),
        ("int", "c_int"),
        ("unsigned int", "c_uint"),
        ("uint", "c_uint"),
        ("long", "c_long"),
        ("unsigned long", "c_ulong"),
        ("ulong", "c_ulong"),
        ("long long", "c_longlong"),
        ("unsigned long long", "c_ulonglong"),
        ("short", "c_short"),
        ("unsigned short", "c_ushort"),
        ("ushort", "c_ushort"),
        ("char", "c_char"),
        ("unsigned char", "c_uchar"),
        ("uchar", "c_uchar"),
        ("signed char", "c_schar"),
        ("float", "c_float"),
        ("double", "c_double"),
        ("size_t", "usize"),
        ("ssize_t", "isize"),
        ("bool", "bool"),
        ("_Bool", "bool"),
        ("uint8_t", "u8"),
        ("uint16_t", "u16"),
        ("uint32_t", "u32"),
        ("uint64_t", "u64"),
        ("int8_t", "i8"),
        ("int16_t", "i16"),
        ("int32_t", "i32"),
        ("int64_t", "i64"),
    ];
    assert(r@.map_values(|p: (&str, &str)| (p.0@, p.1@)) =~= named_types());
    r
}

/// `lookup(named_types(), t)`.
fn lookup_named(t: &[char]) -> (r: Option<Vec<char>>)
    ensures
        r matches Some(v) ==> lookup(named_types(), t@) == Some(v@),
        r is None ==> lookup(named_types(), t@) is None,
{
    let table = named_type_table();
    let ghost tab = table@.map_values(|p: (&str, &str)| (p.0@, p.1@));
    let n = table.len();
    let mut i: usize = 0;
    assert(tab.subrange(0, n as int) =~= tab);
    while i < n
        invariant
            n == table@.len(),
            i <= n,
            tab == table@.map_values(|p: (&str, &str)| (p.0@, p.1@)),
            tab == named_types(),
            lookup(tab, t@) == lookup(tab.subrange(i as int, n as int), t@),
        decreases n - i,
    {
        let entry = table[i];
        assert(tab.subrange(i as int, n as int)[0] == (entry.0@, entry.1@));
        if eq_str(t, entry.0) {
            return Some(to_chars(entry.1));
        }
        assert(tab.subrange(i as int, n as int).drop_first() =~= tab.subrange(i + 1, n as int));
        i += 1;
    }
    None
}

/// The Rust type for a C type, on characters.
pub fn rust_type_chars(c: &[char]) -> (r: Vec<char>)
    ensures
        r@ == rust_type(c@),
    decreases c@.len(),
{
    let t = trim_chars(c);
    proof {
        lemma_trim_len(c@);
    }
    match lookup_named(t.as_slice()) {
        Some(r) => r,
        None => {
            let n = t.len();
            if n > 0 && t[n - 1] == '*' {
                let head = copy_range(t.as_slice(), 0, n - 1);
                assert(head@ =~= t@.drop_last());
                let inner = trim_chars(head.as_slice());
                proof {
                    lemma_trim_len(head@);
                    reveal_strlit("const ");
                }
                if eq_str(inner.as_slice(), "void") {
                    to_chars("*mut c_void")
                } else if eq_str(inner.as_slice(), "const void") {
                    to_chars("*const c_void")
                } else if starts_with_str(inner.as_slice(), "const ") {
                    let rest = copy_range(inner.as_slice(), 6, inner.len());
                    let mut r = to_chars("*const ");
                    let rr = rust_type_chars(rest.as_slice());
                    let ghost r0 = r@;
                    r.extend_from_slice(rr.as_slice());
                    assert(r@ =~= r0 + rr@);
                    r
                } else {
                    let mut r = to_chars("*mut ");
                    let rr = rust_type_chars(inner.as_slice());
                    let ghost r0 = r@;
                    r.extend_from_slice(rr.as_slice());
                    assert(r@ =~= r0 + rr@);
                    r
                }
            } else if starts_with_str(t.as_slice(), "const ") {
                proof {
                    reveal_strlit("const ");
                }
                let rest = copy_range(t.as_slice(), 6, n);
                rust_type_chars(rest.as_slice())
            } else {
                t
            }
        },
    }
}

/// Maps a C type spelling to the Rust type used in the generated bindings.
pub fn c_type_to_rust(c_type: &str) -> (r: String)
    ensures
        r@ == rust_type(c_type@),
{
    let c = to_chars(c_type);
    let r = rust_type_chars(c.as_slice());
    string_of(r.as_slice())
}

// ---------------------------------------------------------------------------
// Laws
// ---------------------------------------------------------------------------

/// Whitespace around a C type does not change its Rust type.
pub proof fn law_surrounding_whitespace_is_ignored(c: Seq<char>)
    ensures
        rust_type(c) == rust_type(trim(c)),
{
    lemma_trim_idempotent(c);
}

proof fn lemma_lookup_finds_a_key(table: Seq<(Seq<char>, Seq<char>)>, t: Seq<char>)
    ensures
        lookup(table, t) is Some ==> exists|i: int| 0 <= i < table.len() && table[i].0 == t,
    decreases table.len(),
{
    if table.len() > 0 && table[0].0 != t {
        lemma_lookup_finds_a_key(table.drop_first(), t);
        if lookup(table, t) is Some {
            let i = choose|i: int|
                0 <= i < table.drop_first().len() && table.drop_first()[i].0 == t;
            assert(table[i + 1].0 == t);
        }
    }
}

/// No named C type ends with `*` or begins with `const `, so pointer and
/// `const` spellings never hit the table of named types.
pub proof fn lemma_named_keys(t: Seq<char>)
    requires
        lookup(named_types(), t) is Some,
    ensures
        !(t.len() > 0 && t.last() == '*'),
        !starts_with(t, "const "@),
{
    reveal_strlit("void");
    reveal_strlit("int");
    reveal_strlit("unsigned int");
    reveal_strlit("uint");
    reveal_strlit("long");
    reveal_strlit("unsigned long");
    reveal_strlit("ulong");
    reveal_strlit("long long");
    reveal_strlit("unsigned long long");
    reveal_strlit("short");
    reveal_strlit("unsigned short");
    reveal_strlit("ushort");
    reveal_strlit("char");
    reveal_strlit("unsigned char");
    reveal_strlit("uchar");
    reveal_strlit("signed char");
    reveal_strlit("float");
    reveal_strlit("double");
    reveal_strlit("size_t");
    reveal_strlit("ssize_t");
    reveal_strlit("bool");
    reveal_strlit("_Bool");
    reveal_strlit("uint8_t");
    reveal_strlit("uint16_t");
    reveal_strlit("uint32_t");
    reveal_strlit("uint64_t");
    reveal_strlit("int8_t");
    reveal_strlit("int16_t");
    reveal_strlit("int32_t");
    reveal_strlit("int64_t");
    reveal_strlit("const ");
    lemma_lookup_finds_a_key(named_types(), t);
    let tab = named_types();
    let i = choose|i: int| 0 <= i < tab.len() && tab[i].0 == t;
    assert forall|j: int| 0 <= j < tab.len() implies {
        &&& #[trigger] tab[j].0.len() > 0
        &&& tab[j].0.last() != '*'
        &&& tab[j].0.len() < 6 || tab[j].0[5] != ' ' || tab[j].0[0] != 'c'
    } by {}
    if starts_with(t, "const "@) {
        assert(t.subrange(0, 6)[0] == 'c');
        assert(t.subrange(0, 6)[5] == ' ');
    }
}

/// A pointer type (one whose trimmed spelling ends with `*`) becomes a Rust raw
/// pointer: `*const` for a `const` or `const void` pointee, `*mut` otherwise.
pub proof fn law_pointers_become_raw_pointers(c: Seq<char>)
    requires
        trim(c).len() > 0,
        trim(c).last() == '*',
    ensures
        starts_with(rust_type(c), "*mut "@) || starts_with(rust_type(c), "*const "@),
{
    reveal_strlit("*mut c_void");
    reveal_strlit("*const c_void");
    reveal_strlit("*mut ");
    reveal_strlit("*const ");
    let t = trim(c);
    if lookup(named_types(), t) is Some {
        lemma_named_keys(t);
    }
    let r = rust_type(c);
    let inner = trim(t.drop_last());
    if inner == "void"@ {
        assert(r.subrange(0, 5) =~= "*mut "@);
    } else if inner == "const void"@ {
        assert(r.subrange(0, 7) =~= "*const "@);
    } else if starts_with(inner, "const "@) {
        assert(r.subrange(0, 7) =~= "*const "@);
    } else {
        assert(r.subrange(0, 5) =~= "*mut "@);
    }
}

/// A `const` qualifier in front of a type that is not a pointer is dropped.
pub proof fn law_const_is_dropped(c: Seq<char>)
    requires
        starts_with(trim(c), "const "@),
        !(trim(c).len() > 0 && trim(c).last() == '*'),
    ensures
        rust_type(c) == rust_type(trim(c).subrange(6, trim(c).len() as int)),
{
    let t = trim(c);
    if lookup(named_types(), t) is Some {
        lemma_named_keys(t);
    }
}

/// The table gives the value of the first entry with the key.
proof fn lemma_lookup_first(table: Seq<(Seq<char>, Seq<char>)>, t: Seq<char>, i: int)
    requires
        0 <= i < table.len(),
        table[i].0 == t,
        forall|j: int| 0 <= j < i ==> #[trigger] table[j].0 != t,
    ensures
        lookup(table, t) == Some(table[i].1),
    decreases i,
{
    if i > 0 {
        assert(table[0].0 != t);
        let rest = table.drop_first();
        assert forall|j: int| 0 <= j < i - 1 implies #[trigger] rest[j].0 != t by {
            assert(rest[j] == table[j + 1]);
        }
        lemma_lookup_first(rest, t, i - 1);
    }
}

/// A spelling that neither begins nor ends with whitespace is its own trim.
proof fn lemma_trim_fixed(s: Seq<char>)
    requires
        s.len() > 0,
        !is_ws(s[0]),
        !is_ws(s.last()),
    ensures
        trim(s) == s,
{
    let t = trim_start(s);
    assert(t =~= s);
    assert(trim(s) =~= s);
}

proof fn lemma_named(t: Seq<char>, i: int)
    requires
        0 <= i < named_types().len(),
        named_types()[i].0 == t,
        forall|j: int| 0 <= j < i ==> #[trigger] named_types()[j].0 != t,
        t.len() > 0,
        !is_ws(t[0]),
        !is_ws(t.last()),
    ensures
        rust_type(t) == named_types()[i].1,
{
    lemma_trim_fixed(t);
    lemma_lookup_first(named_types(), t, i);
}

/// Each fixed-width integer type of `stdint.h` becomes the Rust integer of the
/// same width and signedness: `int<N>_t` is `i<N>` and `uint<N>_t` is `u<N>`.
pub proof fn law_fixed_width_integers(bits: Seq<char>)
    requires
        bits == "8"@ || bits == "16"@ || bits == "32"@ || bits == "64"@,
    ensures
        rust_type("int"@ + bits + "_t"@) == "i"@ + bits,
        rust_type("uint"@ + bits + "_t"@) == "u"@ + bits,
{
    reveal_strlit("void");
    reveal_strlit("int");
    reveal_strlit("unsigned int");
    reveal_strlit("uint");
    reveal_strlit("long");
    reveal_strlit("unsigned long");
    reveal_strlit("ulong");
    reveal_strlit("long long");
    reveal_strlit("unsigned long long");
    reveal_strlit("short");
    reveal_strlit("unsigned short");
    reveal_strlit("ushort");
    reveal_strlit("char");
    reveal_strlit("unsigned char");
    reveal_strlit("uchar");
    reveal_strlit("signed char");
    reveal_strlit("float");
    reveal_strlit("double");
    reveal_strlit("size_t");
    reveal_strlit("ssize_t");
    reveal_strlit("bool");
    reveal_strlit("_Bool");
    reveal_strlit("uint8_t");
    reveal_strlit("uint16_t");
    reveal_strlit("uint32_t");
    reveal_strlit("uint64_t");
    reveal_strlit("int8_t");
    reveal_strlit("int16_t");
    reveal_strlit("int32_t");
    reveal_strlit("int64_t");
    reveal_strlit("8");
    reveal_strlit("16");
    reveal_strlit("32");
    reveal_strlit("64");
    reveal_strlit("i8");
    reveal_strlit("i16");
    reveal_strlit("i32");
    reveal_strlit("i64");
    reveal_strlit("u8");
    reveal_strlit("u16");
    reveal_strlit("u32");
    reveal_strlit("u64");
    reveal_strlit("_t");
    reveal_strlit("i");
    reveal_strlit("u");
    let tab = named_types();
    let s = "int"@ + bits + "_t"@;
    let u = "uint"@ + bits + "_t"@;
    let (si, ui): (int, int) = if bits == "8"@ {
        (26, 22)
    } else if bits == "16"@ {
        (27, 23)
    } else if bits == "32"@ {
        (28, 24)
    } else {
        (29, 25)
    };
    assert(tab[si].0 =~= s);
    assert(tab[ui].0 =~= u);
    assert(tab[si].1 =~= "i"@ + bits);
    assert(tab[ui].1 =~= "u"@ + bits);
    assert forall|j: int| 0 <= j < si implies #[trigger] tab[j].0 != s by {
        if tab[j].0 == s {
            assert(tab[j].0.len() == s.len());
            assert(tab[j].0[0] == s[0]);
            assert(tab[j].0[1] == s[1]);
            assert(tab[j].0[2] == s[2]);
            assert(tab[j].0[3] == s[3]);
        }
    }
    assert forall|j: int| 0 <= j < ui implies #[trigger] tab[j].0 != u by {
        if tab[j].0 == u {
            assert(tab[j].0.len() == u.len());
            assert(tab[j].0[0] == u[0]);
            assert(tab[j].0[1] == u[1]);
            assert(tab[j].0[2] == u[2]);
            assert(tab[j].0[3] == u[3]);
            assert(tab[j].0[4] == u[4]);
        }
    }
    lemma_named(s, si);
    lemma_named(u, ui);
}

/// No two entries of the table have the same C spelling.
#[verifier::rlimit(80)]
#[verifier::spinoff_prover]
proof fn lemma_keys_distinct()
    ensures
        forall|x: int, y: int|
            0 <= x < named_types().len() && 0 <= y < named_types().len() && x != y ==> (
            #[trigger] named_types()[x]).0 != (#[trigger] named_types()[y]).0,
{
    reveal_strlit("void");
    reveal_strlit("int");
    reveal_strlit("unsigned int");
    reveal_strlit("uint");
    reveal_strlit("long");
    reveal_strlit("unsigned long");
    reveal_strlit("ulong");
    reveal_strlit("long long");
    reveal_strlit("unsigned long long");
    reveal_strlit("short");
    reveal_strlit("unsigned short");
    reveal_strlit("ushort");
    reveal_strlit("char");
    reveal_strlit("unsigned char");
    reveal_strlit("uchar");
    reveal_strlit("signed char");
    reveal_strlit("float");
    reveal_strlit("double");
    reveal_strlit("size_t");
    reveal_strlit("ssize_t");
    reveal_strlit("bool");
    reveal_strlit("_Bool");
    reveal_strlit("uint8_t");
    reveal_strlit("uint16_t");
    reveal_strlit("uint32_t");
    reveal_strlit("uint64_t");
    reveal_strlit("int8_t");
    reveal_strlit("int16_t");
    reveal_strlit("int32_t");
    reveal_strlit("int64_t");
    let tab = named_types();
    assert forall|x: int, y: int|
        0 <= x < tab.len() && 0 <= y < tab.len() && x != y implies tab[x].0 != tab[y].0 by {
        if tab[x].0 == tab[y].0 {
            assert(tab[x].0.len() == tab[y].0.len());
            if tab[x].0.len() > 0 {
                assert(tab[x].0[0] == tab[y].0[0]);
            }
            if tab[x].0.len() > 1 {
                assert(tab[x].0[1] == tab[y].0[1]);
            }
            if tab[x].0.len() > 2 {
                assert(tab[x].0[2] == tab[y].0[2]);
            }
            if tab[x].0.len() > 3 {
                assert(tab[x].0[3] == tab[y].0[3]);
            }
            if tab[x].0.len() > 4 {
                assert(tab[x].0[4] == tab[y].0[4]);
            }
            if tab[x].0.len() > 5 {
                assert(tab[x].0[5] == tab[y].0[5]);
            }
            if tab[x].0.len() > 6 {
                assert(tab[x].0[6] == tab[y].0[6]);
            }
            if tab[x].0.len() > 7 {
                assert(tab[x].0[7] == tab[y].0[7]);
            }
            if tab[x].0.len() > 8 {
                assert(tab[x].0[8] == tab[y].0[8]);
            }
            if tab[x].0.len() > 9 {
                assert(tab[x].0[9] == tab[y].0[9]);
            }
        }
    }
}

/// Where `t` is the spelling of entry `i` of the table, `rust_type(t)` is that
/// entry's value.
proof fn lemma_named_at(t: Seq<char>, i: int)
    requires
        0 <= i < named_types().len(),
        named_types()[i].0 =~= t,
        t.len() > 0,
        !is_ws(t[0]),
        !is_ws(t.last()),
    ensures
        rust_type(t) == named_types()[i].1,
{
    lemma_keys_distinct();
    assert forall|j: int| 0 <= j < i implies #[trigger] named_types()[j].0 != t by {
        assert(named_types()[j].0 != named_types()[i].0);
    }
    lemma_named(t, i);
}

/// The C base types become the `std::os::raw` types named after them: `T` is
/// `c_T` for `int`, `long`, `short`, `char`, `float` and `double`, and
/// `unsigned T` is `c_uT` for the four integer types; `long long` is
/// `c_longlong`, and `void` is `()`.
pub proof fn law_c_types_map_to_raw_types(base: Seq<char>)
    requires
        base == "int"@ || base == "long"@ || base == "short"@ || base == "char"@ || base
            == "float"@ || base == "double"@,
    ensures
        rust_type(base) == "c_"@ + base,
        base != "float"@ && base != "double"@ ==> rust_type("unsigned "@ + base) == "c_u"@ + base,
        rust_type("long long"@) == "c_longlong"@,
        rust_type("unsigned long long"@) == "c_ulonglong"@,
        rust_type("void"@) == "()"@,
{
    reveal_strlit("void");
    reveal_strlit("int");
    reveal_strlit("unsigned int");
    reveal_strlit("uint");
    reveal_strlit("long");
    reveal_strlit("unsigned long");
    reveal_strlit("ulong");
    reveal_strlit("long long");
    reveal_strlit("unsigned long long");
    reveal_strlit("short");
    reveal_strlit("unsigned short");
    reveal_strlit("ushort");
    reveal_strlit("char");
    reveal_strlit("unsigned char");
    reveal_strlit("uchar");
    reveal_strlit("signed char");
    reveal_strlit("float");
    reveal_strlit("double");
    reveal_strlit("size_t");
    reveal_strlit("ssize_t");
    reveal_strlit("bool");
    reveal_strlit("_Bool");
    reveal_strlit("()");
    reveal_strlit("c_int");
    reveal_strlit("c_uint");
    reveal_strlit("c_ulong");
    reveal_strlit("c_long");
    reveal_strlit("c_ulong");
    reveal_strlit("c_ushort");
    reveal_strlit("c_short");
    reveal_strlit("c_ushort");
    reveal_strlit("c_char");
    reveal_strlit("c_uchar");
    reveal_strlit("c_schar");
    reveal_strlit("c_float");
    reveal_strlit("c_double");
    reveal_strlit("usize");
    reveal_strlit("isize");
    reveal_strlit("bool");
    reveal_strlit("unsigned ");
    reveal_strlit("c_");
    reveal_strlit("c_u");
    reveal_strlit("c_longlong");
    reveal_strlit("c_ulonglong");
    let tab = named_types();
    let (bi, ui): (int, int) = if base == "int"@ {
        (1, 2)
    } else if base == "long"@ {
        (4, 5)
    } else if base == "short"@ {
        (9, 10)
    } else if base == "char"@ {
        (12, 13)
    } else if base == "float"@ {
        (16, 16)
    } else {
        (17, 17)
    };
    assert(tab[bi].1 =~= "c_"@ + base);
    lemma_named_at(base, bi);
    if base != "float"@ && base != "double"@ {
        assert(tab[ui].0 =~= "unsigned "@ + base);
        assert(tab[ui].1 =~= "c_u"@ + base);
        lemma_named_at("unsigned "@ + base, ui);
    }
    lemma_named_at("long long"@, 7);
    lemma_named_at("unsigned long long"@, 8);
    lemma_named_at("void"@, 0);
}

} // verus!
