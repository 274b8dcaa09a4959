//! The standard library's path and case operations that language detection and
//! compilation planning use. Path syntax differs between platforms, so these
//! items promise what holds on every platform: what they give for a portable
//! path, one in which no platform reads a prefix and whose pieces are split at
//! `/`, which both Unix and Windows read as a separator; and, for the
//! extension, also what every platform reads in a native path such as
//! `C:\src\mylib.v`.
use vstd::prelude::*;

use crate::text::{has_char, rfind, rfind_before, starts_with};

verus! {

/// A single file name on every platform: not empty, not `.` or `..`, and free
/// of `/`, `\` and `:`.
pub open spec fn is_plain_name(p: Seq<char>) -> bool {
    &&& p.len() > 0
    &&& p != "."@
    &&& p != ".."@
    &&& !has_char(p, '/')
    &&& !has_char(p, '\\')
    &&& !has_char(p, ':')
}

/// Where the body of a path begins, after a leading root `/` or a leading `.`
/// piece (the current directory), which `Path` keeps as they are.
pub open spec fn body_start(p: Seq<char>) -> int {
    if p.len() > 0 && p[0] == '/' {
        1
    } else if p.len() > 0 && p[0] == '.' && (p.len() == 1 || p[1] == '/') {
        1
    } else {
        0
    }
}

/// The end of `p[..n]` once the separators and `.` pieces at its end are
/// dropped, which `Path` ignores; it never goes back into the root or a
/// leading `.`.
pub open spec fn tail_end(p: Seq<char>, n: int) -> int
    decreases n,
{
    if body_start(p) < n <= p.len() && (p[n - 1] == '/' || (p[n - 1] == '.' && n >= 2 && p[n
        - 2] == '/')) {
        tail_end(p, n - 1)
    } else {
        n
    }
}

/// Where the piece that ends at `e` begins: after the last `/` before `e`.
pub open spec fn piece_start(p: Seq<char>, e: int) -> int {
    match rfind_before(p, '/', e) {
        None => 0,
        Some(k) => k + 1,
    }
}

/// The last component of a path: its last piece once trailing separators and
/// `.` pieces are dropped.
pub open spec fn last_component(p: Seq<char>) -> Seq<char> {
    let e = tail_end(p, p.len() as int);
    p.subrange(piece_start(p, e), e)
}

/// The parent of a path whose last component is a name, as `Path::parent`
/// gives it: the path before that component, without the separators and `.`
/// pieces at its end (the empty path for a lone name, `/` under the root, `.`
/// under a leading `.`).
pub open spec fn parent_of(p: Seq<char>) -> Seq<char> {
    p.subrange(0, tail_end(p, piece_start(p, tail_end(p, p.len() as int))))
}

/// A path that every platform reads alike and that ends in a file name: it
/// holds no `\` and no `:` and does not begin with `//`, so no platform reads a
/// prefix (drive, UNC, verbatim or device) in it, and its last component is a
/// plain name. Repeated `/`, `.` pieces and a trailing `/` are allowed.
pub open spec fn is_portable_path(p: Seq<char>) -> bool {
    &&& !has_char(p, '\\')
    &&& !has_char(p, ':')
    &&& !starts_with(p, "//"@)
    &&& is_plain_name(last_component(p))
}

/// `/` or `\`, a separator on Windows.
pub open spec fn is_slash(c: char) -> bool {
    c == '/' || c == '\\'
}

/// A character after which a file name may begin on some platform: a
/// separator (`/`, and `\` on Windows) or the `:` of a Windows drive.
pub open spec fn is_boundary(c: char) -> bool {
    c == '/' || c == '\\' || c == ':'
}

/// The last index below `n` that holds a boundary character, or `-1`.
pub open spec fn last_boundary(p: Seq<char>, n: int) -> int
    decreases n,
{
    if n <= 0 || n > p.len() {
        -1
    } else if is_boundary(p[n - 1]) {
        n - 1
    } else {
        last_boundary(p, n - 1)
    }
}

/// Whether every platform reads the same extension in `p`, the text after its
/// last `.`: that `.` comes after every `/`, `\` and `:` with at least one
/// character between, so it lies inside the file name on Unix and on Windows
/// alike and does not begin it; the text after the last of those characters
/// is not `..`; and `p` does not begin with two separators, which Windows
/// reads as a UNC, device or verbatim prefix.
pub open spec fn dot_after_boundaries(p: Seq<char>) -> bool {
    match rfind(p, '.') {
        None => false,
        Some(k) => {
            let j = last_boundary(p, p.len() as int);
            &&& k > j + 1
            &&& p.subrange(j + 1, p.len() as int) != ".."@
            &&& !(p.len() >= 2 && is_slash(p[0]) && is_slash(p[1]))
        },
    }
}

/// Whether `Path::extension` gives the same for `p` on every platform: for a
/// portable path, for a path whose last `.` follows every separator and
/// drive colon, and for a path without any `.`.
pub open spec fn extension_settled(p: Seq<char>) -> bool {
    is_portable_path(p) || dot_after_boundaries(p) || !has_char(p, '.')
}

/// The extension that every platform reads in a path where it is settled.
pub open spec fn settled_extension(p: Seq<char>) -> Option<Seq<char>> {
    if is_portable_path(p) {
        extension_of_name(last_component(p))
    } else if dot_after_boundaries(p) {
        Some(p.subrange(rfind(p, '.').unwrap() + 1, p.len() as int))
    } else {
        None
    }
}

/// A base that `Path::join` extends in place on every platform: it holds no
/// `\` and no `:`, and does not begin with `//`, so Windows reads no prefix
/// (drive, UNC or verbatim) in it.
pub open spec fn join_safe(base: Seq<char>) -> bool {
    &&& !has_char(base, '\\')
    &&& !has_char(base, ':')
    &&& !starts_with(base, "//"@)
}

/// The extension of a file name as `Path::extension` documents it: `None` without
/// an embedded `.`, `None` for a name that begins with its only `.`, otherwise the
/// text after the final `.`.
pub open spec fn extension_of_name(name: Seq<char>) -> Option<Seq<char>> {
    match rfind(name, '.') {
        None => None,
        Some(k) => if k == 0 {
            None
        } else {
            Some(name.subrange(k + 1, name.len() as int))
        },
    }
}

/// The stem of a file name as `Path::file_stem` documents it: the whole name
/// without an embedded `.` or when it begins with its only `.`, otherwise the
/// text before the final `.`.
pub open spec fn stem_of_name(name: Seq<char>) -> Seq<char> {
    match rfind(name, '.') {
        None => name,
        Some(k) => if k == 0 {
            name
        } else {
            name.subrange(0, k)
        },
    }
}

/// `res` is `base` extended by the relative `rel` as `PathBuf::push` does:
/// directly after an empty base or one that ends with `/`, otherwise after one
/// separator, the platform's (`/` on Unix, `\` on Windows).
pub open spec fn joined(base: Seq<char>, rel: Seq<char>, res: Seq<char>) -> bool {
    if base.len() == 0 || base.last() == '/' {
        res == base + rel
    } else {
        res == base + seq!['/'] + rel || res == base + seq!['\\'] + rel
    }
}

/// The ASCII letters of `s` in lower case, every other character kept.
pub open spec fn ascii_lower(s: Seq<char>) -> Seq<char> {
    s.map_values(|c: char| if 'A' <= c && c <= 'Z' { ((c as u32) + 32) as char } else { c })
}

/// The ASCII letters of `s` in upper case, every other character kept.
pub open spec fn ascii_upper(s: Seq<char>) -> Seq<char> {
    s.map_values(|c: char| if 'a' <= c && c <= 'z' { ((c as u32) - 32) as char } else { c })
}

pub open spec fn is_ascii_text(s: Seq<char>) -> bool {
    forall|i: int| 0 <= i < s.len() ==> (s[i] as u32) < 128
}

/// What `str::to_lowercase` returns: the Unicode lowercase mapping of each character.
pub uninterp spec fn lowercase_of(s: Seq<char>) -> Seq<char>;

/// Calls `str::to_lowercase`. Its result is named `lowercase_of`; for ASCII text
/// the documentation gives it: ASCII letters lowered, everything else kept.
/// Other characters follow the Unicode tables, which are not stated here.
#[verifier::external_body]
pub fn to_lowercase(s: &str) -> (r: String)
    ensures
        r@ == lowercase_of(s@),
        is_ascii_text(s@) ==> r@ == ascii_lower(s@),
{
    s.to_lowercase()
}

/// Calls `Path::extension` and `OsStr::to_str`. Stated where every platform
/// reads the same extension (`extension_settled`): the extension of the last
/// component of a portable path, as `extension_of_name` gives it; the text
/// after the last `.` where that `.` follows every separator and drive colon
/// (so `C:\src\mylib.v` and `src\mylib.v` have the extension `v`); and
/// none for a path without a `.`. For other paths the components that the
/// platform's path syntax yields differ and are not stated.
#[verifier::external_body]
pub fn path_extension(path: &str) -> (r: Option<String>)
    ensures
        extension_settled(path@) ==> match r {
            Some(e) => settled_extension(path@) == Some(e@),
            None => settled_extension(path@) is None,
        },
{
    match std::path::Path::new(path).extension() {
        Some(e) => match e.to_str() {
            Some(t) => Some(t.to_string()),
            None => None,
        },
        None => None,
    }
}

/// Calls `Path::file_stem` and `OsStr::to_str`. Stated for a portable path:
/// the stem of its last component.
#[verifier::external_body]
pub fn path_file_stem(path: &str) -> (r: Option<String>)
    ensures
        is_portable_path(path@) ==> match r {
            Some(s) => s@ == stem_of_name(last_component(path@)),
            None => false,
        },
{
    match std::path::Path::new(path).file_stem() {
        Some(s) => match s.to_str() {
            Some(t) => Some(t.to_string()),
            None => None,
        },
        None => None,
    }
}

/// Calls `Path::parent` and `Path::to_string_lossy`. Stated for a portable
/// path: `parent_of`, the path without its last component and the separators
/// and `.` pieces before it, which `Path` ignores.
#[verifier::external_body]
pub fn path_parent(path: &str) -> (r: Option<String>)
    ensures
        is_portable_path(path@) ==> match r {
            Some(s) => s@ == parent_of(path@),
            None => false,
        },
{
    match std::path::Path::new(path).parent() {
        Some(p) => Some(p.to_string_lossy().into_owned()),
        None => None,
    }
}

/// Calls `Path::join` and `Path::to_string_lossy`. Stated for a plain file name
/// `rel` and a base in which no platform reads a prefix (`join_safe`): `rel` is
/// appended to `base` as `joined` says, with the platform's separator between
/// them unless `base` is empty or already ends with `/`. On Windows a base with
/// a verbatim prefix is rebuilt from its components, which is why such bases
/// are left out.
#[verifier::external_body]
pub fn path_join(base: &str, rel: &str) -> (r: String)
    ensures
        is_plain_name(rel@) && join_safe(base@) ==> joined(base@, rel@, r@),
{
    std::path::Path::new(base).join(rel).to_string_lossy().into_owned()
}

} // verus!
