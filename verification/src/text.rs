//! Character-sequence helpers with exact specifications: trimming, searching,
//! splitting and string building over `Seq<char>`, as the header parser needs them.
use vstd::prelude::*;

verus! {

// ---------------------------------------------------------------------------
// Whitespace and trimming
// ---------------------------------------------------------------------------

/// Whitespace as `char::is_whitespace` defines it (the Unicode `White_Space` property).
pub open spec fn is_ws(c: char) -> bool {
    ||| c == ' '
    ||| ('\u{9}' <= c && c <= '\u{D}')
    ||| c == '\u{85}'
    ||| c == '\u{A0}'
    ||| c == '\u{1680}'
    ||| ('\u{2000}' <= c && c <= '\u{200A}')
    ||| c == '\u{2028}'
    ||| c == '\u{2029}'
    ||| c == '\u{202F}'
    ||| c == '\u{205F}'
    ||| c == '\u{3000}'
}

pub fn is_whitespace(c: char) -> (b: bool)
    ensures
        b == is_ws(c),
{
    c == ' ' || ('\u{9}' <= c && c <= '\u{D}') || c == '\u{85}' || c == '\u{A0}' || c == '\u{1680}'
        || ('\u{2000}' <= c && c <= '\u{200A}') || c == '\u{2028}' || c == '\u{2029}' || c
        == '\u{202F}' || c == '\u{205F}' || c == '\u{3000}'
}

/// The first index at or after `i` that does not hold whitespace (or the length).
pub open spec fn ws_start(s: Seq<char>, i: int) -> int
    decreases s.len() - i,
{
    if 0 <= i < s.len() && is_ws(s[i]) {
        ws_start(s, i + 1)
    } else {
        i
    }
}

/// The smallest `k <= j` such that `s[k..j]` is all whitespace.
pub open spec fn ws_end(s: Seq<char>, j: int) -> int
    decreases j,
{
    if 0 < j <= s.len() && is_ws(s[j - 1]) {
        ws_end(s, j - 1)
    } else {
        j
    }
}

pub open spec fn trim_start(s: Seq<char>) -> Seq<char> {
    s.subrange(ws_start(s, 0), s.len() as int)
}

pub open spec fn trim_end(s: Seq<char>) -> Seq<char> {
    s.subrange(0, ws_end(s, s.len() as int))
}

/// `str::trim`: leading and trailing whitespace removed.
pub open spec fn trim(s: Seq<char>) -> Seq<char> {
    trim_end(trim_start(s))
}

pub proof fn lemma_ws_start_bounds(s: Seq<char>, i: int)
    requires
        0 <= i <= s.len(),
    ensures
        i <= ws_start(s, i) <= s.len(),
        ws_start(s, i) < s.len() ==> !is_ws(s[ws_start(s, i)]),
    decreases s.len() - i,
{
    if i < s.len() && is_ws(s[i]) {
        lemma_ws_start_bounds(s, i + 1);
    }
}

pub proof fn lemma_ws_end_bounds(s: Seq<char>, j: int)
    requires
        0 <= j <= s.len(),
    ensures
        0 <= ws_end(s, j) <= j,
        ws_end(s, j) > 0 ==> !is_ws(s[ws_end(s, j) - 1]),
    decreases j,
{
    if 0 < j && is_ws(s[j - 1]) {
        lemma_ws_end_bounds(s, j - 1);
    }
}

pub proof fn lemma_trim_len(s: Seq<char>)
    ensures
        trim(s).len() <= s.len(),
        trim_start(s).len() <= s.len(),
{
    lemma_ws_start_bounds(s, 0);
    let t = trim_start(s);
    lemma_ws_end_bounds(t, t.len() as int);
}

proof fn lemma_ws_start_skips(s: Seq<char>, i: int)
    requires
        0 <= i <= s.len(),
    ensures
        forall|k: int| i <= k < ws_start(s, i) ==> is_ws(#[trigger] s[k]),
    decreases s.len() - i,
{
    if i < s.len() && is_ws(s[i]) {
        lemma_ws_start_skips(s, i + 1);
    }
}

proof fn lemma_ws_end_skips(s: Seq<char>, j: int)
    requires
        0 <= j <= s.len(),
    ensures
        forall|k: int| ws_end(s, j) <= k < j ==> is_ws(#[trigger] s[k]),
    decreases j,
{
    if 0 < j && is_ws(s[j - 1]) {
        lemma_ws_end_skips(s, j - 1);
    }
}

/// `trim(s)` is a stretch of `s` with only whitespace around it.
pub proof fn lemma_trim_span(s: Seq<char>) -> (r: (int, int))
    ensures
        0 <= r.0 <= r.1 <= s.len(),
        trim(s) == s.subrange(r.0, r.1),
        forall|k: int| 0 <= k < r.0 || r.1 <= k < s.len() ==> is_ws(#[trigger] s[k]),
{
    lemma_ws_start_bounds(s, 0);
    lemma_ws_start_skips(s, 0);
    let a = ws_start(s, 0);
    let t = trim_start(s);
    lemma_ws_end_bounds(t, t.len() as int);
    lemma_ws_end_skips(t, t.len() as int);
    let b = a + ws_end(t, t.len() as int);
    assert(trim(s) =~= s.subrange(a, b));
    assert forall|k: int| 0 <= k < a || b <= k < s.len() implies is_ws(#[trigger] s[k]) by {
        if k >= b {
            assert(s[k] == t[k - a]);
        }
    }
    (a, b)
}

/// Where every `c` of `s` lies in `s[a..b]`, the first and the last `c` of the
/// stretch are those of `s`.
pub proof fn lemma_find_in_span(s: Seq<char>, c: char, a: int, b: int)
    requires
        0 <= a <= b <= s.len(),
        forall|k: int| 0 <= k < a || b <= k < s.len() ==> #[trigger] s[k] != c,
    ensures
        match find(s, c) {
            None => find(s.subrange(a, b), c) is None,
            Some(k) => find(s.subrange(a, b), c) == Some(k - a),
        },
        match rfind(s, c) {
            None => rfind(s.subrange(a, b), c) is None,
            Some(k) => rfind(s.subrange(a, b), c) == Some(k - a),
        },
{
    let t = s.subrange(a, b);
    lemma_find_from(s, c, 0);
    lemma_find_from(t, c, 0);
    lemma_rfind_before(s, c, s.len() as int);
    lemma_rfind_before(t, c, t.len() as int);
    match find(t, c) {
        Some(k) => {
            assert(s[a + k] == c);
        },
        None => {},
    }
    match find(s, c) {
        Some(k) => {
            assert(t[k - a] == c);
        },
        None => {},
    }
    match rfind(t, c) {
        Some(k) => {
            assert(s[a + k] == c);
        },
        None => {},
    }
    match rfind(s, c) {
        Some(k) => {
            assert(t[k - a] == c);
        },
        None => {},
    }
}

/// Trimming twice is trimming once.
pub proof fn lemma_trim_idempotent(s: Seq<char>)
    ensures
        trim(trim(s)) == trim(s),
{
    lemma_ws_start_bounds(s, 0);
    let t = trim_start(s);
    lemma_ws_end_bounds(t, t.len() as int);
    let u = trim_end(t);
    lemma_ws_start_bounds(u, 0);
    if u.len() > 0 {
        assert(u[0] == t[0]);
        assert(ws_start(u, 0) == 0);
        assert(trim_start(u) =~= u);
        assert(u.last() == t[u.len() - 1]);
        assert(ws_end(u, u.len() as int) == u.len());
        assert(trim_end(u) =~= u);
    } else {
        assert(trim_start(u) =~= u);
        assert(trim_end(u) =~= u);
    }
}

/// A copy of `s[a..b]`.
pub fn copy_range(s: &[char], a: usize, b: usize) -> (r: Vec<char>)
    requires
        a <= b <= s@.len(),
    ensures
        r@ == s@.subrange(a as int, b as int),
{
    let mut r: Vec<char> = Vec::new();
    let mut k = a;
    while k < b
        invariant
            a <= k <= b,
            b <= s@.len(),
            r@ == s@.subrange(a as int, k as int),
        decreases b - k,
    {
        r.push(s[k]);
        k += 1;
        assert(r@ =~= s@.subrange(a as int, k as int));
    }
    r
}

/// `str::trim` on characters.
pub fn trim_chars(s: &[char]) -> (r: Vec<char>)
    ensures
        r@ == trim(s@),
{
    let n = s.len();
    let mut a: usize = 0;
    while a < n && is_whitespace(s[a])
        invariant
            a <= n,
            n == s@.len(),
            ws_start(s@, a as int) == ws_start(s@, 0),
        decreases n - a,
    {
        a += 1;
    }
    let ghost t = s@.subrange(a as int, n as int);
    assert(trim_start(s@) == t);
    let mut b: usize = n;
    while b > a && is_whitespace(s[b - 1])
        invariant
            a <= b <= n,
            n == s@.len(),
            t == s@.subrange(a as int, n as int),
            ws_end(t, b - a) == ws_end(t, t.len() as int),
        decreases b,
    {
        assert(t[b - a - 1] == s@[b - 1]);
        b -= 1;
    }
    assert(ws_end(t, b - a) == b - a);
    assert(s@.subrange(a as int, b as int) =~= t.subrange(0, b - a));
    copy_range(s, a, b)
}

// ---------------------------------------------------------------------------
// Searching
// ---------------------------------------------------------------------------

/// The first index `k >= i` with `s[k] == c`.
pub open spec fn find_from(s: Seq<char>, c: char, i: int) -> Option<int>
    decreases s.len() - i,
{
    if i < 0 || i >= s.len() {
        None
    } else if s[i] == c {
        Some(i)
    } else {
        find_from(s, c, i + 1)
    }
}

/// `str::find` with a character pattern (as a character index).
pub open spec fn find(s: Seq<char>, c: char) -> Option<int> {
    find_from(s, c, 0)
}

/// The last index `k < j` with `s[k] == c`.
pub open spec fn rfind_before(s: Seq<char>, c: char, j: int) -> Option<int>
    decreases j,
{
    if j <= 0 || j > s.len() {
        None
    } else if s[j - 1] == c {
        Some(j - 1)
    } else {
        rfind_before(s, c, j - 1)
    }
}

/// `str::rfind` with a character pattern (as a character index).
pub open spec fn rfind(s: Seq<char>, c: char) -> Option<int> {
    rfind_before(s, c, s.len() as int)
}

pub proof fn lemma_find_from(s: Seq<char>, c: char, i: int)
    requires
        0 <= i,
    ensures
        find_from(s, c, i) matches Some(k) ==> i <= k < s.len() && 0 <= k && s[k] == c,
        find_from(s, c, i) is None ==> forall|k: int| i <= k < s.len() && 0 <= k ==> s[k] != c,
        find_from(s, c, i) matches Some(k) ==> forall|j: int| i <= j < k ==> s[j] != c,
    decreases s.len() - i,
{
    if 0 <= i < s.len() && s[i] != c {
        lemma_find_from(s, c, i + 1);
    }
}


pub proof fn lemma_rfind_before(s: Seq<char>, c: char, j: int)
    requires
        j <= s.len(),
    ensures
        rfind_before(s, c, j) matches Some(k) ==> 0 <= k < j && s[k] == c,
        rfind_before(s, c, j) is None ==> forall|k: int| 0 <= k < j ==> s[k] != c,
        rfind_before(s, c, j) matches Some(k) ==> forall|m: int| k < m < j ==> s[m] != c,
    decreases j,
{
    if 0 < j && s[j - 1] != c {
        lemma_rfind_before(s, c, j - 1);
    }
}

/// `find_from` on characters.
pub fn find_char_from(s: &[char], c: char, i: usize) -> (r: Option<usize>)
    ensures
        r matches Some(k) ==> find_from(s@, c, i as int) == Some(k as int),
        r is None ==> find_from(s@, c, i as int) is None,
{
    let n = s.len();
    let mut k = i;
    while k < n
        invariant
            n == s@.len(),
            i <= k,
            find_from(s@, c, i as int) == find_from(s@, c, k as int),
        decreases n - k,
    {
        if s[k] == c {
            return Some(k);
        }
        k += 1;
    }
    None
}

/// `str::find` with a character pattern.
pub fn find_char(s: &[char], c: char) -> (r: Option<usize>)
    ensures
        r matches Some(k) ==> find(s@, c) == Some(k as int),
        r is None ==> find(s@, c) is None,
{
    find_char_from(s, c, 0)
}

/// `str::rfind` with a character pattern.
pub fn rfind_char(s: &[char], c: char) -> (r: Option<usize>)
    ensures
        r matches Some(k) ==> rfind(s@, c) == Some(k as int),
        r is None ==> rfind(s@, c) is None,
{
    let mut j = s.len();
    while j > 0
        invariant
            j <= s@.len(),
            rfind(s@, c) == rfind_before(s@, c, j as int),
        decreases j,
    {
        if s[j - 1] == c {
            return Some(j - 1);
        }
        j -= 1;
    }
    None
}

/// Whether `s` holds the character `c` (`str::contains` with a character).
pub open spec fn has_char(s: Seq<char>, c: char) -> bool {
    exists|i: int| 0 <= i < s.len() && s[i] == c
}

pub fn contains_char(s: &[char], c: char) -> (b: bool)
    ensures
        b == has_char(s@, c),
{
    let n = s.len();
    let mut k: usize = 0;
    while k < n
        invariant
            n == s@.len(),
            k <= n,
            forall|j: int| 0 <= j < k ==> s@[j] != c,
        decreases n - k,
    {
        if s[k] == c {
            return true;
        }
        k += 1;
    }
    false
}

// ---------------------------------------------------------------------------
// Patterns made of several characters
// ---------------------------------------------------------------------------

/// Whether `p` occurs in `s` at index `i`.
pub open spec fn occurs_at(s: Seq<char>, p: Seq<char>, i: int) -> bool {
    0 <= i && i + p.len() <= s.len() && s.subrange(i, i + p.len()) == p
}

/// `str::contains` with a string pattern.
pub open spec fn has_sub(s: Seq<char>, p: Seq<char>) -> bool {
    exists|i: int| occurs_at(s, p, i)
}

/// `str::starts_with` with a string pattern.
pub open spec fn starts_with(s: Seq<char>, p: Seq<char>) -> bool {
    occurs_at(s, p, 0)
}

/// `str::ends_with` with a string pattern.
pub open spec fn ends_with(s: Seq<char>, p: Seq<char>) -> bool {
    occurs_at(s, p, s.len() - p.len())
}

pub fn matches_at(s: &[char], p: &[char], i: usize) -> (b: bool)
    ensures
        b == occurs_at(s@, p@, i as int),
{
    let n = s.len();
    let m = p.len();
    if i > n || m > n - i {
        return false;
    }
    let mut k: usize = 0;
    while k < m
        invariant
            n == s@.len(),
            m == p@.len(),
            i + m <= n,
            k <= m,
            forall|j: int| 0 <= j < k ==> s@[i + j] == p@[j],
        decreases m - k,
    {
        if s[i + k] != p[k] {
            assert(s@.subrange(i as int, i + m)[k as int] != p@[k as int]);
            return false;
        }
        k += 1;
    }
    assert(s@.subrange(i as int, i + m) =~= p@);
    true
}

/// The characters of a string slice, in order.
pub fn to_chars(s: &str) -> (r: Vec<char>)
    ensures
        r@ == s@,
{
    let mut r: Vec<char> = Vec::new();
    for c in it: s.chars()
        invariant
            r@ == it.seq().take(it.index() as int),
    {
        r.push(c);
    }
    r
}

pub fn eq_str(s: &[char], p: &str) -> (b: bool)
    ensures
        b == (s@ == p@),
{
    let pc = to_chars(p);
    let r = s.len() == pc.len() && matches_at(s, pc.as_slice(), 0);
    proof {
        if s@.len() == p@.len() {
            assert(s@.subrange(0, s@.len() as int) =~= s@);
        }
    }
    r
}

pub fn starts_with_str(s: &[char], p: &str) -> (b: bool)
    ensures
        b == starts_with(s@, p@),
{
    let pc = to_chars(p);
    matches_at(s, pc.as_slice(), 0)
}

pub fn contains_str(s: &[char], p: &str) -> (b: bool)
    ensures
        b == has_sub(s@, p@),
{
    let pc = to_chars(p);
    let n = s.len();
    let m = pc.len();
    if m > n {
        assert forall|i: int| !occurs_at(s@, p@, i) by {}
        return false;
    }
    if m == 0 {
        assert(s@.subrange(0, 0) =~= p@);
        assert(occurs_at(s@, p@, 0));
        return true;
    }
    let mut i: usize = 0;
    while i <= n - m
        invariant
            m > 0,
            n == s@.len(),
            m == pc@.len(),
            pc@ == p@,
            m <= n,
            forall|j: int| 0 <= j < i ==> !occurs_at(s@, p@, j),
        decreases n - m + 1 - i,
    {
        if matches_at(s, pc.as_slice(), i) {
            return true;
        }
        i += 1;
    }
    assert forall|j: int| !occurs_at(s@, p@, j) by {
        if 0 <= j && j + m <= n {
            assert(j < i);
        }
    }
    false
}


// ---------------------------------------------------------------------------
// Splitting
// ---------------------------------------------------------------------------

/// The views of a sequence of strings.
pub open spec fn string_views(v: Seq<String>) -> Seq<Seq<char>> {
    v.map_values(|s: String| s@)
}

/// The views of a sequence of character vectors.
pub open spec fn seqs(v: Seq<Vec<char>>) -> Seq<Seq<char>> {
    v.map_values(|x: Vec<char>| x@)
}

pub proof fn lemma_seqs_push(v: Seq<Vec<char>>, x: Vec<char>)
    ensures
        seqs(v.push(x)) == seqs(v).push(x@),
{
    assert(seqs(v.push(x)) =~= seqs(v).push(x@));
}

/// The pieces of `s[start..]` between occurrences of `c` (`str::split` with a character).
pub open spec fn split_from(s: Seq<char>, c: char, start: int) -> Seq<Seq<char>>
    decreases s.len() - start,
{
    if start < 0 || start > s.len() {
        seq![]
    } else {
        match find_from(s, c, start) {
            None => seq![s.subrange(start, s.len() as int)],
            Some(k) => {
                proof {
                    lemma_find_from(s, c, start);
                }
                seq![s.subrange(start, k)] + split_from(s, c, k + 1)
            },
        }
    }
}

/// `str::split` with a character pattern.
pub open spec fn split(s: Seq<char>, c: char) -> Seq<Seq<char>> {
    split_from(s, c, 0)
}

pub fn split_char(s: &[char], c: char) -> (r: Vec<Vec<char>>)
    ensures
        seqs(r@) == split(s@, c),
{
    let n = s.len();
    let mut out: Vec<Vec<char>> = Vec::new();
    let mut start: usize = 0;
    loop
        invariant
            n == s@.len(),
            start <= n,
            seqs(out@) + split_from(s@, c, start as int) == split(s@, c),
        decreases n + 1 - start,
    {
        let ghost old_out = out@;
        match find_char_from(s, c, start) {
            None => {
                let piece = copy_range(s, start, n);
                out.push(piece);
                proof {
                    lemma_seqs_push(old_out, piece);
                    assert(seqs(out@) =~= split(s@, c));
                }
                return out;
            },
            Some(k) => {
                proof {
                    lemma_find_from(s@, c, start as int);
                }
                let piece = copy_range(s, start, k);
                out.push(piece);
                proof {
                    lemma_seqs_push(old_out, piece);
                    assert(seqs(out@) + split_from(s@, c, k + 1) =~= seqs(old_out) + split_from(
                        s@,
                        c,
                        start as int,
                    ));
                }
                start = k + 1;
            },
        }
    }
}

/// A trailing carriage return removed.
pub open spec fn strip_cr(s: Seq<char>) -> Seq<char> {
    if s.len() > 0 && s.last() == '\r' {
        s.drop_last()
    } else {
        s
    }
}

/// The lines of `s[start..]` as `str::lines` yields them.
pub open spec fn lines_from(s: Seq<char>, start: int) -> Seq<Seq<char>>
    decreases s.len() - start,
{
    if start < 0 || start >= s.len() {
        seq![]
    } else {
        match find_from(s, '\n', start) {
            None => seq![s.subrange(start, s.len() as int)],
            Some(k) => {
                proof {
                    lemma_find_from(s, '\n', start);
                }
                seq![strip_cr(s.subrange(start, k))] + lines_from(s, k + 1)
            },
        }
    }
}

/// `str::lines`: pieces ended by `\n`, each without its `\n` or `\r\n`.
pub open spec fn lines(s: Seq<char>) -> Seq<Seq<char>> {
    lines_from(s, 0)
}

pub fn split_lines(s: &[char]) -> (r: Vec<Vec<char>>)
    ensures
        seqs(r@) == lines(s@),
{
    let n = s.len();
    let mut out: Vec<Vec<char>> = Vec::new();
    let mut start: usize = 0;
    while start < n
        invariant
            n == s@.len(),
            start <= n,
            seqs(out@) + lines_from(s@, start as int) == lines(s@),
        decreases n - start,
    {
        let ghost old_out = out@;
        match find_char_from(s, '\n', start) {
            None => {
                let piece = copy_range(s, start, n);
                out.push(piece);
                proof {
                    lemma_seqs_push(old_out, piece);
                    assert(seqs(out@) =~= lines(s@));
                }
                return out;
            },
            Some(k) => {
                proof {
                    lemma_find_from(s@, '\n', start as int);
                }
                let mut piece = copy_range(s, start, k);
                let ghost raw = piece@;
                if piece.len() > 0 && piece[piece.len() - 1] == '\r' {
                    piece.pop();
                    assert(piece@ =~= raw.drop_last());
                }
                out.push(piece);
                proof {
                    lemma_seqs_push(old_out, piece);
                    assert(seqs(out@) + lines_from(s@, k + 1) =~= seqs(old_out) + lines_from(
                        s@,
                        start as int,
                    ));
                }
                start = k + 1;
            },
        }
    }
    assert(seqs(out@) =~= lines(s@));
    out
}

/// The first index at or after `i` that holds whitespace (or the length).
pub open spec fn word_end(s: Seq<char>, i: int) -> int
    decreases s.len() - i,
{
    if 0 <= i < s.len() && !is_ws(s[i]) {
        word_end(s, i + 1)
    } else {
        i
    }
}

pub proof fn lemma_word_end_bounds(s: Seq<char>, i: int)
    requires
        0 <= i <= s.len(),
    ensures
        i <= word_end(s, i) <= s.len(),
        i < s.len() && !is_ws(s[i]) ==> i < word_end(s, i),
    decreases s.len() - i,
{
    if i < s.len() && !is_ws(s[i]) {
        lemma_word_end_bounds(s, i + 1);
    }
}

/// The whitespace-separated words of `s[i..]`.
pub open spec fn words_from(s: Seq<char>, i: int) -> Seq<Seq<char>>
    decreases s.len() - i,
{
    if i < 0 || i > s.len() {
        seq![]
    } else {
        let a = ws_start(s, i);
        if a >= s.len() {
            seq![]
        } else {
            let b = word_end(s, a);
            proof {
                lemma_ws_start_bounds(s, i);
                lemma_word_end_bounds(s, a);
            }
            seq![s.subrange(a, b)] + words_from(s, b)
        }
    }
}

/// `str::split_whitespace`.
pub open spec fn words(s: Seq<char>) -> Seq<Seq<char>> {
    words_from(s, 0)
}

pub fn split_whitespace(s: &[char]) -> (r: Vec<Vec<char>>)
    ensures
        seqs(r@) == words(s@),
{
    let n = s.len();
    let mut out: Vec<Vec<char>> = Vec::new();
    let mut i: usize = 0;
    loop
        invariant
            n == s@.len(),
            i <= n,
            seqs(out@) + words_from(s@, i as int) == words(s@),
        decreases n - i,
    {
        let mut a = i;
        while a < n && is_whitespace(s[a])
            invariant
                n == s@.len(),
                i <= a <= n,
                ws_start(s@, a as int) == ws_start(s@, i as int),
            decreases n - a,
        {
            a += 1;
        }
        if a >= n {
            assert(seqs(out@) =~= words(s@));
            return out;
        }
        let mut b = a;
        while b < n && !is_whitespace(s[b])
            invariant
                n == s@.len(),
                a <= b <= n,
                word_end(s@, b as int) == word_end(s@, a as int),
            decreases n - b,
        {
            b += 1;
        }
        proof {
            lemma_ws_start_bounds(s@, i as int);
            lemma_word_end_bounds(s@, a as int);
        }
        let ghost old_out = out@;
        let w = copy_range(s, a, b);
        out.push(w);
        proof {
            lemma_seqs_push(old_out, w);
            assert(seqs(out@) + words_from(s@, b as int) =~= seqs(old_out) + words_from(
                s@,
                i as int,
            ));
        }
        i = b;
    }
}

/// `str::rsplitn(2, ' ')` with two pieces: the text before and after the last space.
pub open spec fn rsplit_space(s: Seq<char>) -> Option<(Seq<char>, Seq<char>)> {
    match rfind(s, ' ') {
        None => None,
        Some(k) => Some((s.subrange(0, k), s.subrange(k + 1, s.len() as int))),
    }
}

pub fn rsplit_once_space(s: &[char]) -> (r: Option<(Vec<char>, Vec<char>)>)
    ensures
        r matches Some(p) ==> rsplit_space(s@) == Some((p.0@, p.1@)),
        r is None ==> rsplit_space(s@) is None,
{
    match rfind_char(s, ' ') {
        None => None,
        Some(k) => {
            proof {
                lemma_rfind_before(s@, ' ', s@.len() as int);
                assert(rfind_before(s@, ' ', s@.len() as int) == Some(k as int));
                assert(k < s@.len());
            }
            let n = s.len();
            let before = copy_range(s, 0, k);
            let after = copy_range(s, k + 1, n);
            Some((before, after))
        },
    }
}

/// `str::split_once` with a character: the text before and after the first `c`.
pub open spec fn split_once(s: Seq<char>, c: char) -> Option<(Seq<char>, Seq<char>)> {
    match find(s, c) {
        None => None,
        Some(k) => Some((s.subrange(0, k), s.subrange(k + 1, s.len() as int))),
    }
}

pub fn split_once_char(s: &[char], c: char) -> (r: Option<(Vec<char>, Vec<char>)>)
    ensures
        r matches Some(p) ==> split_once(s@, c) == Some((p.0@, p.1@)),
        r is None ==> split_once(s@, c) is None,
{
    match find_char(s, c) {
        None => None,
        Some(k) => {
            proof {
                lemma_find_from(s@, c, 0);
                assert(find_from(s@, c, 0) == Some(k as int));
                assert(k < s@.len());
            }
            let n = s.len();
            let before = copy_range(s, 0, k);
            let after = copy_range(s, k + 1, n);
            Some((before, after))
        },
    }
}

/// `str::trim_end_matches` with a character.
pub open spec fn trim_end_char(s: Seq<char>, c: char) -> Seq<char>
    decreases s.len(),
{
    if s.len() > 0 && s.last() == c {
        trim_end_char(s.drop_last(), c)
    } else {
        s
    }
}

pub fn trim_end_matching(s: &[char], c: char) -> (r: Vec<char>)
    ensures
        r@ == trim_end_char(s@, c),
{
    let mut j = s.len();
    assert(s@.subrange(0, s@.len() as int) =~= s@);
    while j > 0 && s[j - 1] == c
        invariant
            j <= s@.len(),
            trim_end_char(s@.subrange(0, j as int), c) == trim_end_char(s@, c),
        decreases j,
    {
        assert(s@.subrange(0, j as int).drop_last() =~= s@.subrange(0, j - 1));
        j -= 1;
    }
    assert(s@.subrange(0, s@.len() as int) =~= s@);
    copy_range(s, 0, j)
}

/// The first index at or after `i` that does not hold `c`.
pub open spec fn run_end(s: Seq<char>, c: char, i: int) -> int
    decreases s.len() - i,
{
    if 0 <= i < s.len() && s[i] == c {
        run_end(s, c, i + 1)
    } else {
        i
    }
}

/// The length of the run of `c` that starts `s`.
pub fn leading_run(s: &[char], c: char) -> (k: usize)
    ensures
        k == run_end(s@, c, 0),
        k <= s@.len(),
{
    let n = s.len();
    let mut k: usize = 0;
    while k < n && s[k] == c
        invariant
            n == s@.len(),
            k <= n,
            run_end(s@, c, k as int) == run_end(s@, c, 0),
        decreases n - k,
    {
        k += 1;
    }
    k
}

/// The pieces joined with `sep` between them (`[T]::join`).
pub open spec fn join(parts: Seq<Seq<char>>, sep: Seq<char>) -> Seq<char>
    decreases parts.len(),
{
    if parts.len() == 0 {
        seq![]
    } else if parts.len() == 1 {
        parts[0]
    } else {
        join(parts.drop_last(), sep) + sep + parts.last()
    }
}

// ---------------------------------------------------------------------------
// Building strings
// ---------------------------------------------------------------------------

/// Appends one character with `String::push`, which the standard library
/// documents as appending the character to the end of the string.
#[verifier::external_body]
pub fn push_char(s: &mut String, c: char)
    ensures
        final(s)@ == old(s)@.push(c),
{
    s.push(c);
}

pub fn push_chars(out: &mut String, v: &[char])
    ensures
        final(out)@ == old(out)@ + v@,
{
    let n = v.len();
    let mut k: usize = 0;
    while k < n
        invariant
            n == v@.len(),
            k <= n,
            out@ == old(out)@ + v@.subrange(0, k as int),
        decreases n - k,
    {
        push_char(out, v[k]);
        k += 1;
        assert(out@ =~= old(out)@ + v@.subrange(0, k as int));
    }
    assert(v@.subrange(0, n as int) =~= v@);
}

pub fn string_of(v: &[char]) -> (r: String)
    ensures
        r@ == v@,
{
    let mut r = String::new();
    push_chars(&mut r, v);
    assert(r@ =~= v@);
    r
}

pub fn push_str(out: &mut String, s: &str)
    ensures
        final(out)@ == old(out)@ + s@,
{
    out.append(s);
}


// ---------------------------------------------------------------------------
// Decimal numbers
// ---------------------------------------------------------------------------

pub open spec fn digit_char(d: int) -> char {
    if d == 0 {
        '0'
    } else if d == 1 {
        '1'
    } else if d == 2 {
        '2'
    } else if d == 3 {
        '3'
    } else if d == 4 {
        '4'
    } else if d == 5 {
        '5'
    } else if d == 6 {
        '6'
    } else if d == 7 {
        '7'
    } else if d == 8 {
        '8'
    } else {
        '9'
    }
}

/// The decimal digits of `n`, as `Display` writes an unsigned integer.
pub open spec fn decimal(n: nat) -> Seq<char>
    decreases n,
{
    if n < 10 {
        seq![digit_char(n as int)]
    } else {
        decimal(n / 10) + seq![digit_char((n % 10) as int)]
    }
}

/// `n` in decimal with a leading `-` when negative, as `Display` writes a signed integer.
pub open spec fn signed_decimal(n: int) -> Seq<char> {
    if n < 0 {
        seq!['-'] + decimal((-n) as nat)
    } else {
        decimal(n as nat)
    }
}

fn digit(d: u64) -> (c: char)
    requires
        d < 10,
    ensures
        c == digit_char(d as int),
{
    if d == 0 {
        '0'
    } else if d == 1 {
        '1'
    } else if d == 2 {
        '2'
    } else if d == 3 {
        '3'
    } else if d == 4 {
        '4'
    } else if d == 5 {
        '5'
    } else if d == 6 {
        '6'
    } else if d == 7 {
        '7'
    } else if d == 8 {
        '8'
    } else {
        '9'
    }
}

/// Appends `n` in decimal.
pub fn push_decimal(out: &mut String, n: u64)
    ensures
        final(out)@ == old(out)@ + decimal(n as nat),
    decreases n,
{
    if n >= 10 {
        push_decimal(out, n / 10);
    }
    push_char(out, digit(n % 10));
    assert(out@ =~= old(out)@ + decimal(n as nat));
}

/// Appends `n` in decimal, with a leading `-` when negative.
pub fn push_signed_decimal(out: &mut String, n: i64)
    ensures
        final(out)@ == old(out)@ + signed_decimal(n as int),
{
    if n < 0 {
        push_char(out, '-');
        // `-n` computed without overflow, also for `i64::MIN`.
        let m: u64 = ((-(n + 1)) as u64) + 1;
        assert(m == -n);
        push_decimal(out, m);
        assert(out@ =~= old(out)@ + signed_decimal(n as int));
    } else {
        push_decimal(out, n as u64);
    }
}

} // verus!
