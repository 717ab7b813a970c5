//! Character-level text utilities shared by the parsers of this crate:
//! line splitting, Unicode whitespace trimming, ASCII case folding, UTF-8
//! widths and small conversions between `&str`, `String` and `Vec<char>`.
use vstd::prelude::*;

use crate::menu::split_on;

verus! {

// ---------------------------------------------------------------------------
// Conversions
// ---------------------------------------------------------------------------

/// The characters of `s`, in order.
pub fn chars_of(s: &str) -> (v: Vec<char>)
    ensures
        v@ == s@,
{
    let mut v: Vec<char> = Vec::new();
    for c in it: s.chars()
        invariant
            v@ == it.seq().take(it.index() as int),
            it.seq() == s@,
    {
        v.push(c);
    }
    v
}

/// Appends `c` to `s` (`String::push`).
#[verifier::external_body]
pub(crate) fn push_char(s: &mut String, c: char)
    ensures
        final(s)@ == old(s)@.push(c),
{
    s.push(c);
}

// ---------------------------------------------------------------------------
// Paths
// ---------------------------------------------------------------------------

/// The index of the last `c` in `s`, or `-1`.
pub open spec fn last_index_of(s: Seq<char>, c: char) -> int
    decreases s.len(),
{
    if s.len() == 0 {
        -1
    } else if s.last() == c {
        s.len() - 1
    } else {
        last_index_of(s.drop_last(), c)
    }
}

/// A path that every platform reads alike: its only separator is `/`
/// (no `\\`, no `:` of a drive or prefix) and it does not start with `//`.
pub open spec fn plain_path(p: Seq<char>) -> bool {
    !p.contains('\\') && !p.contains(':') && !has_prefix(p, "//"@)
}

/// The last of the first `n` pieces that is a name: neither empty (a
/// repeated or trailing separator) nor `.`.
pub open spec fn last_named_piece(pieces: Seq<Seq<char>>, n: int) -> Option<Seq<char>>
    decreases n,
{
    if n <= 0 || n > pieces.len() {
        None
    } else if pieces[n - 1].len() == 0 || pieces[n - 1] == seq!['.'] {
        last_named_piece(pieces, n - 1)
    } else {
        Some(pieces[n - 1])
    }
}

/// The file name of a plain path (`Path::file_name`): its last component
/// that is a name, unless that is `..`.
pub open spec fn plain_file_name(p: Seq<char>) -> Option<Seq<char>> {
    let pieces = split_on(p, '/');
    match last_named_piece(pieces, pieces.len() as int) {
        Some(n) => if n == seq!['.', '.'] { None } else { Some(n) },
        None => None,
    }
}

/// The file stem of a plain path (`Path::file_stem`): the file name before
/// its last `.`, or the whole name when it has no `.` after its first character.
pub open spec fn plain_stem(p: Seq<char>) -> Option<Seq<char>> {
    match plain_file_name(p) {
        Some(n) => if last_index_of(n, '.') <= 0 { Some(n) } else { Some(n.take(last_index_of(n, '.'))) },
        None => None,
    }
}

/// The extension of a plain path as text (`Path::extension`, empty when
/// there is none): the file name after its last `.`, when that `.` is not
/// its first character.
pub open spec fn plain_extension_text(p: Seq<char>) -> Seq<char> {
    match plain_file_name(p) {
        Some(n) => if last_index_of(n, '.') <= 0 { Seq::empty() } else { n.skip(last_index_of(n, '.') + 1) },
        None => Seq::empty(),
    }
}

/// `Path::file_stem` (std) of `path`, as text. The stem is always a
/// non-empty part of the path (the file name, or the file name before its
/// last `.`). Which part it is depends on the platform's separators, except
/// for a plain path (only `/` separates), where every platform reads the
/// components alike and the stem is `plain_stem`. Other paths are not
/// stated here.
#[verifier::external_body]
pub(crate) fn path_file_stem(path: &str) -> (r: Option<String>)
    ensures
        r matches Some(s) ==> s@.len() > 0 && contains_seq(path@, s@),
        plain_path(path@) ==> match plain_stem(path@) {
            Some(s) => r matches Some(x) && x@ == s,
            None => r is None,
        },
{
    std::path::Path::new(path).file_stem().and_then(|s| s.to_str()).map(|s| s.to_string())
}

/// A `String` holding exactly the characters `v`.
pub fn string_of(v: &[char]) -> (s: String)
    ensures
        s@ == v@,
{
    let mut s = String::new();
    let mut i: usize = 0;
    while i < v.len()
        invariant
            i <= v.len(),
            s@ == v@.take(i as int),
        decreases v.len() - i,
    {
        push_char(&mut s, v[i]);
        assert(v@.take(i as int).push(v@[i as int]) =~= v@.take(i + 1));
        i = i + 1;
    }
    assert(v@.take(v.len() as int) =~= v@);
    s
}

/// Appends all of `v` to `out`.
pub fn append_chars(out: &mut Vec<char>, v: &[char])
    ensures
        final(out)@ == old(out)@ + v@,
{
    let mut i: usize = 0;
    while i < v.len()
        invariant
            i <= v.len(),
            out@ == old(out)@ + v@.take(i as int),
        decreases v.len() - i,
    {
        out.push(v[i]);
        assert(old(out)@ + v@.take(i as int).push(v@[i as int]) =~= old(out)@ + v@.take(i + 1));
        i = i + 1;
    }
    assert(v@.take(v.len() as int) =~= v@);
}

/// A copy of `v[from..to]`.
pub fn sub_chars(v: &[char], from: usize, to: usize) -> (r: Vec<char>)
    requires
        from <= to <= v.len(),
    ensures
        r@ == v@.subrange(from as int, to as int),
{
    let mut r: Vec<char> = Vec::new();
    let mut i: usize = from;
    while i < to
        invariant
            from <= i <= to <= v.len(),
            r@ == v@.subrange(from as int, i as int),
        decreases to - i,
    {
        r.push(v[i]);
        assert(v@.subrange(from as int, i as int).push(v@[i as int]) =~= v@.subrange(
            from as int,
            i + 1,
        ));
        i = i + 1;
    }
    r
}

/// Whether `a` and `b` hold the same characters.
pub fn chars_eq(a: &[char], b: &[char]) -> (r: bool)
    ensures
        r == (a@ == b@),
{
    if a.len() != b.len() {
        return false;
    }
    let mut i: usize = 0;
    while i < a.len()
        invariant
            a.len() == b.len(),
            i <= a.len(),
            forall|j: int| 0 <= j < i ==> a@[j] == b@[j],
        decreases a.len() - i,
    {
        if a[i] != b[i] {
            return false;
        }
        i = i + 1;
    }
    assert(a@ =~= b@);
    true
}

/// Whether `s` begins with `p`.
pub open spec fn has_prefix(s: Seq<char>, p: Seq<char>) -> bool {
    p.len() <= s.len() && s.take(p.len() as int) == p
}

/// Whether `s` begins with `p`.
pub fn starts_with_chars(s: &[char], p: &[char]) -> (r: bool)
    ensures
        r == has_prefix(s@, p@),
{
    if p.len() > s.len() {
        return false;
    }
    let mut i: usize = 0;
    while i < p.len()
        invariant
            p.len() <= s.len(),
            i <= p.len(),
            forall|j: int| 0 <= j < i ==> s@[j] == p@[j],
        decreases p.len() - i,
    {
        if s[i] != p[i] {
            assert(s@.take(p.len() as int)[i as int] != p@[i as int]);
            return false;
        }
        i = i + 1;
    }
    assert(s@.take(p.len() as int) =~= p@);
    true
}

/// Whether `p` occurs in `s` starting at index `i`.
pub open spec fn occurs_at(s: Seq<char>, p: Seq<char>, i: int) -> bool {
    0 <= i && i + p.len() <= s.len() && s.subrange(i, i + p.len()) == p
}

/// Whether `p` occurs somewhere in `s` (`str::contains`).
pub open spec fn contains_seq(s: Seq<char>, p: Seq<char>) -> bool {
    exists|i: int| occurs_at(s, p, i)
}

/// The index of the first occurrence of `p` in `s`, if any (`str::find`).
pub fn find_chars(s: &[char], p: &[char]) -> (r: Option<usize>)
    ensures
        match r {
            Some(i) => occurs_at(s@, p@, i as int) && forall|j: int|
                0 <= j < i ==> !occurs_at(s@, p@, j),
            None => !contains_seq(s@, p@),
        },
{
    if p.len() > s.len() {
        assert forall|j: int| !occurs_at(s@, p@, j) by {}
        return None;
    }
    if p.len() == 0 {
        assert(s@.subrange(0, 0) =~= p@);
        return Some(0);
    }
    let last: usize = s.len() - p.len();
    let mut i: usize = 0;
    while i <= last
        invariant
            1 <= p.len() <= s.len(),
            last == s.len() - p.len(),
            i <= last + 1,
            forall|j: int| 0 <= j < i ==> !occurs_at(s@, p@, j),
        decreases last + 1 - i,
    {
        let mut k: usize = 0;
        let mut ok = true;
        while ok && k < p.len()
            invariant
                i + p.len() <= s.len(),
                k <= p.len(),
                ok ==> forall|m: int| 0 <= m < k ==> s@[i + m] == p@[m],
                !ok ==> !occurs_at(s@, p@, i as int),
            decreases p.len() - k + (if ok { 1int } else { 0int }),
        {
            if s[i + k] != p[k] {
                assert(s@.subrange(i as int, i + p.len())[k as int] == s@[i + k]);
                ok = false;
            } else {
                k = k + 1;
            }
        }
        if ok {
            assert forall|m: int| 0 <= m < p.len() implies s@.subrange(i as int, i + p.len())[m]
                == p@[m] by {
                assert(s@.subrange(i as int, i + p.len())[m] == s@[i + m]);
            }
            assert(s@.subrange(i as int, i + p.len()) =~= p@);
            return Some(i);
        }
        i = i + 1;
    }
    assert forall|j: int| !occurs_at(s@, p@, j) by {
        if 0 <= j && j + p.len() <= s.len() {
            assert(j < i);
        }
    }
    None
}

/// Whether `p` occurs in `s` (`str::contains`).
pub fn contains_chars(s: &[char], p: &[char]) -> (r: bool)
    ensures
        r == contains_seq(s@, p@),
{
    match find_chars(s, p) {
        Some(_) => true,
        None => false,
    }
}

// ---------------------------------------------------------------------------
// Whitespace and trimming
// ---------------------------------------------------------------------------

/// The characters with the Unicode `White_Space` property (`char::is_whitespace`).
pub open spec fn is_ws(c: char) -> bool {
    let u = c as u32;
    (0x9 <= u && u <= 0xD) || u == 0x20 || u == 0x85 || u == 0xA0 || u == 0x1680 || (0x2000 <= u
        && u <= 0x200A) || u == 0x2028 || u == 0x2029 || u == 0x202F || u == 0x205F || u == 0x3000
}

/// `char::is_whitespace`.
pub fn is_whitespace(c: char) -> (r: bool)
    ensures
        r == is_ws(c),
{
    let u = c as u32;
    (0x9 <= u && u <= 0xD) || u == 0x20 || u == 0x85 || u == 0xA0 || u == 0x1680 || (0x2000 <= u
        && u <= 0x200A) || u == 0x2028 || u == 0x2029 || u == 0x202F || u == 0x205F || u == 0x3000
}

/// `s` without its leading whitespace.
pub open spec fn trim_start(s: Seq<char>) -> Seq<char>
    decreases s.len(),
{
    if s.len() > 0 && is_ws(s[0]) {
        trim_start(s.drop_first())
    } else {
        s
    }
}

/// `s` without its trailing whitespace.
pub open spec fn trim_end(s: Seq<char>) -> Seq<char>
    decreases s.len(),
{
    if s.len() > 0 && is_ws(s.last()) {
        trim_end(s.drop_last())
    } else {
        s
    }
}

/// `str::trim`: `s` without leading and trailing whitespace.
pub open spec fn trim(s: Seq<char>) -> Seq<char> {
    trim_end(trim_start(s))
}

proof fn lemma_trim_start_skip(s: Seq<char>, i: int)
    requires
        0 <= i <= s.len(),
        forall|j: int| 0 <= j < i ==> is_ws(s[j]),
        i == s.len() || !is_ws(s[i]),
    ensures
        trim_start(s) == s.skip(i),
    decreases i,
{
    if i == 0 {
        assert(s.skip(0) =~= s);
    } else {
        let t = s.drop_first();
        assert forall|j: int| 0 <= j < i - 1 implies is_ws(t[j]) by {
            assert(t[j] == s[j + 1]);
        }
        lemma_trim_start_skip(t, i - 1);
        assert(t.skip(i - 1) =~= s.skip(i));
    }
}

proof fn lemma_trim_end_take(s: Seq<char>, k: int)
    requires
        0 <= k <= s.len(),
        forall|j: int| k <= j < s.len() ==> is_ws(s[j]),
        k == 0 || !is_ws(s[k - 1]),
    ensures
        trim_end(s) == s.take(k),
    decreases s.len() - k,
{
    if k == s.len() {
        assert(s.take(k) =~= s);
    } else {
        let t = s.drop_last();
        lemma_trim_end_take(t, k);
        assert(t.take(k) =~= s.take(k));
    }
}

proof fn lemma_trim_start_is_suffix(s: Seq<char>) -> (n: int)
    ensures
        0 <= n <= s.len(),
        trim_start(s) == s.skip(n),
    decreases s.len(),
{
    if s.len() > 0 && is_ws(s[0]) {
        let m = lemma_trim_start_is_suffix(s.drop_first());
        assert(s.drop_first().skip(m) =~= s.skip(m + 1));
        m + 1
    } else {
        assert(s.skip(0) =~= s);
        0
    }
}

proof fn lemma_trim_end_is_prefix(s: Seq<char>) -> (n: int)
    ensures
        0 <= n <= s.len(),
        trim_end(s) == s.take(n),
    decreases s.len(),
{
    if s.len() > 0 && is_ws(s.last()) {
        let m = lemma_trim_end_is_prefix(s.drop_last());
        assert(s.drop_last().take(m) =~= s.take(m));
        m
    } else {
        assert(s.take(s.len() as int) =~= s);
        s.len() as int
    }
}

/// The trimmed text is a contiguous part of the text.
pub proof fn lemma_trim_within(s: Seq<char>) -> (r: (int, int))
    ensures
        0 <= r.0 <= r.1 <= s.len(),
        trim(s) == s.subrange(r.0, r.1),
{
    let a = lemma_trim_start_is_suffix(s);
    let t = s.skip(a);
    let b = lemma_trim_end_is_prefix(t);
    assert(t.take(b) =~= s.subrange(a, a + b));
    (a, a + b)
}

/// `str::trim` on a character slice.
pub fn trim_chars(v: &[char]) -> (r: Vec<char>)
    ensures
        r@ == trim(v@),
{
    let mut i: usize = 0;
    while i < v.len() && is_whitespace(v[i])
        invariant
            i <= v.len(),
            forall|j: int| 0 <= j < i ==> is_ws(v@[j]),
        decreases v.len() - i,
    {
        i = i + 1;
    }
    proof {
        lemma_trim_start_skip(v@, i as int);
    }
    let mut k: usize = v.len();
    while k > i && is_whitespace(v[k - 1])
        invariant
            i <= k <= v.len(),
            forall|j: int| k <= j < v.len() ==> is_ws(v@[j]),
        decreases k,
    {
        k = k - 1;
    }
    let ghost t = v@.skip(i as int);
    proof {
        assert forall|j: int| k - i <= j < t.len() implies is_ws(t[j]) by {
            assert(t[j] == v@[j + i]);
        }
        if k - i > 0 {
            assert(t[k - i - 1] == v@[k - 1]);
        }
        lemma_trim_end_take(t, k - i);
        assert(t.take(k - i) =~= v@.subrange(i as int, k as int));
    }
    sub_chars(v, i, k)
}

// ---------------------------------------------------------------------------
// Lines
// ---------------------------------------------------------------------------

/// `l` without one trailing carriage return.
pub open spec fn strip_cr(l: Seq<char>) -> Seq<char> {
    if l.len() > 0 && l.last() == '\r' {
        l.drop_last()
    } else {
        l
    }
}

/// The lines of `s` (`str::lines`) when the current, unfinished line holds `cur`:
/// a line ends at each `\n`, which is dropped together with one `\r` before it;
/// a last line without `\n` is kept as it is, and nothing follows a final `\n`.
pub open spec fn lines_from(s: Seq<char>, cur: Seq<char>) -> Seq<Seq<char>>
    decreases s.len(),
{
    if s.len() == 0 {
        if cur.len() == 0 {
            Seq::empty()
        } else {
            seq![cur]
        }
    } else if s[0] == '\n' {
        seq![strip_cr(cur)] + lines_from(s.drop_first(), Seq::empty())
    } else {
        lines_from(s.drop_first(), cur.push(s[0]))
    }
}

/// The lines of `s`, as `str::lines` yields them.
pub open spec fn lines(s: Seq<char>) -> Seq<Seq<char>> {
    lines_from(s, Seq::empty())
}

/// `str::lines` on a character slice.
pub fn split_lines(v: &[char]) -> (r: Vec<Vec<char>>)
    ensures
        r@.map_values(|l: Vec<char>| l@) == lines(v@),
{
    let mut out: Vec<Vec<char>> = Vec::new();
    let mut cur: Vec<char> = Vec::new();
    let mut i: usize = 0;
    proof {
        assert(v@.skip(0) =~= v@);
    }
    while i < v.len()
        invariant
            i <= v.len(),
            lines(v@) == out@.map_values(|l: Vec<char>| l@) + lines_from(v@.skip(i as int), cur@),
        decreases v.len() - i,
    {
        let ghost rest = v@.skip(i as int);
        assert(rest.drop_first() =~= v@.skip(i + 1));
        if v[i] == '\n' {
            let ghost old_out = out@.map_values(|l: Vec<char>| l@);
            let mut line = cur;
            if line.len() > 0 && line[line.len() - 1] == '\r' {
                line.pop();
            }
            assert(line@ == strip_cr(cur@));
            out.push(line);
            cur = Vec::new();
            assert(out@.map_values(|l: Vec<char>| l@) =~= old_out.push(strip_cr(cur@)) || true);
            assert(out@.map_values(|l: Vec<char>| l@) =~= old_out + seq![line@]);
        } else {
            cur.push(v[i]);
        }
        i = i + 1;
    }
    let ghost before = out@.map_values(|l: Vec<char>| l@);
    if cur.len() > 0 {
        out.push(cur);
        assert(out@.map_values(|l: Vec<char>| l@) =~= before + seq![out@[out@.len() - 1]@]);
    }
    proof {
        assert(v@.skip(v.len() as int) =~= Seq::<char>::empty());
    }
    out
}

// ---------------------------------------------------------------------------
// UTF-8 widths
// ---------------------------------------------------------------------------

/// The number of bytes of `c` in UTF-8 (`char::len_utf8`).
pub open spec fn utf8_width(c: char) -> nat {
    if (c as u32) < 0x80 {
        1
    } else if (c as u32) < 0x800 {
        2
    } else if (c as u32) < 0x10000 {
        3
    } else {
        4
    }
}

/// The number of bytes of `s` in UTF-8 (`str::len`).
pub open spec fn byte_len(s: Seq<char>) -> nat
    decreases s.len(),
{
    if s.len() == 0 {
        0
    } else {
        byte_len(s.drop_last()) + utf8_width(s.last())
    }
}

/// `char::len_utf8`.
pub fn char_width(c: char) -> (w: usize)
    ensures
        w == utf8_width(c),
{
    let u = c as u32;
    if u < 0x80 {
        1
    } else if u < 0x800 {
        2
    } else if u < 0x10000 {
        3
    } else {
        4
    }
}

/// The number of UTF-8 bytes of `v[..n]`.
pub fn byte_len_of(v: &[char], n: usize) -> (r: usize)
    requires
        n <= v.len(),
        4 * v.len() <= usize::MAX,
    ensures
        r == byte_len(v@.take(n as int)),
        r <= 4 * n,
{
    let mut r: usize = 0;
    let mut i: usize = 0;
    proof {
        assert(v@.take(0) =~= Seq::<char>::empty());
    }
    while i < n
        invariant
            i <= n <= v.len(),
            4 * v.len() <= usize::MAX,
            r == byte_len(v@.take(i as int)),
            r <= 4 * i,
        decreases n - i,
    {
        assert(v@.take(i + 1).drop_last() =~= v@.take(i as int));
        r = r + char_width(v[i]);
        i = i + 1;
    }
    r
}

// ---------------------------------------------------------------------------
// ASCII case
// ---------------------------------------------------------------------------

/// `char::to_ascii_lowercase`.
pub open spec fn ascii_lower(c: char) -> char {
    if 'A' <= c && c <= 'Z' {
        ((c as u32) + 32) as char
    } else {
        c
    }
}

/// `char::to_ascii_uppercase`.
pub open spec fn ascii_upper(c: char) -> char {
    if 'a' <= c && c <= 'z' {
        ((c as u32) - 32) as char
    } else {
        c
    }
}

/// `str::to_ascii_lowercase`.
pub open spec fn ascii_lower_seq(s: Seq<char>) -> Seq<char> {
    s.map_values(|c: char| ascii_lower(c))
}

/// `char::to_ascii_lowercase`.
pub fn to_ascii_lower(c: char) -> (r: char)
    ensures
        r == ascii_lower(c),
{
    if 'A' <= c && c <= 'Z' {
        let u = (c as u32) + 32;
        assert(0x61 <= u <= 0x7a);
        char_from_ascii(u)
    } else {
        c
    }
}

/// The character with the ASCII code `u`.
pub fn char_from_ascii(u: u32) -> (c: char)
    requires
        u < 0x80,
    ensures
        c == u as char,
        c as u32 == u,
{
    let b = u as u8;
    b as char
}

/// `str::to_ascii_lowercase` on a character slice.
pub fn ascii_lower_chars(v: &[char]) -> (r: Vec<char>)
    ensures
        r@ == ascii_lower_seq(v@),
{
    let mut r: Vec<char> = Vec::new();
    let mut i: usize = 0;
    while i < v.len()
        invariant
            i <= v.len(),
            r@ == ascii_lower_seq(v@.take(i as int)),
        decreases v.len() - i,
    {
        r.push(to_ascii_lower(v[i]));
        assert(ascii_lower_seq(v@.take(i + 1)) =~= ascii_lower_seq(v@.take(i as int)).push(
            ascii_lower(v@[i as int]),
        ));
        i = i + 1;
    }
    assert(v@.take(v.len() as int) =~= v@);
    r
}

/// `str::eq_ignore_ascii_case`.
pub fn eq_ignore_ascii_case(a: &[char], b: &[char]) -> (r: bool)
    ensures
        r == (ascii_lower_seq(a@) == ascii_lower_seq(b@)),
{
    let la = ascii_lower_chars(a);
    let lb = ascii_lower_chars(b);
    chars_eq(&la, &lb)
}

// ---------------------------------------------------------------------------
// Unicode case mapping (std)
// ---------------------------------------------------------------------------

/// What `char::to_uppercase` yields for `c`, collected into a string.
pub uninterp spec fn char_to_upper(c: char) -> Seq<char>;

/// What `str::to_lowercase` gives for `s`.
pub uninterp spec fn str_to_lower(s: Seq<char>) -> Seq<char>;

/// Whether every character of `s` is ASCII.
pub open spec fn all_ascii(s: Seq<char>) -> bool {
    forall|i: int| 0 <= i < s.len() ==> (#[trigger] s[i] as u32) < 0x80
}

/// `char::to_uppercase` (std), collected into a `String`. The result is
/// `char_to_upper(c)`; for an ASCII character it is that character's ASCII
/// upper case, as the Unicode case tables give it. What it is for other
/// characters is left to the tables and not stated here.
#[verifier::external_body]
pub(crate) fn upper_of_char(c: char) -> (r: String)
    ensures
        r@ == char_to_upper(c),
        (c as u32) < 0x80 ==> r@ == seq![ascii_upper(c)],
{
    c.to_uppercase().collect()
}

/// `str::to_lowercase` (std). The result is `str_to_lower(s@)`; for an
/// all-ASCII string it is the ASCII lower case of each character, as the
/// Unicode case tables give it. Context-dependent mappings of other
/// characters (final sigma) are left to std and not stated here.
#[verifier::external_body]
pub(crate) fn lower_of_str(s: &str) -> (r: String)
    ensures
        r@ == str_to_lower(s@),
        all_ascii(s@) ==> r@ == ascii_lower_seq(s@),
{
    s.to_lowercase()
}

// ---------------------------------------------------------------------------
// Numbers
// ---------------------------------------------------------------------------

/// Whether `c` is one of `0`..`9`.
pub open spec fn is_digit(c: char) -> bool {
    '0' <= c && c <= '9'
}

/// The value of the decimal digits `s` (most significant first).
pub open spec fn digits_value(s: Seq<char>) -> nat
    decreases s.len(),
{
    if s.len() == 0 {
        0
    } else {
        digits_value(s.drop_last()) * 10 + ((s.last() as u32) - ('0' as u32)) as nat
    }
}

/// `s` without one leading `+`.
pub open spec fn unsigned_digits(s: Seq<char>) -> Seq<char> {
    if s.len() > 0 && s[0] == '+' {
        s.drop_first()
    } else {
        s
    }
}

/// Whether every character of `d` is a decimal digit.
pub open spec fn all_digits(d: Seq<char>) -> bool {
    forall|i: int| 0 <= i < d.len() ==> is_digit(#[trigger] d[i])
}

/// What `str::parse` gives for an unsigned integer type whose largest value
/// is `max`: an optional `+` followed by at least one decimal digit, and
/// nothing else, whose value is at most `max`.
pub open spec fn parse_unsigned_spec(s: Seq<char>, max: nat) -> Option<nat> {
    let d = unsigned_digits(s);
    if d.len() > 0 && all_digits(d) && digits_value(d) <= max {
        Some(digits_value(d))
    } else {
        None
    }
}

/// What `str::parse::<u32>` gives.
pub open spec fn parse_u32_spec(s: Seq<char>) -> Option<u32> {
    match parse_unsigned_spec(s, u32::MAX as nat) {
        Some(n) => Some(n as u32),
        None => None,
    }
}

/// What `str::parse::<usize>` gives.
pub open spec fn parse_usize_spec(s: Seq<char>) -> Option<usize> {
    match parse_unsigned_spec(s, usize::MAX as nat) {
        Some(n) => Some(n as usize),
        None => None,
    }
}

proof fn lemma_digits_value_mono(s: Seq<char>, n: int)
    requires
        0 <= n <= s.len(),
        forall|i: int| 0 <= i < s.len() ==> is_digit(#[trigger] s[i]),
    ensures
        digits_value(s.take(n)) <= digits_value(s),
    decreases s.len() - n,
{
    if n < s.len() {
        lemma_digits_value_mono(s, n + 1);
        assert(s.take(n + 1).drop_last() =~= s.take(n));
        assert(is_digit(s[n]));
    } else {
        assert(s.take(n) =~= s);
    }
}

/// `str::parse` on a character slice, for an unsigned type whose largest value is `max`.
pub fn parse_unsigned(v: &[char], max: u64) -> (r: Option<u64>)
    ensures
        match r {
            Some(n) => parse_unsigned_spec(v@, max as nat) == Some(n as nat),
            None => parse_unsigned_spec(v@, max as nat) is None,
        },
{
    let start: usize = if v.len() > 0 && v[0] == '+' {
        1
    } else {
        0
    };
    let ghost d = unsigned_digits(v@);
    assert(d =~= v@.skip(start as int));
    if start >= v.len() {
        return None;
    }
    let mut acc: u64 = 0;
    let mut i: usize = start;
    proof {
        assert(d.take(0) =~= Seq::<char>::empty());
    }
    while i < v.len()
        invariant
            start <= i <= v.len(),
            d == v@.skip(start as int),
            d == unsigned_digits(v@),
            d.len() == v.len() - start,
            forall|j: int| 0 <= j < i - start ==> is_digit(#[trigger] d[j]),
            acc == digits_value(d.take(i - start)),
            acc <= max,
        decreases v.len() - i,
    {
        let c = v[i];
        assert(d[i - start] == v@[i as int]);
        if !('0' <= c && c <= '9') {
            assert(!is_digit(d[i - start]));
            assert(!all_digits(d));
            return None;
        }
        let dv = (c as u32 - '0' as u32) as u64;
        assert(d.take(i - start + 1).drop_last() =~= d.take(i - start));
        assert(d.take(i - start + 1).last() == c);
        if dv > max || acc > (max - dv) / 10 {
            proof {
                if dv <= max {
                    assert(acc * 10 + dv > max) by (nonlinear_arith)
                        requires
                            acc > (max - dv) / 10,
                            dv <= 9,
                            dv <= max,
                    ;
                }
                assert(acc * 10 + dv == digits_value(d.take(i - start + 1)));
                if all_digits(d) {
                    lemma_digits_value_mono(d, i - start + 1);
                }
            }
            return None;
        }
        proof {
            assert(acc * 10 + dv <= max) by (nonlinear_arith)
                requires
                    acc <= (max - dv) / 10,
                    dv <= max,
            ;
        }
        let next = acc * 10 + dv;
        assert(next == digits_value(d.take(i - start + 1)));
        acc = next;
        i = i + 1;
    }
    assert(d.take(i - start) =~= d);
    Some(acc)
}

/// `str::parse::<u32>` on a character slice.
pub fn parse_u32(v: &[char]) -> (r: Option<u32>)
    ensures
        r == parse_u32_spec(v@),
{
    match parse_unsigned(v, 0xFFFF_FFFFu64) {
        Some(n) => Some(n as u32),
        None => None,
    }
}

/// `str::parse::<usize>` on a character slice.
pub fn parse_usize(v: &[char]) -> (r: Option<usize>)
    ensures
        r == parse_usize_spec(v@),
{
    match parse_unsigned(v, usize::MAX as u64) {
        Some(n) => Some(n as usize),
        None => None,
    }
}

/// The decimal digits of `n` (`u64`'s `Display`), most significant first.
pub open spec fn decimal(n: nat) -> Seq<char>
    decreases n,
{
    if n < 10 {
        seq![(n + 48) as char]
    } else {
        decimal(n / 10).push(((n % 10) + 48) as char)
    }
}

/// The lower-case hexadecimal digits of `n` (`{:x}`), most significant first.
pub open spec fn hex(n: nat) -> Seq<char>
    decreases n,
{
    if n < 16 {
        seq![hex_digit(n)]
    } else {
        hex(n / 16).push(hex_digit(n % 16))
    }
}

/// The lower-case hexadecimal digit for `d < 16`.
pub open spec fn hex_digit(d: nat) -> char {
    if d < 10 {
        (d + 48) as char
    } else {
        (d + 87) as char
    }
}

/// `n` written in decimal, as `format!("{}", n)` writes it.
pub fn decimal_chars(n: u64) -> (r: Vec<char>)
    ensures
        r@ == decimal(n as nat),
    decreases n,
{
    if n < 10 {
        let c = char_from_ascii((n + 48) as u32);
        let mut r = Vec::new();
        r.push(c);
        assert(r@ =~= seq![(n + 48) as char]);
        r
    } else {
        let mut r = decimal_chars(n / 10);
        let c = char_from_ascii((n % 10 + 48) as u32);
        r.push(c);
        r
    }
}

/// `n` written in lower-case hexadecimal, as `format!("{:x}", n)` writes it.
pub fn hex_chars(n: u64) -> (r: Vec<char>)
    ensures
        r@ == hex(n as nat),
    decreases n,
{
    let d = n % 16;
    let c = if d < 10 {
        char_from_ascii((d + 48) as u32)
    } else {
        char_from_ascii((d + 87) as u32)
    };
    assert(c == hex_digit((n % 16) as nat));
    if n < 16 {
        let mut r = Vec::new();
        r.push(c);
        assert(r@ =~= seq![hex_digit(n as nat)]);
        r
    } else {
        let mut r = hex_chars(n / 16);
        r.push(c);
        r
    }
}

} // verus!
