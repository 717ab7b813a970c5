//! Reading and rewriting REAPER state-chunk text (RPP): the end of a
//! `<TAG ... >` block, the `GUID` line of an item chunk, and the
//! replacement of a track's `<FXCHAIN` block.
use vstd::prelude::*;

use crate::menu::{split_chars, split_from, split_on};
use crate::text::{
    last_index_of, append_chars, byte_len, byte_len_of, chars_of, contains_seq, find_chars, has_prefix, lines,
    occurs_at, split_lines, starts_with_chars, string_of, sub_chars, trim, trim_chars,
};

verus! {

/// The length of `s` in the unit chosen: UTF-8 bytes or characters.
pub open spec fn measure(s: Seq<char>, bytes: bool) -> int {
    if bytes {
        byte_len(s) as int
    } else {
        s.len() as int
    }
}

/// Walks the lines `ls` from line `i` on, at nesting `depth`, with `offset`
/// counting every earlier line (with its `\r`, if any) and its `\n`. A line whose trimmed text
/// starts with `<` opens a block; a line whose trimmed text is `>` closes
/// one, and when that brings the depth to zero the result is the position
/// of that line's `>`.
pub open spec fn block_end_scan(
    ls: Seq<Seq<char>>,
    i: int,
    depth: int,
    offset: int,
    bytes: bool,
) -> Option<int>
    decreases ls.len() - i,
{
    if i < 0 || i >= ls.len() {
        None
    } else {
        let t = trim(ls[i]);
        let d1 = if t.len() > 0 && t[0] == '<' {
            depth + 1
        } else {
            depth
        };
        if t == seq!['>'] && d1 - 1 == 0 {
            Some(offset + measure(ls[i].take(last_index_of(ls[i], '>')), bytes))
        } else {
            let d2 = if t == seq!['>'] {
                d1 - 1
            } else {
                d1
            };
            block_end_scan(ls, i + 1, d2, offset + measure(ls[i], bytes) + 1, bytes)
        }
    }
}

/// The position in `s` of the `>` that closes the block opened on the
/// first opening line of `s`, counted in UTF-8 bytes (`bytes`) or
/// characters. The lines are the pieces of `s` between its `\n`s, each
/// kept with the `\r` of a `\r\n` ending (trimming drops it), so that the
/// position counts every character of the text before the `>`.
pub open spec fn block_end_spec(s: Seq<char>, bytes: bool) -> Option<int> {
    block_end_scan(split_on(s, '\n'), 0, 0, 0, bytes)
}

proof fn lemma_last_index_bounds(s: Seq<char>, c: char)
    ensures
        -1 <= last_index_of(s, c) < s.len(),
        last_index_of(s, c) >= 0 ==> s[last_index_of(s, c)] == c,
        forall|j: int| last_index_of(s, c) < j < s.len() ==> s[j] != c,
    decreases s.len(),
{
    if s.len() > 0 && s.last() != c {
        lemma_last_index_bounds(s.drop_last(), c);
        let k = last_index_of(s.drop_last(), c);
        assert forall|j: int| k < j < s.len() implies s[j] != c by {
            if j < s.len() - 1 {
                assert(s[j] == s.drop_last()[j]);
            }
        }
    }
}

fn last_index_of_exec(s: &[char], c: char) -> (r: Option<usize>)
    ensures
        match r {
            Some(k) => k == last_index_of(s@, c),
            None => last_index_of(s@, c) == -1,
        },
{
    let mut k: usize = s.len();
    proof {
        assert(s@.take(s.len() as int) =~= s@);
    }
    while k > 0
        invariant
            k <= s.len(),
            last_index_of(s@, c) == last_index_of(s@.take(k as int), c),
        decreases k,
    {
        let ghost t = s@.take(k as int);
        assert(t.drop_last() =~= s@.take(k - 1));
        if s[k - 1] == c {
            return Some(k - 1);
        }
        k = k - 1;
    }
    None
}

proof fn lemma_measure_take(l: Seq<char>, n: int, bytes: bool)
    requires
        0 <= n <= l.len(),
    ensures
        measure(l.take(n), bytes) <= measure(l, bytes),
    decreases l.len() - n,
{
    if n < l.len() {
        lemma_measure_take(l, n + 1, bytes);
        assert(l.take(n + 1).drop_last() =~= l.take(n));
    } else {
        assert(l.take(n) =~= l);
    }
}

proof fn lemma_byte_len_concat(a: Seq<char>, b: Seq<char>)
    ensures
        byte_len(a + b) == byte_len(a) + byte_len(b),
    decreases b.len(),
{
    if b.len() == 0 {
        assert(a + b =~= a);
    } else {
        lemma_byte_len_concat(a, b.drop_last());
        assert((a + b).drop_last() =~= a + b.drop_last());
    }
}

proof fn lemma_byte_len_bound(s: Seq<char>)
    ensures
        byte_len(s) <= 4 * s.len(),
    decreases s.len(),
{
    if s.len() > 0 {
        lemma_byte_len_bound(s.drop_last());
    }
}

/// The length of the lines `ls` with one newline after each.
pub open spec fn joined_len(ls: Seq<Seq<char>>, bytes: bool) -> int
    decreases ls.len(),
{
    if ls.len() == 0 {
        0
    } else {
        measure(ls[0], bytes) + 1 + joined_len(ls.drop_first(), bytes)
    }
}

proof fn lemma_joined_concat(a: Seq<Seq<char>>, b: Seq<Seq<char>>, bytes: bool)
    ensures
        joined_len(a + b, bytes) == joined_len(a, bytes) + joined_len(b, bytes),
    decreases a.len(),
{
    if a.len() == 0 {
        assert(a + b =~= b);
    } else {
        lemma_joined_concat(a.drop_first(), b, bytes);
        assert((a + b).drop_first() =~= a.drop_first() + b);
        assert((a + b)[0] == a[0]);
    }
}

proof fn lemma_measure_nonneg(s: Seq<char>, bytes: bool)
    ensures
        measure(s, bytes) >= 0,
{
}

proof fn lemma_measure_front(s: Seq<char>, bytes: bool)
    requires
        s.len() > 0,
    ensures
        measure(s, bytes) == measure(s.drop_first(), bytes) + (if bytes {
            crate::text::utf8_width(s[0]) as int
        } else {
            1
        }),
{
    lemma_byte_len_concat(seq![s[0]], s.drop_first());
    assert(seq![s[0]] + s.drop_first() =~= s);
    assert(seq![s[0]].drop_last() =~= Seq::<char>::empty());
    assert(byte_len(Seq::<char>::empty()) == 0);
    assert(seq![s[0]].last() == s[0]);
    assert(byte_len(seq![s[0]]) == crate::text::utf8_width(s[0]));
}

proof fn lemma_measure_push(s: Seq<char>, c: char, bytes: bool)
    ensures
        measure(s.push(c), bytes) == measure(s, bytes) + (if bytes {
            crate::text::utf8_width(c) as int
        } else {
            1
        }),
{
    assert(s.push(c).drop_last() =~= s);
}

proof fn lemma_split_bound(s: Seq<char>, cur: Seq<char>, bytes: bool)
    ensures
        joined_len(split_from(s, '\n', cur), bytes) <= measure(s, bytes) + measure(cur, bytes) + 1,
        forall|j: int|
            0 <= j < split_from(s, '\n', cur).len() ==> measure(
                #[trigger] split_from(s, '\n', cur)[j],
                bytes,
            ) <= measure(s, bytes) + measure(cur, bytes),
    decreases s.len(),
{
    lemma_measure_nonneg(cur, bytes);
    lemma_measure_nonneg(s, bytes);
    if s.len() == 0 {
        assert(joined_len(seq![cur].drop_first(), bytes) == 0);
    } else {
        lemma_measure_front(s, bytes);
        let rest = s.drop_first();
        if s[0] == '\n' {
            lemma_split_bound(rest, Seq::empty(), bytes);
            let tail = split_from(rest, '\n', Seq::empty());
            lemma_joined_concat(seq![cur], tail, bytes);
            assert(joined_len(seq![cur].drop_first(), bytes) == 0);
            let all = split_from(s, '\n', cur);
            assert(all == seq![cur] + tail);
            assert forall|j: int| 0 <= j < all.len() implies measure(#[trigger] all[j], bytes)
                <= measure(s, bytes) + measure(cur, bytes) by {
                if j > 0 {
                    assert(all[j] == tail[j - 1]);
                }
            }
        } else {
            lemma_measure_push(cur, s[0], bytes);
            lemma_split_bound(rest, cur.push(s[0]), bytes);
        }
    }
}

proof fn lemma_joined_ge_len(ls: Seq<Seq<char>>, bytes: bool)
    ensures
        joined_len(ls, bytes) >= ls.len(),
    decreases ls.len(),
{
    if ls.len() > 0 {
        lemma_measure_nonneg(ls[0], bytes);
        lemma_joined_ge_len(ls.drop_first(), bytes);
    }
}

/// Scans the lines of `v` for the end of the first block; gives the
/// position of its closing `>` in bytes and in characters.
fn scan_block_end(v: &[char]) -> (r: Option<(usize, usize)>)
    requires
        4 * v.len() + 4 <= usize::MAX,
    ensures
        match r {
            Some((b, c)) => block_end_spec(v@, true) == Some(b as int) && block_end_spec(
                v@,
                false,
            ) == Some(c as int),
            None => block_end_spec(v@, true) is None && block_end_spec(v@, false) is None,
        },
{
    let ls = split_chars(v, '\n');
    let ghost lv = ls@.map_values(|l: Vec<char>| l@);
    proof {
        lemma_split_bound(v@, Seq::empty(), true);
        lemma_split_bound(v@, Seq::empty(), false);
        lemma_byte_len_bound(v@);
        lemma_joined_ge_len(lv, false);
        assert(lv.take(0) =~= Seq::<Seq<char>>::empty());
    }
    let mut depth: i64 = 0;
    let mut boff: usize = 0;
    let mut coff: usize = 0;
    let mut i: usize = 0;
    while i < ls.len()
        invariant
            lv == ls@.map_values(|l: Vec<char>| l@),
            lv == split_on(v@, '\n'),
            4 * v.len() + 4 <= usize::MAX,
            lv.len() <= v.len() + 1,
            i <= ls.len(),
            -(i as int) <= depth <= i,
            forall|j: int| 0 <= j < lv.len() ==> measure(#[trigger] lv[j], false) <= v.len(),
            joined_len(lv, true) <= 4 * v.len() + 1,
            joined_len(lv, false) <= v.len() + 1,
            block_end_spec(v@, true) == block_end_scan(lv, i as int, depth as int, boff as int, true),
            block_end_spec(v@, false) == block_end_scan(lv, i as int, depth as int, coff as int, false),
            boff == joined_len(lv.take(i as int), true),
            coff == joined_len(lv.take(i as int), false),
        decreases ls.len() - i,
    {
        let line = &ls[i];
        let ghost l = lv[i as int];
        assert(line@ == l);
        assert(measure(lv[i as int], false) <= v.len());
        proof {
            lemma_joined_concat(lv.take(i as int), lv.skip(i as int), true);
            lemma_joined_concat(lv.take(i as int), lv.skip(i as int), false);
            assert(lv.take(i as int) + lv.skip(i as int) =~= lv);
            assert(lv.skip(i as int)[0] == l);
            assert(lv.skip(i as int).drop_first() =~= lv.skip(i + 1));
            lemma_joined_ge_len(lv.skip(i + 1), true);
            lemma_joined_ge_len(lv.skip(i + 1), false);
            assert(lv.take(i + 1) =~= lv.take(i as int) + seq![l]);
            lemma_joined_concat(lv.take(i as int), seq![l], true);
            lemma_joined_concat(lv.take(i as int), seq![l], false);
            assert(seq![l].drop_first() =~= Seq::<Seq<char>>::empty());
            assert(seq![l][0] == l);
            assert(joined_len(Seq::<Seq<char>>::empty(), true) == 0);
            assert(joined_len(Seq::<Seq<char>>::empty(), false) == 0);
            assert(joined_len(seq![l], true) == measure(l, true) + 1);
            assert(joined_len(seq![l], false) == measure(l, false) + 1);
        }
        let t = trim_chars(line);
        let opens = t.len() > 0 && t[0] == '<';
        let d1: i64 = if opens {
            depth + 1
        } else {
            depth
        };
        let is_close = t.len() == 1 && t[0] == '>';
        assert(is_close == (t@ == seq!['>'])) by {
            if t@.len() == 1 && t@[0] == '>' {
                assert(t@ =~= seq!['>']);
            }
        }
        let lb = byte_len_of(line, line.len());
        assert(line@.take(line@.len() as int) =~= line@);
        if is_close && d1 - 1 == 0 {
            let found = last_index_of_exec(line, '>');
            proof {
                lemma_last_index_bounds(l, '>');
                let (a, b) = crate::text::lemma_trim_within(l);
                assert(trim(l)[0] == l[a]);
            }
            let k = match found {
                Some(k) => k,
                None => {
                    proof {
                        let (a, b) = crate::text::lemma_trim_within(l);
                        assert(trim(l)[0] == l[a]);
                        assert(l[a] != '>');
                    }
                    0
                },
            };
            let bk = byte_len_of(line, k);
            proof {
                lemma_measure_take(l, k as int, true);
            }
            return Some((boff + bk, coff + k));
        }
        let d2: i64 = if is_close {
            d1 - 1
        } else {
            d1
        };
        boff = boff + lb + 1;
        coff = coff + line.len() + 1;
        depth = d2;
        i = i + 1;
    }
    None
}


/// The lines `ls`, each followed by a `\n`.
pub open spec fn with_newlines(ls: Seq<Seq<char>>) -> Seq<char>
    decreases ls.len(),
{
    if ls.len() == 0 {
        Seq::empty()
    } else {
        ls[0] + seq!['\n'] + with_newlines(ls.drop_first())
    }
}

proof fn lemma_with_newlines_measure(ls: Seq<Seq<char>>, bytes: bool)
    ensures
        measure(with_newlines(ls), bytes) == joined_len(ls, bytes),
    decreases ls.len(),
{
    if ls.len() > 0 {
        let rest = ls.drop_first();
        lemma_with_newlines_measure(rest, bytes);
        lemma_byte_len_concat(ls[0], seq!['\n']);
        lemma_byte_len_concat(ls[0] + seq!['\n'], with_newlines(rest));
        assert(seq!['\n'].drop_last() =~= Seq::<char>::empty());
        assert(byte_len(Seq::<char>::empty()) == 0);
        assert(seq!['\n'].last() == '\n');
        assert(byte_len(seq!['\n']) == 1);
    }
}

proof fn lemma_with_newlines_concat(a: Seq<Seq<char>>, b: Seq<Seq<char>>)
    ensures
        with_newlines(a + b) == with_newlines(a) + with_newlines(b),
    decreases a.len(),
{
    if a.len() == 0 {
        assert(a + b =~= b);
        assert(with_newlines(a) + with_newlines(b) =~= with_newlines(b));
    } else {
        lemma_with_newlines_concat(a.drop_first(), b);
        assert((a + b).drop_first() =~= a.drop_first() + b);
        assert((a + b)[0] == a[0]);
        assert(with_newlines(a + b) =~= with_newlines(a) + with_newlines(b));
    }
}

proof fn lemma_with_newlines_one(x: Seq<char>)
    ensures
        with_newlines(seq![x]) == x + seq!['\n'],
{
    let one = seq![x];
    assert(one.drop_first() =~= Seq::<Seq<char>>::empty());
    assert(with_newlines(Seq::<Seq<char>>::empty()) == Seq::<char>::empty());
    assert(with_newlines(one) == one[0] + seq!['\n'] + with_newlines(one.drop_first()));
    assert(x + seq!['\n'] + Seq::<char>::empty() =~= x + seq!['\n']);
}

proof fn lemma_split_rebuilds(s: Seq<char>, cur: Seq<char>)
    ensures
        split_from(s, '\n', cur).len() >= 1,
        cur + s == with_newlines(split_from(s, '\n', cur).drop_last()) + split_from(s, '\n', cur).last(),
    decreases s.len(),
{
    let p = split_from(s, '\n', cur);
    if s.len() == 0 {
        assert(p == seq![cur]);
        assert(p.drop_last() =~= Seq::<Seq<char>>::empty());
        assert(cur + s =~= cur);
        assert(with_newlines(Seq::<Seq<char>>::empty()) + cur =~= cur);
    } else {
        let rest = s.drop_first();
        if s[0] == '\n' {
            let q = split_from(rest, '\n', Seq::empty());
            lemma_split_rebuilds(rest, Seq::empty());
            assert(p == seq![cur] + q);
            assert(p.drop_last() =~= seq![cur] + q.drop_last());
            assert(p.last() == q.last());
            lemma_with_newlines_concat(seq![cur], q.drop_last());
            lemma_with_newlines_one(cur);
            assert(Seq::<char>::empty() + rest =~= rest);
            assert(cur + s =~= cur + seq!['\n'] + rest);
            assert(cur + s =~= with_newlines(p.drop_last()) + p.last());
        } else {
            lemma_split_rebuilds(rest, cur.push(s[0]));
            assert(p == split_from(rest, '\n', cur.push(s[0])));
            assert(cur + s =~= cur.push(s[0]) + rest);
        }
    }
}

proof fn lemma_line_in_text(s: Seq<char>, i: int) -> (tail: Seq<char>)
    requires
        0 <= i < split_on(s, '\n').len(),
    ensures
        s == with_newlines(split_on(s, '\n').take(i)) + split_on(s, '\n')[i] + tail,
{
    let p = split_on(s, '\n');
    let n = p.len() as int;
    lemma_split_rebuilds(s, Seq::empty());
    assert(Seq::<char>::empty() + s =~= s);
    if i == n - 1 {
        assert(p.drop_last() =~= p.take(i));
        assert(s =~= with_newlines(p.take(i)) + p[i] + Seq::<char>::empty());
        Seq::empty()
    } else {
        let mid = p.subrange(i + 1, n - 1);
        assert(p.drop_last() =~= p.take(i) + (seq![p[i]] + mid));
        lemma_with_newlines_concat(p.take(i), seq![p[i]] + mid);
        lemma_with_newlines_concat(seq![p[i]], mid);
        lemma_with_newlines_one(p[i]);
        let tail = seq!['\n'] + with_newlines(mid) + p.last();
        assert(s =~= with_newlines(p.take(i)) + p[i] + tail);
        tail
    }
}

proof fn lemma_scan_hits(ls: Seq<Seq<char>>, i: int, depth: int, ob: int, oc: int)
    requires
        0 <= i <= ls.len(),
        oc == joined_len(ls.take(i), false),
        ob == joined_len(ls.take(i), true),
    ensures
        match block_end_scan(ls, i, depth, oc, false) {
            Some(k) => exists|i2: int|
                i <= i2 < ls.len() && 0 <= #[trigger] last_index_of(ls[i2], '>') && k == joined_len(ls.take(i2), false)
                    + last_index_of(ls[i2], '>') && block_end_scan(ls, i, depth, ob, true) == Some(
                    joined_len(ls.take(i2), true) + byte_len(ls[i2].take(last_index_of(ls[i2], '>'))),
                ),
            None => block_end_scan(ls, i, depth, ob, true) is None,
        },
    decreases ls.len() - i,
{
    if i < ls.len() {
        let l = ls[i];
        let t = trim(l);
        let d1 = if t.len() > 0 && t[0] == '<' { depth + 1 } else { depth };
        if t == seq!['>'] && d1 - 1 == 0 {
            let (a, b) = crate::text::lemma_trim_within(l);
            assert(t[0] == l[a]);
            lemma_last_index_bounds(l, '>');
            assert(last_index_of(l, '>') >= 0);
            assert(l.take(last_index_of(l, '>')).len() == last_index_of(l, '>'));
        } else {
            let d2 = if t == seq!['>'] { d1 - 1 } else { d1 };
            lemma_joined_concat(ls.take(i), seq![l], true);
            lemma_joined_concat(ls.take(i), seq![l], false);
            assert(ls.take(i + 1) =~= ls.take(i) + seq![l]);
            assert(seq![l].drop_first() =~= Seq::<Seq<char>>::empty());
            assert(seq![l][0] == l);
            assert(joined_len(Seq::<Seq<char>>::empty(), true) == 0);
            assert(joined_len(Seq::<Seq<char>>::empty(), false) == 0);
            lemma_scan_hits(ls, i + 1, d2, ob + measure(l, true) + 1, oc + measure(l, false) + 1);
        }
    }
}

/// The end of a block is the position of a `>` of the text: counted in
/// characters it is the index of that `>`, and counted in bytes it is the
/// UTF-8 length of the text before it, whatever the line endings.
pub proof fn lemma_block_end_is_closing_bracket(s: Seq<char>)
    ensures
        match block_end_spec(s, false) {
            Some(k) => 0 <= k < s.len() && s[k] == '>' && block_end_spec(s, true) == Some(byte_len(s.take(k)) as int),
            None => block_end_spec(s, true) is None,
        },
{
    let ls = split_on(s, '\n');
    assert(ls.take(0) =~= Seq::<Seq<char>>::empty());
    assert(joined_len(Seq::<Seq<char>>::empty(), true) == 0);
    assert(joined_len(Seq::<Seq<char>>::empty(), false) == 0);
    lemma_scan_hits(ls, 0, 0, 0, 0);
    if let Some(k) = block_end_spec(s, false) {
        let i2 = choose|i2: int|
            0 <= i2 < ls.len() && 0 <= #[trigger] last_index_of(ls[i2], '>') && k == joined_len(ls.take(i2), false)
                + last_index_of(ls[i2], '>') && block_end_scan(ls, 0, 0, 0, true) == Some(
                joined_len(ls.take(i2), true) + byte_len(ls[i2].take(last_index_of(ls[i2], '>'))),
            );
        let l = ls[i2];
        let li = last_index_of(l, '>');
        lemma_last_index_bounds(l, '>');
        let tail = lemma_line_in_text(s, i2);
        let pre = with_newlines(ls.take(i2));
        lemma_with_newlines_measure(ls.take(i2), false);
        lemma_with_newlines_measure(ls.take(i2), true);
        assert(pre.len() == joined_len(ls.take(i2), false));
        assert(s[pre.len() + li] == l[li]);
        assert(s.take(k) =~= pre + l.take(li));
        lemma_byte_len_concat(pre, l.take(li));
    }
}

/// Find the byte offset of the closing `>` of an RPP block.
///
/// RPP opens a block with a line whose trimmed text starts with `<TAG` and
/// closes it with a line whose trimmed text is `>`. The lines are walked
/// counting the nesting depth; the result is the byte offset, in
/// `block_text`, of the `>` that brings the depth back to zero, with `\n`
/// and `\r\n` line endings alike counted byte for byte.
pub fn find_block_end(block_text: &str) -> (r: Option<usize>)
    requires
        4 * block_text@.len() + 4 <= usize::MAX,
    ensures
        match r {
            Some(b) => block_end_spec(block_text@, true) == Some(b as int),
            None => block_end_spec(block_text@, true) is None,
        },
{
    let v = chars_of(block_text);
    match scan_block_end(&v) {
        Some((b, _)) => Some(b),
        None => None,
    }
}

/// The first line of `ls` from line `i` on that starts with `GUID `, with
/// that prefix removed and the rest trimmed.
pub open spec fn guid_line_scan(ls: Seq<Seq<char>>, i: int) -> Option<Seq<char>>
    decreases ls.len() - i,
{
    if i < 0 || i >= ls.len() {
        None
    } else if has_prefix(ls[i], "GUID "@) {
        Some(trim(ls[i].skip(5)))
    } else {
        guid_line_scan(ls, i + 1)
    }
}

/// The GUID in a state chunk: the trimmed rest of its first line that
/// starts with `GUID `.
pub open spec fn chunk_guid_spec(chunk: Seq<char>) -> Option<Seq<char>> {
    guid_line_scan(lines(chunk), 0)
}

/// Extract the GUID from a REAPER state chunk, from its first line of the
/// form `GUID {12345678-1234-1234-1234-123456789ABC}`.
pub fn extract_guid_from_chunk(chunk: &str) -> (r: Option<String>)
    ensures
        match r {
            Some(g) => chunk_guid_spec(chunk@) == Some(g@),
            None => chunk_guid_spec(chunk@) is None,
        },
{
    let v = chars_of(chunk);
    let ls = split_lines(&v);
    let ghost lv = ls@.map_values(|l: Vec<char>| l@);
    let prefix = chars_of("GUID ");
    proof {
        reveal_strlit("GUID ");
    }
    let mut i: usize = 0;
    while i < ls.len()
        invariant
            lv == ls@.map_values(|l: Vec<char>| l@),
            lv == lines(chunk@),
            prefix@ == "GUID "@,
            prefix@.len() == 5,
            i <= ls.len(),
            chunk_guid_spec(chunk@) == guid_line_scan(lv, i as int),
        decreases ls.len() - i,
    {
        let line = &ls[i];
        assert(line@ == lv[i as int]);
        if starts_with_chars(line, &prefix) {
            let rest = sub_chars(line, 5, line.len());
            assert(rest@ =~= line@.skip(5));
            let t = trim_chars(&rest);
            return Some(string_of(&t));
        }
        i = i + 1;
    }
    None
}

/// The first index at which `p` occurs in `s`.
pub open spec fn first_occurrence(s: Seq<char>, p: Seq<char>) -> int {
    choose|i: int| occurs_at(s, p, i) && forall|j: int| 0 <= j < i ==> !occurs_at(s, p, j)
}

proof fn lemma_first_occurrence(s: Seq<char>, p: Seq<char>, i: int)
    requires
        occurs_at(s, p, i),
        forall|j: int| 0 <= j < i ==> !occurs_at(s, p, j),
    ensures
        first_occurrence(s, p) == i,
{
    let k = first_occurrence(s, p);
    assert(occurs_at(s, p, k) && forall|j: int| 0 <= j < k ==> !occurs_at(s, p, j));
    if k < i {
        assert(!occurs_at(s, p, k));
    }
    if i < k {
        assert(!occurs_at(s, p, i));
    }
}

/// Where a track chunk's `<FXCHAIN` block lies: the character index of its
/// first `<FXCHAIN` and of the `>` that closes it (counted in characters as
/// [`find_block_end`] counts bytes), when both exist and the closing index
/// lies inside the text.
pub open spec fn fxchain_span_spec(s: Seq<char>) -> Option<(int, int)> {
    if contains_seq(s, "<FXCHAIN"@) {
        let start = first_occurrence(s, "<FXCHAIN"@);
        match block_end_spec(s.skip(start), false) {
            Some(e) => if start + e < s.len() {
                Some((start, start + e))
            } else {
                None
            },
            None => None,
        }
    } else {
        None
    }
}

fn fxchain_span(v: &[char]) -> (r: Option<(usize, usize)>)
    requires
        4 * v.len() + 4 <= usize::MAX,
    ensures
        match r {
            Some((a, b)) => fxchain_span_spec(v@) == Some((a as int, b as int)) && a <= b < v.len(),
            None => fxchain_span_spec(v@) is None,
        },
{
    let tag = chars_of("<FXCHAIN");
    let start = match find_chars(v, &tag) {
        Some(st) => st,
        None => return None,
    };
    proof {
        lemma_first_occurrence(v@, tag@, start as int);
    }
    let region = sub_chars(v, start, v.len());
    assert(region@ =~= v@.skip(start as int));
    match scan_block_end(&region) {
        Some((_, e)) => {
            if e < v.len() - start {
                Some((start, start + e))
            } else {
                None
            }
        },
        None => None,
    }
}

/// The text of a track chunk's `<FXCHAIN` block, from `<FXCHAIN` through
/// its closing `>`.
pub fn fxchain_block_text(chunk: &str) -> (r: Option<String>)
    requires
        4 * chunk@.len() + 4 <= usize::MAX,
    ensures
        match fxchain_span_spec(chunk@) {
            Some((a, b)) => r is Some && r->0@ == chunk@.subrange(a, b + 1),
            None => r is None,
        },
{
    let v = chars_of(chunk);
    match fxchain_span(&v) {
        Some((a, b)) => Some(string_of(&sub_chars(&v, a, b + 1))),
        None => None,
    }
}

/// A track chunk with its `<FXCHAIN` block replaced by `new_block`: the text
/// before the block, then `new_block`, then the text after the block's
/// closing `>`. `None` when the chunk has no complete `<FXCHAIN` block.
pub fn replace_fxchain_block(chunk: &str, new_block: &str) -> (r: Option<String>)
    requires
        4 * chunk@.len() + 4 <= usize::MAX,
    ensures
        match fxchain_span_spec(chunk@) {
            Some((a, b)) => r is Some && r->0@ == chunk@.take(a) + new_block@ + chunk@.skip(b + 1),
            None => r is None,
        },
{
    let v = chars_of(chunk);
    match fxchain_span(&v) {
        Some((a, b)) => {
            let mut out = sub_chars(&v, 0, a);
            let nb = chars_of(new_block);
            append_chars(&mut out, &nb);
            let tail = sub_chars(&v, b + 1, v.len());
            append_chars(&mut out, &tail);
            assert(v@.subrange(0, a as int) =~= v@.take(a as int));
            assert(v@.subrange(b + 1, v.len() as int) =~= v@.skip(b + 1));
            Some(string_of(&out))
        },
        None => None,
    }
}

// ---------------------------------------------------------------------------
// GUIDs
// ---------------------------------------------------------------------------

/// `s` without all of its leading `c` (`str::trim_start_matches`).
pub open spec fn trim_start_char(s: Seq<char>, c: char) -> Seq<char>
    decreases s.len(),
{
    if s.len() > 0 && s[0] == c {
        trim_start_char(s.drop_first(), c)
    } else {
        s
    }
}

/// `s` without all of its trailing `c` (`str::trim_end_matches`).
pub open spec fn trim_end_char(s: Seq<char>, c: char) -> Seq<char>
    decreases s.len(),
{
    if s.len() > 0 && s.last() == c {
        trim_end_char(s.drop_last(), c)
    } else {
        s
    }
}

/// A GUID without its braces, lower-cased, as chunk GUIDs are compared.
pub open spec fn clean_guid_spec(g: Seq<char>) -> Seq<char> {
    crate::text::str_to_lower(trim_end_char(trim_start_char(g, '{'), '}'))
}

fn trim_braces(v: &[char]) -> (r: Vec<char>)
    ensures
        r@ == trim_end_char(trim_start_char(v@, '{'), '}'),
{
    let mut a: usize = 0;
    proof {
        assert(v@.skip(0) =~= v@);
    }
    while a < v.len() && v[a] == '{'
        invariant
            a <= v.len(),
            trim_start_char(v@, '{') == trim_start_char(v@.skip(a as int), '{'),
        decreases v.len() - a,
    {
        assert(v@.skip(a as int).drop_first() =~= v@.skip(a + 1));
        a = a + 1;
    }
    assert(trim_start_char(v@.skip(a as int), '{') == v@.skip(a as int));
    let mut b: usize = v.len();
    let ghost t = v@.skip(a as int);
    proof {
        assert(t.take(t.len() as int) =~= t);
    }
    while b > a && v[b - 1] == '}'
        invariant
            a <= b <= v.len(),
            t == v@.skip(a as int),
            trim_end_char(t, '}') == trim_end_char(t.take(b - a), '}'),
        decreases b,
    {
        assert(t.take(b - a).drop_last() =~= t.take(b - a - 1));
        assert(t.take(b - a).last() == v@[b - 1]);
        b = b - 1;
    }
    proof {
        if b > a {
            assert(t.take(b - a).last() == v@[b - 1]);
        }
        assert(t.take(b - a) =~= v@.subrange(a as int, b as int));
    }
    sub_chars(v, a, b)
}

/// A GUID without its braces, lower-cased: `{ABCD-..}` becomes `abcd-..`.
pub fn clean_guid(g: &str) -> (r: String)
    ensures
        r@ == clean_guid_spec(g@),
{
    let v = chars_of(g);
    let t = trim_braces(&v);
    let ts = string_of(&t);
    crate::text::lower_of_str(ts.as_str())
}

} // verus!
