//! Menu naming for registered actions: the title-casing of underscored
//! command-name segments and the derivation of the Extensions-menu group
//! from a command name (`FTS_SESSION_*` belongs to "Session").
use vstd::prelude::*;

use crate::text::{
    all_ascii, append_chars, ascii_lower_seq, ascii_upper, char_to_upper, chars_of, has_prefix,
    lower_of_str, starts_with_chars, str_to_lower, string_of, sub_chars, upper_of_char,
};

verus! {

// ---------------------------------------------------------------------------
// Splitting and joining
// ---------------------------------------------------------------------------

/// The pieces of `s` between occurrences of `sep` (`str::split`), when the
/// current piece holds `cur`; there is always at least one piece.
pub open spec fn split_from(s: Seq<char>, sep: char, cur: Seq<char>) -> Seq<Seq<char>>
    decreases s.len(),
{
    if s.len() == 0 {
        seq![cur]
    } else if s[0] == sep {
        seq![cur] + split_from(s.drop_first(), sep, Seq::empty())
    } else {
        split_from(s.drop_first(), sep, cur.push(s[0]))
    }
}

/// `str::split` on a single character.
pub open spec fn split_on(s: Seq<char>, sep: char) -> Seq<Seq<char>> {
    split_from(s, sep, Seq::empty())
}

/// The pieces joined with `sep` between each two of them (`[..].join(sep)`).
pub open spec fn join(words: Seq<Seq<char>>, sep: Seq<char>) -> Seq<char>
    decreases words.len(),
{
    if words.len() == 0 {
        Seq::empty()
    } else if words.len() == 1 {
        words[0]
    } else {
        join(words.drop_last(), sep) + sep + words.last()
    }
}

/// `str::split` on one character, over a character slice.
pub fn split_chars(v: &[char], sep: char) -> (r: Vec<Vec<char>>)
    ensures
        r@.map_values(|w: Vec<char>| w@) == split_on(v@, sep),
        r@.len() >= 1,
{
    let mut out: Vec<Vec<char>> = Vec::new();
    let mut cur: Vec<char> = Vec::new();
    let mut i: usize = 0;
    proof {
        assert(v@.skip(0) =~= v@);
    }
    while i < v.len()
        invariant
            i <= v.len(),
            split_on(v@, sep) == out@.map_values(|w: Vec<char>| w@) + split_from(
                v@.skip(i as int),
                sep,
                cur@,
            ),
        decreases v.len() - i,
    {
        let ghost rest = v@.skip(i as int);
        assert(rest.drop_first() =~= v@.skip(i + 1));
        if v[i] == sep {
            let ghost old_out = out@.map_values(|w: Vec<char>| w@);
            let ghost c = cur@;
            out.push(cur);
            cur = Vec::new();
            assert(out@.map_values(|w: Vec<char>| w@) =~= old_out + seq![c]);
        } else {
            cur.push(v[i]);
        }
        i = i + 1;
    }
    let ghost before = out@.map_values(|w: Vec<char>| w@);
    let ghost c = cur@;
    proof {
        assert(v@.skip(v.len() as int) =~= Seq::<char>::empty());
    }
    out.push(cur);
    assert(out@.map_values(|w: Vec<char>| w@) =~= before + seq![c]);
    out
}

// ---------------------------------------------------------------------------
// Title case
// ---------------------------------------------------------------------------

/// One word in title case: its first character upper-cased, the rest lower-cased.
pub open spec fn title_word(w: Seq<char>) -> Seq<char> {
    if w.len() == 0 {
        Seq::empty()
    } else {
        char_to_upper(w[0]) + str_to_lower(w.drop_first())
    }
}

/// `s` split at `_`, each word title-cased, joined with single spaces:
/// `MARKERS_REGIONS` becomes `Markers Regions`.
pub open spec fn titlecase_spec(s: Seq<char>) -> Seq<char> {
    join(split_on(s, '_').map_values(|w: Seq<char>| title_word(w)), seq![' '])
}

/// One ASCII word in title case: its first letter upper case, the rest lower case.
pub open spec fn ascii_title_word(w: Seq<char>) -> Seq<char> {
    if w.len() == 0 {
        Seq::empty()
    } else {
        seq![ascii_upper(w[0])] + ascii_lower_seq(w.drop_first())
    }
}

/// The title case of an ASCII string: split at `_`, each word with its
/// first letter upper case and the rest lower case, joined with single
/// spaces (an empty word stays empty).
pub open spec fn ascii_titlecase(s: Seq<char>) -> Seq<char> {
    join(split_on(s, '_').map_values(|w: Seq<char>| ascii_title_word(w)), seq![' '])
}

proof fn lemma_split_ascii(s: Seq<char>, sep: char, cur: Seq<char>)
    requires
        all_ascii(s),
        all_ascii(cur),
    ensures
        forall|j: int| 0 <= j < split_from(s, sep, cur).len() ==> all_ascii(#[trigger] split_from(s, sep, cur)[j]),
    decreases s.len(),
{
    if s.len() > 0 {
        let rest = s.drop_first();
        assert(all_ascii(rest)) by {
            assert forall|i: int| 0 <= i < rest.len() implies (#[trigger] rest[i] as u32) < 0x80 by {
                assert(rest[i] == s[i + 1]);
            }
        }
        if s[0] == sep {
            lemma_split_ascii(rest, sep, Seq::empty());
            let tail = split_from(rest, sep, Seq::empty());
            assert(split_from(s, sep, cur) == seq![cur] + tail);
            assert forall|j: int| 0 <= j < split_from(s, sep, cur).len() implies all_ascii(#[trigger] split_from(s, sep, cur)[j]) by {
                if j > 0 {
                    assert(split_from(s, sep, cur)[j] == tail[j - 1]);
                } else {
                    assert(split_from(s, sep, cur)[0] == cur);
                }
            }
        } else {
            let c2 = cur.push(s[0]);
            assert(all_ascii(c2)) by {
                assert forall|i: int| 0 <= i < c2.len() implies (#[trigger] c2[i] as u32) < 0x80 by {
                    if i < cur.len() {
                        assert(c2[i] == cur[i]);
                    } else {
                        assert(c2[i] == s[0]);
                    }
                }
            }
            lemma_split_ascii(rest, sep, c2);
            assert(split_from(s, sep, cur) == split_from(rest, sep, c2));
        }
    } else {
        assert(split_from(s, sep, cur) == seq![cur]);
        assert(split_from(s, sep, cur)[0] == cur);
    }
}

fn title_word_chars(w: &[char]) -> (r: Vec<char>)
    ensures
        r@ == title_word(w@),
        all_ascii(w@) ==> r@ == ascii_title_word(w@),
{
    if w.len() == 0 {
        return Vec::new();
    }
    let up = upper_of_char(w[0]);
    let rest = sub_chars(w, 1, w.len());
    let rest_s = string_of(&rest);
    let low = lower_of_str(rest_s.as_str());
    let mut r = chars_of(up.as_str());
    let lc = chars_of(low.as_str());
    append_chars(&mut r, &lc);
    assert(rest@ =~= w@.drop_first());
    proof {
        if all_ascii(w@) {
            assert((w@[0] as u32) < 0x80);
            assert(all_ascii(rest_s@)) by {
                assert forall|i: int| 0 <= i < rest_s@.len() implies (#[trigger] rest_s@[i] as u32) < 0x80 by {
                    assert(rest_s@[i] == w@[i + 1]);
                }
            }
        }
    }
    r
}

/// Title-case an underscored string: `"MARKERS_REGIONS"` becomes
/// `"Markers Regions"`.
pub fn titlecase_underscored(s: &str) -> (r: String)
    ensures
        r@ == titlecase_spec(s@),
        all_ascii(s@) ==> r@ == ascii_titlecase(s@),
{
    let v = chars_of(s);
    let words = split_chars(&v, '_');
    let ghost titled = words@.map_values(|w: Vec<char>| w@).map_values(
        |w: Seq<char>| title_word(w),
    );
    let ghost asc = words@.map_values(|w: Vec<char>| w@).map_values(
        |w: Seq<char>| ascii_title_word(w),
    );
    assert(titled =~= split_on(s@, '_').map_values(|w: Seq<char>| title_word(w)));
    assert(asc =~= split_on(s@, '_').map_values(|w: Seq<char>| ascii_title_word(w)));
    proof {
        if all_ascii(s@) {
            lemma_split_ascii(s@, '_', Seq::empty());
            assert forall|j: int| 0 <= j < words@.len() implies all_ascii(#[trigger] words@[j]@) by {
                assert(words@.map_values(|w: Vec<char>| w@)[j] == words@[j]@);
                assert(split_on(s@, '_')[j] == words@[j]@);
            }
        }
    }
    let mut out: Vec<char> = Vec::new();
    let mut i: usize = 0;
    while i < words.len()
        invariant
            1 <= words@.len(),
            i <= words.len(),
            titled.len() == words@.len(),
            forall|j: int| 0 <= j < words@.len() ==> #[trigger] titled[j] == title_word(words@[j]@),
            asc.len() == words@.len(),
            forall|j: int| 0 <= j < words@.len() ==> #[trigger] asc[j] == ascii_title_word(words@[j]@),
            all_ascii(s@) ==> forall|j: int| 0 <= j < words@.len() ==> all_ascii(#[trigger] words@[j]@),
            all_ascii(s@) ==> forall|j: int| 0 <= j < i ==> #[trigger] titled[j] == asc[j],
            out@ == join(titled.take(i as int), seq![' ']),
        decreases words.len() - i,
    {
        let t = title_word_chars(&words[i]);
        proof {
            if all_ascii(s@) {
                assert(all_ascii(words@[i as int]@));
                assert(titled[i as int] == asc[i as int]);
            }
        }
        if i > 0 {
            out.push(' ');
        }
        append_chars(&mut out, &t);
        proof {
            let tk = titled.take(i + 1);
            assert(tk.drop_last() =~= titled.take(i as int));
            assert(tk.last() == titled[i as int]);
            if i == 0 {
                assert(tk.len() == 1);
            }
        }
        i = i + 1;
    }
    assert(titled.take(words.len() as int) =~= titled);
    proof {
        if all_ascii(s@) {
            assert(titled =~= asc);
        }
    }
    string_of(&out)
}

// ---------------------------------------------------------------------------
// Menu groups
// ---------------------------------------------------------------------------

/// The domain prefixes that name a menu group, longest first where one is a
/// prefix of another.
pub open spec fn known_domains() -> Seq<Seq<char>> {
    seq![
        "MARKERS_REGIONS"@,
        "DYNAMIC_TEMPLATE"@,
        "VISIBILITY_MANAGER"@,
        "AUTO_COLOR"@,
        "REAPER_EXTENSION"@,
        "TRANSPORT"@,
        "SESSION"@,
        "SIGNAL"@,
        "SYNC"@,
        "DAW"@,
    ]
}

/// `s` without a leading `FTS_`, if it has one.
pub open spec fn strip_fts(s: Seq<char>) -> Seq<char> {
    if has_prefix(s, "FTS_"@) {
        s.skip(4)
    } else {
        s
    }
}

/// The first known domain at index `i` or later that `name` begins with.
pub open spec fn first_domain_from(name: Seq<char>, i: int) -> Option<Seq<char>>
    decreases known_domains().len() - i,
{
    if i < 0 || i >= known_domains().len() {
        None
    } else if has_prefix(name, known_domains()[i]) {
        Some(known_domains()[i])
    } else {
        first_domain_from(name, i + 1)
    }
}

/// The menu group of a command name: without its `FTS_` prefix, the first
/// known domain it begins with, title-cased; otherwise its first
/// `_`-separated segment, title-cased.
pub open spec fn menu_group_spec(command_name: Seq<char>) -> Seq<char> {
    let name = strip_fts(command_name);
    match first_domain_from(name, 0) {
        Some(d) => titlecase_spec(d),
        None => titlecase_spec(split_on(name, '_')[0]),
    }
}

fn domain_literal(i: usize) -> (r: &'static str)
    requires
        i < 10,
    ensures
        r@ == known_domains()[i as int],
{
    if i == 0 {
        "MARKERS_REGIONS"
    } else if i == 1 {
        "DYNAMIC_TEMPLATE"
    } else if i == 2 {
        "VISIBILITY_MANAGER"
    } else if i == 3 {
        "AUTO_COLOR"
    } else if i == 4 {
        "REAPER_EXTENSION"
    } else if i == 5 {
        "TRANSPORT"
    } else if i == 6 {
        "SESSION"
    } else if i == 7 {
        "SIGNAL"
    } else if i == 8 {
        "SYNC"
    } else {
        "DAW"
    }
}

/// Derive a menu group name from a REAPER command name:
/// `FTS_SESSION_TOGGLE_PLAYBACK` belongs to "Session",
/// `FTS_MARKERS_REGIONS_INSERT_MARKER` to "Markers Regions".
pub fn derive_menu_group(command_name: &str) -> (r: String)
    ensures
        r@ == menu_group_spec(command_name@),
{
    let full = chars_of(command_name);
    let fts = chars_of("FTS_");
    proof {
        reveal_strlit("FTS_");
    }
    let name = if starts_with_chars(&full, &fts) {
        sub_chars(&full, 4, full.len())
    } else {
        sub_chars(&full, 0, full.len())
    };
    assert(name@ == strip_fts(command_name@)) by {
        assert(full@.subrange(0, full@.len() as int) =~= full@);
        assert(full@.subrange(4, full@.len() as int) =~= full@.skip(4));
    }
    let mut i: usize = 0;
    while i < 10
        invariant
            i <= 10,
            known_domains().len() == 10,
            name@ == strip_fts(command_name@),
            first_domain_from(name@, 0) == first_domain_from(name@, i as int),
        decreases 10 - i,
    {
        let d = domain_literal(i);
        let dv = chars_of(d);
        if starts_with_chars(&name, &dv) {
            return titlecase_underscored(d);
        }
        i = i + 1;
    }
    assert(first_domain_from(name@, 10) == None::<Seq<char>>);
    let pieces = split_chars(&name, '_');
    assert(pieces@.map_values(|w: Vec<char>| w@)[0] == pieces@[0]@);
    let first = string_of(&pieces[0]);
    titlecase_underscored(first.as_str())
}

} // verus!
