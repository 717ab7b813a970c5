//! The decisions of the FX chain operations: which FX a reference names,
//! which raw index a node id resolves to, where a new container ends up,
//! the two-step move of an FX into a container and the checks after each
//! move, and the text form of channel configurations.
use vstd::prelude::*;

use crate::fx::{container_path_segments, container_path_spec, container_prefix, FxNodeId};
use crate::fx_tree::{node_guid, node_raw, resolve_plugin_guid, resolve_plugin_guid_spec, FxTreeNode};
use crate::text::{
    append_chars, chars_of, decimal, decimal_chars, has_prefix, is_whitespace, is_ws, parse_u32,
    parse_u32_spec, string_of,
};

verus! {

// ---------------------------------------------------------------------------
// FX references
// ---------------------------------------------------------------------------

/// How a caller names an FX of a chain.
pub enum FxRef {
    /// By top-level index.
    Index(u32),
    /// By GUID (also inside containers).
    Guid(String),
    /// By name (the first top-level FX with that name).
    Name(String),
}

/// The first top-level FX, from the `i`-th on, whose name (when the host
/// could read it) is `name`.
pub open spec fn first_named(names: Seq<Option<Seq<char>>>, name: Seq<char>, i: int) -> Option<int>
    decreases names.len() - i,
{
    if i < 0 || i >= names.len() {
        None
    } else if names[i] == Some(name) {
        Some(i)
    } else {
        first_named(names, name, i + 1)
    }
}

/// The characters of each optional name.
pub open spec fn opt_names(v: Seq<Option<String>>) -> Seq<Option<Seq<char>>> {
    v.map_values(|o: Option<String>| match o {
        Some(s) => Some(s@),
        None => None,
    })
}

/// The index of the FX that `fx_ref` names in a chain of `fx_count`
/// top-level FX with tree `top` and top-level names `names`.
pub open spec fn resolve_fx_index_spec(
    fx_ref: FxRef,
    fx_count: u32,
    top: Seq<FxTreeNode>,
    names: Seq<Option<Seq<char>>>,
) -> Option<u32> {
    match fx_ref {
        FxRef::Index(i) => if i < fx_count { Some(i) } else { None },
        FxRef::Guid(g) => resolve_plugin_guid_spec(top, g@),
        FxRef::Name(n) => match first_named(names, n@, 0) {
            Some(i) => Some(i as u32),
            None => None,
        },
    }
}

/// The index of the FX that `fx_ref` names: an index below the number of
/// FX; the plugin with that GUID (top level first, then inside containers);
/// or the first top-level FX with that name.
pub fn resolve_fx_index(fx_ref: &FxRef, fx_count: u32, top: &[FxTreeNode], names: &[Option<String>]) -> (r: Option<u32>)
    requires
        top@.len() <= u32::MAX,
        names@.len() <= u32::MAX,
    ensures
        r == resolve_fx_index_spec(*fx_ref, fx_count, top@, opt_names(names@)),
{
    match fx_ref {
        FxRef::Index(i) => if *i < fx_count { Some(*i) } else { None },
        FxRef::Guid(g) => resolve_plugin_guid(top, g.as_str()),
        FxRef::Name(n) => {
            let ghost nv = opt_names(names@);
            let mut i: usize = 0;
            while i < names.len()
                invariant
                    i <= names@.len() <= u32::MAX,
                    nv == opt_names(names@),
                    resolve_fx_index_spec(*fx_ref, fx_count, top@, nv) == match first_named(nv, n@, 0) {
                        Some(j) => Some(j as u32),
                        None => None::<u32>,
                    },
                    first_named(nv, n@, 0) == first_named(nv, n@, i as int),
                decreases names@.len() - i,
            {
                let hit = match &names[i] {
                    Some(x) => crate::strmap::str_eq(x.as_str(), n.as_str()),
                    None => false,
                };
                assert(hit == (nv[i as int] == Some(n@)));
                if hit {
                    assert(first_named(nv, n@, i as int) == Some(i as int));
                    return Some(i as u32);
                }
                i = i + 1;
            }
            None
        },
    }
}

// ---------------------------------------------------------------------------
// Node ids to raw indices
// ---------------------------------------------------------------------------

/// The child at position `pos` among `cs`, from the `k`-th on.
pub open spec fn child_at(cs: Seq<(u32, FxTreeNode)>, pos: u32, k: int) -> Option<FxTreeNode>
    decreases cs.len() - k,
{
    if k < 0 || k >= cs.len() {
        None
    } else if cs[k].0 == pos {
        Some(cs[k].1)
    } else {
        child_at(cs, pos, k + 1)
    }
}

/// Follow child positions `path` (from the `k`-th) from node `n`: each step
/// goes to the child at that position of the current container.
pub open spec fn walk_from(n: FxTreeNode, path: Seq<u32>, k: int) -> Option<FxTreeNode>
    decreases path.len() - k,
{
    if k < 0 || k >= path.len() {
        Some(n)
    } else {
        match n {
            FxTreeNode::Container { children, .. } => match child_at(children@, path[k], 0) {
                Some(c) => walk_from(c, path, k + 1),
                None => None,
            },
            FxTreeNode::Plugin { .. } => None,
        }
    }
}

/// The raw index a container's path resolves to: the first segment is a
/// top-level index below the number of FX, the others child positions to
/// follow.
pub open spec fn container_raw_spec(top: Seq<FxTreeNode>, segments: Seq<u32>) -> Option<u32> {
    if segments.len() == 0 || segments[0] as int >= top.len() {
        None
    } else if segments.len() == 1 {
        Some(segments[0])
    } else {
        match walk_from(top[segments[0] as int], segments, 1) {
            Some(n) => Some(node_raw(n)),
            None => None,
        }
    }
}

/// The raw index a node id resolves to: a container by its path, a plugin by its GUID.
pub open spec fn node_raw_spec(top: Seq<FxTreeNode>, id: Seq<char>) -> Option<u32> {
    if has_prefix(id, container_prefix()) {
        match container_path_spec(id) {
            Some(segs) => container_raw_spec(top, segs),
            None => None,
        }
    } else {
        resolve_plugin_guid_spec(top, id)
    }
}

fn child_with_position(cs: &Vec<(u32, FxTreeNode)>, pos: u32) -> (r: Option<&FxTreeNode>)
    ensures
        match r {
            Some(c) => child_at(cs@, pos, 0) == Some(*c),
            None => child_at(cs@, pos, 0) is None,
        },
{
    let mut k: usize = 0;
    while k < cs.len()
        invariant
            k <= cs@.len(),
            child_at(cs@, pos, 0) == child_at(cs@, pos, k as int),
        decreases cs@.len() - k,
    {
        if cs[k].0 == pos {
            return Some(&cs[k].1);
        }
        k = k + 1;
    }
    None
}

fn raw_of(n: &FxTreeNode) -> (r: u32)
    ensures
        r == node_raw(*n),
{
    match n {
        FxTreeNode::Plugin { raw, .. } => *raw,
        FxTreeNode::Container { raw, .. } => *raw,
    }
}

/// The raw index a node id resolves to in a chain whose top-level FX are `top`.
pub fn resolve_node_to_raw_index(top: &[FxTreeNode], node_id: &FxNodeId) -> (r: Option<u32>)
    requires
        top@.len() <= u32::MAX,
    ensures
        r == node_raw_spec(top@, node_id@),
{
    if !node_id.is_container() {
        return resolve_plugin_guid(top, node_id.as_str());
    }
    let segments = match container_path_segments(node_id) {
        Some(s) => s,
        None => {
            return None;
        },
    };
    if segments.len() == 0 || segments[0] as usize >= top.len() {
        return None;
    }
    if segments.len() == 1 {
        return Some(segments[0]);
    }
    let mut current: &FxTreeNode = &top[segments[0] as usize];
    let ghost expected = node_raw_spec(top@, node_id@);
    assert(expected == match walk_from(top@[segments@[0] as int], segments@, 1) {
        Some(n) => Some(node_raw(n)),
        None => None::<u32>,
    });
    let mut k: usize = 1;
    while k < segments.len()
        invariant
            1 <= k <= segments@.len(),
            segments@.len() >= 2,
            (segments@[0] as int) < top@.len(),
            expected == node_raw_spec(top@, node_id@),
            expected == match walk_from(top@[segments@[0] as int], segments@, 1) {
                Some(n) => Some(node_raw(n)),
                None => None::<u32>,
            },
            walk_from(top@[segments@[0] as int], segments@, 1) == walk_from(*current, segments@, k as int),
        decreases segments@.len() - k,
    {
        match current {
            FxTreeNode::Container { children, .. } => {
                match child_with_position(children, segments[k]) {
                    Some(c) => {
                        current = c;
                    },
                    None => {
                        return None;
                    },
                }
            },
            FxTreeNode::Plugin { .. } => {
                return None;
            },
        }
        k = k + 1;
    }
    Some(raw_of(current))
}

// ---------------------------------------------------------------------------
// Creating containers and moving FX
// ---------------------------------------------------------------------------

/// Where a new container goes: it is added at the end (index `added_at`),
/// then moved to the requested index when that differs and is an index of
/// the chain (of `fx_count` FX after adding). Gives whether to move it and
/// its final index.
pub fn container_placement(added_at: u32, requested: u32, fx_count: u32) -> (r: (bool, u32))
    ensures
        r.0 == (added_at != requested && requested < fx_count),
        r.1 == (if r.0 { requested } else { added_at }),
{
    if added_at != requested && requested < fx_count {
        (true, requested)
    } else {
        (false, added_at)
    }
}

/// The raw index of the first child slot of a container: REAPER's index
/// base for container children.
pub const CONTAINER_BASE: u32 = 0x2000000;

/// The first step of moving an FX into a container: the position it should
/// end up at (the requested one, at most the number of children), and the
/// raw index to move it to first: the container's first child when it has
/// children (`first_child`, from the host), else the first slot of an empty
/// container, `CONTAINER_BASE + container_raw + top_count + 1`.
pub fn move_into_plan(
    child_index: u32,
    child_count: u32,
    first_child: Option<u32>,
    container_raw: u32,
    top_count: u32,
) -> (r: Result<(u32, u32), String>)
    requires
        child_count == 0 ==> CONTAINER_BASE + container_raw + top_count + 1 <= u32::MAX,
    ensures
        child_count == 0 ==> r == Ok::<(u32, u32), String>(
            ((CONTAINER_BASE + container_raw + top_count + 1) as u32, 0u32),
        ),
        child_count > 0 ==> match first_child {
            Some(f) => r == Ok::<(u32, u32), String>(
                (f, if child_index < child_count { child_index } else { child_count }),
            ),
            None => (r matches Err(m) && m@ == "container_item.0 not found"@),
        },
{
    let child_pos = if child_index < child_count { child_index } else { child_count };
    if child_count > 0 {
        match first_child {
            Some(f) => Ok((f, child_pos)),
            None => Err(string_of(&chars_of("container_item.0 not found"))),
        }
    } else {
        Ok((CONTAINER_BASE + container_raw + top_count + 1, child_pos))
    }
}

/// The position to shuffle the moved-in FX to, in a container that now
/// has `new_count` children: the wanted position, at most the last one.
pub fn shuffle_position(child_pos: u32, new_count: u32) -> (r: u32)
    requires
        new_count >= 1,
    ensures
        r == (if child_pos < new_count - 1 { child_pos } else { (new_count - 1) as u32 }),
{
    if child_pos < new_count - 1 { child_pos } else { new_count - 1 }
}

fn message3(a: &str, x: u32, b: &str, y: u32, c: &str, z: u32, d: &str) -> (r: String)
    ensures
        r@ == a@ + decimal(x as nat) + b@ + decimal(y as nat) + c@ + decimal(z as nat) + d@,
{
    let mut v = chars_of(a);
    append_chars(&mut v, &decimal_chars(x as u64));
    append_chars(&mut v, &chars_of(b));
    append_chars(&mut v, &decimal_chars(y as u64));
    append_chars(&mut v, &chars_of(c));
    append_chars(&mut v, &decimal_chars(z as u64));
    append_chars(&mut v, &chars_of(d));
    string_of(&v)
}

/// The check after a move into a container: it must now have `expected`
/// children; otherwise the error names the container and both counts.
pub fn verify_container_child_count(container_index: u32, actual: u32, expected: u32) -> (r: Result<(), String>)
    ensures
        actual == expected ==> r is Ok,
        actual != expected ==> (r matches Err(m) && m@ == "container at index "@ + decimal(container_index as nat)
            + " has "@ + decimal(actual as nat) + " children, expected "@ + decimal(expected as nat) + ""@),
{
    if actual != expected {
        Err(message3("container at index ", container_index, " has ", actual, " children, expected ", expected, ""))
    } else {
        Ok(())
    }
}

/// The check after moving an FX out of a container: the chain must have
/// one more top-level FX than before.
pub fn verify_moved_out(count_before: u32, count_after: u32) -> (r: Result<(), String>)
    requires
        count_before < u32::MAX,
    ensures
        count_after == count_before + 1 ==> r is Ok,
        count_after != count_before + 1 ==> (r matches Err(m) && m@ == "move_from_container: top-level FX count "@
            + decimal(count_before as nat) + " -> "@ + decimal(count_after as nat) + " (expected "@ + decimal(
            count_before as nat + 1,
        ) + ")"@),
{
    if count_after != count_before + 1 {
        Err(message3("move_from_container: top-level FX count ", count_before, " -> ", count_after, " (expected ", count_before + 1, ")"))
    } else {
        Ok(())
    }
}

/// The name shown for a container: its renamed name when set and not
/// empty, else its FX name, else `Container`.
pub fn container_display_name(renamed: Option<&str>, fx_name: Option<&str>) -> (r: String)
    ensures
        r@ == match renamed {
            Some(n) if n@.len() > 0 => n@,
            _ => match fx_name { Some(f) => f@, None => "Container"@ },
        },
{
    if let Some(n) = renamed {
        if !n.is_empty() {
            return string_of(&chars_of(n));
        }
    }
    match fx_name {
        Some(f) => string_of(&chars_of(f)),
        None => string_of(&chars_of("Container")),
    }
}

// ---------------------------------------------------------------------------
// Config values as text
// ---------------------------------------------------------------------------

/// A named config value read as a count: its number, or 0 when it is
/// missing or not a number.
pub fn config_u32(raw: Option<&str>) -> (r: u32)
    ensures
        r == match raw {
            Some(t) => match parse_u32_spec(t@) { Some(n) => n, None => 0 },
            None => 0,
        },
{
    match raw {
        Some(t) => match parse_u32(&chars_of(t)) {
            Some(n) => n,
            None => 0,
        },
        None => 0,
    }
}

/// Whether an FX is a container, from what the host reports of it: its
/// `fx_type` config text is `Container`; or its `container_count` config
/// text is a count (an empty container reports `0`); or its sub-type
/// expression is `Container`.
pub fn is_container_fx(fx_type: Option<&str>, container_count: Option<&str>, sub_type: Option<&str>) -> (r: bool)
    ensures
        r == ((fx_type matches Some(t) && t@ == "Container"@)
            || (container_count matches Some(c) && parse_u32_spec(c@) is Some)
            || (sub_type matches Some(s) && s@ == "Container"@)),
{
    if let Some(t) = fx_type {
        if crate::strmap::str_eq(t, "Container") {
            return true;
        }
    }
    if let Some(c) = container_count {
        if parse_u32(&chars_of(c)).is_some() {
            return true;
        }
    }
    match sub_type {
        Some(s) => crate::strmap::str_eq(s, "Container"),
        None => false,
    }
}

/// The number of label changes among probe labels `labels` (from the
/// `i`-th on), the label before being `last`: a probe whose label could not
/// be formatted (`None`) is skipped.
pub open spec fn label_changes(labels: Seq<Option<Seq<char>>>, i: int, last: Seq<char>) -> nat
    decreases labels.len() - i,
{
    if i < 0 || i >= labels.len() {
        0
    } else {
        match labels[i] {
            Some(l) => if l != last { 1 + label_changes(labels, i + 1, l) } else { label_changes(labels, i + 1, last) },
            None => label_changes(labels, i + 1, last),
        }
    }
}

/// The step count of a discrete parameter found by probing: the number of
/// times the formatted label changes across the probes (starting from the
/// empty label), when that is between 2 and 256.
pub open spec fn probe_step_count_spec(labels: Seq<Option<Seq<char>>>) -> Option<u32> {
    let n = label_changes(labels, 0, Seq::empty());
    if 2 <= n <= 256 { Some(n as u32) } else { None }
}

/// Count the label changes over the probe labels of a parameter and give
/// its step count when it is a plausible one (2 to 256).
pub fn probe_step_count(labels: &[Option<String>]) -> (r: Option<u32>)
    requires
        labels@.len() <= u32::MAX,
    ensures
        r == probe_step_count_spec(opt_names(labels@)),
{
    let ghost lv = opt_names(labels@);
    let mut count: u32 = 0;
    let mut last: String = string_of(&Vec::new());
    let mut i: usize = 0;
    while i < labels.len()
        invariant
            i <= labels@.len() <= u32::MAX,
            lv == opt_names(labels@),
            count <= i,
            count + label_changes(lv, i as int, last@) == label_changes(lv, 0, Seq::empty()),
        decreases labels@.len() - i,
    {
        match &labels[i] {
            Some(l) => {
                assert(lv[i as int] == Some(l@));
                if !crate::strmap::str_eq(l.as_str(), last.as_str()) {
                    count = count + 1;
                    last = string_of(&chars_of(l.as_str()));
                }
            },
            None => {
                assert(lv[i as int] is None);
            },
        }
        i = i + 1;
    }
    if 2 <= count && count <= 256 {
        Some(count)
    } else {
        None
    }
}

/// The whitespace-separated words of `s` after the word being read, `cur`.
pub open spec fn ws_words_from(s: Seq<char>, cur: Seq<char>) -> Seq<Seq<char>>
    decreases s.len(),
{
    if s.len() == 0 {
        if cur.len() > 0 { seq![cur] } else { Seq::empty() }
    } else if is_ws(s[0]) {
        (if cur.len() > 0 { seq![cur] } else { Seq::empty() }) + ws_words_from(s.drop_first(), Seq::empty())
    } else {
        ws_words_from(s.drop_first(), cur.push(s[0]))
    }
}

/// `str::split_whitespace`.
pub open spec fn split_ws(s: Seq<char>) -> Seq<Seq<char>> {
    ws_words_from(s, Seq::empty())
}

fn split_whitespace_chars(v: &[char]) -> (r: Vec<Vec<char>>)
    ensures
        r@.map_values(|w: Vec<char>| w@) == split_ws(v@),
{
    let mut out: Vec<Vec<char>> = Vec::new();
    let mut cur: Vec<char> = Vec::new();
    let mut i: usize = 0;
    assert(v@.skip(0) =~= v@);
    assert(out@.map_values(|w: Vec<char>| w@) =~= Seq::<Seq<char>>::empty());
    assert(cur@ =~= Seq::<char>::empty());
    assert(Seq::<Seq<char>>::empty() + split_ws(v@) =~= split_ws(v@));
    while i < v.len()
        invariant
            i <= v@.len(),
            out@.map_values(|w: Vec<char>| w@) + ws_words_from(v@.skip(i as int), cur@) == split_ws(v@),
        decreases v@.len() - i,
    {
        let ghost rest = v@.skip(i as int);
        let ghost next = v@.skip(i + 1);
        let ghost before = out@.map_values(|w: Vec<char>| w@);
        let ghost old_cur = cur@;
        assert(rest[0] == v@[i as int]);
        assert(rest.drop_first() =~= next);
        let c = v[i];
        if is_whitespace(c) {
            if cur.len() > 0 {
                assert(ws_words_from(rest, old_cur) == seq![old_cur] + ws_words_from(next, Seq::empty()));
                let w = cur;
                out.push(w);
                cur = Vec::new();
                assert(out@.map_values(|w: Vec<char>| w@) =~= before.push(old_cur));
                assert(before.push(old_cur) + ws_words_from(next, cur@) =~= before + (seq![old_cur] + ws_words_from(next, Seq::empty())));
            } else {
                assert(ws_words_from(rest, old_cur) == Seq::<Seq<char>>::empty() + ws_words_from(next, Seq::empty()));
                assert(Seq::<Seq<char>>::empty() + ws_words_from(next, Seq::empty()) =~= ws_words_from(next, Seq::empty()));
                assert(cur@ =~= Seq::<char>::empty());
            }
        } else {
            assert(ws_words_from(rest, old_cur) == ws_words_from(next, old_cur.push(c)));
            cur.push(c);
        }
        i = i + 1;
    }
    assert(v@.skip(v@.len() as int) =~= Seq::<char>::empty());
    if cur.len() > 0 {
        let ghost before = out@.map_values(|w: Vec<char>| w@);
        let w = cur;
        out.push(w);
        assert(out@.map_values(|w: Vec<char>| w@) =~= before.push(w@));
        assert(before.push(w@) =~= before + seq![w@]);
    } else {
        assert(out@.map_values(|w: Vec<char>| w@) =~= out@.map_values(|w: Vec<char>| w@) + Seq::<Seq<char>>::empty());
    }
    out
}

/// The number in word `k` of `words`, or 0 when there is no such word or it is not a number.
pub open spec fn word_u32(words: Seq<Seq<char>>, k: int) -> u32 {
    if 0 <= k < words.len() {
        match parse_u32_spec(words[k]) { Some(n) => n, None => 0 }
    } else {
        0
    }
}

/// An FX's channel configuration as read: channel count, mode and
/// supported flags, from the host's `count mode flags` text; all 0 when the
/// text is missing or empty.
pub open spec fn channel_config_spec(raw: Option<Seq<char>>) -> (u32, u32, u32) {
    match raw {
        Some(t) if t.len() > 0 => {
            let w = split_ws(t);
            (word_u32(w, 0), word_u32(w, 1), word_u32(w, 2))
        },
        _ => (0, 0, 0),
    }
}

fn word_number(words: &Vec<Vec<char>>, k: usize) -> (r: u32)
    ensures
        r == word_u32(words@.map_values(|w: Vec<char>| w@), k as int),
{
    if k < words.len() {
        match parse_u32(&words[k]) {
            Some(n) => n,
            None => 0,
        }
    } else {
        0
    }
}

/// Parse an FX's channel configuration text.
pub fn parse_channel_config(raw: Option<&str>) -> (r: (u32, u32, u32))
    ensures
        r == channel_config_spec(match raw { Some(t) => Some(t@), None => None }),
{
    match raw {
        Some(t) => {
            if t.is_empty() {
                return (0, 0, 0);
            }
            let words = split_whitespace_chars(&chars_of(t));
            (word_number(&words, 0), word_number(&words, 1), word_number(&words, 2))
        },
        None => (0, 0, 0),
    }
}

/// The text written for an FX's channel configuration: count and mode.
pub fn channel_config_value(count: u32, mode: u32) -> (r: String)
    ensures
        r@ == decimal(count as nat) + " "@ + decimal(mode as nat),
{
    let mut v = decimal_chars(count as u64);
    let ghost head = v@;
    v.push(' ');
    append_chars(&mut v, &decimal_chars(mode as u64));
    proof {
        reveal_strlit(" ");
    }
    assert(v@ =~= head + " "@ + decimal(mode as nat));
    string_of(&v)
}

} // verus!
