//! Projects: how a project tab is identified and named, which tabs are
//! listed, how to step from the current tab to another one, where a newly
//! opened tab is, and the bookkeeping of undo blocks.
use std::collections::hash_map::DefaultHasher;
use std::hash::Hasher;
use vstd::std_specs::hash::DefaultHasherAdditionalSpecFns;
use vstd::prelude::*;

use crate::text::{
    all_ascii, ascii_upper, chars_of, contains_chars, contains_seq, hex, hex_chars, path_file_stem,
    plain_path, plain_stem, string_of,
};

verus! {

/// The project service. Its operations run against the host; this crate
/// holds the decisions they make.
#[derive(Clone, Copy, Debug)]
pub struct ReaperProject;

impl ReaperProject {
    /// The project service.
    pub fn new() -> (r: Self)
        ensures
            r == ReaperProject,
    {
        ReaperProject
    }
}

/// How many tabs are scanned when a project is looked up by GUID.
pub const MAX_PROJECT_TABS: u32 = 256;

/// How many tabs the project service scans when it lists, gets or selects projects.
pub const SERVICE_TAB_SCAN: u32 = 128;

/// What the project service reports of a project tab.
pub struct ProjectInfo {
    pub guid: String,
    pub name: String,
    pub path: String,
}

/// The characters of a project's GUID, name and path.
pub open spec fn info_view(p: ProjectInfo) -> (Seq<char>, Seq<char>, Seq<char>) {
    (p.guid@, p.name@, p.path@)
}

// ---------------------------------------------------------------------------
// Names
// ---------------------------------------------------------------------------

/// The name given to a project that has no file, or whose path has no file stem.
pub open spec fn untitled() -> Seq<char> {
    seq!['U', 'n', 't', 'i', 't', 'l', 'e', 'd']
}

fn untitled_string() -> (r: String)
    ensures
        r@ == untitled(),
{
    let v: Vec<char> = vec!['U', 'n', 't', 'i', 't', 'l', 'e', 'd'];
    assert(v@ =~= untitled());
    string_of(&v)
}

/// The characters of an optional string.
pub open spec fn opt_chars(o: Option<String>) -> Option<Seq<char>> {
    match o {
        Some(s) => Some(s@),
        None => None,
    }
}

/// The name of a project with file path `path` whose file stem is `stem`.
pub open spec fn name_from_stem_spec(path: Seq<char>, stem: Option<Seq<char>>) -> Seq<char> {
    if path.len() == 0 {
        untitled()
    } else {
        match stem {
            Some(s) => s,
            None => untitled(),
        }
    }
}

/// The name of a project with file path `path`, given the path's file
/// stem: an unsaved project (empty path) and a path without a stem are
/// `Untitled`; otherwise the name is the stem.
pub fn name_from_stem(path: &str, stem: Option<String>) -> (r: String)
    ensures
        r@ == name_from_stem_spec(path@, opt_chars(stem)),
{
    if path.is_empty() {
        return untitled_string();
    }
    match stem {
        Some(s) => s,
        None => untitled_string(),
    }
}

/// The name of a project with file path `path`: `Untitled` when it has no
/// file or its path has no file stem, else its file stem, which is a
/// non-empty part of the path.
pub fn project_name(path: &str) -> (r: String)
    ensures
        path@.len() == 0 ==> r@ == untitled(),
        path@.len() > 0 ==> r@ == untitled() || (r@.len() > 0 && contains_seq(path@, r@)),
        path@.len() > 0 && plain_path(path@) ==> r@ == match plain_stem(path@) {
            Some(s) => s,
            None => untitled(),
        },
{
    if path.is_empty() {
        return untitled_string();
    }
    let stem = path_file_stem(path);
    name_from_stem(path, stem)
}

// ---------------------------------------------------------------------------
// GUIDs
// ---------------------------------------------------------------------------

/// The writes that `Hash::hash` of the string `s` makes into a
/// `DefaultHasher`, in the hasher's model (the sequence of byte strings
/// written). They depend on the string alone: its UTF-8 bytes are written
/// the same way on every machine.
pub uninterp spec fn str_hash_writes(s: Seq<char>) -> Seq<Seq<u8>>;

/// `Hash::hash` of a `str` into the hasher (std): the hasher's writes grow
/// by `str_hash_writes(s@)`.
#[verifier::external_body]
pub(crate) fn feed_str(h: &mut std::collections::hash_map::DefaultHasher, s: &str)
    ensures
        final(h)@ == old(h)@ + str_hash_writes(s@),
{
    std::hash::Hash::hash(s, h)
}

/// What a fresh `DefaultHasher` gives after hashing the string `s`: the
/// hasher's `finish` of the writes of that string (std's algorithm is not
/// stated; hashers made by `new` all start alike).
pub open spec fn default_hash(s: Seq<char>) -> u64 {
    DefaultHasher::spec_finish(Seq::<Seq<u8>>::empty() + str_hash_writes(s))
}

/// Hash a string with a fresh `DefaultHasher`.
pub(crate) fn hash_string(s: &str) -> (r: u64)
    ensures
        r == default_hash(s@),
{
    let mut hasher = DefaultHasher::new();
    feed_str(&mut hasher, s);
    hasher.finish()
}

/// The prefix of a GUID made from a project's address.
pub open spec fn ptr_prefix() -> Seq<char> {
    seq!['r', 'e', 'a', 'p', 'e', 'r', '-', 'p', 't', 'r', '-']
}

/// The GUID of a project tab: the host's own project GUID when it gives a
/// non-empty one; else, for a saved project, the lower-case hex of the hash
/// of its path; else `reaper-ptr-` and the hex of the project's address.
pub open spec fn project_guid_spec(
    native: Option<Seq<char>>,
    path: Seq<char>,
    path_hash: u64,
    ptr: usize,
) -> Seq<char> {
    if native matches Some(g) && g.len() > 0 {
        native->0
    } else if path.len() > 0 {
        hex(path_hash as nat)
    } else {
        ptr_prefix() + hex(ptr as nat)
    }
}

/// The GUID of a project tab, given the hash of its path.
pub fn guid_from_parts(native: Option<&str>, path: &str, path_hash: u64, ptr: usize) -> (r: String)
    ensures
        r@ == project_guid_spec(
            match native { Some(g) => Some(g@), None => None },
            path@,
            path_hash,
            ptr,
        ),
{
    if let Some(g) = native {
        if !g.is_empty() {
            return string_of(&chars_of(g));
        }
    }
    if !path.is_empty() {
        return string_of(&hex_chars(path_hash));
    }
    let mut v: Vec<char> = vec!['r', 'e', 'a', 'p', 'e', 'r', '-', 'p', 't', 'r', '-'];
    assert(v@ =~= ptr_prefix());
    let h = hex_chars(ptr as u64);
    crate::text::append_chars(&mut v, &h);
    string_of(&v)
}

/// The GUID of a project tab from the host's own GUID (if any), its file
/// path (empty when unsaved) and its address.
pub fn project_guid(native: Option<&str>, path: &str, ptr: usize) -> (r: String)
    ensures
        r@ == project_guid_spec(
            match native { Some(g) => Some(g@), None => None },
            path@,
            default_hash(path@),
            ptr,
        ),
{
    let h: u64 = if !path.is_empty() {
        hash_string(path)
    } else {
        0
    };
    guid_from_parts(native, path, h, ptr)
}

/// What the project service reports of a tab, from the host's own GUID (if
/// any), the tab's file path (empty when unsaved) and its address.
pub fn project_info(native: Option<&str>, path: &str, ptr: usize) -> (r: ProjectInfo)
    ensures
        r.guid@ == project_guid_spec(
            match native { Some(g) => Some(g@), None => None },
            path@,
            default_hash(path@),
            ptr,
        ),
        r.path@ == path@,
        path@.len() == 0 ==> r.name@ == untitled(),
        path@.len() > 0 ==> r.name@ == untitled() || (r.name@.len() > 0 && contains_seq(path@, r.name@)),
{
    ProjectInfo {
        guid: project_guid(native, path, ptr),
        name: project_name(path),
        path: string_of(&chars_of(path)),
    }
}

// ---------------------------------------------------------------------------
// Listing and lookup
// ---------------------------------------------------------------------------

/// What `str::to_uppercase` gives for `s`.
pub uninterp spec fn str_to_upper(s: Seq<char>) -> Seq<char>;

/// The ASCII upper case of each character of `s`.
pub open spec fn ascii_upper_seq(s: Seq<char>) -> Seq<char> {
    s.map_values(|c: char| ascii_upper(c))
}

/// `str::to_uppercase` (std). The result is `str_to_upper(s@)`; for an
/// all-ASCII string it is the ASCII upper case of each character, as the
/// Unicode case tables give it. Mappings of other characters (some map to
/// several) are left to std and not stated here.
#[verifier::external_body]
fn upper_of_str(s: &str) -> (r: String)
    ensures
        r@ == str_to_upper(s@),
        all_ascii(s@) ==> r@ == ascii_upper_seq(s@),
{
    s.to_uppercase()
}

/// The marker of the utility projects that routing uses.
pub open spec fn routing_marker() -> Seq<char> {
    seq!['F', 'T', 'S', '-', 'R', 'O', 'U', 'T', 'I', 'N', 'G']
}

/// Whether a project with this name is a routing utility project, which
/// is not listed: its upper-cased name contains `FTS-ROUTING`.
pub open spec fn is_routing_name(name: Seq<char>) -> bool {
    contains_seq(str_to_upper(name), routing_marker())
}

/// Whether a project with this name is a routing utility project.
pub fn is_routing_project(name: &str) -> (r: bool)
    ensures
        r == is_routing_name(name@),
{
    let up = upper_of_str(name);
    let marker: Vec<char> = vec!['F', 'T', 'S', '-', 'R', 'O', 'U', 'T', 'I', 'N', 'G'];
    assert(marker@ =~= routing_marker());
    contains_chars(&chars_of(up.as_str()), &marker)
}

/// Whether a project is listed: it is not a routing utility project.
pub open spec fn listed(p: (Seq<char>, Seq<char>, Seq<char>)) -> bool {
    !is_routing_name(p.1)
}

/// The projects of the open tabs that the service lists, in tab order.
pub fn visible_projects(tabs: Vec<ProjectInfo>) -> (r: Vec<ProjectInfo>)
    ensures
        r@.map_values(|p: ProjectInfo| info_view(p)) == tabs@.map_values(
            |p: ProjectInfo| info_view(p),
        ).filter(|p: (Seq<char>, Seq<char>, Seq<char>)| listed(p)),
{
    let ghost all = tabs@.map_values(|p: ProjectInfo| info_view(p));
    let ghost pred = |p: (Seq<char>, Seq<char>, Seq<char>)| listed(p);
    let mut kept: Vec<ProjectInfo> = Vec::new();
    let mut rest = tabs;
    let ghost total = all.len();
    let n0 = rest.len();
    assert(total == n0);
    proof {
        assert(all.take(0) =~= Seq::<(Seq<char>, Seq<char>, Seq<char>)>::empty());
        reveal_with_fuel(Seq::filter, 1);
    }
    let mut i: usize = 0;
    while rest.len() > 0
        invariant
            total == all.len(),
            total <= usize::MAX,
            rest@.len() + i == total,
            forall|j: int| 0 <= j < rest@.len() ==> info_view(#[trigger] rest@[j]) == all[i + j],
            kept@.map_values(|p: ProjectInfo| info_view(p)) == all.take(i as int).filter(pred),
            pred == (|p: (Seq<char>, Seq<char>, Seq<char>)| listed(p)),
        decreases rest.len(),
    {
        let ghost rest_before = rest@;
        let p = rest.remove(0);
        assert(info_view(p) == all[i as int]);
        assert forall|j: int| 0 <= j < rest@.len() implies info_view(#[trigger] rest@[j]) == all[i + 1 + j] by {
            assert(rest@[j] == rest_before[j + 1]);
        }
        let ghost prev = kept@.map_values(|p: ProjectInfo| info_view(p));
        proof {
            assert(all.take(i + 1).drop_last() =~= all.take(i as int));
            assert(all.take(i + 1).last() == all[i as int]);
            reveal_with_fuel(Seq::filter, 1);
        }
        if !is_routing_project(p.name.as_str()) {
            kept.push(p);
            assert(kept@.map_values(|p: ProjectInfo| info_view(p)) =~= prev.push(all[i as int]));
        }
        i = i + 1;
    }
    assert(all.take(total as int) =~= all);
    kept
}

/// The index of the first of the first `limit` tabs whose GUID is `guid`.
pub fn find_tab_by_guid(tab_guids: &[String], guid: &str, limit: u32) -> (r: Option<usize>)
    ensures
        match r {
            Some(i) => i < tab_guids@.len() && i < limit && tab_guids@[i as int]@ == guid@
                && forall|j: int| 0 <= j < i ==> tab_guids@[j]@ != guid@,
            None => forall|j: int| 0 <= j < tab_guids@.len() && j < limit ==> tab_guids@[j]@ != guid@,
        },
{
    let mut i: usize = 0;
    while i < tab_guids.len() && i < limit as usize
        invariant
            i <= tab_guids.len(),
            forall|j: int| 0 <= j < i ==> tab_guids@[j]@ != guid@,
        decreases tab_guids.len() - i,
    {
        if crate::strmap::str_eq(tab_guids[i].as_str(), guid) {
            return Some(i);
        }
        i = i + 1;
    }
    None
}

// ---------------------------------------------------------------------------
// Switching tabs
// ---------------------------------------------------------------------------

/// How to get from the current tab to the target tab with the host's
/// next-tab and previous-tab actions.
#[derive(PartialEq, Eq, Structural, Clone, Copy, Debug)]
pub enum TabSwitch {
    /// Already there.
    Stay,
    /// Run next-tab this many times.
    Forward(u32),
    /// Run previous-tab this many times.
    Backward(u32),
}

/// Steps forward (with wrap-around) from `current` to `target` among `total` tabs.
pub open spec fn forward_distance(current: int, target: int, total: int) -> int {
    if target > current { target - current } else { total - current + target }
}

/// Steps backward (with wrap-around) from `current` to `target` among `total` tabs.
pub open spec fn backward_distance(current: int, target: int, total: int) -> int {
    if current > target { current - target } else { current + total - target }
}

/// The shorter way round from the current tab to the target tab; forward
/// when both ways are as long.
pub fn tab_switch(current: u32, target: u32, total: u32) -> (r: TabSwitch)
    requires
        current < total,
        target < total,
    ensures
        current == target ==> r == TabSwitch::Stay,
        current != target ==> {
            let f = forward_distance(current as int, target as int, total as int);
            let b = backward_distance(current as int, target as int, total as int);
            if f <= b { r == TabSwitch::Forward(f as u32) } else { r == TabSwitch::Backward(b as u32) }
        },
{
    if current == target {
        return TabSwitch::Stay;
    }
    let forward = if target > current { target - current } else { total - (current - target) };
    let backward = if current > target { current - target } else { total - (target - current) };
    if forward <= backward {
        TabSwitch::Forward(forward)
    } else {
        TabSwitch::Backward(backward)
    }
}

/// The tab reached from `current` among `total` tabs by the moves of `s`.
pub open spec fn tab_after(current: int, total: int, s: TabSwitch) -> int {
    match s {
        TabSwitch::Stay => current,
        TabSwitch::Forward(n) => (current + n) % total,
        TabSwitch::Backward(n) => (current - n) % total,
    }
}

/// Following the moves that `tab_switch` plans reaches the target tab,
/// with no more moves than half the tabs (rounded down) and never more
/// than going the other way round.
pub proof fn lemma_tab_switch_reaches_target(current: u32, target: u32, total: u32, s: TabSwitch)
    requires
        current < total,
        target < total,
        current == target ==> s == TabSwitch::Stay,
        current != target ==> {
            let f = forward_distance(current as int, target as int, total as int);
            let b = backward_distance(current as int, target as int, total as int);
            if f <= b { s == TabSwitch::Forward(f as u32) } else { s == TabSwitch::Backward(b as u32) }
        },
    ensures
        tab_after(current as int, total as int, s) == target,
        match s {
            TabSwitch::Stay => true,
            TabSwitch::Forward(n) => 2 * n <= total && n as int == forward_distance(current as int, target as int, total as int),
            TabSwitch::Backward(n) => 2 * n <= total && n as int == backward_distance(current as int, target as int, total as int),
        },
{
    if current != target {
        let c = current as int;
        let t = target as int;
        let n = total as int;
        let f = forward_distance(c, t, n);
        let b = backward_distance(c, t, n);
        assert(f + b == n);
        if f <= b {
            if t > c {
                assert((c + f) % n == t) by {
                    vstd::arithmetic::div_mod::lemma_small_mod(t as nat, n as nat);
                }
            } else {
                assert(c + f == t + n);
                assert((c + f) % n == t) by {
                    vstd::arithmetic::div_mod::lemma_mod_add_multiples_vanish(t, n);
                    vstd::arithmetic::div_mod::lemma_small_mod(t as nat, n as nat);
                }
            }
        } else {
            if c > t {
                assert((c - b) % n == t) by {
                    vstd::arithmetic::div_mod::lemma_small_mod(t as nat, n as nat);
                }
            } else {
                assert(c - b == t - n);
                assert((c - b) % n == t) by {
                    vstd::arithmetic::div_mod::lemma_mod_sub_multiples_vanish(t, n);
                    vstd::arithmetic::div_mod::lemma_small_mod(t as nat, n as nat);
                }
            }
        }
    }
}

// ---------------------------------------------------------------------------
// A newly opened tab
// ---------------------------------------------------------------------------

/// Where a newly opened project tab is.
#[derive(PartialEq, Eq, Structural, Clone, Copy, Debug)]
pub enum NewTab {
    /// The tab at this index, whose project was not open before.
    Found(usize),
    /// No tab holds a new project; the new tab is expected at this index
    /// (the number of distinct projects open before).
    Fallback(usize),
}

/// The number of distinct values in `s`.
pub open spec fn distinct_count(s: Seq<usize>) -> nat
    decreases s.len(),
{
    if s.len() == 0 {
        0
    } else if s.drop_last().contains(s.last()) {
        distinct_count(s.drop_last())
    } else {
        distinct_count(s.drop_last()) + 1
    }
}

fn count_distinct(s: &[usize]) -> (r: usize)
    ensures
        r == distinct_count(s@),
{
    let mut count: usize = 0;
    let mut i: usize = 0;
    while i < s.len()
        invariant
            i <= s.len(),
            count == distinct_count(s@.take(i as int)),
            count <= i,
        decreases s.len() - i,
    {
        let mut seen = false;
        let mut j: usize = 0;
        while j < i
            invariant
                j <= i,
                i < s.len(),
                seen == (exists|k: int| 0 <= k < j && s@[k] == s@[i as int]),
            decreases i - j,
        {
            if s[j] == s[i] {
                seen = true;
            }
            j = j + 1;
        }
        proof {
            let t = s@.take(i + 1);
            assert(t.drop_last() =~= s@.take(i as int));
            assert(t.last() == s@[i as int]);
            if seen {
                let k = choose|k: int| 0 <= k < i && s@[k] == s@[i as int];
                assert(s@.take(i as int)[k] == s@[i as int]);
            } else {
                assert forall|k: int| 0 <= k < i implies s@.take(i as int)[k] != s@[i as int] by {}
            }
        }
        if !seen {
            count = count + 1;
        }
        i = i + 1;
    }
    assert(s@.take(s@.len() as int) =~= s@);
    count
}

/// Find the tab of a newly opened project from the project addresses of
/// the tabs before (`before`) and after (`after`) opening it: the first tab
/// whose project was not open before, else the index equal to the number
/// of distinct projects that were open before.
pub fn find_new_tab(before: &[usize], after: &[usize]) -> (r: NewTab)
    ensures
        match r {
            NewTab::Found(i) => i < after@.len() && !before@.contains(after@[i as int])
                && forall|j: int| 0 <= j < i ==> before@.contains(#[trigger] after@[j]),
            NewTab::Fallback(n) => n == distinct_count(before@)
                && forall|j: int| 0 <= j < after@.len() ==> before@.contains(#[trigger] after@[j]),
        },
{
    let mut i: usize = 0;
    while i < after.len()
        invariant
            i <= after.len(),
            forall|j: int| 0 <= j < i ==> before@.contains(#[trigger] after@[j]),
        decreases after.len() - i,
    {
        let p = after[i];
        let mut found = false;
        let mut k: usize = 0;
        while k < before.len()
            invariant
                k <= before.len(),
                found == (exists|m: int| 0 <= m < k && before@[m] == p),
            decreases before.len() - k,
        {
            if before[k] == p {
                found = true;
            }
            k = k + 1;
        }
        if !found {
            return NewTab::Found(i);
        }
        i = i + 1;
    }
    NewTab::Fallback(count_distinct(before))
}

// ---------------------------------------------------------------------------
// Undo blocks
// ---------------------------------------------------------------------------

/// The label used when an undo block ends with no label and none was stashed.
pub open spec fn default_undo_label() -> Seq<char> {
    seq!['F', 'T', 'S', ' ', 'a', 'c', 't', 'i', 'o', 'n']
}

/// The label given when an undo block began, kept for its end: the begin
/// and end of a block arrive as separate requests, and the host needs the
/// label at the end.
pub struct UndoLabelStash {
    label: Option<String>,
}

impl UndoLabelStash {
    /// The stashed label, if any.
    pub closed spec fn stashed(&self) -> Option<Seq<char>> {
        opt_chars(self.label)
    }

    /// Nothing stashed.
    pub fn new() -> (r: Self)
        ensures
            r.stashed() is None,
    {
        UndoLabelStash { label: None }
    }

    /// An undo block begins with this label: stash it.
    pub fn begin(&mut self, label: String)
        ensures
            final(self).stashed() == Some(label@),
    {
        self.label = Some(label);
    }

    /// An undo block ends with `label`: the label the host gets is `label`
    /// when it is not empty (the stash is kept); otherwise the stashed label,
    /// which is taken, or `FTS action` when nothing is stashed.
    pub fn end(&mut self, label: String) -> (r: String)
        ensures
            r@ == end_label(old(self).stashed(), label@),
            final(self).stashed() == stash_after_end(old(self).stashed(), label@),
    {
        if !label.as_str().is_empty() {
            return label;
        }
        let mut taken: Option<String> = None;
        std::mem::swap(&mut taken, &mut self.label);
        match taken {
            Some(s) => s,
            None => {
                let v: Vec<char> = vec!['F', 'T', 'S', ' ', 'a', 'c', 't', 'i', 'o', 'n'];
                assert(v@ =~= default_undo_label());
                string_of(&v)
            },
        }
    }
}

/// The label an undo block that ends with `label` is recorded under,
/// when `stashed` is what its beginning left.
pub open spec fn end_label(stashed: Option<Seq<char>>, label: Seq<char>) -> Seq<char> {
    if label.len() > 0 {
        label
    } else {
        match stashed {
            Some(s) => s,
            None => default_undo_label(),
        }
    }
}

/// What is stashed after an undo block ends with `label`.
pub open spec fn stash_after_end(stashed: Option<Seq<char>>, label: Seq<char>) -> Option<Seq<char>> {
    if label.len() > 0 {
        stashed
    } else {
        None
    }
}

/// An undo block that begins with label `l` and ends without a label is
/// recorded under `l`; another block ending without a label right after
/// it, with nothing begun in between, gets the default label.
pub proof fn lemma_undo_label_round_trip(l: Seq<char>)
    ensures
        end_label(Some(l), Seq::empty()) == l,
        end_label(stash_after_end(Some(l), Seq::empty()), Seq::empty()) == default_undo_label(),
{
}

/// A part of a project that an undoable operation may have changed.
#[derive(PartialEq, Eq, Structural, Clone, Copy, Debug)]
pub enum ProjectPart {
    Freeze,
    Fx,
    Items,
    MiscCfg,
    TrackCfg,
}

/// What an undo block's changes may have touched.
pub enum UndoScope {
    /// Anything.
    All,
    /// Only these parts.
    Scoped(Vec<ProjectPart>),
}

/// An undo scope as the host takes it: everything, or a set of part flags.
#[derive(PartialEq, Eq, Structural, Clone, Copy, Debug)]
pub enum UndoFlags {
    All,
    Scoped(u32),
}

/// The union of the flags of the parts in `parts` (each flag once).
pub open spec fn parts_mask(parts: Seq<ProjectPart>) -> u32 {
    ((if parts.contains(ProjectPart::TrackCfg) { 1int } else { 0int })
        + (if parts.contains(ProjectPart::Fx) { 2int } else { 0int })
        + (if parts.contains(ProjectPart::Items) { 4int } else { 0int })
        + (if parts.contains(ProjectPart::MiscCfg) { 8int } else { 0int })
        + (if parts.contains(ProjectPart::Freeze) { 16int } else { 0int })) as u32
}

/// The host's form of an undo scope.
pub open spec fn undo_flags_spec(scope: UndoScope) -> UndoFlags {
    match scope {
        UndoScope::All => UndoFlags::All,
        UndoScope::Scoped(parts) => UndoFlags::Scoped(parts_mask(parts@)),
    }
}

/// Convert an undo scope to the host's form: the flags of the listed parts.
pub fn convert_undo_scope(scope: &UndoScope) -> (r: UndoFlags)
    ensures
        r == undo_flags_spec(*scope),
{
    match scope {
        UndoScope::All => UndoFlags::All,
        UndoScope::Scoped(parts) => {
            let mut track_cfg = false;
            let mut fx = false;
            let mut items = false;
            let mut misc = false;
            let mut freeze = false;
            let mut i: usize = 0;
            while i < parts.len()
                invariant
                    i <= parts@.len(),
                    track_cfg == parts@.take(i as int).contains(ProjectPart::TrackCfg),
                    fx == parts@.take(i as int).contains(ProjectPart::Fx),
                    items == parts@.take(i as int).contains(ProjectPart::Items),
                    misc == parts@.take(i as int).contains(ProjectPart::MiscCfg),
                    freeze == parts@.take(i as int).contains(ProjectPart::Freeze),
                decreases parts@.len() - i,
            {
                let p = parts[i];
                proof {
                    let t = parts@.take(i + 1);
                    assert(t =~= parts@.take(i as int).push(p));
                    assert(t.last() == p);
                    assert forall|q: ProjectPart| t.contains(q) == (parts@.take(i as int).contains(q) || q == p) by {
                        if t.contains(q) && q != p {
                            let k = choose|k: int| 0 <= k < t.len() && t[k] == q;
                            assert(parts@.take(i as int)[k] == q);
                        }
                        if parts@.take(i as int).contains(q) {
                            let k = choose|k: int| 0 <= k < i && parts@.take(i as int)[k] == q;
                            assert(t[k] == q);
                        }
                        if q == p {
                            assert(t[i as int] == q);
                        }
                    }
                }
                match p {
                    ProjectPart::TrackCfg => { track_cfg = true; },
                    ProjectPart::Fx => { fx = true; },
                    ProjectPart::Items => { items = true; },
                    ProjectPart::MiscCfg => { misc = true; },
                    ProjectPart::Freeze => { freeze = true; },
                }
                i = i + 1;
            }
            assert(parts@.take(parts@.len() as int) =~= parts@);
            let mut mask: u32 = 0;
            if track_cfg { mask = mask + 1; }
            if fx { mask = mask + 2; }
            if items { mask = mask + 4; }
            if misc { mask = mask + 8; }
            if freeze { mask = mask + 16; }
            UndoFlags::Scoped(mask)
        },
    }
}

/// The scope an undo block ends with: the given one, or everything.
pub fn undo_flags_or_all(scope: &Option<UndoScope>) -> (r: UndoFlags)
    ensures
        r == match scope {
            Some(s) => undo_flags_spec(*s),
            None => UndoFlags::All,
        },
{
    match scope {
        Some(s) => convert_undo_scope(s),
        None => UndoFlags::All,
    }
}

} // verus!
