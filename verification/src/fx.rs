//! FX chain logic: stable FX node identifiers, plugin types, FX locations,
//! container paths, the rearrangements behind enclosing nodes in a
//! container and exploding one, and the saving and restoring of output pin
//! mappings.
use vstd::prelude::*;

use crate::chunk::clean_guid_spec;
use crate::menu::split_on;
use crate::text::{
    chars_eq, chars_of, has_prefix, parse_u32, parse_u32_spec, parse_usize, parse_usize_spec,
    starts_with_chars, str_to_lower, string_of, sub_chars, append_chars,
};

verus! {

/// REAPER FX service (stateless; all state lives in the host).
#[derive(Clone, Copy)]
pub struct ReaperFx;

impl ReaperFx {
    /// The FX service.
    pub fn new() -> (r: Self)
        ensures
            r == ReaperFx,
    {
        ReaperFx
    }
}

// ---------------------------------------------------------------------------
// Node identifiers
// ---------------------------------------------------------------------------

/// The prefix of container node identifiers.
pub open spec fn container_prefix() -> Seq<char> {
    "container:"@
}

/// A stable identifier of a node in an FX tree: a plugin's GUID, or
/// `container:` followed by the container's path of child positions
/// (`container:2:1` is child 1 of the container at top-level index 2).
pub struct FxNodeId {
    id: String,
}

impl View for FxNodeId {
    type V = Seq<char>;

    closed spec fn view(&self) -> Seq<char> {
        self.id@
    }
}

impl FxNodeId {
    /// The identifier of the plugin with GUID `guid`.
    pub fn from_guid(guid: &str) -> (r: Self)
        ensures
            r@ == guid@,
    {
        FxNodeId { id: string_of(&chars_of(guid)) }
    }

    /// The identifier of the container at `path`.
    pub fn container(path: &str) -> (r: Self)
        ensures
            r@ == container_prefix() + path@,
    {
        let mut v = chars_of("container:");
        let p = chars_of(path);
        append_chars(&mut v, &p);
        FxNodeId { id: string_of(&v) }
    }

    /// The identifier as text.
    pub fn as_str(&self) -> (r: &str)
        ensures
            r@ == self@,
    {
        self.id.as_str()
    }

    /// Whether this identifies a container.
    pub fn is_container(&self) -> (r: bool)
        ensures
            r == has_prefix(self@, container_prefix()),
    {
        let v = chars_of(self.id.as_str());
        let p = chars_of("container:");
        starts_with_chars(&v, &p)
    }
}

// ---------------------------------------------------------------------------
// Plugin types and locations
// ---------------------------------------------------------------------------

/// Plugin formats.
#[derive(PartialEq, Eq, Structural, Clone, Copy, Debug)]
pub enum FxType {
    Vst2,
    Vst3,
    Au,
    Js,
    Clap,
    Unknown,
}

/// The plugin type named by REAPER's sub-type expression.
pub open spec fn fx_type_spec(s: Seq<char>) -> FxType {
    if s == "VST"@ || s == "VSTi"@ {
        FxType::Vst2
    } else if s == "VST3"@ || s == "VST3i"@ {
        FxType::Vst3
    } else if s == "AU"@ || s == "AUi"@ {
        FxType::Au
    } else if s == "JS"@ {
        FxType::Js
    } else if s == "CLAP"@ || s == "CLAPi"@ {
        FxType::Clap
    } else {
        FxType::Unknown
    }
}

fn is_literal(v: &[char], lit: &str) -> (r: bool)
    ensures
        r == (v@ == lit@),
{
    let l = chars_of(lit);
    chars_eq(v, &l)
}

/// Convert REAPER's FX sub-type expression (`VST3i`, `CLAP`, ...) to a plugin type.
pub fn parse_fx_type(sub_type: &str) -> (r: FxType)
    ensures
        r == fx_type_spec(sub_type@),
{
    let v = chars_of(sub_type);
    if is_literal(&v, "VST") || is_literal(&v, "VSTi") {
        FxType::Vst2
    } else if is_literal(&v, "VST3") || is_literal(&v, "VST3i") {
        FxType::Vst3
    } else if is_literal(&v, "AU") || is_literal(&v, "AUi") {
        FxType::Au
    } else if is_literal(&v, "JS") {
        FxType::Js
    } else if is_literal(&v, "CLAP") || is_literal(&v, "CLAPi") {
        FxType::Clap
    } else {
        FxType::Unknown
    }
}

/// Where an FX lives on a track: its normal chain or its input chain.
#[derive(PartialEq, Eq, Structural, Clone, Copy, Debug)]
pub enum FxLocation {
    NormalFxChain(u32),
    InputFxChain(u32),
}

/// The location of the FX at `index` in a track's input chain
/// (`is_input`) or normal chain.
pub fn fx_location(index: u32, is_input: bool) -> (r: FxLocation)
    ensures
        r == (if is_input {
            FxLocation::InputFxChain(index)
        } else {
            FxLocation::NormalFxChain(index)
        }),
{
    if is_input {
        FxLocation::InputFxChain(index)
    } else {
        FxLocation::NormalFxChain(index)
    }
}

// ---------------------------------------------------------------------------
// Container paths
// ---------------------------------------------------------------------------

/// The values of the pieces that parse as `u32`, in order (the others are skipped).
pub open spec fn parsed_segments(pieces: Seq<Seq<char>>) -> Seq<u32>
    decreases pieces.len(),
{
    if pieces.len() == 0 {
        Seq::empty()
    } else {
        let rest = parsed_segments(pieces.drop_last());
        match parse_u32_spec(pieces.last()) {
            Some(n) => rest.push(n),
            None => rest,
        }
    }
}

/// The child positions of a container identifier: its `:`-separated
/// segments after `container:` that parse as numbers; `None` when the
/// identifier is not a container's.
pub open spec fn container_path_spec(id: Seq<char>) -> Option<Seq<u32>> {
    if has_prefix(id, container_prefix()) {
        Some(parsed_segments(split_on(id.skip(10), ':')))
    } else {
        None
    }
}

/// The numeric segments of a container identifier's path
/// (`container:2:1` gives `[2, 1]`; segments that are not numbers are skipped).
pub fn container_path_segments(id: &FxNodeId) -> (r: Option<Vec<u32>>)
    ensures
        match container_path_spec(id@) {
            Some(s) => r is Some && r->0@ == s,
            None => r is None,
        },
{
    let v = chars_of(id.as_str());
    let p = chars_of("container:");
    proof {
        reveal_strlit("container:");
    }
    if !starts_with_chars(&v, &p) {
        return None;
    }
    let rest = sub_chars(&v, 10, v.len());
    assert(rest@ =~= v@.skip(10));
    let pieces = crate::menu::split_chars(&rest, ':');
    let ghost pv = pieces@.map_values(|w: Vec<char>| w@);
    let mut out: Vec<u32> = Vec::new();
    let mut i: usize = 0;
    proof {
        assert(pv.take(0) =~= Seq::<Seq<char>>::empty());
    }
    while i < pieces.len()
        invariant
            pv == pieces@.map_values(|w: Vec<char>| w@),
            i <= pieces.len(),
            out@ == parsed_segments(pv.take(i as int)),
        decreases pieces.len() - i,
    {
        assert(pv.take(i + 1).drop_last() =~= pv.take(i as int));
        assert(pv.take(i + 1).last() == pieces@[i as int]@);
        match parse_u32(&pieces[i]) {
            Some(n) => out.push(n),
            None => {},
        }
        i = i + 1;
    }
    assert(pv.take(pieces.len() as int) =~= pv);
    Some(out)
}

/// How a container path resolves against a chain of `fx_count` top-level FX.
#[derive(Debug)]
pub enum ContainerPathPlan {
    /// The path cannot name a container of this chain.
    Unresolvable,
    /// The path names the top-level FX at this index.
    TopLevel(u32),
    /// Start at the top-level FX `top` and follow the child positions, in order.
    Walk { top: u32, child_positions: Vec<u32> },
}

/// Plan the resolution of a container's path: it must have a first
/// segment that is a top-level index below `fx_count`; a single segment
/// names that FX, more segments are child positions to follow from it.
pub fn plan_container_path(segments: &[u32], fx_count: u32) -> (r: ContainerPathPlan)
    ensures
        segments@.len() == 0 || segments@[0] >= fx_count ==> r is Unresolvable,
        segments@.len() == 1 && segments@[0] < fx_count ==> r == ContainerPathPlan::TopLevel(
            segments@[0],
        ),
        segments@.len() > 1 && segments@[0] < fx_count ==> (r matches ContainerPathPlan::Walk {
            top,
            child_positions,
        } && top == segments@[0] && child_positions@ == segments@.skip(1)),
{
    if segments.len() == 0 || segments[0] >= fx_count {
        return ContainerPathPlan::Unresolvable;
    }
    if segments.len() == 1 {
        return ContainerPathPlan::TopLevel(segments[0]);
    }
    let mut rest: Vec<u32> = Vec::new();
    let mut i: usize = 1;
    while i < segments.len()
        invariant
            1 <= i <= segments.len(),
            rest@ == segments@.subrange(1, i as int),
        decreases segments.len() - i,
    {
        rest.push(segments[i]);
        assert(segments@.subrange(1, i as int).push(segments@[i as int]) =~= segments@.subrange(
            1,
            i + 1,
        ));
        i = i + 1;
    }
    assert(segments@.subrange(1, segments@.len() as int) =~= segments@.skip(1));
    ContainerPathPlan::Walk { top: segments[0], child_positions: rest }
}

// ---------------------------------------------------------------------------
// Parsed chain nodes
// ---------------------------------------------------------------------------

/// What the rearrangements read of a node of a parsed FX chain: whether it
/// is a container, and its `FXID` GUID if it has one.
pub struct ChainNode {
    pub is_container: bool,
    pub fxid: Option<String>,
}

/// The characters of a node's `FXID`.
pub open spec fn node_fxid(n: ChainNode) -> Option<Seq<char>> {
    match n.fxid {
        Some(g) => Some(g@),
        None => None,
    }
}

/// The GUIDs of the plugin nodes among `ids` (container identifiers are skipped).
pub open spec fn enclose_targets_spec(ids: Seq<Seq<char>>) -> Seq<Seq<char>> {
    ids.filter(|id: Seq<char>| !has_prefix(id, container_prefix()))
}

/// Whether a node with this `FXID` is one of the targets: some target,
/// lower-cased, equals the `FXID` without braces, lower-cased.
pub open spec fn fxid_is_target(fxid: Option<Seq<char>>, targets: Seq<Seq<char>>) -> bool {
    match fxid {
        Some(g) => exists|t: int| 0 <= t < targets.len() && str_to_lower(targets[t]) == clean_guid_spec(g),
        None => false,
    }
}

/// The indices, in increasing order, of the nodes whose `FXID` matches one
/// of the plugin GUIDs in `node_ids`; these are the nodes to enclose.
pub fn match_enclose_nodes(nodes: &[ChainNode], node_ids: &[FxNodeId]) -> (r: Vec<usize>)
    ensures
        forall|a: int, b: int| 0 <= a < b < r@.len() ==> r@[a] < r@[b],
        forall|k: int| 0 <= k < r@.len() ==> r@[k] < nodes@.len(),
        forall|i: int|
            0 <= i < nodes@.len() ==> (r@.contains(i as usize) <==> fxid_is_target(
                node_fxid(#[trigger] nodes@[i]),
                enclose_targets_spec(node_ids@.map_values(|n: FxNodeId| n@)),
            )),
{
    // lower-cased plugin targets
    let ghost ids = node_ids@.map_values(|n: FxNodeId| n@);
    let mut lowered: Vec<String> = Vec::new();
    let mut j: usize = 0;
    proof {
        assert(ids.take(0) =~= Seq::<Seq<char>>::empty());
        reveal_with_fuel(Seq::filter, 1);
    }
    while j < node_ids.len()
        invariant
            ids == node_ids@.map_values(|n: FxNodeId| n@),
            j <= node_ids.len(),
            lowered@.map_values(|s: String| s@) == enclose_targets_spec(ids.take(j as int)).map_values(
                |t: Seq<char>| str_to_lower(t),
            ),
        decreases node_ids.len() - j,
    {
        let ghost before = lowered@.map_values(|s: String| s@);
        proof {
            assert(ids.take(j + 1).drop_last() =~= ids.take(j as int));
            assert(ids.take(j + 1).last() == node_ids@[j as int]@);
            reveal_with_fuel(Seq::filter, 1);
        }
        if !node_ids[j].is_container() {
            let l = crate::text::lower_of_str(node_ids[j].as_str());
            lowered.push(l);
            assert(lowered@.map_values(|s: String| s@) =~= before.push(str_to_lower(node_ids@[j as int]@)));
        }
        j = j + 1;
    }
    assert(ids.take(node_ids.len() as int) =~= ids);
    let ghost targets = enclose_targets_spec(ids);
    let ghost lv = lowered@.map_values(|s: String| s@);
    assert(lv =~= targets.map_values(|t: Seq<char>| str_to_lower(t)));
    let mut out: Vec<usize> = Vec::new();
    let mut i: usize = 0;
    while i < nodes.len()
        invariant
            lv == lowered@.map_values(|s: String| s@),
            lv == targets.map_values(|t: Seq<char>| str_to_lower(t)),
            targets == enclose_targets_spec(ids),
            ids == node_ids@.map_values(|n: FxNodeId| n@),
            i <= nodes.len(),
            forall|a: int, b: int| 0 <= a < b < out@.len() ==> out@[a] < out@[b],
            forall|k: int| 0 <= k < out@.len() ==> out@[k] < i,
            forall|q: int|
                0 <= q < i ==> (out@.contains(q as usize) <==> fxid_is_target(
                    node_fxid(#[trigger] nodes@[q]),
                    targets,
                )),
        decreases nodes.len() - i,
    {
        let mut hit = false;
        match &nodes[i].fxid {
            Some(g) => {
                let clean = crate::chunk::clean_guid(g.as_str());
                let cv = chars_of(clean.as_str());
                let mut t: usize = 0;
                while t < lowered.len() && !hit
                    invariant
                        lv == lowered@.map_values(|s: String| s@),
                        t <= lowered.len(),
                        clean@ == clean_guid_spec(g@),
                        cv@ == clean@,
                        hit ==> exists|x: int| 0 <= x < lv.len() && lv[x] == clean@,
                        !hit ==> forall|x: int| 0 <= x < t ==> lv[x] != clean@,
                    decreases lowered.len() - t + (if hit { 0int } else { 1int }),
                {
                    let tv = chars_of(lowered[t].as_str());
                    assert(lv[t as int] == lowered@[t as int]@);
                    if chars_eq(&tv, &cv) {
                        hit = true;
                    } else {
                        t = t + 1;
                    }
                }
                proof {
                    if hit {
                        let x = choose|x: int| 0 <= x < lv.len() && lv[x] == clean@;
                        assert(str_to_lower(targets[x]) == clean_guid_spec(g@));
                    } else {
                        assert(lv.len() == targets.len());
                        assert(lv.len() == lowered@.len());
                        assert forall|x: int| 0 <= x < targets.len() implies str_to_lower(
                            targets[x],
                        ) != clean_guid_spec(g@) by {
                            assert(lv[x] == str_to_lower(targets[x]));
                        }
                    }
                }
            },
            None => {},
        }
        assert(hit == fxid_is_target(node_fxid(nodes@[i as int]), targets));
        let ghost before = out@;
        if hit {
            out.push(i);
        }
        assert forall|q: int|
            0 <= q < i + 1 implies (out@.contains(q as usize) <==> fxid_is_target(
                node_fxid(#[trigger] nodes@[q]),
                targets,
            )) by {
            if q < i {
                if out@.contains(q as usize) {
                    let k = choose|k: int| 0 <= k < out@.len() && out@[k] == q as usize;
                    if k < before.len() {
                        assert(before[k] == q as usize);
                    }
                }
                if before.contains(q as usize) {
                    let k = choose|k: int| 0 <= k < before.len() && before[k] == q as usize;
                    assert(out@[k] == q as usize);
                }
            } else {
                if hit {
                    assert(out@[out@.len() - 1] == i);
                } else {
                    if out@.contains(q as usize) {
                        let k = choose|k: int| 0 <= k < out@.len() && out@[k] == q as usize;
                        assert(before[k] < i);
                    }
                }
            }
        }
        i = i + 1;
    }
    out
}

/// The elements of `s` at the indices that `keep` accepts, in order.
pub open spec fn select<T>(s: Seq<T>, keep: spec_fn(int) -> bool) -> Seq<T>
    decreases s.len(),
{
    if s.len() == 0 {
        Seq::empty()
    } else {
        let r = select(s.drop_last(), keep);
        if keep(s.len() - 1) {
            r.push(s.last())
        } else {
            r
        }
    }
}

/// The indices listed in `m`.
pub open spec fn listed(m: Seq<usize>) -> spec_fn(int) -> bool {
    |i: int| m.contains(i as usize)
}

/// The indices not listed in `m`.
pub open spec fn unlisted(m: Seq<usize>) -> spec_fn(int) -> bool {
    |i: int| !m.contains(i as usize)
}

/// Split a chain's nodes for enclosing the nodes at `matched` in a new
/// container: the nodes that stay, the nodes that become the container's
/// children (both in chain order), and the position at which the container
/// goes, which is where the first enclosed node was. `None` when nothing is
/// to be enclosed.
pub fn enclose_nodes<T>(nodes: Vec<T>, matched: &[usize]) -> (r: Option<(Vec<T>, Vec<T>, usize)>)
    ensures
        matched@.len() == 0 ==> r is None,
        matched@.len() > 0 ==> (r matches Some((rest, children, at)) && rest@ == select(
            nodes@,
            unlisted(matched@),
        ) && children@ == select(nodes@, listed(matched@)) && at == (
        if matched@[0] <= rest@.len() {
            matched@[0] as int
        } else {
            rest@.len() as int
        })),
{
    if matched.len() == 0 {
        return None;
    }
    let ghost all = nodes@;
    let ghost keep_out = unlisted(matched@);
    let ghost keep_in = listed(matched@);
    let mut src = nodes;
    let mut rest: Vec<T> = Vec::new();
    let mut children: Vec<T> = Vec::new();
    let mut i: usize = 0;
    let n = src.len();
    proof {
        assert(all.take(0) =~= Seq::<T>::empty());
    }
    while src.len() > 0
        invariant
            n == all.len(),
            src@.len() + i == n,
            forall|j: int| 0 <= j < src@.len() ==> #[trigger] src@[j] == all[i + j],
            keep_out == unlisted(matched@),
            keep_in == listed(matched@),
            rest@ == select(all.take(i as int), keep_out),
            children@ == select(all.take(i as int), keep_in),
        decreases src.len(),
    {
        let ghost before_src = src@;
        let x = src.remove(0);
        assert(x == all[i as int]);
        assert forall|j: int| 0 <= j < src@.len() implies #[trigger] src@[j] == all[i + 1 + j] by {
            assert(src@[j] == before_src[j + 1]);
        }
        proof {
            assert(all.take(i + 1).drop_last() =~= all.take(i as int));
            assert(all.take(i + 1).last() == all[i as int]);
        }
        let mut found = false;
        let mut k: usize = 0;
        while k < matched.len() && !found
            invariant
                k <= matched.len(),
                found ==> matched@.contains(i as usize),
                !found ==> forall|q: int| 0 <= q < k ==> matched@[q] != i,
            decreases matched.len() - k + (if found { 0int } else { 1int }),
        {
            if matched[k] == i {
                found = true;
            } else {
                k = k + 1;
            }
        }
        proof {
            if !found {
                if matched@.contains(i as usize) {
                    let q = choose|q: int| 0 <= q < matched@.len() && matched@[q] == i as usize;
                    assert(matched@[q] != i);
                }
            }
            assert(found == keep_in(i as int));
            assert(found == !keep_out(i as int));
            assert(all.take(i + 1).len() - 1 == i);
        }
        if found {
            children.push(x);
        } else {
            rest.push(x);
        }
        i = i + 1;
    }
    assert(all.take(n as int) =~= all);
    let first = matched[0];
    let at = if first <= rest.len() {
        first
    } else {
        rest.len()
    };
    Some((rest, children, at))
}

/// A chain's nodes with `children` put in at `at`, before the node that was there.
pub fn insert_children<T>(nodes: Vec<T>, at: usize, children: Vec<T>) -> (r: Vec<T>)
    requires
        at <= nodes@.len(),
    ensures
        r@ == nodes@.take(at as int) + children@ + nodes@.skip(at as int),
{
    let ghost all = nodes@;
    let mut out: Vec<T> = Vec::new();
    let mut src = nodes;
    let mut i: usize = 0;
    while i < at
        invariant
            i <= at <= all.len(),
            src@ == all.skip(i as int),
            out@ == all.take(i as int),
        decreases at - i,
    {
        let x = src.remove(0);
        assert(all.take(i + 1) =~= all.take(i as int).push(x));
        assert(src@ =~= all.skip(i + 1));
        out.push(x);
        i = i + 1;
    }
    let ghost ch = children@;
    let mut c = children;
    let mut j: usize = 0;
    let cn = c.len();
    while c.len() > 0
        invariant
            cn == ch.len(),
            c@.len() + j == cn,
            c@ == ch.skip(j as int),
            out@ == all.take(at as int) + ch.take(j as int),
        decreases c.len(),
    {
        let x = c.remove(0);
        assert(ch.take(j + 1) =~= ch.take(j as int).push(x));
        assert(c@ =~= ch.skip(j + 1));
        out.push(x);
        assert(out@ =~= all.take(at as int) + ch.take(j + 1));
        j = j + 1;
    }
    assert(ch.take(cn as int) =~= ch);
    let ghost mid = out@;
    let mut k: usize = 0;
    let sn = src.len();
    while src.len() > 0
        invariant
            sn == all.len() - at,
            src@.len() + k == sn,
            src@ == all.skip(at + k),
            out@ == mid + all.skip(at as int).take(k as int),
        decreases src.len(),
    {
        let x = src.remove(0);
        assert(all.skip(at as int).take(k + 1) =~= all.skip(at as int).take(k as int).push(x));
        assert(src@ =~= all.skip(at + k + 1));
        out.push(x);
        k = k + 1;
    }
    assert(all.skip(at as int).take(sn as int) =~= all.skip(at as int));
    out
}

proof fn lemma_select_outside<T>(s: Seq<T>, keep: spec_fn(int) -> bool, a: int, b: int)
    requires
        0 <= a <= b,
        forall|i: int| 0 <= i < s.len() ==> #[trigger] keep(i) == !(a <= i < b),
    ensures
        select(s, keep) == s.take(if a < s.len() { a } else { s.len() as int }) + s.skip(
            if b < s.len() { b } else { s.len() as int },
        ),
    decreases s.len(),
{
    let n = s.len() as int;
    if n == 0 {
        assert(s.take(0) + s.skip(0) =~= Seq::<T>::empty());
    } else {
        let t = s.drop_last();
        lemma_select_outside(t, keep, a, b);
        let m = n - 1;
        if m < a {
            assert(t.take(m) + t.skip(m) =~= t);
            assert(t.push(s.last()) =~= s);
            assert(s.take(n) + s.skip(n) =~= s);
        } else if m < b {
            assert(t.take(a) + t.skip(m) =~= s.take(a));
            assert(s.take(a) + s.skip(n) =~= s.take(a));
        } else {
            assert((t.take(a) + t.skip(b)).push(s.last()) =~= s.take(a) + s.skip(b));
        }
    }
}

proof fn lemma_select_inside<T>(s: Seq<T>, keep: spec_fn(int) -> bool, a: int, b: int)
    requires
        0 <= a <= b <= s.len(),
        forall|i: int| 0 <= i < s.len() ==> #[trigger] keep(i) == (a <= i < b),
    ensures
        select(s, keep) == s.subrange(a, b),
    decreases s.len(),
{
    let n = s.len() as int;
    if n == 0 {
        assert(s.subrange(0, 0) =~= Seq::<T>::empty());
    } else if b == n {
        if a == n {
            lemma_select_none(s, keep);
            assert(s.subrange(a, b) =~= Seq::<T>::empty());
        } else {
            lemma_select_inside(s.drop_last(), keep, a, n - 1);
            assert(s.drop_last().subrange(a, n - 1).push(s.last()) =~= s.subrange(a, b));
        }
    } else {
        lemma_select_inside(s.drop_last(), keep, a, b);
        assert(s.drop_last().subrange(a, b) =~= s.subrange(a, b));
    }
}

proof fn lemma_select_none<T>(s: Seq<T>, keep: spec_fn(int) -> bool)
    requires
        forall|i: int| 0 <= i < s.len() ==> !#[trigger] keep(i),
    ensures
        select(s, keep) == Seq::<T>::empty(),
    decreases s.len(),
{
    if s.len() > 0 {
        lemma_select_none(s.drop_last(), keep);
    }
}

/// Exploding a container right after enclosing a contiguous run of FX in
/// it gives back the chain as it was: the children go back in at the
/// position the container took, in their order.
pub proof fn lemma_explode_undoes_enclose<T>(nodes: Seq<T>, matched: Seq<usize>, a: int)
    requires
        nodes.len() <= usize::MAX,
        matched.len() > 0,
        0 <= a,
        a + matched.len() <= nodes.len(),
        forall|j: int| 0 <= j < matched.len() ==> matched[j] == a + j,
    ensures
        ({
            let rest = select(nodes, unlisted(matched));
            let children = select(nodes, listed(matched));
            let at = if matched[0] <= rest.len() { matched[0] as int } else { rest.len() as int };
            rest.take(at) + children + rest.skip(at) == nodes
        }),
{
    let b = a + matched.len();
    assert forall|i: int| 0 <= i < nodes.len() implies #[trigger] listed(matched)(i) == (a <= i < b) by {
        if a <= i < b {
            assert(matched[i - a] == i as usize);
        }
        if matched.contains(i as usize) {
            let j = choose|j: int| 0 <= j < matched.len() && matched[j] == i as usize;
            assert(matched[j] == a + j);
        }
    }
    assert forall|i: int| 0 <= i < nodes.len() implies #[trigger] unlisted(matched)(i) == !(a <= i < b) by {
        assert(listed(matched)(i) == (a <= i < b));
    }
    lemma_select_outside(nodes, unlisted(matched), a, b);
    lemma_select_inside(nodes, listed(matched), a, b);
    let rest = nodes.take(a) + nodes.skip(b);
    assert(matched[0] == a);
    assert(rest.take(a) =~= nodes.take(a));
    assert(rest.skip(a) =~= nodes.skip(b));
    assert(nodes.take(a) + nodes.subrange(a, b) + nodes.skip(b) =~= nodes);
}

/// Why the container to explode could not be found.
#[derive(PartialEq, Eq, Structural, Clone, Copy, Debug)]
pub enum ExplodeError {
    /// A container identifier whose first path segment is not an index.
    InvalidContainerPath,
    /// No container of the chain matches the identifier.
    ContainerNotFound,
}

/// The first path segment of a container identifier, as an index.
pub open spec fn explode_first_index(id: Seq<char>) -> Option<usize> {
    parse_usize_spec(split_on(id.skip(10), ':')[0])
}

/// The GUID by which the container to explode is looked for: for a
/// container identifier, the `FXID` of the container node at its first
/// path segment (none if that node is not a container or has none); for a
/// plugin identifier, the identifier itself.
pub open spec fn explode_target(id: Seq<char>, nodes: Seq<ChainNode>) -> Option<Seq<char>> {
    if has_prefix(id, container_prefix()) {
        match explode_first_index(id) {
            Some(idx) => if idx < nodes.len() && nodes[idx as int].is_container {
                node_fxid(nodes[idx as int])
            } else {
                None
            },
            None => None,
        }
    } else {
        Some(id)
    }
}

/// Whether node `n` is a container whose `FXID` equals `target`, both
/// without braces and lower-cased.
pub open spec fn is_explode_match(n: ChainNode, target: Option<Seq<char>>) -> bool {
    n.is_container && target is Some && node_fxid(n) is Some && clean_guid_spec(node_fxid(n)->0)
        == clean_guid_spec(target->0)
}

/// The first index at or after `i` of a node matching `target`.
pub open spec fn first_explode_match(nodes: Seq<ChainNode>, target: Option<Seq<char>>, i: int) -> Option<int>
    decreases nodes.len() - i,
{
    if i < 0 || i >= nodes.len() {
        None
    } else if is_explode_match(nodes[i], target) {
        Some(i)
    } else {
        first_explode_match(nodes, target, i + 1)
    }
}

/// Which node a container identifier names for exploding: the first
/// container whose `FXID` matches the target GUID; failing that, for a
/// container identifier, the container node at its first path segment.
pub open spec fn explode_index_spec(id: Seq<char>, nodes: Seq<ChainNode>) -> Result<int, ExplodeError> {
    let is_c = has_prefix(id, container_prefix());
    if is_c && explode_first_index(id) is None {
        Err(ExplodeError::InvalidContainerPath)
    } else {
        match first_explode_match(nodes, explode_target(id, nodes), 0) {
            Some(p) => Ok(p),
            None => if is_c && (explode_first_index(id)->0 as int) < nodes.len() && nodes[explode_first_index(
                id,
            )->0 as int].is_container {
                Ok(explode_first_index(id)->0 as int)
            } else {
                Err(ExplodeError::ContainerNotFound)
            },
        }
    }
}

fn first_segment_index(id: &FxNodeId) -> (r: Option<usize>)
    requires
        has_prefix(id@, container_prefix()),
    ensures
        r == explode_first_index(id@),
{
    let v = chars_of(id.as_str());
    proof {
        reveal_strlit("container:");
    }
    let rest = sub_chars(&v, 10, v.len());
    assert(rest@ =~= v@.skip(10));
    let pieces = crate::menu::split_chars(&rest, ':');
    assert(pieces@.map_values(|w: Vec<char>| w@)[0] == pieces@[0]@);
    parse_usize(&pieces[0])
}

fn guid_matches(a: &str, b: &str) -> (r: bool)
    ensures
        r == (clean_guid_spec(a@) == clean_guid_spec(b@)),
{
    let ca = crate::chunk::clean_guid(a);
    let cb = crate::chunk::clean_guid(b);
    crate::strmap::str_eq(ca.as_str(), cb.as_str())
}

/// Find the node of a parsed FX chain that `container_id` names, for
/// exploding it into its children.
pub fn find_container_to_explode(container_id: &FxNodeId, nodes: &[ChainNode]) -> (r: Result<usize, ExplodeError>)
    ensures
        match r {
            Ok(i) => explode_index_spec(container_id@, nodes@) == Ok::<int, ExplodeError>(i as int),
            Err(e) => explode_index_spec(container_id@, nodes@) == Err::<int, ExplodeError>(e),
        },
{
    let is_c = container_id.is_container();
    let mut first: Option<usize> = None;
    if is_c {
        first = first_segment_index(container_id);
        if first.is_none() {
            return Err(ExplodeError::InvalidContainerPath);
        }
    }
    // the GUID to look for
    let target: Option<String> = if is_c {
        let idx = first.unwrap();
        if idx < nodes.len() && nodes[idx].is_container {
            match &nodes[idx].fxid {
                Some(g) => Some(string_of(&chars_of(g.as_str()))),
                None => None,
            }
        } else {
            None
        }
    } else {
        Some(string_of(&chars_of(container_id.as_str())))
    };
    let ghost tv = match &target {
        Some(t) => Some(t@),
        None => None::<Seq<char>>,
    };
    assert(tv == explode_target(container_id@, nodes@));
    let mut i: usize = 0;
    while i < nodes.len()
        invariant
            i <= nodes.len(),
            tv == explode_target(container_id@, nodes@),
            tv == (match &target {
                Some(t) => Some(t@),
                None => None::<Seq<char>>,
            }),
            first_explode_match(nodes@, tv, 0) == first_explode_match(nodes@, tv, i as int),
        decreases nodes.len() - i,
    {
        let m = match (&target, &nodes[i].fxid) {
            (Some(t), Some(f)) => nodes[i].is_container && guid_matches(f.as_str(), t.as_str()),
            _ => false,
        };
        assert(m == is_explode_match(nodes@[i as int], tv));
        if m {
            return Ok(i);
        }
        i = i + 1;
    }
    if is_c {
        let idx = first.unwrap();
        if idx < nodes.len() && nodes[idx].is_container {
            return Ok(idx);
        }
    }
    Err(ExplodeError::ContainerNotFound)
}

// ---------------------------------------------------------------------------
// Output pin mappings
// ---------------------------------------------------------------------------

/// The pin number of the first output pin in REAPER's second 64-pin bank.
pub const SECOND_PIN_BANK: i32 = 0x1000000;

/// The output pins scanned when silencing an FX: 0..64, then the same 64
/// in the second bank.
pub open spec fn silence_scan_pins_spec() -> Seq<i32> {
    Seq::new(128, |i: int| if i < 64 {
        i as i32
    } else {
        (i - 64 + 0x1000000) as i32
    })
}

/// The output pins scanned when silencing an FX, in scan order.
pub fn silence_scan_pins() -> (r: Vec<i32>)
    ensures
        r@ == silence_scan_pins_spec(),
{
    let mut r: Vec<i32> = Vec::new();
    let mut i: i32 = 0;
    while i < 128
        invariant
            0 <= i <= 128,
            r@.len() == i,
            forall|j: int| 0 <= j < i ==> r@[j] == silence_scan_pins_spec()[j],
        decreases 128 - i,
    {
        if i < 64 {
            r.push(i);
        } else {
            r.push(i - 64 + SECOND_PIN_BANK);
        }
        i = i + 1;
    }
    assert(r@ =~= silence_scan_pins_spec());
    r
}

/// A pin's mapping as read: pin number, low 32 bits, high 32 bits.
pub type PinMapping = (i32, i32, i32);

/// The pins whose mapping is not empty, in scan order; these are saved
/// and then cleared to silence the FX.
pub open spec fn pins_to_save_spec(readings: Seq<PinMapping>) -> Seq<PinMapping> {
    readings.filter(|m: PinMapping| m.1 != 0 || m.2 != 0)
}

/// The mappings to save (and clear) when silencing an FX's output.
pub fn pins_to_save(readings: &[PinMapping]) -> (r: Vec<PinMapping>)
    ensures
        r@ == pins_to_save_spec(readings@),
{
    let mut r: Vec<PinMapping> = Vec::new();
    let mut i: usize = 0;
    proof {
        assert(readings@.take(0) =~= Seq::<PinMapping>::empty());
        reveal_with_fuel(Seq::filter, 1);
    }
    while i < readings.len()
        invariant
            i <= readings.len(),
            r@ == pins_to_save_spec(readings@.take(i as int)),
        decreases readings.len() - i,
    {
        proof {
            assert(readings@.take(i + 1).drop_last() =~= readings@.take(i as int));
            assert(readings@.take(i + 1).last() == readings@[i as int]);
            reveal_with_fuel(Seq::filter, 1);
        }
        let m = readings[i];
        if m.1 != 0 || m.2 != 0 {
            r.push(m);
        }
        i = i + 1;
    }
    assert(readings@.take(readings.len() as int) =~= readings@);
    r
}

/// The mappings to write back when restoring an FX's output: the saved
/// ones, or, when none were saved, the default stereo pass-through (pin 0
/// to channel 0, pin 1 to channel 1).
pub fn restore_pin_plan(saved: &[PinMapping]) -> (r: Vec<PinMapping>)
    ensures
        saved@.len() == 0 ==> r@ == seq![(0i32, 1i32, 0i32), (1i32, 2i32, 0i32)],
        saved@.len() > 0 ==> r@ == saved@,
{
    let mut r: Vec<PinMapping> = Vec::new();
    if saved.len() == 0 {
        r.push((0, 1, 0));
        r.push((1, 2, 0));
        assert(r@ =~= seq![(0i32, 1i32, 0i32), (1i32, 2i32, 0i32)]);
        return r;
    }
    let mut i: usize = 0;
    while i < saved.len()
        invariant
            i <= saved.len(),
            r@ == saved@.take(i as int),
        decreases saved.len() - i,
    {
        r.push(saved[i]);
        assert(saved@.take(i + 1) =~= saved@.take(i as int).push(saved@[i as int]));
        i = i + 1;
    }
    assert(saved@.take(saved.len() as int) =~= saved@);
    r
}

} // verus!
