//! Change detection for monitored FX chains: from the previous and the
//! current snapshot of a chain, the events that tell subscribers what
//! changed (FX added, removed, enabled or bypassed, moved; containers
//! created, removed, renamed, re-routed; plugins moved into containers).
//!
//! Parameter values are compared by the caller: for every FX present in
//! both snapshots the events hold a `CompareParameters` entry, in the place
//! where that FX's parameter changes belong.
use vstd::prelude::*;

use crate::fx::{container_prefix, FxNodeId, FxType};
use crate::text::{chars_of, has_prefix, starts_with_chars, sub_chars, string_of};

verus! {

// ---------------------------------------------------------------------------
// Snapshots
// ---------------------------------------------------------------------------

/// What is kept of one FX of a chain between two polls.
pub struct FxSnapshot {
    pub guid: String,
    pub name: String,
    pub index: u32,
    pub enabled: bool,
    pub param_count: u32,
}

/// An FX snapshot as a value.
pub struct FxSnapView {
    pub guid: Seq<char>,
    pub name: Seq<char>,
    pub index: u32,
    pub enabled: bool,
    pub param_count: u32,
}

impl View for FxSnapshot {
    type V = FxSnapView;

    open spec fn view(&self) -> FxSnapView {
        FxSnapView {
            guid: self.guid@,
            name: self.name@,
            index: self.index,
            enabled: self.enabled,
            param_count: self.param_count,
        }
    }
}

/// What is kept of one container of a chain between two polls: its node id
/// (`container:` and its path), name, routing mode, number of children and
/// the ids of its direct children (a plugin by GUID, a container as `c:`
/// and its path).
pub struct ContainerSnapshot {
    pub node_id: String,
    pub name: String,
    pub routing_mode: u32,
    pub child_count: u32,
    pub child_ids: Vec<String>,
}

/// A container snapshot as a value.
pub struct ContainerView {
    pub node_id: Seq<char>,
    pub name: Seq<char>,
    pub routing_mode: u32,
    pub child_count: u32,
    pub child_ids: Seq<Seq<char>>,
}

/// The characters of each string.
pub open spec fn strings_view(v: Seq<String>) -> Seq<Seq<char>> {
    v.map_values(|s: String| s@)
}

impl View for ContainerSnapshot {
    type V = ContainerView;

    open spec fn view(&self) -> ContainerView {
        ContainerView {
            node_id: self.node_id@,
            name: self.name@,
            routing_mode: self.routing_mode,
            child_count: self.child_count,
            child_ids: strings_view(self.child_ids@),
        }
    }
}

/// A snapshot of a whole chain: its FX in chain order and its containers.
pub struct ChainSnapshot {
    pub fx_states: Vec<FxSnapshot>,
    pub containers: Vec<ContainerSnapshot>,
}

/// The FX snapshots as values.
pub open spec fn fx_views(v: Seq<FxSnapshot>) -> Seq<FxSnapView> {
    v.map_values(|s: FxSnapshot| s@)
}

/// The container snapshots as values.
pub open spec fn container_views(v: Seq<ContainerSnapshot>) -> Seq<ContainerView> {
    v.map_values(|c: ContainerSnapshot| c@)
}

// ---------------------------------------------------------------------------
// Events
// ---------------------------------------------------------------------------

/// A change of a monitored FX chain.
pub enum FxEvent {
    /// No FX with this GUID is left.
    Removed { fx_guid: String },
    /// An FX with a GUID that was not there before. Its plugin name is its
    /// FX name and its plugin type `Unknown`: a snapshot keeps neither.
    Added {
        guid: String,
        index: u32,
        name: String,
        plugin_name: String,
        plugin_type: FxType,
        enabled: bool,
        parameter_count: u32,
    },
    /// The FX was enabled or bypassed.
    EnabledChanged { fx_guid: String, enabled: bool },
    /// The FX moved to another index.
    Moved { fx_guid: String, old_index: u32, new_index: u32 },
    /// The caller compares the parameter values of this FX, kept at these
    /// positions of the previous and current snapshots, and reports changes.
    CompareParameters { fx_guid: String, prev_position: usize, curr_position: usize },
    /// A container that was not there before.
    ContainerCreated { container_id: FxNodeId, name: String },
    /// The container is gone.
    ContainerRemoved { container_id: FxNodeId },
    /// The container's routing mode changed to this raw mode.
    RoutingModeChanged { container_id: FxNodeId, routing_mode: u32 },
    /// The container was renamed.
    ContainerRenamed { container_id: FxNodeId, name: String },
    /// A plugin moved into a container, from the first container that held it before (if any).
    MovedToContainer { node_id: FxNodeId, source_container: Option<FxNodeId>, dest_container: FxNodeId },
    /// The tree's structure changed.
    TreeStructureChanged,
}

/// An event as a value.
pub enum FxEventView {
    Removed { fx_guid: Seq<char> },
    Added {
        guid: Seq<char>,
        index: u32,
        name: Seq<char>,
        plugin_name: Seq<char>,
        plugin_type: FxType,
        enabled: bool,
        parameter_count: u32,
    },
    EnabledChanged { fx_guid: Seq<char>, enabled: bool },
    Moved { fx_guid: Seq<char>, old_index: u32, new_index: u32 },
    CompareParameters { fx_guid: Seq<char>, prev_position: int, curr_position: int },
    ContainerCreated { container_id: Seq<char>, name: Seq<char> },
    ContainerRemoved { container_id: Seq<char> },
    RoutingModeChanged { container_id: Seq<char>, routing_mode: u32 },
    ContainerRenamed { container_id: Seq<char>, name: Seq<char> },
    MovedToContainer { node_id: Seq<char>, source_container: Option<Seq<char>>, dest_container: Seq<char> },
    TreeStructureChanged,
}

impl View for FxEvent {
    type V = FxEventView;

    open spec fn view(&self) -> FxEventView {
        match self {
            FxEvent::Removed { fx_guid } => FxEventView::Removed { fx_guid: fx_guid@ },
            FxEvent::Added { guid, index, name, plugin_name, plugin_type, enabled, parameter_count } => FxEventView::Added {
                guid: guid@,
                index: *index,
                name: name@,
                plugin_name: plugin_name@,
                plugin_type: *plugin_type,
                enabled: *enabled,
                parameter_count: *parameter_count,
            },
            FxEvent::EnabledChanged { fx_guid, enabled } => FxEventView::EnabledChanged {
                fx_guid: fx_guid@,
                enabled: *enabled,
            },
            FxEvent::Moved { fx_guid, old_index, new_index } => FxEventView::Moved {
                fx_guid: fx_guid@,
                old_index: *old_index,
                new_index: *new_index,
            },
            FxEvent::CompareParameters { fx_guid, prev_position, curr_position } => FxEventView::CompareParameters {
                fx_guid: fx_guid@,
                prev_position: *prev_position as int,
                curr_position: *curr_position as int,
            },
            FxEvent::ContainerCreated { container_id, name } => FxEventView::ContainerCreated {
                container_id: container_id@,
                name: name@,
            },
            FxEvent::ContainerRemoved { container_id } => FxEventView::ContainerRemoved {
                container_id: container_id@,
            },
            FxEvent::RoutingModeChanged { container_id, routing_mode } => FxEventView::RoutingModeChanged {
                container_id: container_id@,
                routing_mode: *routing_mode,
            },
            FxEvent::ContainerRenamed { container_id, name } => FxEventView::ContainerRenamed {
                container_id: container_id@,
                name: name@,
            },
            FxEvent::MovedToContainer { node_id, source_container, dest_container } => FxEventView::MovedToContainer {
                node_id: node_id@,
                source_container: match source_container {
                    Some(s) => Some(s@),
                    None => None,
                },
                dest_container: dest_container@,
            },
            FxEvent::TreeStructureChanged => FxEventView::TreeStructureChanged,
        }
    }
}

/// The events as values.
pub open spec fn events_view(v: Seq<FxEvent>) -> Seq<FxEventView> {
    v.map_values(|e: FxEvent| e@)
}

// ---------------------------------------------------------------------------
// What changed among the FX
// ---------------------------------------------------------------------------

/// The position of the last FX in `states` with GUID `g` (the one a lookup
/// by GUID finds when several share it).
pub open spec fn last_with_guid(states: Seq<FxSnapView>, g: Seq<char>) -> Option<int>
    decreases states.len(),
{
    if states.len() == 0 {
        None
    } else if states.last().guid == g {
        Some(states.len() - 1)
    } else {
        last_with_guid(states.drop_last(), g)
    }
}

/// The removals among the first `n` previous FX: one per GUID (at its first
/// occurrence) that no current FX has.
pub open spec fn removed_events(prev: Seq<FxSnapView>, curr: Seq<FxSnapView>, n: int) -> Seq<FxEventView>
    decreases n,
{
    if n <= 0 || n > prev.len() {
        Seq::empty()
    } else {
        let g = prev[n - 1].guid;
        removed_events(prev, curr, n - 1) + (if last_with_guid(curr, g) is None && last_with_guid(
            prev.take(n - 1),
            g,
        ) is None {
            seq![FxEventView::Removed { fx_guid: g }]
        } else {
            Seq::empty()
        })
    }
}

/// The additions among the first `n` current FX: each one whose GUID no previous FX has.
pub open spec fn added_events(prev: Seq<FxSnapView>, curr: Seq<FxSnapView>, n: int) -> Seq<FxEventView>
    decreases n,
{
    if n <= 0 || n > curr.len() {
        Seq::empty()
    } else {
        let c = curr[n - 1];
        added_events(prev, curr, n - 1) + (if last_with_guid(prev, c.guid) is None {
            seq![
                FxEventView::Added {
                    guid: c.guid,
                    index: c.index,
                    name: c.name,
                    plugin_name: c.name,
                    plugin_type: FxType::Unknown,
                    enabled: c.enabled,
                    parameter_count: c.param_count,
                },
            ]
        } else {
            Seq::empty()
        })
    }
}

/// The changes of one current FX, at position `i`, that a previous FX (the
/// last with its GUID, at position `j`) had: enabled state, index, and
/// its parameters to compare.
pub open spec fn fx_change_events(p: FxSnapView, j: int, c: FxSnapView, i: int) -> Seq<FxEventView> {
    (if p.enabled != c.enabled {
        seq![FxEventView::EnabledChanged { fx_guid: c.guid, enabled: c.enabled }]
    } else {
        Seq::empty()
    }) + (if p.index != c.index {
        seq![FxEventView::Moved { fx_guid: c.guid, old_index: p.index, new_index: c.index }]
    } else {
        Seq::empty()
    }) + seq![FxEventView::CompareParameters { fx_guid: c.guid, prev_position: j, curr_position: i }]
}

/// The changes among the first `n` current FX.
pub open spec fn changed_events(prev: Seq<FxSnapView>, curr: Seq<FxSnapView>, n: int) -> Seq<FxEventView>
    decreases n,
{
    if n <= 0 || n > curr.len() {
        Seq::empty()
    } else {
        let c = curr[n - 1];
        changed_events(prev, curr, n - 1) + match last_with_guid(prev, c.guid) {
            Some(j) => fx_change_events(prev[j], j, c, n - 1),
            None => Seq::empty(),
        }
    }
}

// ---------------------------------------------------------------------------
// What changed among the containers
// ---------------------------------------------------------------------------

/// The position of the last container in `cs` with node id `id`.
pub open spec fn last_with_node(cs: Seq<ContainerView>, id: Seq<char>) -> Option<int>
    decreases cs.len(),
{
    if cs.len() == 0 {
        None
    } else if cs.last().node_id == id {
        Some(cs.len() - 1)
    } else {
        last_with_node(cs.drop_last(), id)
    }
}

/// The first container, from position `i` on, whose children include `child`.
pub open spec fn first_holding(cs: Seq<ContainerView>, child: Seq<char>, i: int) -> Option<int>
    decreases cs.len() - i,
{
    if i < 0 || i >= cs.len() {
        None
    } else if cs[i].child_ids.contains(child) {
        Some(i)
    } else {
        first_holding(cs, child, i + 1)
    }
}

/// The marker of a container among a container's child ids.
pub open spec fn child_container_marker() -> Seq<char> {
    seq!['c', ':']
}

/// The creations among the first `n` current containers.
pub open spec fn created_events(prev: Seq<ContainerView>, curr: Seq<ContainerView>, n: int) -> Seq<FxEventView>
    decreases n,
{
    if n <= 0 || n > curr.len() {
        Seq::empty()
    } else {
        let c = curr[n - 1];
        created_events(prev, curr, n - 1) + (if last_with_node(prev, c.node_id) is None {
            seq![FxEventView::ContainerCreated { container_id: c.node_id, name: c.name }]
        } else {
            Seq::empty()
        })
    }
}

/// The removals among the first `n` previous containers.
pub open spec fn container_removed_events(prev: Seq<ContainerView>, curr: Seq<ContainerView>, n: int) -> Seq<FxEventView>
    decreases n,
{
    if n <= 0 || n > prev.len() {
        Seq::empty()
    } else {
        let p = prev[n - 1];
        container_removed_events(prev, curr, n - 1) + (if last_with_node(curr, p.node_id) is None {
            seq![FxEventView::ContainerRemoved { container_id: p.node_id }]
        } else {
            Seq::empty()
        })
    }
}

/// The moves into container `dest` among its first `n` current children:
/// each plugin child (not `c:`) that was not among its previous children,
/// with the first previous container that held it.
pub open spec fn moved_in_events(
    prev: Seq<ContainerView>,
    old_children: Seq<Seq<char>>,
    new_children: Seq<Seq<char>>,
    dest: Seq<char>,
    n: int,
) -> Seq<FxEventView>
    decreases n,
{
    if n <= 0 || n > new_children.len() {
        Seq::empty()
    } else {
        let child = new_children[n - 1];
        moved_in_events(prev, old_children, new_children, dest, n - 1) + (if !has_prefix(
            child,
            child_container_marker(),
        ) && !old_children.contains(child) {
            seq![
                FxEventView::MovedToContainer {
                    node_id: child,
                    source_container: match first_holding(prev, child, 0) {
                        Some(k) => Some(prev[k].node_id),
                        None => None,
                    },
                    dest_container: dest,
                },
            ]
        } else {
            Seq::empty()
        })
    }
}

/// The changes of one current container `c` that a previous container `p`
/// with its node id had: routing mode, name, and plugins moved into it.
pub open spec fn container_change_events(prev: Seq<ContainerView>, p: ContainerView, c: ContainerView) -> Seq<FxEventView> {
    (if p.routing_mode != c.routing_mode {
        seq![FxEventView::RoutingModeChanged { container_id: c.node_id, routing_mode: c.routing_mode }]
    } else {
        Seq::empty()
    }) + (if p.name != c.name {
        seq![FxEventView::ContainerRenamed { container_id: c.node_id, name: c.name }]
    } else {
        Seq::empty()
    }) + (if p.child_ids != c.child_ids {
        moved_in_events(prev, p.child_ids, c.child_ids, c.node_id, c.child_ids.len() as int)
    } else {
        Seq::empty()
    })
}

/// The changes among the first `n` current containers.
pub open spec fn container_changed_events(prev: Seq<ContainerView>, curr: Seq<ContainerView>, n: int) -> Seq<FxEventView>
    decreases n,
{
    if n <= 0 || n > curr.len() {
        Seq::empty()
    } else {
        let c = curr[n - 1];
        container_changed_events(prev, curr, n - 1) + match last_with_node(prev, c.node_id) {
            Some(j) => container_change_events(prev, prev[j], c),
            None => Seq::empty(),
        }
    }
}

/// Whether some current container's children differ from those of the
/// previous container with its node id.
pub open spec fn tree_changed(prev: Seq<ContainerView>, curr: Seq<ContainerView>) -> bool {
    exists|i: int| 0 <= i < curr.len() && #[trigger] last_with_node(prev, curr[i].node_id) is Some
        && prev[last_with_node(prev, curr[i].node_id)->0].child_ids != curr[i].child_ids
}

/// All events for a change of a chain from `prev` to `curr`: FX removed,
/// added and changed, then containers created, removed and changed, and
/// finally one tree-structure event when some container's children changed.
pub open spec fn chain_events(
    prev_fx: Seq<FxSnapView>,
    curr_fx: Seq<FxSnapView>,
    prev_c: Seq<ContainerView>,
    curr_c: Seq<ContainerView>,
) -> Seq<FxEventView> {
    removed_events(prev_fx, curr_fx, prev_fx.len() as int) + added_events(prev_fx, curr_fx, curr_fx.len() as int)
        + changed_events(prev_fx, curr_fx, curr_fx.len() as int) + created_events(prev_c, curr_c, curr_c.len() as int)
        + container_removed_events(prev_c, curr_c, prev_c.len() as int)
        + container_changed_events(prev_c, curr_c, curr_c.len() as int) + (if tree_changed(prev_c, curr_c) {
        seq![FxEventView::TreeStructureChanged]
    } else {
        Seq::empty()
    })
}

/// Whether every container node id starts with `container:`.
pub open spec fn node_ids_well_formed(cs: Seq<ContainerView>) -> bool {
    forall|i: int| 0 <= i < cs.len() ==> has_prefix(#[trigger] cs[i].node_id, container_prefix())
}

// ---------------------------------------------------------------------------
// Computing the events
// ---------------------------------------------------------------------------

fn copy_str(s: &str) -> (r: String)
    ensures
        r@ == s@,
{
    string_of(&chars_of(s))
}

fn last_guid_position(states: &[FxSnapshot], g: &str, n: usize) -> (r: Option<usize>)
    requires
        n <= states@.len(),
    ensures
        match r {
            Some(j) => j < n && last_with_guid(fx_views(states@).take(n as int), g@) == Some(j as int),
            None => last_with_guid(fx_views(states@).take(n as int), g@) is None,
        },
{
    let ghost all = fx_views(states@);
    let mut found: Option<usize> = None;
    let mut i: usize = 0;
    while i < n
        invariant
            i <= n <= states@.len(),
            all == fx_views(states@),
            found matches Some(j) ==> j < i,
            match found {
                Some(j) => last_with_guid(all.take(i as int), g@) == Some(j as int),
                None => last_with_guid(all.take(i as int), g@) is None,
            },
        decreases n - i,
    {
        proof {
            assert(all.take(i + 1).drop_last() =~= all.take(i as int));
        }
        if crate::strmap::str_eq(states[i].guid.as_str(), g) {
            found = Some(i);
        }
        i = i + 1;
    }
    found
}

fn last_node_position(cs: &[ContainerSnapshot], id: &str) -> (r: Option<usize>)
    ensures
        match r {
            Some(j) => j < cs@.len() && last_with_node(container_views(cs@), id@) == Some(j as int),
            None => last_with_node(container_views(cs@), id@) is None,
        },
{
    let ghost all = container_views(cs@);
    let mut found: Option<usize> = None;
    let mut i: usize = 0;
    while i < cs.len()
        invariant
            i <= cs.len(),
            all == container_views(cs@),
            found matches Some(j) ==> j < i,
            match found {
                Some(j) => last_with_node(all.take(i as int), id@) == Some(j as int),
                None => last_with_node(all.take(i as int), id@) is None,
            },
        decreases cs.len() - i,
    {
        proof {
            assert(all.take(i + 1).drop_last() =~= all.take(i as int));
        }
        if crate::strmap::str_eq(cs[i].node_id.as_str(), id) {
            found = Some(i);
        }
        i = i + 1;
    }
    assert(all.take(cs.len() as int) =~= all);
    found
}

fn contains_string(v: &[String], s: &str) -> (r: bool)
    ensures
        r == strings_view(v@).contains(s@),
{
    let mut i: usize = 0;
    while i < v.len()
        invariant
            i <= v.len(),
            forall|k: int| 0 <= k < i ==> strings_view(v@)[k] != s@,
        decreases v.len() - i,
    {
        if crate::strmap::str_eq(v[i].as_str(), s) {
            assert(strings_view(v@)[i as int] == s@);
            return true;
        }
        i = i + 1;
    }
    false
}

fn strings_equal(a: &[String], b: &[String]) -> (r: bool)
    ensures
        r == (strings_view(a@) == strings_view(b@)),
{
    if a.len() != b.len() {
        assert(strings_view(a@).len() != strings_view(b@).len());
        return false;
    }
    let mut i: usize = 0;
    while i < a.len()
        invariant
            i <= a.len(),
            a.len() == b.len(),
            forall|k: int| 0 <= k < i ==> strings_view(a@)[k] == strings_view(b@)[k],
        decreases a.len() - i,
    {
        if !crate::strmap::str_eq(a[i].as_str(), b[i].as_str()) {
            assert(strings_view(a@)[i as int] != strings_view(b@)[i as int]);
            return false;
        }
        i = i + 1;
    }
    assert(strings_view(a@) =~= strings_view(b@));
    true
}

fn first_holding_position(cs: &[ContainerSnapshot], child: &str) -> (r: Option<usize>)
    ensures
        match r {
            Some(k) => k < cs@.len() && first_holding(container_views(cs@), child@, 0) == Some(k as int),
            None => first_holding(container_views(cs@), child@, 0) is None,
        },
{
    let ghost all = container_views(cs@);
    let mut i: usize = 0;
    while i < cs.len()
        invariant
            i <= cs.len(),
            all == container_views(cs@),
            first_holding(all, child@, 0) == first_holding(all, child@, i as int),
        decreases cs.len() - i,
    {
        if contains_string(&cs[i].child_ids, child) {
            return Some(i);
        }
        i = i + 1;
    }
    None
}

/// The id of the container with node id `node_id`.
fn container_id_of(node_id: &str) -> (r: FxNodeId)
    requires
        has_prefix(node_id@, container_prefix()),
    ensures
        r@ == node_id@,
{
    let v = chars_of(node_id);
    proof {
        reveal_strlit("container:");
    }
    let rest = sub_chars(&v, 10, v.len());
    let r = FxNodeId::container(string_of(&rest).as_str());
    assert(r@ =~= node_id@);
    r
}

fn push_event(out: &mut Vec<FxEvent>, e: FxEvent)
    ensures
        events_view(final(out)@) == events_view(old(out)@).push(e@),
{
    out.push(e);
    assert(events_view(out@) =~= events_view(old(out)@).push(e@));
}

fn push_removed(out: &mut Vec<FxEvent>, prev: &[FxSnapshot], curr: &[FxSnapshot])
    ensures
        events_view(final(out)@) == events_view(old(out)@) + removed_events(
            fx_views(prev@),
            fx_views(curr@),
            prev@.len() as int,
        ),
{
    let ghost p = fx_views(prev@);
    let ghost c = fx_views(curr@);
    let ghost base = events_view(out@);
    let mut i: usize = 0;
    while i < prev.len()
        invariant
            i <= prev.len(),
            p == fx_views(prev@),
            c == fx_views(curr@),
            events_view(out@) == base + removed_events(p, c, i as int),
        decreases prev.len() - i,
    {
        let g = prev[i].guid.as_str();
        let in_curr = last_guid_position(curr, g, curr.len());
        let earlier = last_guid_position(prev, g, i);
        assert(c.take(c.len() as int) =~= c);
        let ghost before = events_view(out@);
        if in_curr.is_none() && earlier.is_none() {
            push_event(out, FxEvent::Removed { fx_guid: copy_str(g) });
        }
        assert(events_view(out@) =~= base + removed_events(p, c, i + 1));
        i = i + 1;
    }
}

fn push_added(out: &mut Vec<FxEvent>, prev: &[FxSnapshot], curr: &[FxSnapshot])
    ensures
        events_view(final(out)@) == events_view(old(out)@) + added_events(
            fx_views(prev@),
            fx_views(curr@),
            curr@.len() as int,
        ),
{
    let ghost p = fx_views(prev@);
    let ghost c = fx_views(curr@);
    let ghost base = events_view(out@);
    let mut i: usize = 0;
    while i < curr.len()
        invariant
            i <= curr.len(),
            p == fx_views(prev@),
            c == fx_views(curr@),
            events_view(out@) == base + added_events(p, c, i as int),
        decreases curr.len() - i,
    {
        let f = &curr[i];
        assert(p.take(p.len() as int) =~= p);
        if last_guid_position(prev, f.guid.as_str(), prev.len()).is_none() {
            push_event(
                out,
                FxEvent::Added {
                    guid: copy_str(f.guid.as_str()),
                    index: f.index,
                    name: copy_str(f.name.as_str()),
                    plugin_name: copy_str(f.name.as_str()),
                    plugin_type: FxType::Unknown,
                    enabled: f.enabled,
                    parameter_count: f.param_count,
                },
            );
        }
        assert(events_view(out@) =~= base + added_events(p, c, i + 1));
        i = i + 1;
    }
}

fn push_changed(out: &mut Vec<FxEvent>, prev: &[FxSnapshot], curr: &[FxSnapshot])
    ensures
        events_view(final(out)@) == events_view(old(out)@) + changed_events(
            fx_views(prev@),
            fx_views(curr@),
            curr@.len() as int,
        ),
{
    let ghost p = fx_views(prev@);
    let ghost c = fx_views(curr@);
    let ghost base = events_view(out@);
    let mut i: usize = 0;
    while i < curr.len()
        invariant
            i <= curr.len(),
            p == fx_views(prev@),
            c == fx_views(curr@),
            events_view(out@) == base + changed_events(p, c, i as int),
        decreases curr.len() - i,
    {
        let f = &curr[i];
        let ghost before = events_view(out@);
        assert(p.take(p.len() as int) =~= p);
        match last_guid_position(prev, f.guid.as_str(), prev.len()) {
            Some(j) => {
                let pf = &prev[j];
                if pf.enabled != f.enabled {
                    push_event(out, FxEvent::EnabledChanged { fx_guid: copy_str(f.guid.as_str()), enabled: f.enabled });
                }
                let ghost mid = events_view(out@);
                if pf.index != f.index {
                    push_event(
                        out,
                        FxEvent::Moved { fx_guid: copy_str(f.guid.as_str()), old_index: pf.index, new_index: f.index },
                    );
                }
                push_event(
                    out,
                    FxEvent::CompareParameters { fx_guid: copy_str(f.guid.as_str()), prev_position: j, curr_position: i },
                );
                assert(events_view(out@) =~= before + fx_change_events(p[j as int], j as int, c[i as int], i as int));
            },
            None => {},
        }
        assert(events_view(out@) =~= base + changed_events(p, c, i + 1));
        i = i + 1;
    }
}

fn push_created(out: &mut Vec<FxEvent>, prev: &[ContainerSnapshot], curr: &[ContainerSnapshot])
    requires
        node_ids_well_formed(container_views(curr@)),
    ensures
        events_view(final(out)@) == events_view(old(out)@) + created_events(
            container_views(prev@),
            container_views(curr@),
            curr@.len() as int,
        ),
{
    let ghost p = container_views(prev@);
    let ghost c = container_views(curr@);
    let ghost base = events_view(out@);
    let mut i: usize = 0;
    while i < curr.len()
        invariant
            i <= curr.len(),
            p == container_views(prev@),
            c == container_views(curr@),
            node_ids_well_formed(c),
            events_view(out@) == base + created_events(p, c, i as int),
        decreases curr.len() - i,
    {
        let k = &curr[i];
        if last_node_position(prev, k.node_id.as_str()).is_none() {
            assert(has_prefix(c[i as int].node_id, container_prefix()));
            push_event(
                out,
                FxEvent::ContainerCreated { container_id: container_id_of(k.node_id.as_str()), name: copy_str(k.name.as_str()) },
            );
        }
        assert(events_view(out@) =~= base + created_events(p, c, i + 1));
        i = i + 1;
    }
}

fn push_container_removed(out: &mut Vec<FxEvent>, prev: &[ContainerSnapshot], curr: &[ContainerSnapshot])
    requires
        node_ids_well_formed(container_views(prev@)),
    ensures
        events_view(final(out)@) == events_view(old(out)@) + container_removed_events(
            container_views(prev@),
            container_views(curr@),
            prev@.len() as int,
        ),
{
    let ghost p = container_views(prev@);
    let ghost c = container_views(curr@);
    let ghost base = events_view(out@);
    let mut i: usize = 0;
    while i < prev.len()
        invariant
            i <= prev.len(),
            p == container_views(prev@),
            c == container_views(curr@),
            node_ids_well_formed(p),
            events_view(out@) == base + container_removed_events(p, c, i as int),
        decreases prev.len() - i,
    {
        let k = &prev[i];
        if last_node_position(curr, k.node_id.as_str()).is_none() {
            assert(has_prefix(p[i as int].node_id, container_prefix()));
            push_event(out, FxEvent::ContainerRemoved { container_id: container_id_of(k.node_id.as_str()) });
        }
        assert(events_view(out@) =~= base + container_removed_events(p, c, i + 1));
        i = i + 1;
    }
}

fn push_moved_in(
    out: &mut Vec<FxEvent>,
    prev: &[ContainerSnapshot],
    old_children: &[String],
    new_children: &[String],
    dest: &str,
)
    requires
        node_ids_well_formed(container_views(prev@)),
        has_prefix(dest@, container_prefix()),
    ensures
        events_view(final(out)@) == events_view(old(out)@) + moved_in_events(
            container_views(prev@),
            strings_view(old_children@),
            strings_view(new_children@),
            dest@,
            new_children@.len() as int,
        ),
{
    let ghost p = container_views(prev@);
    let ghost oc = strings_view(old_children@);
    let ghost nc = strings_view(new_children@);
    let ghost base = events_view(out@);
    let marker: Vec<char> = vec!['c', ':'];
    assert(marker@ =~= child_container_marker());
    let mut i: usize = 0;
    while i < new_children.len()
        invariant
            i <= new_children.len(),
            p == container_views(prev@),
            oc == strings_view(old_children@),
            nc == strings_view(new_children@),
            node_ids_well_formed(p),
            has_prefix(dest@, container_prefix()),
            marker@ == child_container_marker(),
            events_view(out@) == base + moved_in_events(p, oc, nc, dest@, i as int),
        decreases new_children.len() - i,
    {
        let child = new_children[i].as_str();
        assert(nc[i as int] == child@);
        let is_container = starts_with_chars(&chars_of(child), &marker);
        if !is_container && !contains_string(old_children, child) {
            let source = match first_holding_position(prev, child) {
                Some(k) => {
                    assert(has_prefix(p[k as int].node_id, container_prefix()));
                    Some(container_id_of(prev[k].node_id.as_str()))
                },
                None => None,
            };
            push_event(
                out,
                FxEvent::MovedToContainer {
                    node_id: FxNodeId::from_guid(child),
                    source_container: source,
                    dest_container: container_id_of(dest),
                },
            );
        }
        assert(events_view(out@) =~= base + moved_in_events(p, oc, nc, dest@, i + 1));
        i = i + 1;
    }
}

fn push_container_changed(out: &mut Vec<FxEvent>, prev: &[ContainerSnapshot], curr: &[ContainerSnapshot]) -> (changed: bool)
    requires
        node_ids_well_formed(container_views(prev@)),
        node_ids_well_formed(container_views(curr@)),
    ensures
        events_view(final(out)@) == events_view(old(out)@) + container_changed_events(
            container_views(prev@),
            container_views(curr@),
            curr@.len() as int,
        ),
        changed == tree_changed(container_views(prev@), container_views(curr@)),
{
    let ghost p = container_views(prev@);
    let ghost c = container_views(curr@);
    let ghost base = events_view(out@);
    let mut changed = false;
    let mut i: usize = 0;
    while i < curr.len()
        invariant
            i <= curr.len(),
            p == container_views(prev@),
            c == container_views(curr@),
            node_ids_well_formed(p),
            node_ids_well_formed(c),
            events_view(out@) == base + container_changed_events(p, c, i as int),
            changed == (exists|k: int| 0 <= k < i && #[trigger] last_with_node(p, c[k].node_id) is Some
                && p[last_with_node(p, c[k].node_id)->0].child_ids != c[k].child_ids),
        decreases curr.len() - i,
    {
        let k = &curr[i];
        let ghost before = events_view(out@);
        let ghost changed_before = changed;
        match last_node_position(prev, k.node_id.as_str()) {
            Some(j) => {
                let pk = &prev[j];
                assert(has_prefix(c[i as int].node_id, container_prefix()));
                if pk.routing_mode != k.routing_mode {
                    push_event(
                        out,
                        FxEvent::RoutingModeChanged {
                            container_id: container_id_of(k.node_id.as_str()),
                            routing_mode: k.routing_mode,
                        },
                    );
                }
                if !crate::strmap::str_eq(pk.name.as_str(), k.name.as_str()) {
                    push_event(
                        out,
                        FxEvent::ContainerRenamed {
                            container_id: container_id_of(k.node_id.as_str()),
                            name: copy_str(k.name.as_str()),
                        },
                    );
                }
                let ghost mid = events_view(out@);
                if !strings_equal(&pk.child_ids, &k.child_ids) {
                    changed = true;
                    push_moved_in(out, prev, &pk.child_ids, &k.child_ids, k.node_id.as_str());
                } else {
                    assert(events_view(out@) =~= mid + Seq::<FxEventView>::empty());
                }
                assert(events_view(out@) =~= before + container_change_events(p, p[j as int], c[i as int]));
                proof {
                    if changed && !changed_before {
                        assert(last_with_node(p, c[i as int].node_id) is Some);
                    }
                }
            },
            None => {},
        }
        assert(events_view(out@) =~= base + container_changed_events(p, c, i + 1));
        i = i + 1;
    }
    changed
}

/// The events that tell subscribers how a monitored chain changed from the
/// previous snapshot to the current one. Container node ids start with
/// `container:`, as snapshots make them.
pub fn diff_chain(prev: &ChainSnapshot, curr: &ChainSnapshot) -> (r: Vec<FxEvent>)
    requires
        node_ids_well_formed(container_views(prev.containers@)),
        node_ids_well_formed(container_views(curr.containers@)),
    ensures
        events_view(r@) == chain_events(
            fx_views(prev.fx_states@),
            fx_views(curr.fx_states@),
            container_views(prev.containers@),
            container_views(curr.containers@),
        ),
{
    let mut out: Vec<FxEvent> = Vec::new();
    assert(events_view(out@) =~= Seq::<FxEventView>::empty());
    push_removed(&mut out, &prev.fx_states, &curr.fx_states);
    push_added(&mut out, &prev.fx_states, &curr.fx_states);
    push_changed(&mut out, &prev.fx_states, &curr.fx_states);
    push_created(&mut out, &prev.containers, &curr.containers);
    push_container_removed(&mut out, &prev.containers, &curr.containers);
    let changed = push_container_changed(&mut out, &prev.containers, &curr.containers);
    let ghost before = events_view(out@);
    if changed {
        push_event(&mut out, FxEvent::TreeStructureChanged);
    } else {
        assert(events_view(out@) =~= before + Seq::<FxEventView>::empty());
    }
    out
}

// ---------------------------------------------------------------------------
// The cache of monitored chains
// ---------------------------------------------------------------------------

/// An event about the monitored chain `context` (its chain key).
pub struct ChainEvent {
    pub context: String,
    pub event: FxEvent,
}

/// The events of a sequence of chain events, as values.
pub open spec fn chain_event_views(v: Seq<ChainEvent>) -> Seq<FxEventView> {
    v.map_values(|e: ChainEvent| e.event@)
}

/// Each event of `events`, in order, as an event about chain `context`.
fn about_chain(context: &str, events: Vec<FxEvent>) -> (r: Vec<ChainEvent>)
    ensures
        chain_event_views(r@) == events_view(events@),
        forall|i: int| 0 <= i < r@.len() ==> (#[trigger] r@[i]).context@ == context@,
{
    let ghost all = events_view(events@);
    let mut src = events;
    let mut out: Vec<ChainEvent> = Vec::new();
    let ghost n = all.len();
    while src.len() > 0
        invariant
            events_view(src@) == all.skip(out@.len() as int),
            src@.len() + out@.len() == n,
            n == all.len(),
            chain_event_views(out@) == all.take(out@.len() as int),
            forall|i: int| 0 <= i < out@.len() ==> (#[trigger] out@[i]).context@ == context@,
        decreases src.len(),
    {
        let ghost k = out@.len() as int;
        let ghost before = src@;
        assert(events_view(before)[0] == all.skip(k)[0]);
        let e = src.remove(0);
        assert(e@ == all[k]);
        assert forall|j: int| 0 <= j < src@.len() implies #[trigger] events_view(src@)[j] == all.skip(k + 1)[j] by {
            assert(src@[j] == before[j + 1]);
            assert(events_view(before)[j + 1] == all.skip(k)[j + 1]);
        }
        assert(events_view(src@) =~= all.skip(k + 1));
        out.push(ChainEvent { context: copy_str(context), event: e });
        assert(chain_event_views(out@) =~= all.take(k + 1));
    }
    assert(all.take(out@.len() as int) =~= all);
    out
}

/// A chain snapshot as values: its FX and its containers.
pub open spec fn snapshot_view(s: ChainSnapshot) -> (Seq<FxSnapView>, Seq<ContainerView>) {
    (fx_views(s.fx_states@), container_views(s.containers@))
}

/// The last snapshot of each monitored chain, by chain key (the project's
/// cache key and the chain's context).
pub struct FxChainCache {
    entries: Vec<(String, ChainSnapshot)>,
}

impl FxChainCache {
    /// No key occurs twice, and every cached snapshot's container node ids
    /// start with `container:`.
    pub closed spec fn wf(&self) -> bool {
        &&& forall|i: int, j: int| 0 <= i < j < self.entries@.len() ==> #[trigger] self.entries@[i].0@ != #[trigger] self.entries@[j].0@
        &&& forall|i: int| 0 <= i < self.entries@.len() ==> node_ids_well_formed(container_views(#[trigger] self.entries@[i].1.containers@))
    }

    /// The cached snapshot of each chain key.
    pub closed spec fn cached(&self) -> Map<Seq<char>, (Seq<FxSnapView>, Seq<ContainerView>)> {
        Map::new(
            |k: Seq<char>| exists|i: int| 0 <= i < self.entries@.len() && #[trigger] self.entries@[i].0@ == k,
            |k: Seq<char>| snapshot_view(self.entries@[choose|i: int| 0 <= i < self.entries@.len() && #[trigger] self.entries@[i].0@ == k].1),
        )
    }

    proof fn lemma_cached_at(&self, i: int)
        requires
            self.wf(),
            0 <= i < self.entries@.len(),
        ensures
            self.cached().contains_key(self.entries@[i].0@),
            self.cached()[self.entries@[i].0@] == snapshot_view(self.entries@[i].1),
    {
        let k = self.entries@[i].0@;
        let j = choose|j: int| 0 <= j < self.entries@.len() && #[trigger] self.entries@[j].0@ == k;
        assert(self.entries@[j].0@ == k);
        if i != j {
            if i < j {
                assert(self.entries@[i].0@ != self.entries@[j].0@);
            } else {
                assert(self.entries@[j].0@ != self.entries@[i].0@);
            }
        }
    }

    /// Nothing cached.
    pub fn new() -> (r: Self)
        ensures
            r.wf(),
            r.cached() == Map::<Seq<char>, (Seq<FxSnapView>, Seq<ContainerView>)>::empty(),
    {
        let r = FxChainCache { entries: Vec::new() };
        assert(r.cached() =~= Map::<Seq<char>, (Seq<FxSnapView>, Seq<ContainerView>)>::empty());
        r
    }

    /// One poll of the chain with key `key`: the events of the change from
    /// its cached snapshot to `current` (none the first time it is polled),
    /// each naming the chain by its key, and `current` becomes its cached
    /// snapshot.
    pub fn poll(&mut self, key: &str, current: ChainSnapshot) -> (r: Vec<ChainEvent>)
        requires
            old(self).wf(),
            node_ids_well_formed(container_views(current.containers@)),
        ensures
            final(self).wf(),
            final(self).cached() == old(self).cached().insert(key@, snapshot_view(current)),
            forall|i: int| 0 <= i < r@.len() ==> (#[trigger] r@[i]).context@ == key@,
            old(self).cached().contains_key(key@) ==> chain_event_views(r@) == chain_events(
                old(self).cached()[key@].0,
                fx_views(current.fx_states@),
                old(self).cached()[key@].1,
                container_views(current.containers@),
            ),
            !old(self).cached().contains_key(key@) ==> r@.len() == 0,
    {
        let ghost before = self.cached();
        let ghost cur = snapshot_view(current);
        let mut pos: Option<usize> = None;
        let mut i: usize = 0;
        while i < self.entries.len()
            invariant
                i <= self.entries@.len(),
                pos matches Some(p) ==> p < self.entries@.len() && self.entries@[p as int].0@ == key@,
                pos is None ==> forall|j: int| 0 <= j < i ==> self.entries@[j].0@ != key@,
            decreases self.entries@.len() - i,
        {
            if pos.is_none() && crate::strmap::str_eq(self.entries[i].0.as_str(), key) {
                pos = Some(i);
            }
            i = i + 1;
        }
        match pos {
            Some(p) => {
                proof {
                    self.lemma_cached_at(p as int);
                }
                assert(node_ids_well_formed(container_views(self.entries@[p as int].1.containers@)));
                let events = diff_chain(&self.entries[p].1, &current);
                let ghost old_entries = self.entries@;
                self.entries.set(p, (copy_str(key), current));
                proof {
                    assert forall|a: int, b: int| 0 <= a < b < self.entries@.len() implies #[trigger] self.entries@[a].0@ != #[trigger] self.entries@[b].0@ by {
                        assert(old_entries[a].0@ != old_entries[b].0@);
                    }
                    assert forall|k: Seq<char>| #[trigger] self.cached().contains_key(k) == before.insert(key@, cur).contains_key(k) by {
                        if before.contains_key(k) {
                            let j = choose|j: int| 0 <= j < old_entries.len() && #[trigger] old_entries[j].0@ == k;
                            if j != p {
                                assert(self.entries@[j].0@ == k);
                            } else {
                                assert(self.entries@[p as int].0@ == k);
                            }
                        }
                        if k == key@ {
                            assert(self.entries@[p as int].0@ == k);
                        }
                        if self.cached().contains_key(k) {
                            let j = choose|j: int| 0 <= j < self.entries@.len() && #[trigger] self.entries@[j].0@ == k;
                            if j != p {
                                assert(old_entries[j].0@ == k);
                            }
                        }
                    }
                    assert forall|k: Seq<char>| #[trigger] self.cached().contains_key(k) implies self.cached()[k] == before.insert(key@, cur)[k] by {
                        let j = choose|j: int| 0 <= j < self.entries@.len() && #[trigger] self.entries@[j].0@ == k;
                        self.lemma_cached_at(j);
                        if j != p as int {
                            assert(old_entries[j] == self.entries@[j]);
                            let j2 = choose|j2: int| 0 <= j2 < old_entries.len() && #[trigger] old_entries[j2].0@ == k;
                            if j2 != j {
                                if j2 < j {
                                    assert(old_entries[j2].0@ != old_entries[j].0@);
                                } else {
                                    assert(old_entries[j].0@ != old_entries[j2].0@);
                                }
                            }
                        }
                    }
                    assert(self.cached() =~= before.insert(key@, cur));
                }
                about_chain(key, events)
            },
            None => {
                let ghost old_entries = self.entries@;
                self.entries.push((copy_str(key), current));
                proof {
                    let n = old_entries.len() as int;
                    assert(self.entries@[n].0@ == key@);
                    assert forall|k: Seq<char>| #[trigger] self.cached().contains_key(k) == before.insert(key@, cur).contains_key(k) by {
                        if before.contains_key(k) {
                            let j = choose|j: int| 0 <= j < old_entries.len() && #[trigger] old_entries[j].0@ == k;
                            assert(self.entries@[j].0@ == k);
                        }
                        if k == key@ {
                            assert(self.entries@[n].0@ == k);
                        }
                        if self.cached().contains_key(k) && k != key@ {
                            let j = choose|j: int| 0 <= j < self.entries@.len() && #[trigger] self.entries@[j].0@ == k;
                            assert(j < n);
                            assert(old_entries[j].0@ == k);
                        }
                    }
                    assert forall|k: Seq<char>| #[trigger] self.cached().contains_key(k) implies self.cached()[k] == before.insert(key@, cur)[k] by {
                        let j = choose|j: int| 0 <= j < self.entries@.len() && #[trigger] self.entries@[j].0@ == k;
                        self.lemma_cached_at(j);
                        if k != key@ {
                            assert(j < n);
                            assert(old_entries[j] == self.entries@[j]);
                            let j2 = choose|j2: int| 0 <= j2 < old_entries.len() && #[trigger] old_entries[j2].0@ == k;
                            if j2 != j {
                                if j2 < j {
                                    assert(old_entries[j2].0@ != old_entries[j].0@);
                                } else {
                                    assert(old_entries[j].0@ != old_entries[j2].0@);
                                }
                            }
                        }
                    }
                    assert(self.cached() =~= before.insert(key@, cur));
                }
                Vec::new()
            },
        }
    }
}

// ---------------------------------------------------------------------------
// Moves into containers name plugins
// ---------------------------------------------------------------------------

/// Whether every move into a container that `es` reports names a plugin:
/// no moved node id starts with `c:`, the mark of a nested container.
pub open spec fn moves_name_plugins(es: Seq<FxEventView>) -> bool {
    forall|i: int| 0 <= i < es.len() ==> match #[trigger] es[i] {
        FxEventView::MovedToContainer { node_id, .. } => !has_prefix(node_id, seq!['c', ':']),
        _ => true,
    }
}

proof fn lemma_moves_concat(a: Seq<FxEventView>, b: Seq<FxEventView>)
    requires
        moves_name_plugins(a),
        moves_name_plugins(b),
    ensures
        moves_name_plugins(a + b),
{
    assert forall|i: int| 0 <= i < (a + b).len() implies match #[trigger] (a + b)[i] {
        FxEventView::MovedToContainer { node_id, .. } => !has_prefix(node_id, seq!['c', ':']),
        _ => true,
    } by {
        if i < a.len() {
            assert((a + b)[i] == a[i]);
        } else {
            assert((a + b)[i] == b[i - a.len()]);
        }
    }
}

proof fn lemma_moves_one(e: FxEventView)
    requires
        !(e is MovedToContainer),
    ensures
        moves_name_plugins(seq![e]),
{
    assert forall|i: int| 0 <= i < seq![e].len() implies match #[trigger] seq![e][i] {
        FxEventView::MovedToContainer { node_id, .. } => !has_prefix(node_id, seq!['c', ':']),
        _ => true,
    } by {
        assert(seq![e][i] == e);
    }
}

proof fn lemma_moves_empty()
    ensures
        moves_name_plugins(Seq::<FxEventView>::empty()),
{
}

proof fn lemma_removed_no_moves(prev: Seq<FxSnapView>, curr: Seq<FxSnapView>, n: int)
    ensures
        moves_name_plugins(removed_events(prev, curr, n)),
    decreases n,
{
    if 0 < n <= prev.len() {
        lemma_removed_no_moves(prev, curr, n - 1);
        lemma_moves_one(FxEventView::Removed { fx_guid: prev[n - 1].guid });
        lemma_moves_empty();
        let tail = removed_events(prev, curr, n).skip(removed_events(prev, curr, n - 1).len() as int);
        assert(removed_events(prev, curr, n) =~= removed_events(prev, curr, n - 1) + tail);
        lemma_moves_concat(removed_events(prev, curr, n - 1), tail);
    }
}

proof fn lemma_added_no_moves(prev: Seq<FxSnapView>, curr: Seq<FxSnapView>, n: int)
    ensures
        moves_name_plugins(added_events(prev, curr, n)),
    decreases n,
{
    if 0 < n <= curr.len() {
        lemma_added_no_moves(prev, curr, n - 1);
        let c = curr[n - 1];
        lemma_moves_one(FxEventView::Added {
            guid: c.guid,
            index: c.index,
            name: c.name,
            plugin_name: c.name,
            plugin_type: FxType::Unknown,
            enabled: c.enabled,
            parameter_count: c.param_count,
        });
        lemma_moves_empty();
        let tail = added_events(prev, curr, n).skip(added_events(prev, curr, n - 1).len() as int);
        assert(added_events(prev, curr, n) =~= added_events(prev, curr, n - 1) + tail);
        lemma_moves_concat(added_events(prev, curr, n - 1), tail);
    }
}

proof fn lemma_fx_change_no_moves(p: FxSnapView, j: int, c: FxSnapView, i: int)
    ensures
        moves_name_plugins(fx_change_events(p, j, c, i)),
{
    let a = if p.enabled != c.enabled {
        seq![FxEventView::EnabledChanged { fx_guid: c.guid, enabled: c.enabled }]
    } else {
        Seq::empty()
    };
    let b = if p.index != c.index {
        seq![FxEventView::Moved { fx_guid: c.guid, old_index: p.index, new_index: c.index }]
    } else {
        Seq::empty()
    };
    let d = seq![FxEventView::CompareParameters { fx_guid: c.guid, prev_position: j, curr_position: i }];
    lemma_moves_empty();
    lemma_moves_one(FxEventView::EnabledChanged { fx_guid: c.guid, enabled: c.enabled });
    lemma_moves_one(FxEventView::Moved { fx_guid: c.guid, old_index: p.index, new_index: c.index });
    lemma_moves_one(FxEventView::CompareParameters { fx_guid: c.guid, prev_position: j, curr_position: i });
    lemma_moves_concat(a, b);
    lemma_moves_concat(a + b, d);
}

proof fn lemma_changed_no_moves(prev: Seq<FxSnapView>, curr: Seq<FxSnapView>, n: int)
    ensures
        moves_name_plugins(changed_events(prev, curr, n)),
    decreases n,
{
    if 0 < n <= curr.len() {
        lemma_changed_no_moves(prev, curr, n - 1);
        let c = curr[n - 1];
        let tail = match last_with_guid(prev, c.guid) {
            Some(j) => fx_change_events(prev[j], j, c, n - 1),
            None => Seq::empty(),
        };
        lemma_moves_empty();
        if let Some(j) = last_with_guid(prev, c.guid) {
            lemma_fx_change_no_moves(prev[j], j, c, n - 1);
        }
        lemma_moves_concat(changed_events(prev, curr, n - 1), tail);
    }
}

proof fn lemma_created_no_moves(prev: Seq<ContainerView>, curr: Seq<ContainerView>, n: int)
    ensures
        moves_name_plugins(created_events(prev, curr, n)),
    decreases n,
{
    if 0 < n <= curr.len() {
        lemma_created_no_moves(prev, curr, n - 1);
        let c = curr[n - 1];
        lemma_moves_one(FxEventView::ContainerCreated { container_id: c.node_id, name: c.name });
        lemma_moves_empty();
        let tail = created_events(prev, curr, n).skip(created_events(prev, curr, n - 1).len() as int);
        assert(created_events(prev, curr, n) =~= created_events(prev, curr, n - 1) + tail);
        lemma_moves_concat(created_events(prev, curr, n - 1), tail);
    }
}

proof fn lemma_container_removed_no_moves(prev: Seq<ContainerView>, curr: Seq<ContainerView>, n: int)
    ensures
        moves_name_plugins(container_removed_events(prev, curr, n)),
    decreases n,
{
    if 0 < n <= prev.len() {
        lemma_container_removed_no_moves(prev, curr, n - 1);
        lemma_moves_one(FxEventView::ContainerRemoved { container_id: prev[n - 1].node_id });
        lemma_moves_empty();
        let tail = container_removed_events(prev, curr, n).skip(container_removed_events(prev, curr, n - 1).len() as int);
        assert(container_removed_events(prev, curr, n) =~= container_removed_events(prev, curr, n - 1) + tail);
        lemma_moves_concat(container_removed_events(prev, curr, n - 1), tail);
    }
}

proof fn lemma_moved_in_plugins(
    prev: Seq<ContainerView>,
    old_children: Seq<Seq<char>>,
    new_children: Seq<Seq<char>>,
    dest: Seq<char>,
    n: int,
)
    ensures
        moves_name_plugins(moved_in_events(prev, old_children, new_children, dest, n)),
    decreases n,
{
    if 0 < n <= new_children.len() {
        lemma_moved_in_plugins(prev, old_children, new_children, dest, n - 1);
        let all = moved_in_events(prev, old_children, new_children, dest, n);
        let head = moved_in_events(prev, old_children, new_children, dest, n - 1);
        let tail = all.skip(head.len() as int);
        assert(all =~= head + tail);
        assert(child_container_marker() =~= seq!['c', ':']);
        lemma_moves_concat(head, tail);
    }
}

proof fn lemma_container_changed_plugins(prev: Seq<ContainerView>, curr: Seq<ContainerView>, n: int)
    ensures
        moves_name_plugins(container_changed_events(prev, curr, n)),
    decreases n,
{
    if 0 < n <= curr.len() {
        lemma_container_changed_plugins(prev, curr, n - 1);
        let c = curr[n - 1];
        lemma_moves_empty();
        if let Some(j) = last_with_node(prev, c.node_id) {
            let p = prev[j];
            let a = if p.routing_mode != c.routing_mode {
                seq![FxEventView::RoutingModeChanged { container_id: c.node_id, routing_mode: c.routing_mode }]
            } else {
                Seq::empty()
            };
            let b = if p.name != c.name {
                seq![FxEventView::ContainerRenamed { container_id: c.node_id, name: c.name }]
            } else {
                Seq::empty()
            };
            let d = if p.child_ids != c.child_ids {
                moved_in_events(prev, p.child_ids, c.child_ids, c.node_id, c.child_ids.len() as int)
            } else {
                Seq::empty()
            };
            lemma_moves_one(FxEventView::RoutingModeChanged { container_id: c.node_id, routing_mode: c.routing_mode });
            lemma_moves_one(FxEventView::ContainerRenamed { container_id: c.node_id, name: c.name });
            lemma_moved_in_plugins(prev, p.child_ids, c.child_ids, c.node_id, c.child_ids.len() as int);
            lemma_moves_concat(a, b);
            lemma_moves_concat(a + b, d);
            lemma_moves_concat(container_changed_events(prev, curr, n - 1), a + b + d);
        } else {
            lemma_moves_concat(container_changed_events(prev, curr, n - 1), Seq::empty());
        }
    }
}

/// A move into a container is only ever reported for a plugin: whatever
/// the two snapshots, no `MovedToContainer` event of a chain's change names
/// a nested container (a child id starting with `c:`); a container dragged
/// into another shows only as a change of the tree's structure.
pub proof fn lemma_moved_in_names_plugins(
    prev_fx: Seq<FxSnapView>,
    curr_fx: Seq<FxSnapView>,
    prev_c: Seq<ContainerView>,
    curr_c: Seq<ContainerView>,
)
    ensures
        moves_name_plugins(chain_events(prev_fx, curr_fx, prev_c, curr_c)),
{
    let r = removed_events(prev_fx, curr_fx, prev_fx.len() as int);
    let a = added_events(prev_fx, curr_fx, curr_fx.len() as int);
    let ch = changed_events(prev_fx, curr_fx, curr_fx.len() as int);
    let cr = created_events(prev_c, curr_c, curr_c.len() as int);
    let rm = container_removed_events(prev_c, curr_c, prev_c.len() as int);
    let cc = container_changed_events(prev_c, curr_c, curr_c.len() as int);
    let t = if tree_changed(prev_c, curr_c) { seq![FxEventView::TreeStructureChanged] } else { Seq::empty() };
    lemma_removed_no_moves(prev_fx, curr_fx, prev_fx.len() as int);
    lemma_added_no_moves(prev_fx, curr_fx, curr_fx.len() as int);
    lemma_changed_no_moves(prev_fx, curr_fx, curr_fx.len() as int);
    lemma_created_no_moves(prev_c, curr_c, curr_c.len() as int);
    lemma_container_removed_no_moves(prev_c, curr_c, prev_c.len() as int);
    lemma_container_changed_plugins(prev_c, curr_c, curr_c.len() as int);
    lemma_moves_empty();
    lemma_moves_one(FxEventView::TreeStructureChanged);
    lemma_moves_concat(r, a);
    lemma_moves_concat(r + a, ch);
    lemma_moves_concat(r + a + ch, cr);
    lemma_moves_concat(r + a + ch + cr, rm);
    lemma_moves_concat(r + a + ch + cr + rm, cc);
    lemma_moves_concat(r + a + ch + cr + rm + cc, t);
}

// ---------------------------------------------------------------------------
// An unchanged chain
// ---------------------------------------------------------------------------

/// The parameter comparisons for the first `n` FX of an unchanged chain.
pub open spec fn compare_all(states: Seq<FxSnapView>, n: int) -> Seq<FxEventView>
    decreases n,
{
    if n <= 0 || n > states.len() {
        Seq::empty()
    } else {
        compare_all(states, n - 1) + seq![
            FxEventView::CompareParameters {
                fx_guid: states[n - 1].guid,
                prev_position: n - 1,
                curr_position: n - 1,
            },
        ]
    }
}

/// No two FX share a GUID.
pub open spec fn distinct_guids(states: Seq<FxSnapView>) -> bool {
    forall|i: int, j: int| 0 <= i < j < states.len() ==> states[i].guid != states[j].guid
}

/// No two containers share a node id.
pub open spec fn distinct_nodes(cs: Seq<ContainerView>) -> bool {
    forall|i: int, j: int| 0 <= i < j < cs.len() ==> cs[i].node_id != cs[j].node_id
}

proof fn lemma_last_with_guid_finds(states: Seq<FxSnapView>, i: int)
    requires
        distinct_guids(states),
        0 <= i < states.len(),
    ensures
        last_with_guid(states, states[i].guid) == Some(i),
    decreases states.len(),
{
    if i < states.len() - 1 {
        let d = states.drop_last();
        assert(d[i] == states[i]);
        lemma_last_with_guid_finds(d, i);
    }
}

proof fn lemma_last_with_node_finds(cs: Seq<ContainerView>, i: int)
    requires
        distinct_nodes(cs),
        0 <= i < cs.len(),
    ensures
        last_with_node(cs, cs[i].node_id) == Some(i),
    decreases cs.len(),
{
    if i < cs.len() - 1 {
        let d = cs.drop_last();
        assert(d[i] == cs[i]);
        lemma_last_with_node_finds(d, i);
    }
}

proof fn lemma_unchanged_fx(states: Seq<FxSnapView>, n: int)
    requires
        distinct_guids(states),
        0 <= n <= states.len(),
    ensures
        removed_events(states, states, n) == Seq::<FxEventView>::empty(),
        added_events(states, states, n) == Seq::<FxEventView>::empty(),
        changed_events(states, states, n) == compare_all(states, n),
    decreases n,
{
    if n > 0 {
        lemma_unchanged_fx(states, n - 1);
        lemma_last_with_guid_finds(states, n - 1);
        assert(removed_events(states, states, n) =~= Seq::<FxEventView>::empty());
        assert(added_events(states, states, n) =~= Seq::<FxEventView>::empty());
        assert(changed_events(states, states, n) =~= compare_all(states, n));
    }
}

proof fn lemma_unchanged_containers(cs: Seq<ContainerView>, n: int)
    requires
        distinct_nodes(cs),
        0 <= n <= cs.len(),
    ensures
        created_events(cs, cs, n) == Seq::<FxEventView>::empty(),
        container_changed_events(cs, cs, n) == Seq::<FxEventView>::empty(),
    decreases n,
{
    if n > 0 {
        lemma_unchanged_containers(cs, n - 1);
        lemma_last_with_node_finds(cs, n - 1);
        assert(created_events(cs, cs, n) =~= Seq::<FxEventView>::empty());
        assert(container_changed_events(cs, cs, n) =~= Seq::<FxEventView>::empty());
    }
}

proof fn lemma_unchanged_containers_kept(cs: Seq<ContainerView>, n: int)
    requires
        distinct_nodes(cs),
        0 <= n <= cs.len(),
    ensures
        container_removed_events(cs, cs, n) == Seq::<FxEventView>::empty(),
    decreases n,
{
    if n > 0 {
        lemma_unchanged_containers_kept(cs, n - 1);
        lemma_last_with_node_finds(cs, n - 1);
        assert(container_removed_events(cs, cs, n) =~= Seq::<FxEventView>::empty());
    }
}

/// When nothing changed between two polls (no two FX share a GUID, no two
/// containers a node id), the only events are the parameter comparisons,
/// one per FX in chain order: no FX or container is reported added,
/// removed, moved or changed.
pub proof fn lemma_unchanged_chain_events(fx: Seq<FxSnapView>, cs: Seq<ContainerView>)
    requires
        distinct_guids(fx),
        distinct_nodes(cs),
    ensures
        chain_events(fx, fx, cs, cs) == compare_all(fx, fx.len() as int),
{
    lemma_unchanged_fx(fx, fx.len() as int);
    lemma_unchanged_containers(cs, cs.len() as int);
    lemma_unchanged_containers_kept(cs, cs.len() as int);
    assert(!tree_changed(cs, cs)) by {
        assert forall|i: int| 0 <= i < cs.len() && #[trigger] last_with_node(cs, cs[i].node_id) is Some implies
            cs[last_with_node(cs, cs[i].node_id)->0].child_ids == cs[i].child_ids by {
            lemma_last_with_node_finds(cs, i);
        }
    }
    assert(chain_events(fx, fx, cs, cs) =~= compare_all(fx, fx.len() as int));
}

} // verus!
