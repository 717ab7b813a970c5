//! The container tree of an FX chain: the top-level FX in chain order,
//! each container holding its children by child position. On it: finding
//! a plugin's raw index by GUID, the node id of a raw index, and the
//! container snapshots that change detection compares.
use vstd::prelude::*;

use crate::fx::{container_prefix, FxNodeId};
use crate::fx_events::{container_views, node_ids_well_formed, strings_view, ContainerSnapshot, ContainerView};
use crate::text::has_prefix;
use crate::text::{append_chars, chars_of, decimal, decimal_chars, string_of};

verus! {

/// A node of an FX chain's tree, as read from the host.
pub enum FxTreeNode {
    /// A plugin: its raw index and its GUID (if the host gave one).
    Plugin { raw: u32, guid: Option<String> },
    /// A container: its raw index, GUID, name, routing mode, configured
    /// number of children, and the children the host gave, each with its
    /// child position.
    Container {
        raw: u32,
        guid: Option<String>,
        name: String,
        routing_mode: u32,
        child_count: u32,
        children: Vec<(u32, FxTreeNode)>,
    },
}

/// The raw index of a node.
pub open spec fn node_raw(n: FxTreeNode) -> u32 {
    match n {
        FxTreeNode::Plugin { raw, .. } => raw,
        FxTreeNode::Container { raw, .. } => raw,
    }
}

/// The GUID of a node, if the host gave one.
pub open spec fn node_guid(n: FxTreeNode) -> Option<Seq<char>> {
    match n {
        FxTreeNode::Plugin { guid, .. } => match guid { Some(g) => Some(g@), None => None },
        FxTreeNode::Container { guid, .. } => match guid { Some(g) => Some(g@), None => None },
    }
}

/// The path of child position `pos` under `path`: `path:pos`.
pub open spec fn child_path(path: Seq<char>, pos: u32) -> Seq<char> {
    path + seq![':'] + decimal(pos as nat)
}

// ---------------------------------------------------------------------------
// Finding a plugin by GUID
// ---------------------------------------------------------------------------

/// The raw index of the first plugin with GUID `g` inside node `n` (for a
/// plugin, itself; for a container, its children in order, depth first;
/// a container's own GUID is not looked at).
pub open spec fn find_in_node(n: FxTreeNode, g: Seq<char>) -> Option<u32>
    decreases n, 0int,
{
    match n {
        FxTreeNode::Plugin { raw, guid } => if (match guid { Some(x) => Some(x@), None => None::<Seq<char>> }) == Some(g) {
            Some(raw)
        } else {
            None
        },
        FxTreeNode::Container { children, .. } => find_in_children(children@, g, 0),
    }
}

/// The raw index of the first plugin with GUID `g` among the children
/// `cs` from the `k`-th on.
pub open spec fn find_in_children(cs: Seq<(u32, FxTreeNode)>, g: Seq<char>, k: int) -> Option<u32>
    decreases cs, cs.len() - k,
{
    if k < 0 || k >= cs.len() {
        None
    } else {
        match find_in_node(cs[k].1, g) {
            Some(r) => Some(r),
            None => find_in_children(cs, g, k + 1),
        }
    }
}

/// The first top-level FX from the `i`-th on whose GUID is `g`.
pub open spec fn top_with_guid(top: Seq<FxTreeNode>, g: Seq<char>, i: int) -> Option<int>
    decreases top.len() - i,
{
    if i < 0 || i >= top.len() {
        None
    } else if node_guid(top[i]) == Some(g) {
        Some(i)
    } else {
        top_with_guid(top, g, i + 1)
    }
}

/// The first plugin with GUID `g` inside the top-level containers from the
/// `i`-th on.
pub open spec fn in_top_containers(top: Seq<FxTreeNode>, g: Seq<char>, i: int) -> Option<u32>
    decreases top.len() - i,
{
    if i < 0 || i >= top.len() {
        None
    } else {
        match top[i] {
            FxTreeNode::Container { children, .. } => match find_in_children(children@, g, 0) {
                Some(r) => Some(r),
                None => in_top_containers(top, g, i + 1),
            },
            FxTreeNode::Plugin { .. } => in_top_containers(top, g, i + 1),
        }
    }
}

/// The raw index of the plugin with GUID `g`: a top-level FX with that
/// GUID (its index), else the first plugin with it inside the top-level
/// containers, depth first.
pub open spec fn resolve_plugin_guid_spec(top: Seq<FxTreeNode>, g: Seq<char>) -> Option<u32> {
    match top_with_guid(top, g, 0) {
        Some(i) => Some(i as u32),
        None => in_top_containers(top, g, 0),
    }
}

fn opt_str_eq(o: &Option<String>, g: &str) -> (r: bool)
    ensures
        r == ((match o { Some(x) => Some(x@), None => None::<Seq<char>> }) == Some(g@)),
{
    match o {
        Some(x) => crate::strmap::str_eq(x.as_str(), g),
        None => false,
    }
}

fn node_guid_is(n: &FxTreeNode, g: &str) -> (r: bool)
    ensures
        r == (node_guid(*n) == Some(g@)),
{
    match n {
        FxTreeNode::Plugin { guid, .. } => opt_str_eq(guid, g),
        FxTreeNode::Container { guid, .. } => opt_str_eq(guid, g),
    }
}

fn find_guid_in_node(n: &FxTreeNode, g: &str) -> (r: Option<u32>)
    ensures
        r == find_in_node(*n, g@),
    decreases *n, 0int,
{
    match n {
        FxTreeNode::Plugin { raw, guid } => {
            if opt_str_eq(guid, g) {
                Some(*raw)
            } else {
                None
            }
        },
        FxTreeNode::Container { children, .. } => find_guid_in_children(children, g),
    }
}

fn find_guid_in_children(cs: &Vec<(u32, FxTreeNode)>, g: &str) -> (r: Option<u32>)
    ensures
        r == find_in_children(cs@, g@, 0),
    decreases cs@, cs@.len(),
{
    let mut k: usize = 0;
    while k < cs.len()
        invariant
            k <= cs@.len(),
            find_in_children(cs@, g@, 0) == find_in_children(cs@, g@, k as int),
        decreases cs@.len() - k,
    {
        assert(decreases_to!(cs@ => cs@[k as int].1));
        let found = find_guid_in_node(&cs[k].1, g);
        if found.is_some() {
            return found;
        }
        k = k + 1;
    }
    None
}

/// The raw index of the plugin with GUID `guid` in a chain whose top-level
/// FX are `top`, in index order.
pub fn resolve_plugin_guid(top: &[FxTreeNode], guid: &str) -> (r: Option<u32>)
    requires
        top@.len() <= u32::MAX,
    ensures
        r == resolve_plugin_guid_spec(top@, guid@),
{
    let mut i: usize = 0;
    while i < top.len()
        invariant
            i <= top@.len() <= u32::MAX,
            top_with_guid(top@, guid@, 0) == top_with_guid(top@, guid@, i as int),
        decreases top@.len() - i,
    {
        if node_guid_is(&top[i], guid) {
            return Some(i as u32);
        }
        i = i + 1;
    }
    let mut j: usize = 0;
    while j < top.len()
        invariant
            j <= top@.len(),
            top_with_guid(top@, guid@, 0) is None,
            in_top_containers(top@, guid@, 0) == in_top_containers(top@, guid@, j as int),
        decreases top@.len() - j,
    {
        match &top[j] {
            FxTreeNode::Container { children, .. } => {
                let found = find_guid_in_children(children, guid);
                if found.is_some() {
                    return found;
                }
            },
            FxTreeNode::Plugin { .. } => {},
        }
        j = j + 1;
    }
    None
}

// ---------------------------------------------------------------------------
// The node id of a raw index
// ---------------------------------------------------------------------------

/// Among the children `cs` (from the `k`-th on) of the container at
/// `path`, the node id of the node with raw index `target`, searching depth
/// first: a container's id is `container:` and its path, a plugin's is its
/// GUID. A plugin at the raw index without a GUID ends this search with none.
pub open spec fn raw_in_children(cs: Seq<(u32, FxTreeNode)>, target: u32, path: Seq<char>, k: int) -> Option<Seq<char>>
    decreases cs, cs.len() - k,
{
    if k < 0 || k >= cs.len() {
        None
    } else {
        let cp = child_path(path, cs[k].0);
        match cs[k].1 {
            FxTreeNode::Container { raw, children, .. } => if raw == target {
                Some(container_prefix() + cp)
            } else {
                match raw_in_children(children@, target, cp, 0) {
                    Some(id) => Some(id),
                    None => raw_in_children(cs, target, path, k + 1),
                }
            },
            FxTreeNode::Plugin { raw, guid } => if raw == target {
                match guid { Some(x) => Some(x@), None => None }
            } else {
                raw_in_children(cs, target, path, k + 1)
            },
        }
    }
}

/// The node id of raw index `target`, scanning the top-level FX from the
/// `i`-th on: the top-level FX at that index (a plugin without a GUID gives
/// none), else what the search of each top-level container finds.
pub open spec fn raw_to_node_from(top: Seq<FxTreeNode>, target: u32, i: int) -> Option<Seq<char>>
    decreases top.len() - i,
{
    if i < 0 || i >= top.len() {
        None
    } else if i == target as int {
        match top[i] {
            FxTreeNode::Container { .. } => Some(container_prefix() + decimal(i as nat)),
            FxTreeNode::Plugin { .. } => node_guid(top[i]),
        }
    } else {
        match top[i] {
            FxTreeNode::Container { children, .. } => match raw_in_children(children@, target, decimal(i as nat), 0) {
                Some(id) => Some(id),
                None => raw_to_node_from(top, target, i + 1),
            },
            FxTreeNode::Plugin { .. } => raw_to_node_from(top, target, i + 1),
        }
    }
}

fn copy_opt(o: &Option<String>) -> (r: Option<String>)
    ensures
        (match r { Some(x) => Some(x@), None => None::<Seq<char>> }) == (match o { Some(x) => Some(x@), None => None::<Seq<char>> }),
{
    match o {
        Some(x) => Some(string_of(&chars_of(x.as_str()))),
        None => None,
    }
}

fn path_of_child(path: &Vec<char>, pos: u32) -> (r: Vec<char>)
    ensures
        r@ == child_path(path@, pos),
{
    let mut v: Vec<char> = Vec::new();
    append_chars(&mut v, path);
    v.push(':');
    append_chars(&mut v, &decimal_chars(pos as u64));
    assert(v@ =~= child_path(path@, pos));
    v
}

fn container_id_chars(path: &Vec<char>) -> (r: String)
    ensures
        r@ == container_prefix() + path@,
{
    let mut v = chars_of("container:");
    append_chars(&mut v, path);
    string_of(&v)
}

fn search_raw_in_children(cs: &Vec<(u32, FxTreeNode)>, target: u32, path: &Vec<char>) -> (r: Option<String>)
    ensures
        (match r { Some(x) => Some(x@), None => None::<Seq<char>> }) == raw_in_children(cs@, target, path@, 0),
    decreases cs@, cs@.len(),
{
    let mut k: usize = 0;
    while k < cs.len()
        invariant
            k <= cs@.len(),
            raw_in_children(cs@, target, path@, 0) == raw_in_children(cs@, target, path@, k as int),
        decreases cs@.len() - k,
    {
        let cp = path_of_child(path, cs[k].0);
        match &cs[k].1 {
            FxTreeNode::Container { raw, children, .. } => {
                if *raw == target {
                    return Some(container_id_chars(&cp));
                }
                assert(decreases_to!(cs@ => cs@[k as int].1));
                assert(decreases_to!(cs@[k as int].1 => children@));
                let found = search_raw_in_children(children, target, &cp);
                if found.is_some() {
                    return found;
                }
            },
            FxTreeNode::Plugin { raw, guid } => {
                if *raw == target {
                    return copy_opt(guid);
                }
            },
        }
        k = k + 1;
    }
    None
}

/// The node id of the FX at raw index `raw_index` in a chain whose
/// top-level FX are `top`, in index order.
pub fn raw_index_to_node_id(top: &[FxTreeNode], raw_index: u32) -> (r: Option<FxNodeId>)
    ensures
        (match r { Some(x) => Some(x@), None => None::<Seq<char>> }) == raw_to_node_from(top@, raw_index, 0),
{
    let mut i: usize = 0;
    while i < top.len()
        invariant
            i <= top@.len(),
            raw_to_node_from(top@, raw_index, 0) == raw_to_node_from(top@, raw_index, i as int),
        decreases top@.len() - i,
    {
        let path = decimal_chars(i as u64);
        if i as u64 == raw_index as u64 {
            match &top[i] {
                FxTreeNode::Container { .. } => {
                    return Some(FxNodeId::container(string_of(&path).as_str()));
                },
                FxTreeNode::Plugin { guid, .. } => {
                    return match guid {
                        Some(g) => Some(FxNodeId::from_guid(g.as_str())),
                        None => None,
                    };
                },
            }
        }
        match &top[i] {
            FxTreeNode::Container { children, .. } => {
                match search_raw_in_children(children, raw_index, &path) {
                    Some(id) => {
                        return Some(FxNodeId::from_guid(id.as_str()));
                    },
                    None => {},
                }
            },
            FxTreeNode::Plugin { .. } => {},
        }
        i = i + 1;
    }
    None
}

// ---------------------------------------------------------------------------
// Container snapshots
// ---------------------------------------------------------------------------

/// The marker of a container among a container's child ids.
pub open spec fn c_marker() -> Seq<char> {
    seq!['c', ':']
}

/// The ids of children `cs` (from the `k`-th on) of the container at
/// `path`: `c:` and the child's path for a container, the GUID (or empty)
/// for a plugin.
pub open spec fn child_ids_from(cs: Seq<(u32, FxTreeNode)>, path: Seq<char>, k: int) -> Seq<Seq<char>>
    decreases cs.len() - k,
{
    if k < 0 || k >= cs.len() {
        Seq::empty()
    } else {
        seq![match cs[k].1 {
            FxTreeNode::Container { .. } => c_marker() + child_path(path, cs[k].0),
            FxTreeNode::Plugin { guid, .. } => match guid { Some(x) => x@, None => Seq::empty() },
        }] + child_ids_from(cs, path, k + 1)
    }
}

/// The snapshots of container `n` at `path` and of the containers inside
/// it: those of each child container in child order (each with its own
/// inner containers first), then its own.
pub open spec fn container_snapshots(n: FxTreeNode, path: Seq<char>) -> Seq<ContainerView>
    decreases n, 0int,
{
    match n {
        FxTreeNode::Container { name, routing_mode, child_count, children, .. } =>
            children_snapshots(children@, path, 0) + seq![ContainerView {
                node_id: container_prefix() + path,
                name: name@,
                routing_mode: routing_mode,
                child_count: child_count,
                child_ids: child_ids_from(children@, path, 0),
            }],
        FxTreeNode::Plugin { .. } => Seq::empty(),
    }
}

/// The snapshots of the child containers among `cs` (from the `k`-th on)
/// of the container at `path`.
pub open spec fn children_snapshots(cs: Seq<(u32, FxTreeNode)>, path: Seq<char>, k: int) -> Seq<ContainerView>
    decreases cs, cs.len() - k,
{
    if k < 0 || k >= cs.len() {
        Seq::empty()
    } else {
        container_snapshots(cs[k].1, child_path(path, cs[k].0)) + children_snapshots(cs, path, k + 1)
    }
}

/// The snapshots of the top-level containers from the `i`-th on, each at
/// its index.
pub open spec fn top_snapshots(top: Seq<FxTreeNode>, i: int) -> Seq<ContainerView>
    decreases top.len() - i,
{
    if i < 0 || i >= top.len() {
        Seq::empty()
    } else {
        container_snapshots(top[i], decimal(i as nat)) + top_snapshots(top, i + 1)
    }
}

fn child_ids_of(cs: &Vec<(u32, FxTreeNode)>, path: &Vec<char>) -> (r: Vec<String>)
    ensures
        strings_view(r@) == child_ids_from(cs@, path@, 0),
{
    let mut out: Vec<String> = Vec::new();
    let mut k: usize = 0;
    while k < cs.len()
        invariant
            k <= cs@.len(),
            strings_view(out@) + child_ids_from(cs@, path@, k as int) == child_ids_from(cs@, path@, 0),
        decreases cs@.len() - k,
    {
        let ghost before = strings_view(out@);
        let id = match &cs[k].1 {
            FxTreeNode::Container { .. } => {
                let mut v: Vec<char> = vec!['c', ':'];
                let cp = path_of_child(path, cs[k].0);
                append_chars(&mut v, &cp);
                assert(v@ =~= c_marker() + child_path(path@, cs@[k as int].0));
                string_of(&v)
            },
            FxTreeNode::Plugin { guid, .. } => match guid {
                Some(g) => string_of(&chars_of(g.as_str())),
                None => string_of(&Vec::new()),
            },
        };
        out.push(id);
        assert(strings_view(out@) =~= before.push(id@));
        assert(before.push(id@) + child_ids_from(cs@, path@, k + 1) =~= before + child_ids_from(cs@, path@, k as int));
        k = k + 1;
    }
    assert(strings_view(out@) =~= strings_view(out@) + child_ids_from(cs@, path@, cs@.len() as int));
    out
}

fn snapshot_node(n: &FxTreeNode, path: &Vec<char>, out: &mut Vec<ContainerSnapshot>)
    ensures
        container_views(final(out)@) == container_views(old(out)@) + container_snapshots(*n, path@),
    decreases *n, 0int,
{
    match n {
        FxTreeNode::Container { name, routing_mode, child_count, children, .. } => {
            let ghost start = container_views(out@);
            snapshot_children(children, path, out);
            let ids = child_ids_of(children, path);
            let snap = ContainerSnapshot {
                node_id: container_id_chars(path),
                name: string_of(&chars_of(name.as_str())),
                routing_mode: *routing_mode,
                child_count: *child_count,
                child_ids: ids,
            };
            let ghost mid = container_views(out@);
            out.push(snap);
            assert(container_views(out@) =~= mid.push(snap@));
            assert(container_views(out@) =~= start + container_snapshots(*n, path@));
        },
        FxTreeNode::Plugin { .. } => {
            assert(container_views(out@) =~= container_views(old(out)@) + Seq::<ContainerView>::empty());
        },
    }
}

fn snapshot_children(cs: &Vec<(u32, FxTreeNode)>, path: &Vec<char>, out: &mut Vec<ContainerSnapshot>)
    ensures
        container_views(final(out)@) == container_views(old(out)@) + children_snapshots(cs@, path@, 0),
    decreases cs@, cs@.len(),
{
    let ghost start = container_views(out@);
    let mut k: usize = 0;
    while k < cs.len()
        invariant
            k <= cs@.len(),
            container_views(out@) + children_snapshots(cs@, path@, k as int) == start + children_snapshots(cs@, path@, 0),
        decreases cs@.len() - k,
    {
        let ghost before = container_views(out@);
        let cp = path_of_child(path, cs[k].0);
        assert(decreases_to!(cs@ => cs@[k as int].1));
        snapshot_node(&cs[k].1, &cp, out);
        assert(container_views(out@) + children_snapshots(cs@, path@, k + 1) =~= before + children_snapshots(cs@, path@, k as int));
        k = k + 1;
    }
    assert(container_views(out@) =~= container_views(out@) + children_snapshots(cs@, path@, cs@.len() as int));
}

proof fn lemma_prefixed(path: Seq<char>)
    ensures
        has_prefix(container_prefix() + path, container_prefix()),
{
    assert((container_prefix() + path).take(container_prefix().len() as int) =~= container_prefix());
}

proof fn lemma_node_snapshots_wf(n: FxTreeNode, path: Seq<char>)
    ensures
        node_ids_well_formed(container_snapshots(n, path)),
    decreases n, 0int,
{
    match n {
        FxTreeNode::Container { children, .. } => {
            lemma_children_snapshots_wf(children@, path, 0);
            lemma_prefixed(path);
            let a = children_snapshots(children@, path, 0);
            let all = container_snapshots(n, path);
            assert forall|i: int| 0 <= i < all.len() implies has_prefix(#[trigger] all[i].node_id, container_prefix()) by {
                if i < a.len() {
                    assert(all[i] == a[i]);
                }
            }
        },
        FxTreeNode::Plugin { .. } => {},
    }
}

proof fn lemma_children_snapshots_wf(cs: Seq<(u32, FxTreeNode)>, path: Seq<char>, k: int)
    ensures
        node_ids_well_formed(children_snapshots(cs, path, k)),
    decreases cs, cs.len() - k,
{
    if 0 <= k < cs.len() {
        assert(decreases_to!(cs => cs[k].1));
        lemma_node_snapshots_wf(cs[k].1, child_path(path, cs[k].0));
        lemma_children_snapshots_wf(cs, path, k + 1);
        let a = container_snapshots(cs[k].1, child_path(path, cs[k].0));
        let b = children_snapshots(cs, path, k + 1);
        let all = children_snapshots(cs, path, k);
        assert forall|i: int| 0 <= i < all.len() implies has_prefix(#[trigger] all[i].node_id, container_prefix()) by {
            if i < a.len() {
                assert(all[i] == a[i]);
            } else {
                assert(all[i] == b[i - a.len()]);
            }
        }
    }
}

proof fn lemma_top_snapshots_wf(top: Seq<FxTreeNode>, i: int)
    ensures
        node_ids_well_formed(top_snapshots(top, i)),
    decreases top.len() - i,
{
    if 0 <= i < top.len() {
        lemma_node_snapshots_wf(top[i], decimal(i as nat));
        lemma_top_snapshots_wf(top, i + 1);
        let a = container_snapshots(top[i], decimal(i as nat));
        let b = top_snapshots(top, i + 1);
        let all = top_snapshots(top, i);
        assert forall|j: int| 0 <= j < all.len() implies has_prefix(#[trigger] all[j].node_id, container_prefix()) by {
            if j < a.len() {
                assert(all[j] == a[j]);
            } else {
                assert(all[j] == b[j - a.len()]);
            }
        }
    }
}

/// The snapshots read from any chain are fit for change detection: every
/// container's node id starts with `container:`.
pub proof fn lemma_read_snapshots_fit_diff(top: Seq<FxTreeNode>)
    ensures
        node_ids_well_formed(top_snapshots(top, 0)),
{
    lemma_top_snapshots_wf(top, 0);
}

/// The snapshots of all containers of a chain whose top-level FX are
/// `top`: each top-level container in index order, with the containers
/// inside it before it.
pub fn read_container_states(top: &[FxTreeNode]) -> (r: Vec<ContainerSnapshot>)
    ensures
        container_views(r@) == top_snapshots(top@, 0),
        node_ids_well_formed(container_views(r@)),
{
    proof {
        lemma_read_snapshots_fit_diff(top@);
    }
    let mut out: Vec<ContainerSnapshot> = Vec::new();
    let mut i: usize = 0;
    while i < top.len()
        invariant
            i <= top@.len(),
            container_views(out@) + top_snapshots(top@, i as int) == top_snapshots(top@, 0),
        decreases top@.len() - i,
    {
        let ghost before = container_views(out@);
        let path = decimal_chars(i as u64);
        snapshot_node(&top[i], &path, &mut out);
        assert(container_views(out@) + top_snapshots(top@, i + 1) =~= before + top_snapshots(top@, i as int));
        i = i + 1;
    }
    assert(container_views(out@) =~= container_views(out@) + top_snapshots(top@, top@.len() as int));
    out
}

} // verus!
