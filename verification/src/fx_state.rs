//! Recalling the state of an FX chain: which FX each saved state chunk is
//! applied to (by GUID on the same chain, else by plugin name, the n-th
//! chunk of a name going to the n-th FX of that name), and the key under
//! which a project's chains are cached.
use vstd::prelude::*;

use crate::project::{default_hash, hash_string};
use crate::text::{hex, hex_chars, string_of};

verus! {

/// What the recall reads of one FX of the chain: its GUID (if the host gave
/// one), its name and its index.
pub struct ChainFx {
    pub guid: Option<String>,
    pub name: String,
    pub index: u32,
}

/// An FX of the chain as a value.
pub struct ChainFxView {
    pub guid: Option<Seq<char>>,
    pub name: Seq<char>,
    pub index: u32,
}

impl View for ChainFx {
    type V = ChainFxView;

    open spec fn view(&self) -> ChainFxView {
        ChainFxView {
            guid: match self.guid {
                Some(g) => Some(g@),
                None => None,
            },
            name: self.name@,
            index: self.index,
        }
    }
}

/// What the recall reads of one saved chunk: the GUID and plugin name of
/// the FX it was taken from.
pub struct ChunkOrigin {
    pub fx_guid: String,
    pub plugin_name: String,
}

/// A chunk's origin as a value.
pub struct ChunkOriginView {
    pub fx_guid: Seq<char>,
    pub plugin_name: Seq<char>,
}

impl View for ChunkOrigin {
    type V = ChunkOriginView;

    open spec fn view(&self) -> ChunkOriginView {
        ChunkOriginView { fx_guid: self.fx_guid@, plugin_name: self.plugin_name@ }
    }
}

/// The FX of the chain as values.
pub open spec fn chain_views(v: Seq<ChainFx>) -> Seq<ChainFxView> {
    v.map_values(|f: ChainFx| f@)
}

/// The chunk origins as values.
pub open spec fn origin_views(v: Seq<ChunkOrigin>) -> Seq<ChunkOriginView> {
    v.map_values(|c: ChunkOrigin| c@)
}

/// The index of the FX with GUID `g` (the last one, when several share it).
pub open spec fn guid_target(fxs: Seq<ChainFxView>, g: Seq<char>) -> Option<u32>
    decreases fxs.len(),
{
    if fxs.len() == 0 {
        None
    } else if fxs.last().guid == Some(g) {
        Some(fxs.last().index)
    } else {
        guid_target(fxs.drop_last(), g)
    }
}

/// The indices of the FX named `name`, in chain order.
pub open spec fn name_indices(fxs: Seq<ChainFxView>, name: Seq<char>) -> Seq<u32>
    decreases fxs.len(),
{
    if fxs.len() == 0 {
        Seq::empty()
    } else {
        name_indices(fxs.drop_last(), name) + (if fxs.last().name == name {
            seq![fxs.last().index]
        } else {
            Seq::empty()
        })
    }
}

/// How many of the first `k` chunks fall back to matching by the name `name`.
pub open spec fn name_rank(fxs: Seq<ChainFxView>, chunks: Seq<ChunkOriginView>, k: int, name: Seq<char>) -> nat
    decreases k,
{
    if k <= 0 || k > chunks.len() {
        0
    } else {
        name_rank(fxs, chunks, k - 1, name) + (if guid_target(fxs, chunks[k - 1].fx_guid) is None
            && chunks[k - 1].plugin_name == name {
            1nat
        } else {
            0nat
        })
    }
}

/// The FX that chunk `k` is applied to: the FX with its GUID; else the
/// next FX with its plugin name not yet given a chunk by name (the n-th
/// chunk of a name that falls back to names goes to the n-th FX of that
/// name); else none.
pub open spec fn chunk_target(fxs: Seq<ChainFxView>, chunks: Seq<ChunkOriginView>, k: int) -> Option<u32> {
    match guid_target(fxs, chunks[k].fx_guid) {
        Some(i) => Some(i),
        None => {
            let ids = name_indices(fxs, chunks[k].plugin_name);
            let r = name_rank(fxs, chunks, k, chunks[k].plugin_name);
            if r < ids.len() {
                Some(ids[r as int])
            } else {
                None
            }
        },
    }
}

fn guid_target_of(fxs: &[ChainFx], g: &str) -> (r: Option<u32>)
    ensures
        r == guid_target(chain_views(fxs@), g@),
{
    let ghost all = chain_views(fxs@);
    let mut found: Option<u32> = None;
    let mut i: usize = 0;
    while i < fxs.len()
        invariant
            i <= fxs.len(),
            all == chain_views(fxs@),
            found == guid_target(all.take(i as int), g@),
        decreases fxs.len() - i,
    {
        proof {
            assert(all.take(i + 1).drop_last() =~= all.take(i as int));
        }
        match &fxs[i].guid {
            Some(fg) => {
                if crate::strmap::str_eq(fg.as_str(), g) {
                    found = Some(fxs[i].index);
                }
            },
            None => {},
        }
        i = i + 1;
    }
    assert(all.take(fxs.len() as int) =~= all);
    found
}

fn nth_with_name(fxs: &[ChainFx], name: &str, n: usize) -> (r: Option<u32>)
    ensures
        ({
            let ids = name_indices(chain_views(fxs@), name@);
            r == if n < ids.len() { Some(ids[n as int]) } else { None::<u32> }
        }),
{
    let ghost all = chain_views(fxs@);
    let mut seen: usize = 0;
    let mut found: Option<u32> = None;
    let mut i: usize = 0;
    while i < fxs.len()
        invariant
            i <= fxs.len(),
            all == chain_views(fxs@),
            seen == name_indices(all.take(i as int), name@).len(),
            seen <= i,
            found == (if n < seen { Some(name_indices(all.take(i as int), name@)[n as int]) } else { None::<u32> }),
        decreases fxs.len() - i,
    {
        proof {
            assert(all.take(i + 1).drop_last() =~= all.take(i as int));
        }
        let ghost prev_ids = name_indices(all.take(i as int), name@);
        if crate::strmap::str_eq(fxs[i].name.as_str(), name) {
            if seen == n {
                found = Some(fxs[i].index);
            }
            seen = seen + 1;
        }
        proof {
            let ids = name_indices(all.take(i + 1), name@);
            if n < prev_ids.len() {
                assert(ids[n as int] == prev_ids[n as int]);
            }
        }
        i = i + 1;
    }
    assert(all.take(fxs.len() as int) =~= all);
    found
}

/// For each saved chunk, in order, the index of the FX of the chain it is
/// applied to, or `None` when no FX takes it.
pub fn plan_chunk_targets(fxs: &[ChainFx], chunks: &[ChunkOrigin]) -> (r: Vec<Option<u32>>)
    ensures
        r@.len() == chunks@.len(),
        forall|k: int| 0 <= k < chunks@.len() ==> #[trigger] r@[k] == chunk_target(
            chain_views(fxs@),
            origin_views(chunks@),
            k,
        ),
{
    let ghost fv = chain_views(fxs@);
    let ghost cv = origin_views(chunks@);
    let mut out: Vec<Option<u32>> = Vec::new();
    let mut by_guid: Vec<bool> = Vec::new();
    let mut k: usize = 0;
    while k < chunks.len()
        invariant
            k <= chunks.len(),
            fv == chain_views(fxs@),
            cv == origin_views(chunks@),
            out@.len() == k,
            by_guid@.len() == k,
            forall|j: int| 0 <= j < k ==> #[trigger] out@[j] == chunk_target(fv, cv, j),
            forall|j: int| 0 <= j < k ==> #[trigger] by_guid@[j] == (guid_target(fv, cv[j].fx_guid) is Some),
        decreases chunks.len() - k,
    {
        let c = &chunks[k];
        assert(cv[k as int] == c@);
        match guid_target_of(fxs, c.fx_guid.as_str()) {
            Some(i) => {
                out.push(Some(i));
                by_guid.push(true);
            },
            None => {
                let mut rank: usize = 0;
                let mut j: usize = 0;
                while j < k
                    invariant
                        j <= k < chunks.len(),
                        fv == chain_views(fxs@),
                        cv == origin_views(chunks@),
                        by_guid@.len() == k,
                        forall|m: int| 0 <= m < k ==> #[trigger] by_guid@[m] == (guid_target(fv, cv[m].fx_guid) is Some),
                        c@ == cv[k as int],
                        rank == name_rank(fv, cv, j as int, cv[k as int].plugin_name),
                        rank <= j,
                    decreases k - j,
                {
                    assert(cv[j as int] == chunks@[j as int]@);
                    if !by_guid[j] && crate::strmap::str_eq(chunks[j].plugin_name.as_str(), c.plugin_name.as_str()) {
                        rank = rank + 1;
                    }
                    j = j + 1;
                }
                let t = nth_with_name(fxs, c.plugin_name.as_str(), rank);
                out.push(t);
                by_guid.push(false);
            },
        }
        k = k + 1;
    }
    out
}

proof fn lemma_name_rank_grows(fxs: Seq<ChainFxView>, chunks: Seq<ChunkOriginView>, a: int, b: int, name: Seq<char>)
    requires
        0 <= a < b <= chunks.len(),
        guid_target(fxs, chunks[a].fx_guid) is None,
        chunks[a].plugin_name == name,
    ensures
        name_rank(fxs, chunks, a, name) + 1 <= name_rank(fxs, chunks, b, name),
    decreases b - a,
{
    if b > a + 1 {
        lemma_name_rank_grows(fxs, chunks, a, b - 1, name);
    }
}

proof fn lemma_name_indices_distinct(fxs: Seq<ChainFxView>, name: Seq<char>)
    requires
        forall|i: int, j: int| 0 <= i < j < fxs.len() ==> fxs[i].index != fxs[j].index,
    ensures
        forall|i: int, j: int| 0 <= i < j < name_indices(fxs, name).len() ==>
            name_indices(fxs, name)[i] != name_indices(fxs, name)[j],
        forall|i: int| 0 <= i < name_indices(fxs, name).len() ==> exists|k: int| 0 <= k < fxs.len() && fxs[k].index == #[trigger] name_indices(fxs, name)[i],
    decreases fxs.len(),
{
    if fxs.len() > 0 {
        let d = fxs.drop_last();
        assert forall|i: int, j: int| 0 <= i < j < d.len() implies d[i].index != d[j].index by {
            assert(d[i] == fxs[i] && d[j] == fxs[j]);
        }
        lemma_name_indices_distinct(d, name);
        let ids = name_indices(fxs, name);
        let dids = name_indices(d, name);
        assert forall|i: int| 0 <= i < dids.len() implies exists|k: int| 0 <= k < fxs.len() - 1 && fxs[k].index == #[trigger] dids[i] by {
            let k = choose|k: int| 0 <= k < d.len() && d[k].index == dids[i];
            assert(d[k] == fxs[k]);
        }
        assert forall|i: int| 0 <= i < ids.len() implies exists|k: int| 0 <= k < fxs.len() && fxs[k].index == #[trigger] ids[i] by {
            if i < dids.len() {
                assert(ids[i] == dids[i]);
                let k = choose|k: int| 0 <= k < fxs.len() - 1 && fxs[k].index == dids[i];
            } else {
                assert(ids[i] == fxs.last().index);
            }
        }
        assert forall|i: int, j: int| 0 <= i < j < ids.len() implies ids[i] != ids[j] by {
            if j < dids.len() {
                assert(ids[i] == dids[i] && ids[j] == dids[j]);
            } else {
                assert(ids[i] == dids[i]);
                let k = choose|k: int| 0 <= k < fxs.len() - 1 && fxs[k].index == dids[i];
                assert(ids[j] == fxs.last().index);
                assert(fxs[k].index != fxs[fxs.len() - 1].index);
            }
        }
    }
}

/// Two different chunks that fall back to the same plugin name go to two
/// different FX (when no two FX of the chain share an index): duplicate
/// plugins are matched position by position, never twice.
pub proof fn lemma_name_fallback_never_reuses(fxs: Seq<ChainFxView>, chunks: Seq<ChunkOriginView>, a: int, b: int)
    requires
        forall|i: int, j: int| 0 <= i < j < fxs.len() ==> fxs[i].index != fxs[j].index,
        0 <= a < b < chunks.len(),
        guid_target(fxs, chunks[a].fx_guid) is None,
        guid_target(fxs, chunks[b].fx_guid) is None,
        chunks[a].plugin_name == chunks[b].plugin_name,
        chunk_target(fxs, chunks, a) is Some,
        chunk_target(fxs, chunks, b) is Some,
    ensures
        chunk_target(fxs, chunks, a) != chunk_target(fxs, chunks, b),
{
    let name = chunks[a].plugin_name;
    lemma_name_rank_grows(fxs, chunks, a, b, name);
    lemma_name_indices_distinct(fxs, name);
}

// ---------------------------------------------------------------------------
// Cache keys
// ---------------------------------------------------------------------------

/// The key under which a project's FX chains are cached: the lower-case
/// hex of the hash of its file path (empty for an unsaved project).
pub fn project_guid_string(path: &str) -> (r: String)
    ensures
        r@ == hex(default_hash(path@) as nat),
{
    string_of(&hex_chars(hash_string(path)))
}

} // verus!
