//! Audio accessor handles: the host's audio accessors are kept under
//! opaque ids `aa-1`, `aa-2`, ..., handed out in order and never reused.
use vstd::prelude::*;

use crate::strmap::StrMap;
use crate::text::{append_chars, chars_of, decimal, decimal_chars, string_of};

verus! {

/// The id of the `n`-th accessor handed out.
pub open spec fn accessor_id(n: nat) -> Seq<char> {
    "aa-"@ + decimal(n)
}

proof fn lemma_decimal_len(n: nat)
    ensures
        decimal(n).len() >= 1,
        n < 10 <==> decimal(n).len() == 1,
    decreases n,
{
    if n >= 10 {
        lemma_decimal_len(n / 10);
    }
}

/// Different numbers have different decimal digits.
pub proof fn lemma_decimal_injective(a: nat, b: nat)
    requires
        decimal(a) == decimal(b),
    ensures
        a == b,
    decreases a,
{
    lemma_decimal_len(a);
    lemma_decimal_len(b);
    if a >= 10 && b >= 10 {
        let da = decimal(a);
        let db = decimal(b);
        assert(da.drop_last() == decimal(a / 10));
        assert(db.drop_last() == decimal(b / 10));
        assert(da.last() == db.last());
        assert(da.last() == ((a % 10) + 48) as char);
        assert(db.last() == ((b % 10) + 48) as char);
        assert((da.last() as u32) == (a % 10) + 48);
        assert((db.last() as u32) == (b % 10) + 48);
        lemma_decimal_injective(a / 10, b / 10);
        assert(a == (a / 10) * 10 + a % 10);
        assert(b == (b / 10) * 10 + b % 10);
    } else if a < 10 && b < 10 {
        assert(decimal(a)[0] == decimal(b)[0]);
        assert((decimal(a)[0] as u32) == a + 48);
        assert((decimal(b)[0] as u32) == b + 48);
    }
}

/// Accessors handed out for different numbers have different ids.
pub proof fn lemma_accessor_ids_distinct(a: nat, b: nat)
    requires
        a != b,
    ensures
        accessor_id(a) != accessor_id(b),
{
    if accessor_id(a) == accessor_id(b) {
        reveal_strlit("aa-");
        assert(accessor_id(a).skip(3) =~= decimal(a));
        assert(accessor_id(b).skip(3) =~= decimal(b));
        lemma_decimal_injective(a, b);
    }
}

/// The audio accessor service's handles: the host's accessor (by address)
/// under each id in use, and the number of the next id to hand out.
pub struct ReaperAudioAccessor {
    accessors: StrMap<usize>,
    next_id: u64,
}

impl ReaperAudioAccessor {
    /// Every id in use was handed out before the next one, and names a
    /// non-null accessor.
    pub closed spec fn wf(&self) -> bool {
        &&& self.accessors.wf()
        &&& self.next_id >= 1
        &&& forall|k: Seq<char>| #[trigger] self.accessors@.contains_key(k) ==> exists|n: nat|
            1 <= n < self.next_id && k == accessor_id(n)
        &&& forall|k: Seq<char>| #[trigger] self.accessors@.contains_key(k) ==> self.accessors@[k] != 0
    }

    /// The accessor (by address) under each id in use.
    pub closed spec fn handles(&self) -> Map<Seq<char>, usize> {
        self.accessors@
    }

    /// The number of the next id to hand out.
    pub closed spec fn next(&self) -> u64 {
        self.next_id
    }

    /// No accessors; the first id will be `aa-1`.
    pub fn new() -> (r: Self)
        ensures
            r.wf(),
            r.handles() == Map::<Seq<char>, usize>::empty(),
            r.next() == 1,
    {
        ReaperAudioAccessor { accessors: StrMap::new(), next_id: 1 }
    }

    /// Keep a new accessor and hand out its id. A null accessor (address 0,
    /// the host failed to create one) is not kept and gives no id. The id is
    /// `aa-` and the next number, which no accessor in use has.
    pub fn store(&mut self, ptr: usize) -> (r: Option<String>)
        requires
            old(self).wf(),
            old(self).next() < u64::MAX,
        ensures
            final(self).wf(),
            ptr == 0 ==> r is None && final(self).handles() == old(self).handles() && final(self).next() == old(self).next(),
            ptr != 0 ==> (r matches Some(id) && {
                &&& id@ == accessor_id(old(self).next() as nat)
                &&& !old(self).handles().contains_key(id@)
                &&& final(self).handles() == old(self).handles().insert(id@, ptr)
                &&& final(self).next() == old(self).next() + 1
            }),
    {
        if ptr == 0 {
            return None;
        }
        let n = self.next_id;
        self.next_id = n + 1;
        let mut v = chars_of("aa-");
        append_chars(&mut v, &decimal_chars(n));
        let id = string_of(&v);
        let key = string_of(&v);
        proof {
            if self.accessors@.contains_key(id@) {
                let m = choose|m: nat| 1 <= m < n && id@ == accessor_id(m);
                lemma_accessor_ids_distinct(m, n as nat);
            }
        }
        let ghost before = self.accessors@;
        self.accessors.insert(key, ptr);
        proof {
            assert forall|k: Seq<char>| #[trigger] self.accessors@.contains_key(k) implies exists|m: nat|
                1 <= m < self.next_id && k == accessor_id(m) by {
                if k != id@ {
                    assert(before.contains_key(k));
                    let m = choose|m: nat| 1 <= m < n && k == accessor_id(m);
                    assert(1 <= m < self.next_id && k == accessor_id(m));
                } else {
                    assert(1 <= n as nat && n < self.next_id && k == accessor_id(n as nat));
                }
            }
        }
        Some(id)
    }

    /// The accessor under `id`, if it is in use.
    pub fn get_ptr(&self, id: &str) -> (r: Option<usize>)
        requires
            self.wf(),
        ensures
            r == (if self.handles().contains_key(id@) { Some(self.handles()[id@]) } else { None }),
    {
        self.accessors.get(id)
    }

    /// Stop using `id`, giving back its accessor (to be destroyed) if it was in use.
    pub fn remove_ptr(&mut self, id: &str) -> (r: Option<usize>)
        requires
            old(self).wf(),
        ensures
            final(self).wf(),
            final(self).handles() == old(self).handles().remove(id@),
            final(self).next() == old(self).next(),
            r == (if old(self).handles().contains_key(id@) { Some(old(self).handles()[id@]) } else { None }),
    {
        let ghost before = self.accessors@;
        let r = self.accessors.remove(id);
        proof {
            assert forall|k: Seq<char>| #[trigger] self.accessors@.contains_key(k) implies exists|m: nat|
                1 <= m < self.next_id && k == accessor_id(m) by {
                assert(before.contains_key(k));
            }
        }
        r
    }
}

/// An accessor kept under an id is found under that id until the id is
/// removed, and a removed id finds nothing.
pub proof fn lemma_store_then_get(handles: Map<Seq<char>, usize>, id: Seq<char>, ptr: usize)
    ensures
        handles.insert(id, ptr).contains_key(id) && handles.insert(id, ptr)[id] == ptr,
        !handles.insert(id, ptr).remove(id).contains_key(id),
{
}

} // verus!
