//! Routing incoming calls to service dispatchers by method id: each
//! registered dispatcher claims its methods, a later registration taking
//! over a method id from an earlier one.
use vstd::prelude::*;

verus! {

/// Dispatchers in registration order, and the dispatcher each method id routes to.
pub struct RoutedHandler<H> {
    method_map: Vec<(u64, usize)>,
    handlers: Vec<H>,
}

/// The route table after `ids` are routed to dispatcher `idx`.
pub open spec fn routes_with(m: Map<u64, usize>, ids: Seq<u64>, idx: usize) -> Map<u64, usize> {
    Map::new(
        |k: u64| m.contains_key(k) || ids.contains(k),
        |k: u64| if ids.contains(k) { idx } else { m[k] },
    )
}

impl<H> RoutedHandler<H> {
    /// No method id occurs twice, and every route names a registered dispatcher.
    pub closed spec fn wf(&self) -> bool {
        &&& forall|i: int, j: int| 0 <= i < j < self.method_map@.len() ==> #[trigger] self.method_map@[i].0 != #[trigger] self.method_map@[j].0
        &&& forall|i: int| 0 <= i < self.method_map@.len() ==> #[trigger] self.method_map@[i].1 < self.handlers@.len()
    }

    /// The route table: method id to dispatcher position.
    pub closed spec fn routes(&self) -> Map<u64, usize> {
        Map::new(
            |k: u64| exists|i: int| 0 <= i < self.method_map@.len() && #[trigger] self.method_map@[i].0 == k,
            |k: u64| self.method_map@[choose|i: int| 0 <= i < self.method_map@.len() && #[trigger] self.method_map@[i].0 == k].1,
        )
    }

    /// The dispatchers, in registration order.
    pub closed spec fn handlers(&self) -> Seq<H> {
        self.handlers@
    }

    proof fn lemma_route_at(&self, i: int)
        requires
            self.wf(),
            0 <= i < self.method_map@.len(),
        ensures
            self.routes().contains_key(self.method_map@[i].0),
            self.routes()[self.method_map@[i].0] == self.method_map@[i].1,
    {
        let k = self.method_map@[i].0;
        let j = choose|j: int| 0 <= j < self.method_map@.len() && #[trigger] self.method_map@[j].0 == k;
        assert(self.method_map@[j].0 == k);
        if i != j {
            if i < j {
                assert(self.method_map@[i].0 != self.method_map@[j].0);
            } else {
                assert(self.method_map@[j].0 != self.method_map@[i].0);
            }
        }
    }

    /// No dispatchers and no routes.
    pub fn new() -> (r: Self)
        ensures
            r.wf(),
            r.routes() == Map::<u64, usize>::empty(),
            r.handlers().len() == 0,
    {
        let r = RoutedHandler { method_map: Vec::new(), handlers: Vec::new() };
        assert(r.routes() =~= Map::<u64, usize>::empty());
        r
    }

    fn position_of(&self, id: u64) -> (r: Option<usize>)
        requires
            self.wf(),
        ensures
            match r {
                Some(i) => i < self.method_map@.len() && self.method_map@[i as int].0 == id,
                None => forall|i: int| 0 <= i < self.method_map@.len() ==> self.method_map@[i].0 != id,
            },
    {
        let mut i: usize = 0;
        while i < self.method_map.len()
            invariant
                i <= self.method_map@.len(),
                forall|j: int| 0 <= j < i ==> self.method_map@[j].0 != id,
            decreases self.method_map.len() - i,
        {
            if self.method_map[i].0 == id {
                return Some(i);
            }
            i = i + 1;
        }
        None
    }

    fn set_route(&mut self, id: u64, idx: usize)
        requires
            old(self).wf(),
            idx < old(self).handlers@.len(),
        ensures
            final(self).wf(),
            final(self).handlers@ == old(self).handlers@,
            final(self).routes() == old(self).routes().insert(id, idx),
    {
        let ghost before = self.routes();
        match self.position_of(id) {
            Some(i) => {
                let ghost old_map = self.method_map@;
                self.method_map.set(i, (id, idx));
                proof {
                    assert forall|k: u64| #[trigger] self.routes().contains_key(k) == before.insert(id, idx).contains_key(k) by {
                        if before.contains_key(k) {
                            let j = choose|j: int| 0 <= j < old_map.len() && #[trigger] old_map[j].0 == k;
                            assert(self.method_map@[j].0 == k || j == i);
                        }
                        if self.routes().contains_key(k) {
                            let j = choose|j: int| 0 <= j < self.method_map@.len() && #[trigger] self.method_map@[j].0 == k;
                            assert(old_map[j].0 == k || j == i);
                        }
                        assert(self.method_map@[i as int].0 == id);
                    }
                    assert forall|k: u64| #[trigger] self.routes().contains_key(k) implies self.routes()[k] == before.insert(id, idx)[k] by {
                        let j = choose|j: int| 0 <= j < self.method_map@.len() && #[trigger] self.method_map@[j].0 == k;
                        self.lemma_route_at(j);
                        if k != id {
                            assert(j != i);
                            assert(old_map[j] == self.method_map@[j]);
                            assert(before.contains_key(k)) by {
                                assert(old_map[j].0 == k);
                            }
                            let j2 = choose|j2: int| 0 <= j2 < old_map.len() && #[trigger] old_map[j2].0 == k;
                            if j2 != j {
                                if j2 < j {
                                    assert(old_map[j2].0 != old_map[j].0);
                                } else {
                                    assert(old_map[j].0 != old_map[j2].0);
                                }
                            }
                        } else {
                            self.lemma_route_at(i as int);
                        }
                    }
                    assert(self.routes() =~= before.insert(id, idx));
                }
            },
            None => {
                let ghost old_map = self.method_map@;
                self.method_map.push((id, idx));
                proof {
                    let n = old_map.len() as int;
                    assert(self.method_map@[n] == (id, idx));
                    assert forall|k: u64| #[trigger] self.routes().contains_key(k) == before.insert(id, idx).contains_key(k) by {
                        if before.contains_key(k) {
                            let j = choose|j: int| 0 <= j < old_map.len() && #[trigger] old_map[j].0 == k;
                            assert(self.method_map@[j].0 == k);
                        }
                        if k == id {
                            assert(self.method_map@[n].0 == id);
                        }
                        if self.routes().contains_key(k) && k != id {
                            let j = choose|j: int| 0 <= j < self.method_map@.len() && #[trigger] self.method_map@[j].0 == k;
                            assert(j < n);
                            assert(old_map[j].0 == k);
                        }
                    }
                    assert forall|k: u64| #[trigger] self.routes().contains_key(k) implies self.routes()[k] == before.insert(id, idx)[k] by {
                        let j = choose|j: int| 0 <= j < self.method_map@.len() && #[trigger] self.method_map@[j].0 == k;
                        self.lemma_route_at(j);
                        if k != id {
                            assert(j < n);
                            assert(old_map[j] == self.method_map@[j]);
                            let j2 = choose|j2: int| 0 <= j2 < old_map.len() && #[trigger] old_map[j2].0 == k;
                            if j2 != j {
                                if j2 < j {
                                    assert(old_map[j2].0 != old_map[j].0);
                                } else {
                                    assert(old_map[j].0 != old_map[j2].0);
                                }
                            }
                        }
                    }
                    assert(self.routes() =~= before.insert(id, idx));
                }
            },
        }
    }

    /// Register a dispatcher for the methods `method_ids`: it is added after
    /// the others, and each of those ids now routes to it.
    pub fn with(self, method_ids: &[u64], handler: H) -> (r: Self)
        requires
            self.wf(),
        ensures
            r.wf(),
            r.handlers() == self.handlers().push(handler),
            r.routes() == routes_with(self.routes(), method_ids@, self.handlers().len() as usize),
    {
        let ghost start_routes = self.routes();
        let ghost start_handlers = self.handlers@;
        let mut this = self;
        let idx = this.handlers.len();
        this.handlers.push(handler);
        let ghost hs = this.handlers@;
        assert(hs == start_handlers.push(handler));
        proof {
            assert forall|i: int| 0 <= i < this.method_map@.len() implies #[trigger] this.method_map@[i].1 < this.handlers@.len() by {}
        }
        let mut i: usize = 0;
        while i < method_ids.len()
            invariant
                i <= method_ids@.len(),
                this.wf(),
                idx < this.handlers@.len(),
                this.handlers@ == hs,
                this.routes() == routes_with(start_routes, method_ids@.take(i as int), idx),
            decreases method_ids.len() - i,
        {
            let ghost before = this.routes();
            this.set_route(method_ids[i], idx);
            proof {
                let t = method_ids@.take(i + 1);
                assert(t =~= method_ids@.take(i as int).push(method_ids@[i as int]));
                assert forall|k: u64| #[trigger] t.contains(k) == (method_ids@.take(i as int).contains(k) || k == method_ids@[i as int]) by {
                    if t.contains(k) && k != method_ids@[i as int] {
                        let j = choose|j: int| 0 <= j < t.len() && t[j] == k;
                        assert(method_ids@.take(i as int)[j] == k);
                    }
                    if method_ids@.take(i as int).contains(k) {
                        let j = choose|j: int| 0 <= j < i && method_ids@.take(i as int)[j] == k;
                        assert(t[j] == k);
                    }
                    if k == method_ids@[i as int] {
                        assert(t[i as int] == k);
                    }
                }
                assert(this.routes() =~= routes_with(start_routes, t, idx));
            }
            i = i + 1;
        }
        assert(method_ids@.take(method_ids@.len() as int) =~= method_ids@);
        this
    }

    /// The position of the dispatcher that method `method_id` routes to, or
    /// `None` for an unknown method (answered with an unknown-method error).
    pub fn route(&self, method_id: u64) -> (r: Option<usize>)
        requires
            self.wf(),
        ensures
            r == (if self.routes().contains_key(method_id) { Some(self.routes()[method_id]) } else { None }),
            r matches Some(i) ==> i < self.handlers().len(),
    {
        match self.position_of(method_id) {
            Some(i) => {
                proof {
                    self.lemma_route_at(i as int);
                }
                Some(self.method_map[i].1)
            },
            None => None,
        }
    }

    /// The dispatcher at `index`.
    pub fn handler(&self, index: usize) -> (r: &H)
        requires
            index < self.handlers().len(),
        ensures
            *r == self.handlers()[index as int],
    {
        &self.handlers[index]
    }
}

/// After a dispatcher is registered for some method ids, each of them
/// routes to it, and every other method routes where it did before.
pub proof fn lemma_later_registration_wins(m: Map<u64, usize>, ids: Seq<u64>, idx: usize, other: u64)
    requires
        !ids.contains(other),
    ensures
        forall|k: u64| ids.contains(k) ==> #[trigger] routes_with(m, ids, idx).contains_key(k) && routes_with(m, ids, idx)[k] == idx,
        routes_with(m, ids, idx).contains_key(other) == m.contains_key(other),
        m.contains_key(other) ==> routes_with(m, ids, idx)[other] == m[other],
{
}

} // verus!
