use vstd::prelude::*;
use std::collections::HashMap;
use vstd::std_specs::hash::spec_keys_iter;
use vstd::std_specs::iter::IteratorSpec;

verus! {

broadcast use vstd::std_specs::hash::group_hash_axioms;

/// The dispatcher's registry: for each connected client, the handle of its
/// writer.
pub struct State<H> {
    pub clients: HashMap<usize, H>,
}

impl<H> View for State<H> {
    type V = Map<usize, H>;

    open spec fn view(&self) -> Map<usize, H> {
        self.clients@
    }
}

impl<H> State<H> {
    pub fn new() -> (r: State<H>)
        ensures
            r@ == Map::<usize, H>::empty(),
    {
        State { clients: HashMap::new() }
    }

    pub fn insert(&mut self, id: usize, handle: H)
        ensures
            final(self)@ == old(self)@.insert(id, handle),
    {
        self.clients.insert(id, handle);
    }

    /// Removes a client; nothing happens when it is not registered.
    pub fn remove(&mut self, id: usize)
        ensures
            final(self)@ == old(self)@.remove(id),
    {
        self.clients.remove(&id);
    }

    /// The ids of all registered clients, each once, in no promised order.
    pub fn client_ids(&self) -> (r: Vec<usize>)
        ensures
            r@.to_set() == self@.dom(),
            r@.no_duplicates(),
    {
        let mut ids: Vec<usize> = Vec::new();
        let keys = self.clients.keys();
        let ghost all = spec_keys_iter(&self.clients).remaining();
        assert(all.unref().to_set() == self@.dom() && all.no_duplicates());
        for id in it: keys
            invariant
                it.seq() == all,
                ids@ == all.take(it.index()).unref(),
        {
            ids.push(*id);
            assert(ids@ =~= all.take(it.index() + 1).unref()) by {
                assert(all.take(it.index() + 1) =~= all.take(it.index()).push(id));
            }
        }
        assert(ids@ =~= all.unref()) by {
            assert(all.take(all.len() as int) =~= all);
        }
        assert(ids@.no_duplicates()) by {
            assert forall|i: int, j: int| 0 <= i < j < ids@.len() implies ids@[i] != ids@[j] by {
                assert(all[i] != all[j]);
            }
        }
        ids
    }
}

} // verus!
