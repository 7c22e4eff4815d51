//! The wakers of parked tasks, kept by slot id.

use std::collections::HashMap;
use std::task::Waker;
use vstd::prelude::*;

verus! {

broadcast use vstd::std_specs::hash::group_hash_axioms;

/// The wakers of the tasks that wait for one side of a reader-writer lock,
/// under the slot ids of their futures. Which waker comes out first is left
/// to the hash map.
pub struct WakerMap {
    wakers: HashMap<usize, Waker>,
}

impl View for WakerMap {
    type V = Map<usize, Waker>;

    closed spec fn view(&self) -> Map<usize, Waker> {
        self.wakers@
    }
}

/// `wakers` holds the waker of every slot of `slots`, each once, in some order.
pub open spec fn drained(slots: Map<usize, Waker>, wakers: Seq<Waker>) -> bool {
    exists|ids: Seq<usize>| #[trigger]
        drained_in_order(slots, ids, wakers)
}

/// `ids` lists the slots of `slots`, each once, and `wakers` holds their
/// wakers in that order.
pub open spec fn drained_in_order(
    slots: Map<usize, Waker>,
    ids: Seq<usize>,
    wakers: Seq<Waker>,
) -> bool {
    &&& ids.no_duplicates()
    &&& ids.to_set() == slots.dom()
    &&& wakers == ids.map_values(|id: usize| slots[id])
}

/// Wakers that were drained are those of the slots: there are as many as slots,
/// each slot has its own among them, and each is that of some slot.
pub proof fn law_drained(slots: Map<usize, Waker>, wakers: Seq<Waker>)
    requires
        drained(slots, wakers),
    ensures
        slots.dom().finite(),
        wakers.len() == slots.dom().len(),
        forall|id: usize| #[trigger] slots.contains_key(id) ==> wakers.contains(slots[id]),
        exists|ids: Seq<usize>|
            ids.len() == wakers.len() && ids.no_duplicates() && forall|i: int|
                0 <= i < ids.len() ==> slots.contains_key(#[trigger] ids[i]) && wakers[i]
                    == slots[ids[i]],
{
    let ids = choose|ids: Seq<usize>| #[trigger] drained_in_order(slots, ids, wakers);
    law_drained_in_order(slots, ids, wakers);
    assert forall|id: usize| #[trigger] slots.contains_key(id) implies wakers.contains(
        slots[id],
    ) by {
        let i = choose|i: int| 0 <= i < ids.len() && ids[i] == id;
        assert(wakers[i] == slots[id]);
    }
}

/// Wakers that were drained in the order of `ids` are those of these slots, one
/// by one, and every slot is among them once.
pub proof fn law_drained_in_order(
    slots: Map<usize, Waker>,
    ids: Seq<usize>,
    wakers: Seq<Waker>,
)
    requires
        drained_in_order(slots, ids, wakers),
    ensures
        slots.dom().finite(),
        ids.len() == wakers.len(),
        wakers.len() == slots.dom().len(),
        forall|i: int, j: int| 0 <= i < j < ids.len() ==> ids[i] != ids[j],
        forall|i: int|
            0 <= i < ids.len() ==> slots.contains_key(#[trigger] ids[i]) && wakers[i]
                == slots[ids[i]],
        forall|id: usize| #[trigger]
            slots.contains_key(id) ==> exists|i: int| 0 <= i < ids.len() && ids[i] == id,
{
    ids.unique_seq_to_set();
    assert forall|i: int| 0 <= i < ids.len() implies slots.contains_key(#[trigger] ids[i]) by {
        assert(ids.to_set().contains(ids[i]));
    }
    assert forall|id: usize| #[trigger] slots.contains_key(id) implies exists|i: int|
        0 <= i < ids.len() && ids[i] == id by {
        assert(ids.to_set().contains(id));
    }
    vstd::seq_lib::seq_to_set_is_finite(ids);
}

impl WakerMap {
    /// A map without wakers.
    pub fn new() -> (map: Self)
        ensures
            map@ == Map::<usize, Waker>::empty(),
    {
        WakerMap { wakers: HashMap::new() }
    }

    /// Whether no task is registered.
    pub fn is_empty(&self) -> (empty: bool)
        ensures
            empty <==> self@ == Map::<usize, Waker>::empty(),
    {
        let empty = self.wakers.is_empty();
        proof {
            if empty {
                assert(self@.dom() =~= Set::empty());
                assert(self@ =~= Map::empty());
            }
        }
        empty
    }

    /// Stores a clone of `waker` in slot `id`, in place of what was there.
    pub fn register(&mut self, id: usize, waker: &Waker)
        ensures
            final(self)@ == old(self)@.insert(id, final(self)@[id]),
            cloned(*waker, final(self)@[id]),
    {
        self.wakers.insert(id, waker.clone());
    }

    /// Empties slot `id`.
    pub fn remove(&mut self, id: usize) -> (removed: Option<Waker>)
        ensures
            final(self)@ == old(self)@.remove(id),
            removed == (if old(self)@.contains_key(id) {
                Some(old(self)@[id])
            } else {
                None
            }),
    {
        self.wakers.remove(&id)
    }

    /// Takes the waker out of some slot, if there is one.
    pub fn take_any(&mut self) -> (taken: Option<(usize, Waker)>)
        ensures
            taken is None <==> old(self)@ == Map::<usize, Waker>::empty(),
            taken is None ==> final(self)@ == old(self)@,
            taken matches Some((id, waker)) ==> {
                &&& old(self)@.contains_key(id)
                &&& waker == old(self)@[id]
                &&& final(self)@ == old(self)@.remove(id)
            },
    {
        let first: Option<usize> = self.first_slot();
        match first {
            Some(id) => {
                match self.wakers.remove(&id) {
                    Some(waker) => Some((id, waker)),
                    None => None,
                }
            },
            None => None,
        }
    }

    /// Some slot that holds a waker.
    fn first_slot(&self) -> (first: Option<usize>)
        ensures
            first is None <==> self@ == Map::<usize, Waker>::empty(),
            first matches Some(id) ==> self@.contains_key(id),
    {
        for id in keys: self.wakers.keys()
            invariant
                keys.index() == 0,
                keys.seq().unref().to_set() == self@.dom(),
        {
            assert(keys.seq().unref()[0] == *id);
            assert(keys.seq().unref().to_set().contains(*id));
            return Some(*id);
        }
        assert(self@.dom() =~= Set::empty());
        assert(self@ =~= Map::empty());
        None
    }

    /// Takes out every waker.
    pub fn drain(&mut self) -> (wakers: Vec<Waker>)
        ensures
            drained(old(self)@, wakers@),
            final(self)@ == Map::<usize, Waker>::empty(),
            wakers@.len() == old(self)@.dom().len(),
            forall|id: usize| #[trigger]
                old(self)@.contains_key(id) ==> wakers@.contains(old(self)@[id]),
    {
        let mut wakers: Vec<Waker> = Vec::new();
        let ghost slots = self@;
        let ghost mut ids: Seq<usize> = Seq::empty();
        assert(wakers@ =~= ids.map_values(|id: usize| slots[id]));
        assert(self@ =~= slots.remove_keys(ids.to_set()));
        loop
            invariant
                ids.no_duplicates(),
                ids.to_set().subset_of(slots.dom()),
                self@ == slots.remove_keys(ids.to_set()),
                wakers@ == ids.map_values(|id: usize| slots[id]),
            ensures
                self@ == Map::<usize, Waker>::empty(),
            decreases self@.dom().len(),
        {
            match self.take_any() {
                Some((id, waker)) => {
                    wakers.push(waker);
                    proof {
                        let next = ids.push(id);
                        ids.lemma_push_to_set_commute(id);
                        assert(self@ =~= slots.remove_keys(next.to_set()));
                        assert(wakers@ =~= next.map_values(|id: usize| slots[id]));
                        ids = next;
                    }
                },
                None => {
                    break ;
                },
            }
        }
        proof {
            assert forall|id: usize| slots.dom().contains(id) implies ids.to_set().contains(id) by {
                if !ids.to_set().contains(id) {
                    assert(self@.contains_key(id));
                }
            }
            assert(ids.to_set() =~= slots.dom());
            assert(drained_in_order(slots, ids, wakers@));
            law_drained(slots, wakers@);
        }
        wakers
    }
}

} // verus!
