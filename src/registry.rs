use vstd::prelude::*;
use std::collections::HashMap;
use crate::task::{Task, TaskView, views};

verus! {

broadcast use {vstd::std_specs::hash::group_hash_axioms, vstd::seq_lib::lemma_seq_contains_after_push};

/// What `broadcast` makes of the subscribers' outboxes: a sink whose outbox
/// has room gets the task appended; a sink whose outbox is full is dropped.
pub open spec fn delivered(
    m: Map<u128, Seq<TaskView>>,
    capacity: nat,
    t: TaskView,
) -> Map<u128, Seq<TaskView>> {
    Map::new(|k: u128| m.contains_key(k) && m[k].len() < capacity, |k: u128| m[k].push(t))
}

/// The live-update subscribers, each with the outbox of tasks that were
/// broadcast to it and not yet handed to its transport.
pub struct Registry {
    outboxes: HashMap<u128, Vec<Task>>,
    order: Vec<u128>,
    capacity: usize,
}

impl View for Registry {
    type V = Map<u128, Seq<TaskView>>;

    closed spec fn view(&self) -> Map<u128, Seq<TaskView>> {
        self.outboxes@.map_values(|q: Vec<Task>| views(q@))
    }
}

impl Registry {
    /// The bound on each subscriber's outbox.
    pub closed spec fn capacity(&self) -> nat {
        self.capacity as nat
    }

    pub closed spec fn wf(&self) -> bool {
        &&& self.order@.no_duplicates()
        &&& forall|k: u128| self.outboxes@.contains_key(k) <==> self.order@.contains(k)
    }

    /// A registry with no subscriber, whose outboxes hold at most `capacity` tasks.
    pub fn new(capacity: usize) -> (r: Registry)
        ensures
            r.wf(),
            r@ == Map::<u128, Seq<TaskView>>::empty(),
            r.capacity() == capacity,
    {
        let r = Registry { outboxes: HashMap::new(), order: Vec::new(), capacity };
        assert(r@ =~= Map::<u128, Seq<TaskView>>::empty());
        r
    }

    /// The bound on each subscriber's outbox.
    pub fn outbox_capacity(&self) -> (r: usize)
        ensures
            r == self.capacity(),
    {
        self.capacity
    }

    /// Whether a sink is registered under `identity`.
    pub fn is_registered(&self, identity: u128) -> (r: bool)
        requires
            self.wf(),
        ensures
            r == self@.contains_key(identity),
    {
        self.outboxes.contains_key(&identity)
    }

    /// Registers a sink under `identity` with an empty outbox; a sink already
    /// there is replaced.
    pub fn register(&mut self, identity: u128)
        requires
            old(self).wf(),
        ensures
            final(self).wf(),
            final(self)@ == old(self)@.insert(identity, Seq::<TaskView>::empty()),
            final(self).capacity() == old(self).capacity(),
    {
        if !self.outboxes.contains_key(&identity) {
            assert forall|j: int| 0 <= j < self.order@.len() implies self.order@[j] != identity by {
                if self.order@[j] == identity {
                    assert(self.order@.contains(identity));
                }
            }
            self.order.push(identity);
        }
        self.outboxes.insert(identity, Vec::new());
        assert(views(self.outboxes@[identity]@) =~= Seq::<TaskView>::empty());
        assert(self@ =~= old(self)@.insert(identity, Seq::<TaskView>::empty()));
    }

    /// Removes the sink under `identity`, if there is one.
    pub fn unregister(&mut self, identity: u128)
        requires
            old(self).wf(),
        ensures
            final(self).wf(),
            final(self)@ == old(self)@.remove(identity),
            final(self).capacity() == old(self).capacity(),
    {
        self.outboxes.remove(&identity);
        let mut kept: Vec<u128> = Vec::new();
        let mut i: usize = 0;
        while i < self.order.len()
            invariant
                i <= self.order.len(),
                self.order@ == old(self).order@,
                self.order@.no_duplicates(),
                kept@.no_duplicates(),
                forall|k: u128| #[trigger] kept@.contains(k) <==> (
                    self.order@.take(i as int).contains(k) && k != identity),
            decreases self.order.len() - i,
        {
            let k = self.order[i];
            assert(self.order@.take(i as int + 1) =~= self.order@.take(i as int).push(k));
            if k != identity {
                let ghost before = kept@;
                assert forall|j: int| 0 <= j < before.len() implies before[j] != k by {
                    if before[j] == k {
                        assert(before.contains(k));
                        let n = choose|n: int| 0 <= n < i && self.order@[n] == k;
                        assert(self.order@[n] == self.order@[i as int]);
                    }
                }
                kept.push(k);
            }
            i = i + 1;
        }
        assert(self.order@.take(i as int) =~= self.order@);
        self.order = kept;
        assert(self@ =~= old(self)@.remove(identity));
    }

    /// Appends `task` to the outbox of every registered sink. A sink whose
    /// outbox is full is dropped; the others get the task all the same.
    pub fn broadcast(&mut self, task: &Task)
        requires
            old(self).wf(),
        ensures
            final(self).wf(),
            final(self)@ == delivered(old(self)@, old(self).capacity(), task@),
            final(self).capacity() == old(self).capacity(),
    {
        let ghost orig = old(self).outboxes@;
        let mut kept: Vec<u128> = Vec::new();
        let mut i: usize = 0;
        assert forall|j: int| 0 <= j < self.order@.len() implies self.outboxes@.contains_key(
            #[trigger] self.order@[j],
        ) by {
            assert(self.order@.contains(self.order@[j]));
        }
        while i < self.order.len()
            invariant
                i <= self.order.len(),
                self.order@ == old(self).order@,
                self.capacity == old(self).capacity,
                old(self).wf(),
                orig == old(self).outboxes@,
                kept@.no_duplicates(),
                forall|k: u128| #[trigger] kept@.contains(k) <==> (
                    self.order@.take(i as int).contains(k) && orig[k]@.len() < self.capacity),
                forall|k: u128| #[trigger] self.outboxes@.contains_key(k) ==> self.order@.contains(k),
                forall|j: int| i <= j < self.order@.len() ==> {
                    &&& self.outboxes@.contains_key(#[trigger] self.order@[j])
                    &&& self.outboxes@[self.order@[j]] == orig[self.order@[j]]
                },
                forall|j: int| 0 <= j < i ==> {
                    let k = #[trigger] self.order@[j];
                    &&& self.outboxes@.contains_key(k) <==> orig[k]@.len() < self.capacity
                    &&& self.outboxes@.contains_key(k) ==> views(self.outboxes@[k]@) == views(
                        orig[k]@,
                    ).push(task@)
                },
            decreases self.order.len() - i,
        {
            let k = self.order[i];
            assert(self.order@.take(i as int + 1) =~= self.order@.take(i as int).push(k));
            let removed = self.outboxes.remove(&k);
            if let Some(mut q) = removed {
                if q.len() < self.capacity {
                    let ghost before = kept@;
                    assert forall|j: int| 0 <= j < before.len() implies before[j] != k by {
                        if before[j] == k {
                            assert(before.contains(k));
                            let n = choose|n: int| 0 <= n < i && self.order@[n] == k;
                            assert(self.order@[n] == self.order@[i as int]);
                        }
                    }
                    q.push(task.deep_clone());
                    assert(views(q@) =~= views(orig[k]@).push(task@));
                    self.outboxes.insert(k, q);
                    kept.push(k);
                }
            }
            assert forall|j: int| 0 <= j < self.order@.len() && j != i implies self.order@[j] != k by {
            }
            i = i + 1;
        }
        assert(self.order@.take(i as int) =~= self.order@);
        self.order = kept;
        assert(self@ =~= delivered(old(self)@, old(self).capacity(), task@)) by {
            assert forall|k: u128| old(self)@.contains_key(k) implies exists|j: int|
                0 <= j < old(self).order@.len() && #[trigger] old(self).order@[j] == k by {
                assert(old(self).order@.contains(k));
            }
        }
    }

    /// Hands out the outbox of the sink under `identity` and empties it.
    pub fn take_pending(&mut self, identity: u128) -> (r: Vec<Task>)
        requires
            old(self).wf(),
        ensures
            final(self).wf(),
            final(self).capacity() == old(self).capacity(),
            old(self)@.contains_key(identity) ==> views(r@) == old(self)@[identity]
                && final(self)@ == old(self)@.insert(identity, Seq::<TaskView>::empty()),
            !old(self)@.contains_key(identity) ==> r@.len() == 0 && final(self)@ == old(self)@,
    {
        let removed = self.outboxes.remove(&identity);
        match removed {
            Some(q) => {
                self.outboxes.insert(identity, Vec::new());
                assert(views(self.outboxes@[identity]@) =~= Seq::<TaskView>::empty());
                assert(self@ =~= old(self)@.insert(identity, Seq::<TaskView>::empty()));
                q
            },
            None => {
                assert(self@ =~= old(self)@);
                Vec::new()
            },
        }
    }

    /// The identities of the registered sinks, copied out.
    pub fn identities(&self) -> (r: Vec<u128>)
        requires
            self.wf(),
        ensures
            r@.no_duplicates(),
            forall|k: u128| #[trigger] r@.contains(k) <==> self@.contains_key(k),
    {
        self.order.clone()
    }
}

} // verus!
