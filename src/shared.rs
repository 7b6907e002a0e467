use vstd::prelude::*;
use vstd::rwlock::{RwLock, RwLockPredicate};
use crate::registry::Registry;
use crate::session::{Inbound, Outbound, Session, SessionState};
use crate::store::{StoreError, TaskStore};
use crate::task::{Task, TaskState, TaskView, views};

verus! {

/// Ids strictly increase along the sequence.
pub open spec fn ids_increasing(tasks: Seq<TaskView>) -> bool {
    forall|i: int, j: int| 0 <= i < j < tasks.len() ==> #[trigger] tasks[i].id < #[trigger] tasks[j].id
}

/// What the store's lock keeps: a well-formed store whose id counter equals
/// its number of tasks, so that a fresh id is always left.
pub struct StoreInv;

impl RwLockPredicate<TaskStore> for StoreInv {
    open spec fn inv(self, v: TaskStore) -> bool {
        v.wf() && v@.ids_dense()
    }
}

/// What the registry's lock keeps: a well-formed registry.
pub struct RegistryInv;

impl RwLockPredicate<Registry> for RegistryInv {
    open spec fn inv(self, v: Registry) -> bool {
        v.wf()
    }
}

/// The task store and the subscriber registry, each behind its own lock, for
/// many request handlers at once. Readers of the store run side by side;
/// a write holds the store, then the registry, so that every sink gets the
/// broadcasts in the order in which the writes took effect.
pub struct SharedTasks {
    store: RwLock<TaskStore, StoreInv>,
    registry: RwLock<Registry, RegistryInv>,
}

impl SharedTasks {
    pub closed spec fn wf(&self) -> bool {
        &&& self.store.pred() == StoreInv
        &&& self.registry.pred() == RegistryInv
    }

    pub fn new(store: TaskStore, registry: Registry) -> (r: SharedTasks)
        requires
            store.wf(),
            store@.ids_dense(),
            registry.wf(),
        ensures
            r.wf(),
    {
        SharedTasks {
            store: RwLock::new(store, Ghost(StoreInv)),
            registry: RwLock::new(registry, Ghost(RegistryInv)),
        }
    }

    /// A copy of every task as one consistent state of the store held them.
    pub fn list(&self) -> (r: Vec<Task>)
        requires
            self.wf(),
        ensures
            ids_increasing(views(r@)),
    {
        let handle = self.store.acquire_read();
        let r = handle.borrow().list();
        handle.release_read();
        r
    }

    /// Creates a task in state `Todo` under a fresh id and broadcasts it.
    pub fn create(&self, title: String, description: String) -> (r: Task)
        requires
            self.wf(),
        ensures
            r@.title == title@,
            r@.description == description@,
            r@.state == TaskState::Todo,
    {
        let (mut store, store_handle) = self.store.acquire_write();
        let count = store.len();
        assert(store@.can_create()) by {
            assert(count <= usize::MAX);
        }
        let (mut registry, registry_handle) = self.registry.acquire_write();
        let task = crate::fanout::create_task(&mut store, &mut registry, title, description);
        registry_handle.release_write(registry);
        store_handle.release_write(store);
        task
    }

    /// Sets the state of the task with this id and broadcasts it, or fails
    /// with `NotFound`.
    pub fn update_state(&self, id: u128, state: TaskState) -> (r: Result<Task, StoreError>)
        requires
            self.wf(),
        ensures
            r matches Ok(t) ==> t.id == id && t.state == state,
            r is Err ==> r == Err::<Task, StoreError>(StoreError::NotFound(id)),
    {
        let (mut store, store_handle) = self.store.acquire_write();
        let (mut registry, registry_handle) = self.registry.acquire_write();
        let ghost before = store@;
        let r = crate::fanout::update_task_state(&mut store, &mut registry, id, state);
        proof {
            if r is Ok {
                let k = choose|k: int| 0 <= k < before.tasks.len() && #[trigger] before.tasks[k].id == id;
                assert(before.tasks[k].id == id);
            }
        }
        registry_handle.release_write(registry);
        store_handle.release_write(store);
        r
    }

    /// Starts a live-update session under a fresh identity, registered and open.
    pub fn start_session(&self) -> (r: Session)
        requires
            self.wf(),
        ensures
            r.phase() == SessionState::Open,
    {
        let (mut registry, handle) = self.registry.acquire_write();
        let r = crate::session::start_session(&mut registry);
        handle.release_write(registry);
        r
    }

    /// Answers one inbound frame of `session`, as `Session::on_frame` does.
    pub fn on_frame(&self, session: &mut Session, frame: Inbound) -> (r: Outbound)
        requires
            self.wf(),
        ensures
            final(session).id() == old(session).id(),
            match frame {
                Inbound::Ping(p) => {
                    &&& *final(session) == *old(session)
                    &&& old(session).phase() == SessionState::Open ==> r == Outbound::Pong(p)
                    &&& old(session).phase() != SessionState::Open ==> r == Outbound::Nothing
                },
                Inbound::Close | Inbound::TransportError => {
                    &&& final(session).phase() == SessionState::Closed
                    &&& r == (if frame is Close && old(session).phase() != SessionState::Closed {
                        Outbound::Close
                    } else {
                        Outbound::Nothing
                    })
                },
                _ => {
                    &&& *final(session) == *old(session)
                    &&& r == Outbound::Nothing
                },
            },
    {
        let (mut registry, handle) = self.registry.acquire_write();
        let r = session.on_frame(frame, &mut registry);
        handle.release_write(registry);
        r
    }

    /// Closes `session` and unregisters it if it was open.
    pub fn close(&self, session: &mut Session)
        requires
            self.wf(),
        ensures
            final(session).id() == old(session).id(),
            final(session).phase() == SessionState::Closed,
    {
        let (mut registry, handle) = self.registry.acquire_write();
        session.close(&mut registry);
        handle.release_write(registry);
    }

    /// The tasks broadcast to `session` and not yet forwarded, in broadcast
    /// order; none for a session that is not open. A session that a
    /// broadcast dropped for a full outbox is closed.
    pub fn outgoing(&self, session: &mut Session) -> (r: Vec<Task>)
        requires
            self.wf(),
        ensures
            final(session).id() == old(session).id(),
            old(session).phase() != SessionState::Open ==> r@.len() == 0 && *final(session)
                == *old(session),
    {
        let (mut registry, handle) = self.registry.acquire_write();
        let r = session.outgoing(&mut registry);
        handle.release_write(registry);
        r
    }
}

} // verus!
