use vstd::prelude::*;
use crate::task::{Task, TaskState, TaskView, contains_id, views, clone_all};

verus! {

/// Why a store operation did not take effect.
#[derive(Debug, Clone, Copy, PartialEq, Eq, Structural)]
pub enum StoreError {
    /// No task has this id.
    NotFound(u128),
}

/// The mathematical value of a store: its tasks in insertion order, and the
/// id that the next created task will get.
pub struct StoreView {
    pub tasks: Seq<TaskView>,
    pub next_id: u128,
}

impl StoreView {
    /// Ids strictly increase along the sequence and all lie below `next_id`.
    pub open spec fn well_formed(self) -> bool {
        &&& forall|i: int, j: int|
            0 <= i < j < self.tasks.len() ==> #[trigger] self.tasks[i].id < #[trigger] self.tasks[j].id
        &&& forall|i: int| 0 <= i < self.tasks.len() ==> #[trigger] self.tasks[i].id < self.next_id
    }

    /// Every id issued so far is held by a task: the counter equals the
    /// number of tasks, as it does for a store built only by `new`,
    /// `seeded`, `create` and `update_state`.
    pub open spec fn ids_dense(self) -> bool {
        self.next_id == self.tasks.len()
    }

    /// Another task can still get a fresh id.
    pub open spec fn can_create(self) -> bool {
        self.next_id < u128::MAX
    }

    pub open spec fn has_id(self, id: u128) -> bool {
        contains_id(self.tasks, id)
    }

    /// The task that `create` appends.
    pub open spec fn created(self, title: Seq<char>, description: Seq<char>) -> TaskView {
        TaskView { id: self.next_id, title, description, state: TaskState::Todo }
    }

    pub open spec fn after_create(self, title: Seq<char>, description: Seq<char>) -> StoreView {
        StoreView {
            tasks: self.tasks.push(self.created(title, description)),
            next_id: (self.next_id + 1) as u128,
        }
    }

    /// Every task with this id gets the new state; nothing else changes.
    pub open spec fn after_update(self, id: u128, state: TaskState) -> StoreView {
        StoreView {
            tasks: self.tasks.map_values(
                |t: TaskView| if t.id == id { t.with_state(state) } else { t },
            ),
            next_id: self.next_id,
        }
    }
}

/// The ordered collection of tasks. Ids come from a counter, so they are
/// unique for the store's lifetime and increase in creation order.
pub struct TaskStore {
    tasks: Vec<Task>,
    next_id: u128,
}

impl View for TaskStore {
    type V = StoreView;

    closed spec fn view(&self) -> StoreView {
        StoreView { tasks: views(self.tasks@), next_id: self.next_id }
    }
}

impl TaskStore {
    pub open spec fn wf(&self) -> bool {
        self@.well_formed()
    }

    /// An empty store.
    pub fn new() -> (r: TaskStore)
        ensures
            r.wf(),
            r@.tasks.len() == 0,
            r@.next_id == 0,
    {
        let r = TaskStore { tasks: Vec::new(), next_id: 0 };
        assert(r@.tasks =~= Seq::<TaskView>::empty());
        r
    }

    /// A store seeded with three tasks, one in each state.
    pub fn seeded() -> (r: TaskStore)
        ensures
            r.wf(),
            r@.next_id == 3,
            r@.tasks == seq![
                TaskView { id: 0, title: "Task 1"@, description: "Description 1"@, state: TaskState::Todo },
                TaskView { id: 1, title: "Task 2"@, description: "Description 2"@, state: TaskState::InProgress },
                TaskView { id: 2, title: "Task 3"@, description: "Description 3"@, state: TaskState::Done },
            ],
    {
        let mut tasks: Vec<Task> = Vec::new();
        tasks.push(Task {
            id: 0,
            title: String::from_str("Task 1"),
            description: String::from_str("Description 1"),
            state: TaskState::Todo,
        });
        tasks.push(Task {
            id: 1,
            title: String::from_str("Task 2"),
            description: String::from_str("Description 2"),
            state: TaskState::InProgress,
        });
        tasks.push(Task {
            id: 2,
            title: String::from_str("Task 3"),
            description: String::from_str("Description 3"),
            state: TaskState::Done,
        });
        let r = TaskStore { tasks, next_id: 3 };
        assert(r@.tasks =~= seq![
            TaskView { id: 0, title: "Task 1"@, description: "Description 1"@, state: TaskState::Todo },
            TaskView { id: 1, title: "Task 2"@, description: "Description 2"@, state: TaskState::InProgress },
            TaskView { id: 2, title: "Task 3"@, description: "Description 3"@, state: TaskState::Done },
        ]);
        r
    }

    /// The number of tasks.
    pub fn len(&self) -> (r: usize)
        ensures
            r == self@.tasks.len(),
    {
        self.tasks.len()
    }

    /// Whether `create` may be called.
    pub fn can_create(&self) -> (r: bool)
        ensures
            r == self@.can_create(),
    {
        self.next_id < u128::MAX
    }

    /// A copy of every task, in insertion order.
    pub fn list(&self) -> (r: Vec<Task>)
        ensures
            views(r@) == self@.tasks,
    {
        clone_all(&self.tasks)
    }

    /// Appends a new task in state `Todo` under a fresh id and returns it.
    pub fn create(&mut self, title: String, description: String) -> (r: Task)
        requires
            old(self).wf(),
            old(self)@.can_create(),
        ensures
            final(self).wf(),
            final(self)@ == old(self)@.after_create(title@, description@),
            r@ == old(self)@.created(title@, description@),
    {
        let task = Task { id: self.next_id, title, description, state: TaskState::Todo };
        let r = task.deep_clone();
        self.tasks.push(task);
        self.next_id = self.next_id + 1;
        assert(self@.tasks =~= old(self)@.tasks.push(r@));
        r
    }

    /// Sets the state of the task with this id and returns it, or fails with
    /// `NotFound` and leaves the store as it was.
    pub fn update_state(&mut self, id: u128, state: TaskState) -> (r: Result<Task, StoreError>)
        requires
            old(self).wf(),
        ensures
            final(self).wf(),
            final(self)@ == old(self)@.after_update(id, state),
            r is Err <==> !old(self)@.has_id(id),
            r is Err ==> r == Err::<Task, StoreError>(StoreError::NotFound(id)),
            r is Err ==> final(self)@ == old(self)@,
            forall|i: int|
                0 <= i < old(self)@.tasks.len() && #[trigger] old(self)@.tasks[i].id == id
                    ==> (r matches Ok(t) && t@ == old(self)@.tasks[i].with_state(state)),
    {
        let ghost before = self@;
        let mut i: usize = 0;
        while i < self.tasks.len()
            invariant
                self@ == before,
                before == old(self)@,
                self.wf(),
                i <= self.tasks.len(),
                forall|j: int| 0 <= j < i ==> #[trigger] self@.tasks[j].id != id,
            decreases self.tasks.len() - i,
        {
            if self.tasks[i].id == id {
                let mut task = self.tasks[i].deep_clone();
                task.state = state;
                let r = task.deep_clone();
                self.tasks.set(i, task);
                assert forall|j: int| 0 <= j < self@.tasks.len() implies #[trigger] self@.tasks[j]
                    == before.after_update(id, state).tasks[j] by {
                    if j != i {
                        assert(before.tasks[j].id != id) by {
                            if j < i {
                            } else {
                                assert(before.tasks[i as int].id < before.tasks[j].id);
                            }
                        }
                    }
                }
                assert(self@.tasks =~= before.after_update(id, state).tasks);
                assert forall|k: int| 0 <= k < before.tasks.len() && #[trigger] before.tasks[k].id == id
                    implies k == i by {
                    if k < i {
                    } else if k > i {
                        assert(before.tasks[i as int].id < before.tasks[k].id);
                    }
                }
                assert(self@ == before.after_update(id, state));
                assert(before.tasks[i as int].id == id);
                return Ok(r);
            }
            i = i + 1;
        }
        assert(before.after_update(id, state).tasks =~= before.tasks);
        Err(StoreError::NotFound(id))
    }
}

} // verus!
