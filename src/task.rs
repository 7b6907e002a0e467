use vstd::prelude::*;

verus! {

/// The three states a task can be in.
#[derive(Debug, Clone, Copy, PartialEq, Eq, Structural)]
pub enum TaskState {
    Todo,
    InProgress,
    Done,
}

/// The mathematical value of a task.
pub struct TaskView {
    pub id: u128,
    pub title: Seq<char>,
    pub description: Seq<char>,
    pub state: TaskState,
}

impl TaskView {
    pub open spec fn with_state(self, state: TaskState) -> TaskView {
        TaskView { state, ..self }
    }
}

/// A unit of tracked work.
#[derive(Debug, Clone)]
pub struct Task {
    pub id: u128,
    pub title: String,
    pub description: String,
    pub state: TaskState,
}

impl View for Task {
    type V = TaskView;

    open spec fn view(&self) -> TaskView {
        TaskView { id: self.id, title: self.title@, description: self.description@, state: self.state }
    }
}

impl Task {
    /// A new task with the same id, texts and state.
    pub fn deep_clone(&self) -> (r: Task)
        ensures
            r@ == self@,
    {
        Task {
            id: self.id,
            title: self.title.clone(),
            description: self.description.clone(),
            state: self.state,
        }
    }
}

/// Some task of the sequence has this id.
pub open spec fn contains_id(tasks: Seq<TaskView>, id: u128) -> bool {
    exists|i: int| 0 <= i < tasks.len() && #[trigger] tasks[i].id == id
}

/// The views of a sequence of tasks.
pub open spec fn views(tasks: Seq<Task>) -> Seq<TaskView> {
    tasks.map_values(|t: Task| t@)
}

/// Copies every task of `tasks`, keeping the order.
pub fn clone_all(tasks: &Vec<Task>) -> (r: Vec<Task>)
    ensures
        views(r@) == views(tasks@),
{
    let mut r: Vec<Task> = Vec::new();
    let mut i: usize = 0;
    while i < tasks.len()
        invariant
            i <= tasks.len(),
            r@.len() == i,
            forall|j: int| 0 <= j < i ==> #[trigger] r@[j]@ == tasks@[j]@,
        decreases tasks.len() - i,
    {
        r.push(tasks[i].deep_clone());
        i = i + 1;
    }
    assert(views(r@) =~= views(tasks@));
    r
}

/// The body of a request that moves a task to another state.
pub struct UpdateTaskStateRequest {
    pub state: TaskState,
}

/// The body of a request that creates a task.
pub struct CreateTaskRequest {
    pub title: String,
    pub description: String,
}

/// A task handed to a live-update subscriber.
pub struct TaskMessage(pub Task);

} // verus!
