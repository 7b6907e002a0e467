use vstd::prelude::*;
use crate::task::{Task, TaskState, TaskView, contains_id, views};

verus! {

broadcast use vstd::seq_lib::group_filter_ensures;

/// The tasks of a board column: those in `state`, in list order.
pub open spec fn column(tasks: Seq<TaskView>, state: TaskState) -> Seq<TaskView> {
    tasks.filter(|t: TaskView| t.state == state)
}

/// Copies the tasks that are in `state`, keeping their order.
pub fn tasks_in_state(tasks: &Vec<Task>, state: TaskState) -> (r: Vec<Task>)
    ensures
        views(r@) == column(views(tasks@), state),
{
    let mut r: Vec<Task> = Vec::new();
    let mut i: usize = 0;
    while i < tasks.len()
        invariant
            i <= tasks.len(),
            views(r@) == column(views(tasks@.take(i as int)), state),
        decreases tasks.len() - i,
    {
        let ghost before = views(tasks@.take(i as int));
        assert(views(tasks@.take(i as int + 1)) =~= before.push(tasks@[i as int]@));
        proof {
            before.lemma_filter_push(tasks@[i as int]@, |t: TaskView| t.state == state);
        }
        if tasks[i].state == state {
            r.push(tasks[i].deep_clone());
            assert(views(r@) =~= column(before, state).push(tasks@[i as int]@));
        }
        i = i + 1;
    }
    assert(tasks@.take(i as int) =~= tasks@);
    r
}

/// The three board columns: `Todo`, `InProgress` and `Done`, in that order.
pub fn columns(tasks: &Vec<Task>) -> (r: (Vec<Task>, Vec<Task>, Vec<Task>))
    ensures
        views(r.0@) == column(views(tasks@), TaskState::Todo),
        views(r.1@) == column(views(tasks@), TaskState::InProgress),
        views(r.2@) == column(views(tasks@), TaskState::Done),
{
    (
        tasks_in_state(tasks, TaskState::Todo),
        tasks_in_state(tasks, TaskState::InProgress),
        tasks_in_state(tasks, TaskState::Done),
    )
}

/// The list after a pushed task arrives: it replaces every listed task with
/// its id, or is appended when none has it.
pub open spec fn merged(tasks: Seq<TaskView>, t: TaskView) -> Seq<TaskView> {
    if contains_id(tasks, t.id) {
        tasks.map_values(|u: TaskView| if u.id == t.id { t } else { u })
    } else {
        tasks.push(t)
    }
}

/// Folds a task pushed by the server into a client's list.
pub fn merge_update(tasks: &mut Vec<Task>, t: Task)
    ensures
        views(final(tasks)@) == merged(views(old(tasks)@), t@),
{
    let ghost before = views(tasks@);
    let mut found = false;
    let mut i: usize = 0;
    while i < tasks.len()
        invariant
            i <= tasks.len(),
            tasks@.len() == before.len(),
            before == views(old(tasks)@),
            found <==> exists|j: int| 0 <= j < i && #[trigger] before[j].id == t.id,
            forall|j: int| 0 <= j < i ==> #[trigger] tasks@[j]@ == (if before[j].id == t.id {
                t@
            } else {
                before[j]
            }),
            forall|j: int| i <= j < tasks@.len() ==> #[trigger] tasks@[j]@ == before[j],
        decreases tasks.len() - i,
    {
        assert(tasks@[i as int]@ == before[i as int]);
        if tasks[i].id == t.id {
            tasks.set(i, t.deep_clone());
            found = true;
            assert(before[i as int].id == t.id);
        }
        i = i + 1;
    }
    if found {
        assert(views(tasks@) =~= before.map_values(|u: TaskView| if u.id == t.id { t@ } else { u }));
    } else {
        assert(!contains_id(before, t.id));
        assert(views(tasks@) =~= before);
        tasks.push(t);
        assert(views(tasks@) =~= before.push(t@));
    }
}

} // verus!
