use vstd::prelude::*;
use crate::registry::{Registry, delivered};
use crate::store::{StoreError, TaskStore};
use crate::task::{Task, TaskState};

verus! {

/// Creates a task and broadcasts it to every registered sink.
pub fn create_task(
    store: &mut TaskStore,
    registry: &mut Registry,
    title: String,
    description: String,
) -> (r: Task)
    requires
        old(store).wf(),
        old(store)@.can_create(),
        old(registry).wf(),
    ensures
        final(store).wf(),
        final(store)@ == old(store)@.after_create(title@, description@),
        r@ == old(store)@.created(title@, description@),
        final(registry).wf(),
        final(registry)@ == delivered(old(registry)@, old(registry).capacity(), r@),
        final(registry).capacity() == old(registry).capacity(),
{
    let task = store.create(title, description);
    registry.broadcast(&task);
    task
}

/// Sets the state of a task and, when that succeeds, broadcasts the updated
/// task to every registered sink. A failed update broadcasts nothing.
pub fn update_task_state(
    store: &mut TaskStore,
    registry: &mut Registry,
    id: u128,
    state: TaskState,
) -> (r: Result<Task, StoreError>)
    requires
        old(store).wf(),
        old(registry).wf(),
    ensures
        final(store).wf(),
        final(store)@ == old(store)@.after_update(id, state),
        r is Err <==> !old(store)@.has_id(id),
        r is Err ==> r == Err::<Task, StoreError>(StoreError::NotFound(id)),
        forall|i: int|
            0 <= i < old(store)@.tasks.len() && #[trigger] old(store)@.tasks[i].id == id
                ==> (r matches Ok(t) && t@ == old(store)@.tasks[i].with_state(state)),
        final(registry).wf(),
        final(registry).capacity() == old(registry).capacity(),
        r matches Ok(t) ==> final(registry)@ == delivered(
            old(registry)@,
            old(registry).capacity(),
            t@,
        ),
        r is Err ==> final(registry)@ == old(registry)@,
{
    let r = store.update_state(id, state);
    match &r {
        Ok(task) => registry.broadcast(task),
        Err(_) => {},
    }
    r
}

} // verus!
