//! What holds of the store and the fan-out across several calls.
use vstd::prelude::*;
use crate::registry::delivered;
use crate::store::StoreView;
use crate::task::{TaskState, TaskView};

verus! {

/// A store with no task that has issued no id, as `TaskStore::new` makes it.
pub open spec fn empty_store() -> StoreView {
    StoreView { tasks: Seq::empty(), next_id: 0 }
}

/// The store after one `create` for each (title, description) pair, in order.
pub open spec fn after_creates(v: StoreView, reqs: Seq<(Seq<char>, Seq<char>)>) -> StoreView
    decreases reqs.len(),
{
    if reqs.len() == 0 {
        v
    } else {
        after_creates(v, reqs.drop_last()).after_create(reqs.last().0, reqs.last().1)
    }
}

/// Any run of creates on a fresh store lists one task per call, in call
/// order, with the given texts, strictly increasing (so distinct) ids, and
/// every task in state `Todo`.
pub proof fn lemma_creates_from_empty(reqs: Seq<(Seq<char>, Seq<char>)>)
    requires
        reqs.len() < u128::MAX,
    ensures
        after_creates(empty_store(), reqs).well_formed(),
        after_creates(empty_store(), reqs).tasks.len() == reqs.len(),
        after_creates(empty_store(), reqs).next_id == reqs.len(),
        forall|i: int, j: int|
            0 <= i < j < reqs.len() ==> #[trigger] after_creates(empty_store(), reqs).tasks[i].id
                < #[trigger] after_creates(empty_store(), reqs).tasks[j].id,
        forall|i: int|
            0 <= i < reqs.len() ==> {
                let t = #[trigger] after_creates(empty_store(), reqs).tasks[i];
                &&& t.state == TaskState::Todo
                &&& t.title == reqs[i].0
                &&& t.description == reqs[i].1
            },
    decreases reqs.len(),
{
    if reqs.len() > 0 {
        let prev = reqs.drop_last();
        lemma_creates_from_empty(prev);
        let v = after_creates(empty_store(), prev);
        let w = after_creates(empty_store(), reqs);
        assert(w == v.after_create(reqs.last().0, reqs.last().1));
        assert forall|i: int| 0 <= i < prev.len() implies #[trigger] w.tasks[i] == v.tasks[i]
            && reqs[i] == prev[i] by {}
    }
}

/// Creates applied one at a time, in whatever order a lock admits parallel
/// callers, to any well-formed store: the old tasks stay as they were, and
/// exactly one new `Todo` task per call follows them, each with its own
/// fresh id, none equal to another task's id.
pub proof fn lemma_creates_extend(v: StoreView, reqs: Seq<(Seq<char>, Seq<char>)>)
    requires
        v.well_formed(),
        v.next_id + reqs.len() <= u128::MAX,
    ensures
        after_creates(v, reqs).well_formed(),
        after_creates(v, reqs).tasks.len() == v.tasks.len() + reqs.len(),
        after_creates(v, reqs).next_id == v.next_id + reqs.len(),
        after_creates(v, reqs).tasks.take(v.tasks.len() as int) == v.tasks,
        forall|i: int|
            0 <= i < reqs.len() ==> #[trigger] after_creates(v, reqs).tasks[v.tasks.len() + i] == (
            TaskView {
                id: (v.next_id + i) as u128,
                title: reqs[i].0,
                description: reqs[i].1,
                state: TaskState::Todo,
            }),
        forall|i: int, j: int|
            0 <= i < j < after_creates(v, reqs).tasks.len() ==> #[trigger] after_creates(
                v,
                reqs,
            ).tasks[i].id != #[trigger] after_creates(v, reqs).tasks[j].id,
    decreases reqs.len(),
{
    if reqs.len() > 0 {
        let prev = reqs.drop_last();
        lemma_creates_extend(v, prev);
        let u = after_creates(v, prev);
        let w = after_creates(v, reqs);
        assert(w == u.after_create(reqs.last().0, reqs.last().1));
        assert forall|i: int| 0 <= i < u.tasks.len() implies #[trigger] w.tasks[i] == u.tasks[i] by {}
        assert(w.tasks.take(v.tasks.len() as int) =~= u.tasks.take(v.tasks.len() as int));
        assert forall|i: int| 0 <= i < reqs.len() implies #[trigger] w.tasks[v.tasks.len() + i] == (
        TaskView {
            id: (v.next_id + i) as u128,
            title: reqs[i].0,
            description: reqs[i].1,
            state: TaskState::Todo,
        }) by {
            if i < prev.len() {
                assert(reqs[i] == prev[i]);
                assert(u.tasks[v.tasks.len() + i] == w.tasks[v.tasks.len() + i]);
            }
        }
    } else {
        assert(v.tasks.take(v.tasks.len() as int) =~= v.tasks);
    }
}

/// A task created and then moved to `state` is listed, at the end, with
/// its id and texts as created and the new state; no other task changes.
pub proof fn lemma_create_then_update(
    v: StoreView,
    title: Seq<char>,
    description: Seq<char>,
    state: TaskState,
)
    requires
        v.well_formed(),
        v.can_create(),
    ensures
        ({
            let w = v.after_create(title, description).after_update(v.next_id, state);
            &&& w.well_formed()
            &&& w.tasks.len() == v.tasks.len() + 1
            &&& w.tasks[v.tasks.len() as int] == (TaskView {
                id: v.next_id,
                title,
                description,
                state,
            })
            &&& forall|i: int| 0 <= i < v.tasks.len() ==> #[trigger] w.tasks[i] == v.tasks[i]
        }),
{
    let u = v.after_create(title, description);
    let w = u.after_update(v.next_id, state);
    assert forall|i: int| 0 <= i < v.tasks.len() implies #[trigger] w.tasks[i] == v.tasks[i] by {
        assert(u.tasks[i] == v.tasks[i]);
    }
}

/// An update naming an id that no task has leaves the store as it was.
pub proof fn lemma_update_unknown_id(v: StoreView, id: u128, state: TaskState)
    requires
        !v.has_id(id),
    ensures
        v.after_update(id, state) == v,
{
    assert(v.after_update(id, state).tasks =~= v.tasks);
}

/// A sink registered before a create and an update of the created task to
/// `Done` gets exactly those two broadcasts, in that order: the task in
/// state `Todo`, then the same id in state `Done`.
pub proof fn lemma_sink_sees_writes_in_order(
    v: StoreView,
    m: Map<u128, Seq<TaskView>>,
    capacity: nat,
    sink: u128,
    title: Seq<char>,
    description: Seq<char>,
)
    requires
        v.well_formed(),
        v.can_create(),
        m.contains_key(sink),
        m[sink].len() + 2 <= capacity,
    ensures
        ({
            let first = v.created(title, description);
            let u = v.after_create(title, description);
            let second = u.tasks[v.tasks.len() as int].with_state(TaskState::Done);
            let after = delivered(delivered(m, capacity, first), capacity, second);
            &&& first.state == TaskState::Todo
            &&& second.id == first.id
            &&& second.state == TaskState::Done
            &&& u.tasks[v.tasks.len() as int].id == first.id
            &&& after.contains_key(sink)
            &&& after[sink] == m[sink].push(first).push(second)
        }),
{
}

/// A sink that is not registered when a task is broadcast does not get it:
/// neither one that unregistered before, nor one that registers after.
pub proof fn lemma_absent_sink_misses_broadcast(
    m: Map<u128, Seq<TaskView>>,
    capacity: nat,
    t: TaskView,
    sink: u128,
)
    ensures
        !delivered(m.remove(sink), capacity, t).contains_key(sink),
        delivered(m, capacity, t).insert(sink, Seq::empty())[sink] == Seq::<TaskView>::empty(),
{
}

/// A sink whose outbox is full is dropped by a broadcast, and that takes
/// nothing from any sink with room: it gets the task all the same.
pub proof fn lemma_slow_sink_is_isolated(
    m: Map<u128, Seq<TaskView>>,
    capacity: nat,
    t: TaskView,
    slow: u128,
    healthy: u128,
)
    requires
        m.contains_key(slow),
        m[slow].len() >= capacity,
        m.contains_key(healthy),
        m[healthy].len() < capacity,
    ensures
        !delivered(m, capacity, t).contains_key(slow),
        delivered(m, capacity, t).contains_key(healthy),
        delivered(m, capacity, t)[healthy] == m[healthy].push(t),
{
}

} // verus!
