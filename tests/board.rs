use tasko::board::{columns, merge_update, tasks_in_state};
use tasko::task::{Task, TaskState};

fn task(id: u128, state: TaskState) -> Task {
    Task { id, title: format!("t{}", id), description: String::new(), state }
}

#[test]
fn columns_split_by_state_keeping_order() {
    let tasks = vec![
        task(1, TaskState::Done),
        task(2, TaskState::Todo),
        task(3, TaskState::InProgress),
        task(4, TaskState::Todo),
    ];
    let (todo, doing, done) = columns(&tasks);
    assert_eq!(todo.iter().map(|t| t.id).collect::<Vec<_>>(), vec![2, 4]);
    assert_eq!(doing.iter().map(|t| t.id).collect::<Vec<_>>(), vec![3]);
    assert_eq!(done.iter().map(|t| t.id).collect::<Vec<_>>(), vec![1]);
    assert_eq!(todo[1].title, "t4");
}

#[test]
fn empty_list_gives_empty_column() {
    assert!(tasks_in_state(&Vec::new(), TaskState::Todo).is_empty());
}

#[test]
fn merge_update_replaces_task_with_same_id() {
    let mut tasks = vec![task(1, TaskState::Todo), task(2, TaskState::Todo)];
    merge_update(&mut tasks, task(2, TaskState::Done));
    assert_eq!(tasks.len(), 2);
    assert_eq!(tasks[1].state, TaskState::Done);
    assert_eq!(tasks[0].state, TaskState::Todo);
}

#[test]
fn merge_update_appends_new_task() {
    let mut tasks = vec![task(1, TaskState::Todo)];
    merge_update(&mut tasks, task(5, TaskState::InProgress));
    assert_eq!(tasks.iter().map(|t| (t.id, t.state)).collect::<Vec<_>>(), vec![(1, TaskState::Todo), (5, TaskState::InProgress)]);
}
