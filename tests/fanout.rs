use tasko::fanout::{create_task, update_task_state};
use tasko::registry::Registry;
use tasko::store::{StoreError, TaskStore};
use tasko::task::{Task, TaskState};

fn states(tasks: &[Task]) -> Vec<(u128, TaskState)> {
    tasks.iter().map(|t| (t.id, t.state)).collect()
}

#[test]
fn sink_receives_create_then_update_in_order() {
    let mut store = TaskStore::new();
    let mut registry = Registry::new(8);
    registry.register(1);
    let t = create_task(&mut store, &mut registry, "T1".to_string(), "d".to_string());
    update_task_state(&mut store, &mut registry, t.id, TaskState::Done).unwrap();
    let got = registry.take_pending(1);
    assert_eq!(states(&got), vec![(t.id, TaskState::Todo), (t.id, TaskState::Done)]);
    assert_eq!(got[0].title, "T1");
    assert_eq!(got[1].title, "T1");
    assert!(registry.take_pending(1).is_empty());
}

#[test]
fn unregistered_sink_misses_later_writes() {
    let mut store = TaskStore::new();
    let mut registry = Registry::new(8);
    registry.register(1);
    registry.register(2);
    registry.unregister(2);
    create_task(&mut store, &mut registry, "a".to_string(), "b".to_string());
    assert!(!registry.is_registered(2));
    assert!(registry.take_pending(2).is_empty());
    assert_eq!(registry.take_pending(1).len(), 1);
}

#[test]
fn sink_registered_after_write_misses_it() {
    let mut store = TaskStore::new();
    let mut registry = Registry::new(8);
    create_task(&mut store, &mut registry, "a".to_string(), "b".to_string());
    registry.register(3);
    assert!(registry.take_pending(3).is_empty());
    let t = create_task(&mut store, &mut registry, "c".to_string(), "d".to_string());
    assert_eq!(states(&registry.take_pending(3)), vec![(t.id, TaskState::Todo)]);
}

#[test]
fn full_sink_is_dropped_and_healthy_sink_still_served() {
    let mut store = TaskStore::new();
    let mut registry = Registry::new(1);
    registry.register(10);
    registry.register(20);
    let first = create_task(&mut store, &mut registry, "a".to_string(), "b".to_string());
    assert_eq!(states(&registry.take_pending(20)), vec![(first.id, TaskState::Todo)]);
    let second = create_task(&mut store, &mut registry, "c".to_string(), "d".to_string());
    assert!(!registry.is_registered(10));
    assert!(registry.is_registered(20));
    assert_eq!(states(&registry.take_pending(20)), vec![(second.id, TaskState::Todo)]);
}

#[test]
fn failed_update_broadcasts_nothing() {
    let mut store = TaskStore::new();
    let mut registry = Registry::new(4);
    registry.register(5);
    let r = update_task_state(&mut store, &mut registry, 42, TaskState::Done);
    assert_eq!(r.unwrap_err(), StoreError::NotFound(42));
    assert!(registry.take_pending(5).is_empty());
    assert!(registry.is_registered(5));
}

#[test]
fn register_twice_keeps_one_entry_and_clears_outbox() {
    let mut store = TaskStore::new();
    let mut registry = Registry::new(4);
    registry.register(9);
    create_task(&mut store, &mut registry, "a".to_string(), "b".to_string());
    registry.register(9);
    assert_eq!(registry.identities(), vec![9]);
    assert!(registry.take_pending(9).is_empty());
}

#[test]
fn unregister_is_idempotent() {
    let mut registry = Registry::new(4);
    registry.register(1);
    registry.register(2);
    registry.unregister(1);
    registry.unregister(1);
    registry.unregister(77);
    assert_eq!(registry.identities(), vec![2]);
    assert_eq!(registry.outbox_capacity(), 4);
}
