use std::sync::Arc;
use tasko::registry::Registry;
use tasko::session::{start_session, Inbound, Outbound, Session, SessionState};
use tasko::shared::SharedTasks;
use tasko::store::{StoreError, TaskStore};
use tasko::task::TaskState;

#[test]
fn session_lifecycle_registers_and_unregisters_once() {
    let mut registry = Registry::new(4);
    let mut session = Session::new(11);
    assert_eq!(session.state(), SessionState::Connecting);
    assert!(!registry.is_registered(11));
    session.open(&mut registry);
    assert_eq!(session.state(), SessionState::Open);
    assert!(registry.is_registered(11));
    session.close(&mut registry);
    assert_eq!(session.state(), SessionState::Closed);
    assert!(!registry.is_registered(11));
    session.close(&mut registry);
    assert_eq!(session.state(), SessionState::Closed);
    session.open(&mut registry);
    assert_eq!(session.state(), SessionState::Closed);
    assert!(!registry.is_registered(11));
}

#[test]
fn session_answers_frames() {
    let mut registry = Registry::new(4);
    let mut session = Session::new(3);
    assert_eq!(session.on_frame(Inbound::Ping(vec![1]), &mut registry), Outbound::Nothing);
    session.open(&mut registry);
    assert_eq!(session.on_frame(Inbound::Ping(vec![1, 2]), &mut registry), Outbound::Pong(vec![1, 2]));
    assert_eq!(session.on_frame(Inbound::Pong(vec![9]), &mut registry), Outbound::Nothing);
    assert_eq!(session.on_frame(Inbound::Text("hi".to_string()), &mut registry), Outbound::Nothing);
    assert_eq!(session.on_frame(Inbound::Binary(vec![0]), &mut registry), Outbound::Nothing);
    assert_eq!(session.state(), SessionState::Open);
    assert_eq!(session.on_frame(Inbound::Close, &mut registry), Outbound::Close);
    assert_eq!(session.state(), SessionState::Closed);
    assert!(!registry.is_registered(3));
    assert_eq!(session.on_frame(Inbound::Close, &mut registry), Outbound::Nothing);
}

#[test]
fn transport_error_closes_session() {
    let mut registry = Registry::new(4);
    let mut session = Session::new(4);
    session.open(&mut registry);
    assert_eq!(session.on_frame(Inbound::TransportError, &mut registry), Outbound::Nothing);
    assert_eq!(session.state(), SessionState::Closed);
    assert!(!registry.is_registered(4));
}

#[test]
fn started_sessions_get_distinct_identities() {
    let mut registry = Registry::new(4);
    let a = start_session(&mut registry);
    let b = start_session(&mut registry);
    assert_eq!(a.state(), SessionState::Open);
    assert_ne!(a.identity(), b.identity());
    assert!(registry.is_registered(a.identity()));
    assert!(registry.is_registered(b.identity()));
}

#[test]
fn closed_session_gets_no_outgoing() {
    let mut registry = Registry::new(4);
    let mut session = Session::new(6);
    session.open(&mut registry);
    session.close(&mut registry);
    assert!(session.outgoing(&mut registry).is_empty());
}

#[test]
fn shared_session_receives_writes_in_order() {
    let shared = SharedTasks::new(TaskStore::new(), Registry::new(16));
    let mut session = shared.start_session();
    let t = shared.create("T1".to_string(), "d".to_string());
    let done = shared.update_state(t.id, TaskState::Done).unwrap();
    assert_eq!(done.id, t.id);
    let got: Vec<(u128, TaskState)> = shared.outgoing(&mut session).iter().map(|x| (x.id, x.state)).collect();
    assert_eq!(got, vec![(t.id, TaskState::Todo), (t.id, TaskState::Done)]);
    assert_eq!(shared.on_frame(&mut session, Inbound::Close), Outbound::Close);
    shared.create("T2".to_string(), "e".to_string());
    assert!(shared.outgoing(&mut session).is_empty());
    assert_eq!(shared.update_state(1000, TaskState::Done).unwrap_err(), StoreError::NotFound(1000));
}

#[test]
fn hundred_shared_creates_lose_nothing() {
    let shared = Arc::new(SharedTasks::new(TaskStore::new(), Registry::new(256)));
    let mut session = shared.start_session();
    let mut ids: Vec<u128> = Vec::new();
    for n in 0..100 {
        let s = Arc::clone(&shared);
        ids.push(s.create(format!("t{}", n), String::new()).id);
    }
    ids.sort();
    ids.dedup();
    assert_eq!(ids.len(), 100);
    let listed = shared.list();
    assert_eq!(listed.len(), 100);
    let mut listed_ids: Vec<u128> = listed.iter().map(|t| t.id).collect();
    listed_ids.dedup();
    assert_eq!(listed_ids.len(), 100);
    assert!(listed.iter().all(|t| t.state == TaskState::Todo));
    assert_eq!(shared.outgoing(&mut session).len(), 100);
}

#[test]
fn session_dropped_for_full_outbox_closes_on_outgoing() {
    let mut store = TaskStore::new();
    let mut registry = Registry::new(1);
    let mut session = Session::new(8);
    session.open(&mut registry);
    tasko::fanout::create_task(&mut store, &mut registry, "a".to_string(), "b".to_string());
    tasko::fanout::create_task(&mut store, &mut registry, "c".to_string(), "d".to_string());
    assert!(!registry.is_registered(8));
    assert_eq!(session.state(), SessionState::Open);
    assert!(session.outgoing(&mut registry).is_empty());
    assert_eq!(session.state(), SessionState::Closed);
}

#[test]
fn open_session_forwards_pending_and_stays_open() {
    let mut store = TaskStore::new();
    let mut registry = Registry::new(4);
    let mut session = Session::new(12);
    session.open(&mut registry);
    let t = tasko::fanout::create_task(&mut store, &mut registry, "a".to_string(), "b".to_string());
    let got = session.outgoing(&mut registry);
    assert_eq!(got.len(), 1);
    assert_eq!(got[0].id, t.id);
    assert_eq!(session.state(), SessionState::Open);
    assert!(session.outgoing(&mut registry).is_empty());
}

#[test]
fn hundred_creates_on_seeded_store_keep_old_tasks() {
    let shared = SharedTasks::new(TaskStore::seeded(), Registry::new(4));
    let before: Vec<(u128, TaskState)> = shared.list().iter().map(|t| (t.id, t.state)).collect();
    let mut new_ids: Vec<u128> = Vec::new();
    for n in 0..100 {
        new_ids.push(shared.create(format!("t{}", n), String::new()).id);
    }
    let listed = shared.list();
    assert_eq!(listed.len(), 103);
    let head: Vec<(u128, TaskState)> = listed[..3].iter().map(|t| (t.id, t.state)).collect();
    assert_eq!(head, before);
    let tail: Vec<u128> = listed[3..].iter().map(|t| t.id).collect();
    assert_eq!(tail, new_ids);
    assert!(new_ids.iter().all(|id| before.iter().all(|(old, _)| old != id)));
    new_ids.dedup();
    assert_eq!(new_ids.len(), 100);
}
