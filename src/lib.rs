//! A task store whose every mutation is fanned out to live-update subscribers.
pub mod task;
pub mod store;
pub mod registry;
pub mod fanout;
pub mod session;
pub mod laws;
pub mod board;
pub mod shared;
