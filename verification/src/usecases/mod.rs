//! The use cases: what a caller can ask of the directory.

pub mod entries;
pub mod tags;
pub mod events;
pub mod update_event;
pub mod users;
pub mod subscriptions;
