//! A directory of places annotated with tags, kept behind a storage boundary.
//!
//! The heart of the crate is the relation engine: tags are attached to entries
//! as subject-predicate-object triples, a desired tag list is turned into the
//! smallest list of creations and deletions, tags that are referred to are
//! brought into being on demand, and updates of versioned entries are accepted
//! only when the writer has seen the version that it replaces.
//!
//! - [`entities`] and [`relation`] hold the records and the triples, each
//!   with the view that the contracts speak of; [`identity`] gives every
//!   record its identity.
//! - [`store`] is the model of a storage, [`db`] the boundary that a storage
//!   implements, and [`mock_db`] a storage in memory.
//! - [`diff`], [`tagging`] and [`reconcile`] are the relation engine.
//! - [`usecases`] holds what callers ask for: entries, events, accounts,
//!   subscriptions and tags.
//! - [`text`] reads identities and hash tags out of text, and [`notify`]
//!   decides what subscribers are told.
//! - [`outside`] holds what is taken on trust from other crates.

pub mod db;
pub mod diff;
pub mod entities;
pub mod error;
pub mod identity;
pub mod mock_db;
pub mod notify;
pub mod outside;
pub mod reconcile;
pub mod relation;
pub mod sequences;
pub mod store;
pub mod tagging;
pub mod text;
pub mod usecases;
