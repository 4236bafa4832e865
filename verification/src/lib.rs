//! The identity, permission and session core of a music catalog service.
//!
//! Principals hold permissions from a closed registry. They are created once at
//! bootstrap or by redeeming an invite, log in for opaque tokens, and may hand on
//! only what they hold themselves. The modules, leaves first:
//!
//! - [`text`]: character-level helpers for names and lists;
//! - [`permission`]: the registry, its canonical names, and the stored form of a set;
//! - [`gate`]: the authorization gate, a pure decision over permission sets;
//! - [`error`]: the failures and the statuses they answer with;
//! - [`credential`]: password digests and tokens, made by outside primitives;
//! - [`user`], [`invite`]: principals and invites as requests carry them;
//! - [`rules`]: every decision of the service as a function of what was read;
//! - [`model`], [`laws`]: the state as mathematics, and what always holds of it;
//! - [`table`], [`store`]: the state in memory, with its operations;
//! - [`sql`], [`search`], [`endpoints`]: the same operations against a relational
//!   store, as statements to run inside one transaction;
//! - [`docs`]: the description of the API in the formats on offer.

pub mod credential;
pub mod docs;
pub mod endpoints;
pub mod error;
pub mod gate;
pub mod invite;
pub mod laws;
pub mod model;
pub mod permission;
pub mod rules;
pub mod search;
pub mod sql;
pub mod store;
pub mod table;
pub mod text;
pub mod user;
