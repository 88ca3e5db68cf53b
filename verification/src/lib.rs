//! References, the skills attached to them, and the tokens that guard them.
//!
//! A reference is a record with a name, stored under a key that is derived
//! from the name; a skill is a name in a shared catalog; a reference has a
//! list of the skills attached to it. This crate holds the rules of a
//! service that keeps both in a relational store, and proves them.
//!
//! - `key` derives the key of a reference from its name.
//! - `skills` changes a list of skills and writes it as the text that is
//!   stored.
//! - `search` finds the skills of the catalog that are close to a term.
//! - `query` names the statements that the store carries out and the
//!   answers it gives; `refs` holds the handlers, which say statement by
//!   statement what is asked of the store and what the caller is told.
//! - `auth` decides what a token claims and what claims allow.
//! - `outcome` names the failures and their status codes.
//! - `registry` says, over what the store holds as a mathematical value,
//!   what each operation of the service does; `laws` proves what follows.
//! - `tables` says how the store answers each statement; `memory` is a
//!   store in memory, on which the handlers are shown to do what `registry`
//!   says; `session` shows that what a handler writes in a transaction
//!   lasts as a whole or not at all; `together` shows that a skill which
//!   one caller deletes while another attaches it stays deleted, and that
//!   of two skills attached at once neither is lost.

pub mod auth;
pub mod key;
pub mod laws;
pub mod memory;
pub mod outcome;
pub mod query;
pub mod refs;
pub mod registry;
pub mod search;
pub mod session;
pub mod skills;
pub mod tables;
pub mod together;
