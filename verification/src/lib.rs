//! Core of a self-hosted temporary file-sharing service.
//!
//! Users upload files, receive random identifiers, and authenticate either
//! with an email/password pair or with a bearer API token.  This crate holds
//! the parts with real invariants: secret hashing and verification, the
//! credential verification engine, the token lifecycle, the identifier
//! allocator, and the expiry-driven reclamation pass.  HTTP wiring,
//! templating, configuration loading and the real persistence and storage
//! collaborators live outside; the engine here works on plain records and
//! states exactly what it does to them.

pub mod config;
pub mod errors;
pub mod files;
pub mod garbage_collector;
pub mod hashing;
pub mod rng;
pub mod seqs;
pub mod store;
pub mod text;
pub mod token;
pub mod user;
