//! Versioned configuration of cluster resources.
//!
//! A resource is a named, typed entity. Its configuration is never edited in
//! place: every change is a new, immutable version. The crate holds the two
//! tables (identities and versions), the repositories over them, and the
//! lifecycle operations that keep the two consistent.

pub mod client;
pub mod error;
pub mod laws;
pub mod model;
pub mod models;
pub mod name_map;
pub mod repositories;
pub mod services;
pub mod store;
pub mod utils;
