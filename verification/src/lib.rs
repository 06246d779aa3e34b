//! The credential and session authority of a multi-tenant backend: it
//! authenticates users, issues and revokes opaque session tokens, mints
//! short-lived signed claims for single-purpose flows, and atomically
//! provisions a new tenant (organization, root access level, owner user).
//!
//! The two token schemes are deliberately distinct types with no shared
//! representation: stateful opaque sessions live in the store and are
//! compared by equality; stateless signed claims carry their audience and
//! expiry and are checked by signature.
pub mod claims;
pub mod codec;
pub mod config;
pub mod crypto;
pub mod dto;
pub mod errors;
pub mod extractors;
pub mod laws;
pub mod mailer;
pub mod models;
pub mod permissions;
pub mod responses;
pub mod service;
pub mod session_token;
pub mod store;
