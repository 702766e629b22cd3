//! Scoped OAuth2 token lifecycle management.
//!
//! The crate keeps one credential per authorization scope, detects expiry,
//! validates the upstream authorization server's responses, and decides when
//! a refresh must run so that at most one is in flight per scope while a
//! usable refresh token is never lost.

pub mod config;
pub mod coordinator;
pub mod error;
pub mod invoice;
pub mod query;
pub mod secret;
pub mod store;
pub mod strings;
pub mod token;
pub mod upstream;
