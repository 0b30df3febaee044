//! Authentication and session-protection core for a small cookie-guarded
//! chat service.
//!
//! The crate covers the pieces with real protocol and state content:
//! password hashing and verification with a site-wide pepper, issuance and
//! verification of an authenticated-encrypted CSRF token/cookie pair, the
//! credential store holding users and their (at most one) live session,
//! the login/signup/authorize orchestration over those parts, and the
//! broadcast hub that fans chat messages out to connected clients.
//! HTTP routing, template rendering and the actual socket plumbing live
//! outside, around this library.

pub mod errors;
pub mod hasher;
pub mod hub;
pub mod manager;
pub mod store;
pub mod token;
