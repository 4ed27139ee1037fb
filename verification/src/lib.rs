//! An authenticated streaming-relay gateway.
//!
//! The library covers the three core pieces of the gateway: the token
//! service (issuing and validating signed, time-bounded session tokens),
//! the request-authentication gate (bearer header, structured cookie and
//! raw cookie fallback), and the stream bridge (turning an upstream
//! incremental response into an ordered outward event sequence that always
//! ends in a terminal marker). Transport plumbing (HTTP routing, the
//! upstream client, environment loading) lives outside the library.

pub mod api;
pub mod auth;
pub mod config;
pub mod error;
pub mod models;
pub mod openai;
pub mod stream;
pub mod strutil;
