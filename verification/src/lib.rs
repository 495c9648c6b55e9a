//! Client-side logic for a document database over HTTPS: token/session
//! management, wire-format encoding of typed values, request construction
//! for document operations, error classification, and a retry strategy
//! with exponential backoff.
//!
//! Everything here is pure logic on plain values. The surrounding
//! application performs the HTTP calls and sleeps, driven by the state
//! machines and request builders of this crate.

pub mod documents;
pub mod error;
pub mod json;
pub mod numfmt;
pub mod retry;
pub mod session;
pub mod value;
