//! Verified core of a GitHub dashboard companion: a local cache of tracked
//! users and their issues and pull requests, a credential store, and the
//! refresh decision engine that keeps the cache up to date.
//!
//! All decision logic operates on plain values and an in-memory model of the
//! persistent store; the surrounding application performs the actual network
//! and database I/O and feeds the results back into these functions.

mod errors;
mod table;

pub mod bg;
pub mod common;
pub mod config;

pub mod db;
pub mod gh;

pub use errors::GHDError;
