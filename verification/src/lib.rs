//! Verified core of a multi-backend data-source registry.
//!
//! Configuration records for several database backends (three relational
//! engines and one key-value engine) are turned into connection URIs with
//! percent-encoded credentials, lazily-connecting pools, and a single
//! immutable registry with one resolved default instance per backend kind.

use vstd::prelude::*;

pub mod config;
pub mod conn;
pub mod database;
pub mod error;
pub mod trusted;
pub mod uri;

verus! {

/// A business-level failure code and message carried by application handlers.
#[derive(Debug, Clone, Copy, PartialEq, Eq)]
pub struct BusinessError {
    pub code: u16,
    pub msg: &'static str,
}

} // verus!
