//! Endpoint-protection agent library.
//!
//! The core component is the quarantine engine: it isolates files judged
//! dangerous into an engine-owned isolation directory, records every
//! containment durably in an append-only store, and keeps its in-memory
//! working set consistent with that store across restarts.

use vstd::prelude::*;

pub mod args_parser;
pub mod clock;
pub mod file_scanner;
pub mod process_behaviors_analyzer;
pub mod quarantine;
pub mod scan_args;
pub mod store;
pub mod unauthorized_changes_scanner;

verus! {

/// Errors surfaced by the agent's verified components.
///
/// `Config` is fatal to engine construction, `Isolation` reports a
/// per-record containment failure, and `Persistence` reports a failed
/// durable-store read or write.
#[derive(Debug)]
pub enum QuarantineError {
    Config { message: String },
    Isolation { path: String, message: String },
    Persistence { message: String },
}

impl QuarantineError {
    /// A human-readable description of the error.
    pub fn message(&self) -> (r: String)
        ensures
            match self {
                QuarantineError::Config { message } => r@ == message@,
                QuarantineError::Isolation { message, .. } => r@ == message@,
                QuarantineError::Persistence { message } => r@ == message@,
            },
    {
        match self {
            QuarantineError::Config { message } => message.clone(),
            QuarantineError::Isolation { message, .. } => message.clone(),
            QuarantineError::Persistence { message } => message.clone(),
        }
    }
}

} // verus!
