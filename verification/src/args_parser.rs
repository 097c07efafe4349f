//! Command-line surface of the agent.
//!
//! These are the bare data types the library works with; the agent front
//! door owns the parsing and converts into them.

use vstd::prelude::*;

use crate::file_scanner::FileCommands;
use crate::quarantine::ViewMode;

verus! {

/// The agent's arguments.
pub struct Args {
    pub command: Option<Commands>,
}

/// The agent's commands: scan a directory for suspicious executables,
/// watch a sensitive file for tampering, watch process behaviour, or
/// contain a file.
pub enum Commands {
    ScanDir { dir: Option<String>, show_pred: bool, scan: Option<FileCommands> },
    CheckUnauthorizedChanges { path: Option<String> },
    AnalyzeProcessBehaviors,
    Quarantine { file: Option<String>, view: bool, view_mode: Option<ViewMode> },
}

} // verus!
