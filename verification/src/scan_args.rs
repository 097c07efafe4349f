//! Command-line surface of the stand-alone scanner front end.
//!
//! These are the bare data types the library works with; the front end
//! owns the parsing and converts into them.

use vstd::prelude::*;

use crate::file_scanner::FileCommands;

verus! {

/// The scanner front end's arguments.
pub struct Args {
    pub command: Option<Commands>,
}

/// The scanner front end's commands.
pub enum Commands {
    ScanFile { file: Option<String>, scan: Option<FileCommands> },
}

} // verus!
