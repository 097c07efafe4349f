//! Selection of scan candidates among discovered files.
//!
//! Walking the directory tree and invoking the classifier are the front
//! end's part; the scanner holds the scan configuration and decides which
//! file names are candidates.

use vstd::prelude::*;

use crate::process_behaviors_analyzer::eq_ignore_ascii;
use crate::process_behaviors_analyzer::eq_ignore_ascii_case_str;
use crate::quarantine::base_name;
use crate::quarantine::base_of;
use crate::scan_args::{Args, Commands};

verus! {

/// How eagerly findings are acted on.
#[derive(Debug, Clone, Copy, PartialEq, Eq, Structural)]
pub enum Aggressiveness {
    Chill,
    Cautious,
    Normal,
    Aggressive,
    Hardcore,
}

/// The level a piece of text selects, compared without regard to ASCII
/// case: a digit or the level's name.
pub open spec fn aggressiveness_of(s: Seq<char>) -> Option<Aggressiveness> {
    if eq_ignore_ascii(s, "0"@) || eq_ignore_ascii(s, "chill"@) {
        Some(Aggressiveness::Chill)
    } else if eq_ignore_ascii(s, "1"@) || eq_ignore_ascii(s, "cautious"@) {
        Some(Aggressiveness::Cautious)
    } else if eq_ignore_ascii(s, "2"@) || eq_ignore_ascii(s, "normal"@) {
        Some(Aggressiveness::Normal)
    } else if eq_ignore_ascii(s, "3"@) || eq_ignore_ascii(s, "aggressive"@) {
        Some(Aggressiveness::Aggressive)
    } else if eq_ignore_ascii(s, "4"@) || eq_ignore_ascii(s, "hardcore"@) {
        Some(Aggressiveness::Hardcore)
    } else {
        None
    }
}

impl Aggressiveness {
    /// Parses a level from text; unknown text is rejected with a message
    /// that repeats it.
    pub fn parse_text(s: &str) -> (r: Result<Aggressiveness, String>)
        ensures
            r matches Ok(a) ==> aggressiveness_of(s@) == Some(a),
            r matches Err(m) ==> aggressiveness_of(s@) is None && m@ == "Invalid aggressiveness: "@
                + s@ + ". Use 0-4 or [chill, cautious, normal, aggressive, hardcore]"@,
    {
        if eq_ignore_ascii_case_str(s, "0") || eq_ignore_ascii_case_str(s, "chill") {
            Ok(Aggressiveness::Chill)
        } else if eq_ignore_ascii_case_str(s, "1") || eq_ignore_ascii_case_str(s, "cautious") {
            Ok(Aggressiveness::Cautious)
        } else if eq_ignore_ascii_case_str(s, "2") || eq_ignore_ascii_case_str(s, "normal") {
            Ok(Aggressiveness::Normal)
        } else if eq_ignore_ascii_case_str(s, "3") || eq_ignore_ascii_case_str(s, "aggressive") {
            Ok(Aggressiveness::Aggressive)
        } else if eq_ignore_ascii_case_str(s, "4") || eq_ignore_ascii_case_str(s, "hardcore") {
            Ok(Aggressiveness::Hardcore)
        } else {
            let mut m = String::from_str("Invalid aggressiveness: ");
            m.append(s);
            m.append(". Use 0-4 or [chill, cautious, normal, aggressive, hardcore]");
            Err(m)
        }
    }
}

impl core::str::FromStr for Aggressiveness {
    type Err = String;

    fn from_str(s: &str) -> Result<Aggressiveness, String> {
        Aggressiveness::parse_text(s)
    }
}

/// A colour-vision deficiency the front end adapts its output to.
#[derive(Debug, Clone, Copy, PartialEq, Eq, Structural)]
pub enum Colorblindness {
    Protanopia,
}

/// The deficiency a piece of text selects, compared without regard to
/// ASCII case: a digit or the deficiency's name.
pub open spec fn colorblindness_of(s: Seq<char>) -> Option<Colorblindness> {
    if eq_ignore_ascii(s, "0"@) || eq_ignore_ascii(s, "protanopia"@) {
        Some(Colorblindness::Protanopia)
    } else {
        None
    }
}

impl Colorblindness {
    /// Parses a deficiency from text; unknown text is rejected with a
    /// message that repeats it.
    pub fn parse_text(s: &str) -> (r: Result<Colorblindness, String>)
        ensures
            r matches Ok(c) ==> colorblindness_of(s@) == Some(c),
            r matches Err(m) ==> colorblindness_of(s@) is None && m@ == "Invalid colorblindness: "@
                + s@ + ". Use 0-0 or [protanopia]"@,
    {
        if eq_ignore_ascii_case_str(s, "0") || eq_ignore_ascii_case_str(s, "protanopia") {
            Ok(Colorblindness::Protanopia)
        } else {
            let mut m = String::from_str("Invalid colorblindness: ");
            m.append(s);
            m.append(". Use 0-0 or [protanopia]");
            Err(m)
        }
    }
}

impl core::str::FromStr for Colorblindness {
    type Err = String;

    fn from_str(s: &str) -> Result<Colorblindness, String> {
        Colorblindness::parse_text(s)
    }
}

/// The scan subcommand's settings.
pub enum FileCommands {
    Scan {
        response_aggressiveness: Aggressiveness,
        safety_aggressiveness: Aggressiveness,
        colorblindness: Option<Colorblindness>,
    },
}

/// A scan candidate: a file whose base name ends in the executable
/// extension.
pub open spec fn is_exe_name(p: Seq<char>) -> bool {
    base_of(p).len() > 4 && base_of(p).skip(base_of(p).len() - 4) == seq!['.', 'e', 'x', 'e']
}

/// Decides whether a discovered file is handed to the classifier.
pub fn is_scan_candidate(path: &String) -> (r: bool)
    ensures
        r == is_exe_name(path@),
{
    let base = base_name(path);
    let s = base.as_str();
    let n = s.unicode_len();
    if n <= 4 {
        return false;
    }
    let r = s.get_char(n - 4) == '.' && s.get_char(n - 3) == 'e' && s.get_char(n - 2) == 'x'
        && s.get_char(n - 1) == 'e';
    proof {
        if r {
            assert(base_of(path@).skip(base_of(path@).len() - 4) =~= seq!['.', 'e', 'x', 'e']);
        } else {
            assert(base_of(path@).skip(base_of(path@).len() - 4) !~= seq!['.', 'e', 'x', 'e']);
        }
    }
    r
}

/// Walks a directory tree for suspicious executables.  The walk itself and
/// the classifier run outside; the scanner carries the settings and the
/// root.
pub struct FileScanner {
    args: Args,
    file: String,
    response_aggressiveness: Aggressiveness,
    safety_aggressiveness: Aggressiveness,
}

impl FileScanner {
    /// The root the scan starts from.
    pub closed spec fn scan_root(&self) -> Seq<char> {
        self.file@
    }

    pub closed spec fn response_level(&self) -> Aggressiveness {
        self.response_aggressiveness
    }

    pub closed spec fn safety_level(&self) -> Aggressiveness {
        self.safety_aggressiveness
    }

    /// A scanner for the parsed arguments: the scan starts from the
    /// requested file, or from the fallback directory when none was
    /// given.  Both response levels start at their default.
    pub fn new(args: Args, fallback_dir: String) -> (r: FileScanner)
        requires
            args.command is Some,
        ensures
            r.scan_root() == match args.command {
                Some(Commands::ScanFile { file: Some(f), .. }) => f@,
                _ => fallback_dir@,
            },
            r.response_level() == Aggressiveness::Normal,
            r.safety_level() == Aggressiveness::Normal,
    {
        let file = match &args.command {
            Some(Commands::ScanFile { file: Some(f), .. }) => f.clone(),
            _ => fallback_dir,
        };
        FileScanner {
            args,
            file,
            response_aggressiveness: Aggressiveness::Normal,
            safety_aggressiveness: Aggressiveness::Normal,
        }
    }

    /// The root the scan starts from.
    pub fn scanned_root(&self) -> (r: &String)
        ensures
            r@ == self.scan_root(),
    {
        &self.file
    }
}

} // verus!
