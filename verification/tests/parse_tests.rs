use sentinel::file_scanner::{
    is_scan_candidate, Aggressiveness, Colorblindness, FileScanner,
};
use sentinel::process_behaviors_analyzer::ProcessBehaviorsAnalyzer;
use sentinel::scan_args::{Args, Commands};

#[test]
fn aggressiveness_accepts_names_and_digits() {
    assert_eq!(
        Aggressiveness::parse_text("chill").unwrap(),
        Aggressiveness::Chill
    );
    assert_eq!(
        Aggressiveness::parse_text("1").unwrap(),
        Aggressiveness::Cautious
    );
    assert_eq!(
        Aggressiveness::parse_text("NORMAL").unwrap(),
        Aggressiveness::Normal
    );
    assert_eq!(
        Aggressiveness::parse_text("Aggressive").unwrap(),
        Aggressiveness::Aggressive
    );
    assert_eq!(
        Aggressiveness::parse_text("4").unwrap(),
        Aggressiveness::Hardcore
    );
}

#[test]
fn aggressiveness_rejects_unknown_text() {
    let err = Aggressiveness::parse_text("nope").unwrap_err();
    assert_eq!(
        err,
        "Invalid aggressiveness: nope. Use 0-4 or [chill, cautious, normal, aggressive, hardcore]"
    );
}

#[test]
fn aggressiveness_parses_through_from_str() {
    let level: Aggressiveness = "hardcore".parse().unwrap();
    assert_eq!(level, Aggressiveness::Hardcore);
    assert!("5".parse::<Aggressiveness>().is_err());
}

#[test]
fn colorblindness_accepts_name_and_digit() {
    assert_eq!(
        Colorblindness::parse_text("Protanopia").unwrap(),
        Colorblindness::Protanopia
    );
    assert_eq!(
        Colorblindness::parse_text("0").unwrap(),
        Colorblindness::Protanopia
    );
    let err = Colorblindness::parse_text("1").unwrap_err();
    assert_eq!(err, "Invalid colorblindness: 1. Use 0-0 or [protanopia]");
}

#[test]
fn analyzer_flags_hot_unexempt_processes() {
    let analyzer = ProcessBehaviorsAnalyzer::new();
    // 100 ticks on a 100 tick/s clock over one second: the whole CPU.
    assert!(analyzer.should_flag("rogue", 100, 100));
    // Exactly the alert share counts.
    assert!(analyzer.should_flag("rogue", 20, 100));
    assert!(!analyzer.should_flag("rogue", 19, 100));
    // A clock that reports no ticks cannot flag anything.
    assert!(!analyzer.should_flag("rogue", 100, 0));
}

#[test]
fn analyzer_exempts_known_names_case_insensitively() {
    let analyzer = ProcessBehaviorsAnalyzer::new();
    assert!(analyzer.is_exception("electron"));
    assert!(analyzer.is_exception("ELECTRON"));
    assert!(!analyzer.is_exception("electrons"));
    assert!(!analyzer.should_flag("Electron", 100, 100));
}

#[test]
fn scan_candidates_end_in_the_executable_extension() {
    assert!(is_scan_candidate(&"/a/b/tool.exe".to_string()));
    assert!(is_scan_candidate(&"prog.exe".to_string()));
    assert!(!is_scan_candidate(&"/a/b/tool.txt".to_string()));
    assert!(!is_scan_candidate(&"/a/b/.exe".to_string()));
    assert!(!is_scan_candidate(&"/a/b/tool.EXE".to_string()));
    assert!(!is_scan_candidate(&"/a/exe".to_string()));
}

#[test]
fn file_scanner_takes_the_requested_root() {
    let args = Args {
        command: Some(Commands::ScanFile {
            file: Some("/scan/here".to_string()),
            scan: None,
        }),
    };
    let scanner = FileScanner::new(args, "/home/fallback".to_string());
    assert_eq!(scanner.scanned_root(), "/scan/here");
}

#[test]
fn file_scanner_falls_back_to_the_default_root() {
    let args = Args {
        command: Some(Commands::ScanFile {
            file: None,
            scan: None,
        }),
    };
    let scanner = FileScanner::new(args, "/home/fallback".to_string());
    assert_eq!(scanner.scanned_root(), "/home/fallback");
}
