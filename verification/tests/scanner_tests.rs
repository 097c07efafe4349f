use sentinel::unauthorized_changes_scanner::{hash_contents, UnauthorizedChangesScanner};
use sentinel::QuarantineError;

fn checks_conn() -> rusqlite::Connection {
    let conn = rusqlite::Connection::open_in_memory().unwrap();
    conn.execute(
        "CREATE TABLE IF NOT EXISTS passwd_checks (
            id INTEGER PRIMARY KEY,
            timestamp TEXT NOT NULL,
            prev_hash TEXT NOT NULL,
            changed BOOLEAN NOT NULL
        )",
        [],
    )
    .unwrap();
    conn
}

#[test]
fn hash_of_empty_contents() {
    let hash = hash_contents(&Vec::new());
    assert_eq!(
        hash,
        "e3b0c44298fc1c149afbf4c8996fb92427ae41e4649b934ca495991b7852b855"
    );
}

#[test]
fn hash_of_known_contents() {
    let hash = hash_contents(&vec![b'a', b'b', b'c']);
    assert_eq!(
        hash,
        "ba7816bf8f01cfea414140de5dae2223b00361a396177a9cb410ff61f20015ad"
    );
}

#[test]
fn scan_detects_a_change() {
    let conn = checks_conn();
    let mut scanner = UnauthorizedChangesScanner::from_db(conn).unwrap();

    scanner
        .scan_unauthorized_checks(&vec![1u8, 2, 3])
        .unwrap();
    assert!(!scanner.changed());

    scanner
        .scan_unauthorized_checks(&vec![1u8, 2, 3, 4])
        .unwrap();
    assert!(scanner.changed());

    scanner
        .scan_unauthorized_checks(&vec![1u8, 2, 3, 4])
        .unwrap();
    assert!(!scanner.changed());
}

#[test]
fn scanner_resumes_from_last_stored_hash() {
    let conn = checks_conn();
    let watched = vec![b'p', b'w'];
    let stored_hash = hash_contents(&watched);
    conn.execute(
        "INSERT INTO passwd_checks (timestamp, prev_hash, changed)
        VALUES ($1, $2, $3)",
        ["2024-01-01T00:00:00+00:00", stored_hash.as_str(), "false"],
    )
    .unwrap();

    let mut scanner = UnauthorizedChangesScanner::from_db(conn).unwrap();
    assert_eq!(scanner.latest_hash().unwrap(), stored_hash);

    // The same contents as before the restart: no change.
    scanner.scan_unauthorized_checks(&watched).unwrap();
    assert!(!scanner.changed());

    // Tampered contents: the drift against the pre-restart hash shows.
    scanner
        .scan_unauthorized_checks(&vec![b'p', b'w', b'!'])
        .unwrap();
    assert!(scanner.changed());
}

#[test]
fn ephemeral_scanner_has_no_check_table() {
    // The ephemeral scanner opens a bare in-memory database without the
    // check table, so recording a check fails persistently while the
    // in-memory comparison still works.
    let mut scanner = UnauthorizedChangesScanner::new().unwrap();
    assert!(scanner.latest_hash().is_none());
    assert!(!scanner.changed());

    let r = scanner.scan_unauthorized_checks(&vec![9u8]);
    assert!(matches!(r, Err(QuarantineError::Persistence { .. })));
    assert!(scanner.latest_hash().is_some());
}
