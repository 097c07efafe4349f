use sentinel::quarantine::{
    IsolationOutcome, IsolationTicket, PushStep, QuarantinedFile, Quarantinizer, ViewMode,
    base_name,
};
use sentinel::QuarantineError;

fn pending(path: &str, reason: &str) -> QuarantinedFile {
    QuarantinedFile {
        original_path: path.to_string(),
        quarantine_path: None,
        reason: reason.to_string(),
        quarantined_date: None,
    }
}

fn store_conn() -> rusqlite::Connection {
    let conn = rusqlite::Connection::open_in_memory().unwrap();
    conn.execute(
        "CREATE TABLE IF NOT EXISTS quarantined_files (
                id INTEGER PRIMARY KEY,
                original_path TEXT NOT NULL,
                quarantine_path TEXT NOT NULL,
                reason TEXT NOT NULL,
                quarantined_date TEXT NOT NULL
            )",
        [],
    )
    .unwrap();
    conn
}

fn contain(engine: &mut Quarantinizer, path: &str, reason: &str) -> IsolationTicket {
    let step = engine.push_quarantined(pending(path, reason)).unwrap();
    match step {
        PushStep::Isolate(ticket) => {
            let t = IsolationTicket {
                index: ticket.index,
                target_path: ticket.target_path.clone(),
                date: ticket.date.clone(),
            };
            engine
                .finish_push(&ticket, &IsolationOutcome::Created)
                .unwrap();
            t
        }
        PushStep::Done => panic!("expected an isolation to be planned"),
    }
}

#[test]
fn it_works() {
    assert_eq!(2 + 2, 4);
}

#[test]
fn check_quarantine_attrs() {
    let quarantinizer = Quarantinizer::new("/home/zai/.sentinel_quarantine".to_string());
    assert_eq!(
        quarantinizer.quarantine_dir,
        "/home/zai/.sentinel_quarantine".to_string()
    );
    assert!(quarantinizer.quarantined_files.is_empty());
}

#[test]
fn quarantine_test() {
    let mut quarantinizer = Quarantinizer::new("/home/zai/.sentinel_quarantine".to_string());
    let tickets = quarantinizer.quarantine_plan().unwrap();
    assert!(tickets.is_empty());
    let result = quarantinizer.quarantine(&tickets, &Vec::new());
    assert!(result.is_ok(), "An error happened");
}

#[test]
fn push_quarantined_file_test() {
    let mut quarantinizer = Quarantinizer::new("/home/zai/.sentinel_quarantine".to_string());
    let step = quarantinizer
        .push_quarantined(pending("/home/zai/sigma.txt", "No reason"))
        .expect("Couldn't push a file for quarantine");
    let ticket = match step {
        PushStep::Isolate(t) => t,
        PushStep::Done => panic!("expected an isolation to be planned"),
    };
    quarantinizer
        .finish_push(&ticket, &IsolationOutcome::Created)
        .expect("Couldn't quarantine");

    let file = quarantinizer
        .quarantined_files
        .first()
        .expect("No quarantined files found");
    let path = file.quarantine_path.clone().unwrap();
    assert!(path.starts_with("/home/zai/.sentinel_quarantine/"));

    let tickets = quarantinizer.quarantine_plan().unwrap();
    assert!(tickets.is_empty(), "Couldn't quarantine");
}

#[test]
fn quarantine_store_db_test() {
    let conn = store_conn();
    let mut quarantinier = Quarantinizer::from_db(conn, "/home/zai/.sentinel_quarantine".to_string()).unwrap();
    contain(&mut quarantinier, "/home/zai/sigma.txt", "No reason");
    let stored = quarantinier.get_quarantined().unwrap();
    assert_eq!(stored.len(), 1);
    assert_eq!(stored[0].original_path, "/home/zai/sigma.txt");
}

#[test]
fn end_to_end_scenario() {
    let conn = store_conn();
    let mut engine = Quarantinizer::from_db(conn, "/tmp/qdir".to_string()).unwrap();

    let step = engine
        .push_quarantined(pending("/tmp/a.bin", "heuristic match"))
        .unwrap();
    let ticket = match step {
        PushStep::Isolate(t) => t,
        PushStep::Done => panic!("a fresh path must be isolated"),
    };
    assert!(ticket.target_path.starts_with("/tmp/qdir/a.bin_"));

    engine
        .finish_push(&ticket, &IsolationOutcome::Created)
        .unwrap();

    let stored = engine.get_quarantined().unwrap();
    assert_eq!(stored.len(), 1);
    assert_eq!(stored[0].original_path, "/tmp/a.bin");
    assert_eq!(stored[0].reason, "heuristic match");
    let qpath = stored[0].quarantine_path.clone().unwrap();
    assert!(qpath.starts_with("/tmp/qdir/a.bin_"));
    // The clock stamp keeps the copy inside the isolation directory ...
    let stamp = &qpath["/tmp/qdir/a.bin_".len()..];
    assert!(!stamp.is_empty());
    assert!(!stamp.contains('/'));
    // ... and the containment date is recorded once, at success.
    let date = stored[0].quarantined_date.clone().unwrap();
    assert!(!date.is_empty());
}

#[test]
fn idempotent_double_enqueue() {
    let conn = store_conn();
    let mut engine = Quarantinizer::from_db(conn, "/tmp/qdir".to_string()).unwrap();

    contain(&mut engine, "/tmp/a.bin", "heuristic match");

    // The second enqueue of the same original path is an idempotent skip:
    // success, no second isolation, no second row.
    let second = engine
        .push_quarantined(pending("/tmp/a.bin", "heuristic match"))
        .unwrap();
    assert!(matches!(second, PushStep::Done));

    let stored = engine.get_quarantined().unwrap();
    assert_eq!(stored.len(), 1);
}

#[test]
fn reload_from_store_skips() {
    let db_uri = "file:reload_test_db?mode=memory&cache=shared";
    let keep_alive = rusqlite::Connection::open(db_uri).unwrap();
    keep_alive
        .execute(
            "CREATE TABLE IF NOT EXISTS quarantined_files (
                id INTEGER PRIMARY KEY,
                original_path TEXT NOT NULL,
                quarantine_path TEXT NOT NULL,
                reason TEXT NOT NULL,
                quarantined_date TEXT NOT NULL
            )",
            [],
        )
        .unwrap();

    let conn1 = rusqlite::Connection::open(db_uri).unwrap();
    let mut engine1 = Quarantinizer::from_db(conn1, "/tmp/qdir".to_string()).unwrap();
    contain(&mut engine1, "/tmp/a.bin", "heuristic match");
    drop(engine1);

    // A restart: the engine reloads the store and treats the record as
    // already contained, so a new quarantine pass plans no work at all.
    let conn2 = rusqlite::Connection::open(db_uri).unwrap();
    let engine2 = Quarantinizer::from_db(conn2, "/tmp/qdir".to_string()).unwrap();
    assert_eq!(engine2.quarantined_files.len(), 1);
    assert_eq!(engine2.quarantined_files[0].original_path, "/tmp/a.bin");
    assert!(engine2.quarantined_files[0].quarantine_path.is_some());

    let tickets = engine2.quarantine_plan().unwrap();
    assert!(tickets.is_empty());
}

#[test]
fn failure_isolation_three_records() {
    let conn = store_conn();
    let mut engine = Quarantinizer::from_db(conn, "/tmp/qdir".to_string()).unwrap();
    engine.quarantined_files.push(pending("/tmp/one.bin", "r1"));
    engine.quarantined_files.push(pending("/tmp/two.bin", "r2"));
    engine.quarantined_files.push(pending("/tmp/three.bin", "r3"));

    let tickets = engine.quarantine_plan().unwrap();
    assert_eq!(tickets.len(), 3);

    let outcomes = vec![
        IsolationOutcome::Created,
        IsolationOutcome::Failed {
            message: "permission denied".to_string(),
        },
        IsolationOutcome::Created,
    ];
    let result = engine.quarantine(&tickets, &outcomes);

    // The call fails, referencing only the second path ...
    match result {
        Err(QuarantineError::Isolation { path, .. }) => assert_eq!(path, "/tmp/two.bin"),
        other => panic!("expected an isolation error, got {:?}", other.is_ok()),
    }

    // ... while the first and third containments stand, in memory and in
    // the store, and the second record is still pending.
    assert!(engine.quarantined_files[0].quarantine_path.is_some());
    assert!(engine.quarantined_files[1].quarantine_path.is_none());
    assert!(engine.quarantined_files[2].quarantine_path.is_some());

    let stored = engine.get_quarantined().unwrap();
    assert_eq!(stored.len(), 2);
    assert_eq!(stored[0].original_path, "/tmp/one.bin");
    assert_eq!(stored[1].original_path, "/tmp/three.bin");
}

#[test]
fn listing_two_containments() {
    let conn = store_conn();
    let mut engine = Quarantinizer::from_db(conn, "/tmp/qdir".to_string()).unwrap();
    contain(&mut engine, "/tmp/a.bin", "heuristic match");
    contain(&mut engine, "/tmp/b.bin", "integrity drift");

    let listing = engine.list(&ViewMode::Database).unwrap();
    assert_eq!(listing.len(), 2);
    let p1 = listing[0].quarantine_path.clone().unwrap();
    let p2 = listing[1].quarantine_path.clone().unwrap();
    assert!(!p1.is_empty());
    assert!(!p2.is_empty());
    assert_ne!(p1, p2);
}

#[test]
fn memory_listing_mirrors_working_set() {
    let mut engine = Quarantinizer::new("/tmp/qdir".to_string());
    let step = engine
        .push_quarantined(pending("/tmp/a.bin", "heuristic match"))
        .unwrap();
    assert!(matches!(step, PushStep::Isolate(_)));

    let listing = engine.list(&ViewMode::Memory).unwrap();
    assert_eq!(listing.len(), 1);
    assert_eq!(listing[0].original_path, "/tmp/a.bin");

    // The database filter over an ephemeral engine lists nothing.
    let stored = engine.list(&ViewMode::Database).unwrap();
    assert!(stored.is_empty());
}

#[test]
fn failed_isolation_rolls_back_the_append() {
    let mut engine = Quarantinizer::new("/tmp/qdir".to_string());
    let step = engine
        .push_quarantined(pending("/tmp/a.bin", "heuristic match"))
        .unwrap();
    let ticket = match step {
        PushStep::Isolate(t) => t,
        PushStep::Done => panic!("a fresh path must be isolated"),
    };
    let result = engine.finish_push(
        &ticket,
        &IsolationOutcome::Failed {
            message: "disk full".to_string(),
        },
    );
    match result {
        Err(QuarantineError::Isolation { path, message }) => {
            assert_eq!(path, "/tmp/a.bin");
            assert_eq!(message, "disk full");
        }
        _ => panic!("expected an isolation error"),
    }
    // No partial record stays behind.
    assert!(engine.quarantined_files.is_empty());
}

#[test]
fn already_existing_target_is_adopted_without_a_row() {
    let conn = store_conn();
    let mut engine = Quarantinizer::from_db(conn, "/tmp/qdir".to_string()).unwrap();
    let step = engine
        .push_quarantined(pending("/tmp/a.bin", "heuristic match"))
        .unwrap();
    let ticket = match step {
        PushStep::Isolate(t) => t,
        PushStep::Done => panic!("a fresh path must be isolated"),
    };
    engine
        .finish_push(&ticket, &IsolationOutcome::AlreadyExists)
        .unwrap();

    // The record counts as contained, but the row belongs to whichever
    // process won the exclusive create.
    assert!(engine.quarantined_files[0].quarantine_path.is_some());
    assert!(engine.get_quarantined().unwrap().is_empty());
}

#[test]
fn path_without_file_name_is_rejected() {
    let mut engine = Quarantinizer::new("/tmp/qdir".to_string());
    let result = engine.push_quarantined(pending("/tmp/dir/", "heuristic match"));
    assert!(matches!(
        result,
        Err(QuarantineError::Isolation { .. })
    ));
    assert!(engine.quarantined_files.is_empty());
}

#[test]
fn mismatched_outcomes_are_a_config_error() {
    let conn = store_conn();
    let mut engine = Quarantinizer::from_db(conn, "/tmp/qdir".to_string()).unwrap();
    engine.quarantined_files.push(pending("/tmp/one.bin", "r1"));
    let tickets = engine.quarantine_plan().unwrap();
    assert_eq!(tickets.len(), 1);
    let result = engine.quarantine(&tickets, &Vec::new());
    assert!(matches!(result, Err(QuarantineError::Config { .. })));
    assert!(engine.quarantined_files[0].quarantine_path.is_none());
}

#[test]
fn missing_store_table_is_a_persistence_error() {
    let conn = rusqlite::Connection::open_in_memory().unwrap();
    let result = Quarantinizer::from_db(conn, "/tmp/qdir".to_string());
    assert!(matches!(
        result,
        Err(QuarantineError::Persistence { .. })
    ));
}

#[test]
fn base_name_takes_the_last_component() {
    assert_eq!(base_name(&"/tmp/a.bin".to_string()), "a.bin");
    assert_eq!(base_name(&"plain".to_string()), "plain");
    assert_eq!(base_name(&"/ends/with/".to_string()), "");
    assert_eq!(base_name(&"".to_string()), "");
    assert_eq!(base_name(&"/a/b/c d.exe".to_string()), "c d.exe");
}

#[test]
fn error_message_is_exposed() {
    let e = QuarantineError::Persistence {
        message: "the store is gone".to_string(),
    };
    assert_eq!(e.message(), "the store is gone");
}
