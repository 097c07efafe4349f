//! Tamper detection for a watched system file.
//!
//! The scanner hashes the watched file's contents, compares the digest to
//! the one it saw last, and appends every check to its own append-only
//! store table.  Reading the file is the caller's part; the scanner works
//! on the bytes it is handed.

use sha2::Digest;
use vstd::prelude::*;

use crate::QuarantineError;
use crate::clock;
use crate::quarantine::opt_text;
use crate::store;
use crate::store::CheckModel;

verus! {

/// The SHA-256 digest of a byte sequence.  The digest is a function of the
/// input bytes alone; its definition is the outside crate's.
pub uninterp spec fn sha256_of(bytes: Seq<u8>) -> Seq<u8>;

/// The lowercase hexadecimal digit for a value below sixteen.
pub open spec fn hex_digit(n: u8) -> char
    recommends
        n < 16,
{
    if n < 10 {
        (('0' as u8) + n) as char
    } else {
        (('a' as u8) + (n - 10)) as char
    }
}

/// Lowercase hexadecimal text for a byte sequence: two digits per byte,
/// high nibble first.
pub open spec fn hex_of(bytes: Seq<u8>) -> Seq<char>
    decreases bytes.len(),
{
    if bytes.len() == 0 {
        Seq::empty()
    } else {
        seq![hex_digit(bytes.first() / 16), hex_digit(bytes.first() % 16)] + hex_of(
            bytes.drop_first(),
        )
    }
}

/// Relies on sha2's `Sha256` through the `Digest` trait: the digest
/// depends on the input bytes alone and is exactly 32 bytes long.
#[verifier::external_body]
fn sha256_digest(bytes: &Vec<u8>) -> (r: Vec<u8>)
    ensures
        r@ == sha256_of(bytes@),
        r@.len() == 32,
{
    sha2::Sha256::digest(bytes.as_slice()).to_vec()
}

/// Relies on hex's `encode`: lowercase hexadecimal, two digits per byte,
/// high nibble first.
#[verifier::external_body]
fn hex_encode(bytes: &Vec<u8>) -> (r: String)
    ensures
        r@ == hex_of(bytes@),
{
    hex::encode(bytes.as_slice())
}

/// The hash recorded for the watched file: lowercase hexadecimal text of
/// the contents' SHA-256 digest.
pub fn hash_contents(contents: &Vec<u8>) -> (r: String)
    ensures
        r@ == hex_of(sha256_of(contents@)),
{
    let digest = sha256_digest(contents);
    hex_encode(&digest)
}

/// The text under which a check's changed flag is stored.
pub open spec fn flag_text(changed: bool) -> Seq<char> {
    if changed {
        "true"@
    } else {
        "false"@
    }
}

/// Watches one sensitive file for unauthorized changes by hashing its
/// contents on every scan and recording each check durably.
pub struct UnauthorizedChangesScanner {
    hash: Option<String>,
    prev_hash: Option<String>,
    last_checked: Option<String>,
    changed: bool,
    db: rusqlite::Connection,
}

impl UnauthorizedChangesScanner {
    /// The digest text seen by the most recent scan.
    pub closed spec fn current_hash(&self) -> Option<Seq<char>> {
        opt_text(self.hash)
    }

    /// The digest text the scan before that saw.
    pub closed spec fn previous_hash(&self) -> Option<Seq<char>> {
        opt_text(self.prev_hash)
    }

    /// When the most recent scan ran.
    pub closed spec fn last_checked_at(&self) -> Option<Seq<char>> {
        opt_text(self.last_checked)
    }

    /// Whether the most recent scan saw a digest different from the one
    /// before it.
    pub closed spec fn changed_flag(&self) -> bool {
        self.changed
    }

    /// The rows of the scanner's check log.
    pub closed spec fn checks(&self) -> Seq<CheckModel> {
        store::passwd_rows(self.db)
    }

    /// A scanner over a fresh in-memory store: nothing seen yet.
    pub fn new() -> (r: Result<UnauthorizedChangesScanner, QuarantineError>)
        ensures
            r matches Ok(s) ==> s.current_hash() is None && s.previous_hash() is None
                && s.last_checked_at() is None && !s.changed_flag() && s.checks() == Seq::<
                CheckModel,
            >::empty(),
            r matches Err(e) ==> e is Persistence,
    {
        let conn = match store::open_memory_db() {
            Ok(conn) => conn,
            Err(e) => {
                return Err(e);
            },
        };
        Ok(
            UnauthorizedChangesScanner {
                hash: None,
                prev_hash: None,
                last_checked: None,
                changed: false,
                db: conn,
            },
        )
    }

    /// A scanner over an existing store: it resumes from the hash of the
    /// last recorded check, so a change against the last run before a
    /// restart is still detected.
    pub fn from_db(conn: rusqlite::Connection) -> (r: Result<
        UnauthorizedChangesScanner,
        QuarantineError,
    >)
        ensures
            r matches Ok(s) ==> s.checks() == store::passwd_rows(conn) && s.previous_hash()
                is None && !s.changed_flag(),
            r matches Ok(s) ==> (store::passwd_rows(conn).len() > 0 ==> s.current_hash() == Some(
                store::passwd_rows(conn).last().1,
            ) && s.last_checked_at() is Some),
            r matches Ok(s) ==> (store::passwd_rows(conn).len() == 0 ==> s.current_hash() is None
                && s.last_checked_at() is None),
            r matches Err(e) ==> e is Persistence,
    {
        let last = match store::select_last_passwd_hash(&conn) {
            Ok(last) => last,
            Err(e) => {
                return Err(e);
            },
        };
        match last {
            Some(hash) => Ok(
                UnauthorizedChangesScanner {
                    hash: Some(hash),
                    prev_hash: None,
                    last_checked: Some(clock::now_iso()),
                    changed: false,
                    db: conn,
                },
            ),
            None => Ok(
                UnauthorizedChangesScanner {
                    hash: None,
                    prev_hash: None,
                    last_checked: None,
                    changed: false,
                    db: conn,
                },
            ),
        }
    }

    /// Hashes the watched file's contents and shifts the scanner's state:
    /// the changed flag compares the fresh digest to the previous scan's,
    /// and stays as it was on the very first scan.
    fn check_for_changes(&mut self, contents: &Vec<u8>)
        ensures
            final(self).current_hash() == Some(hex_of(sha256_of(contents@))),
            final(self).previous_hash() == old(self).current_hash(),
            final(self).changed_flag() == match old(self).current_hash() {
                Some(h) => h != hex_of(sha256_of(contents@)),
                None => old(self).changed_flag(),
            },
            final(self).last_checked_at() is Some,
            final(self).checks() == old(self).checks(),
    {
        let current = hash_contents(contents);
        match &self.hash {
            Some(prev) => {
                self.changed = !(current == *prev);
            },
            None => {},
        }
        self.prev_hash = match &self.hash {
            Some(h) => Some(h.clone()),
            None => None,
        };
        self.hash = Some(current);
        self.last_checked = Some(clock::now_iso());
    }

    /// Appends the most recent check to the check log.
    fn store_check(&mut self) -> (r: Result<(), QuarantineError>)
        requires
            old(self).current_hash() is Some,
        ensures
            final(self).current_hash() == old(self).current_hash(),
            final(self).previous_hash() == old(self).previous_hash(),
            final(self).changed_flag() == old(self).changed_flag(),
            final(self).last_checked_at() == old(self).last_checked_at(),
            r is Ok ==> exists|ts: Seq<char>|
                final(self).checks() == old(self).checks().push(
                    (ts, old(self).current_hash().unwrap(), flag_text(old(self).changed_flag())),
                ),
            r matches Err(e) ==> e is Persistence && final(self).checks() == old(self).checks(),
    {
        let timestamp = clock::now_iso();
        let hash = match &self.hash {
            Some(h) => h.clone(),
            None => {
                return Err(
                    QuarantineError::Persistence {
                        message: String::from_str("no check to store"),
                    },
                );
            },
        };
        let changed_text = if self.changed {
            String::from_str("true")
        } else {
            String::from_str("false")
        };
        let r = store::insert_passwd_check(&mut self.db, &timestamp, &hash, &changed_text);
        proof {
            if r is Ok {
                assert(self.checks() == old(self).checks().push(
                    (
                        timestamp@,
                        old(self).current_hash().unwrap(),
                        flag_text(old(self).changed_flag()),
                    ),
                ));
            }
        }
        r
    }

    /// One scan of the watched file: hash the contents, compare against
    /// the previous scan, and record the check durably.  A store failure
    /// is surfaced, never swallowed; the in-memory comparison still stands.
    pub fn scan_unauthorized_checks(&mut self, contents: &Vec<u8>) -> (r: Result<
        (),
        QuarantineError,
    >)
        ensures
            final(self).current_hash() == Some(hex_of(sha256_of(contents@))),
            final(self).previous_hash() == old(self).current_hash(),
            final(self).changed_flag() == match old(self).current_hash() {
                Some(h) => h != hex_of(sha256_of(contents@)),
                None => old(self).changed_flag(),
            },
            final(self).last_checked_at() is Some,
            r is Ok ==> exists|ts: Seq<char>|
                final(self).checks() == old(self).checks().push(
                    (
                        ts,
                        hex_of(sha256_of(contents@)),
                        flag_text(final(self).changed_flag()),
                    ),
                ),
            r matches Err(e) ==> e is Persistence && final(self).checks() == old(self).checks(),
    {
        self.check_for_changes(contents);
        self.store_check()
    }

    /// Whether the most recent scan saw a change.
    pub fn changed(&self) -> (r: bool)
        ensures
            r == self.changed_flag(),
    {
        self.changed
    }

    /// The digest text of the most recent scan.
    pub fn latest_hash(&self) -> (r: Option<String>)
        ensures
            opt_text(r) == self.current_hash(),
    {
        match &self.hash {
            Some(h) => Some(h.clone()),
            None => None,
        }
    }
}

} // verus!
