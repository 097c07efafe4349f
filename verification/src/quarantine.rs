//! The quarantine engine.
//!
//! The engine owns an isolation directory, an in-memory working set of
//! quarantine records and, unless it runs in ephemeral mode, a handle to the
//! durable record store.  Containment of a file proceeds in two steps: the
//! engine first plans the isolation (which records need a fresh copy in the
//! isolation directory, and under which collision-resistant name), the
//! caller performs the filesystem work and reports one outcome per planned
//! record, and the engine then applies those outcomes, marking records
//! contained and appending freshly contained records to the store.

use vstd::prelude::*;

use crate::QuarantineError;
use crate::clock;
use crate::store;
use crate::store::{RowModel, StoreRow};

verus! {

/// Mathematical value of one quarantine record.
#[verifier::ext_equal]
pub struct RecordModel {
    pub original_path: Seq<char>,
    pub quarantine_path: Option<Seq<char>>,
    pub reason: Seq<char>,
    pub quarantined_date: Option<Seq<char>>,
}

pub open spec fn opt_text(o: Option<String>) -> Option<Seq<char>> {
    match o {
        Some(s) => Some(s@),
        None => None,
    }
}

/// The unit of containment: a file judged dangerous, why it was judged so,
/// and — once containment succeeded — where its bytes now live and when
/// they were moved there.
pub struct QuarantinedFile {
    pub original_path: String,
    pub quarantine_path: Option<String>,
    pub reason: String,
    pub quarantined_date: Option<String>,
}

impl View for QuarantinedFile {
    type V = RecordModel;

    open spec fn view(&self) -> RecordModel {
        RecordModel {
            original_path: self.original_path@,
            quarantine_path: opt_text(self.quarantine_path),
            reason: self.reason@,
            quarantined_date: opt_text(self.quarantined_date),
        }
    }
}

impl QuarantinedFile {
    /// An equal record under separate ownership.
    pub fn duplicate(&self) -> (r: QuarantinedFile)
        ensures
            r@ == self@,
    {
        QuarantinedFile {
            original_path: self.original_path.clone(),
            quarantine_path: match &self.quarantine_path {
                Some(p) => Some(p.clone()),
                None => None,
            },
            reason: self.reason.clone(),
            quarantined_date: match &self.quarantined_date {
                Some(d) => Some(d.clone()),
                None => None,
            },
        }
    }
}

/// The base name of a path: everything after the last separator.  A path
/// that ends in a separator, or is empty, has an empty base name and cannot
/// be contained.
pub open spec fn base_of(p: Seq<char>) -> Seq<char>
    decreases p.len(),
{
    if p.len() == 0 {
        Seq::empty()
    } else if p.last() == '/' {
        Seq::empty()
    } else {
        base_of(p.drop_last()).push(p.last())
    }
}

/// The name under which a record's bytes live inside the isolation
/// directory: the original base name plus a clock stamp, so that repeated
/// offenses of the same path stay distinguishable.
pub open spec fn target_of(dir: Seq<char>, base: Seq<char>, stamp: Seq<char>) -> Seq<char> {
    dir + seq!['/'] + base + seq!['_'] + stamp
}

/// Everything after the last separator has no separator in it, so the base
/// name of a path is a suffix of the path.
proof fn lemma_base_of_suffix(p: Seq<char>, start: int)
    requires
        0 <= start <= p.len(),
        forall|i: int| start <= i < p.len() ==> p[i] != '/',
        start > 0 ==> p[start - 1] == '/',
    ensures
        base_of(p) == p.subrange(start, p.len() as int),
    decreases p.len(),
{
    if start == p.len() {
        if p.len() == 0 {
            assert(base_of(p) =~= p.subrange(start, p.len() as int));
        } else {
            assert(p.last() == '/');
            assert(base_of(p) =~= p.subrange(start, p.len() as int));
        }
    } else {
        assert(p.last() != '/');
        let q = p.drop_last();
        lemma_base_of_suffix(q, start);
        assert(q.subrange(start, q.len() as int) =~= p.subrange(start, p.len() as int - 1));
        assert(base_of(p) == base_of(q).push(p.last()));
        assert(base_of(p) =~= p.subrange(start, p.len() as int));
    }
}

/// Computes the base name of a path.
pub fn base_name(path: &String) -> (r: String)
    ensures
        r@ == base_of(path@),
{
    let s = path.as_str();
    let n = s.unicode_len();
    let mut cut: usize = 0;
    let mut i: usize = 0;
    while i < n
        invariant
            n == s@.len(),
            s@ == path@,
            0 <= cut <= i <= n,
            forall|j: int| cut <= j < i ==> s@[j] != '/',
            cut > 0 ==> s@[cut - 1] == '/',
        decreases n - i,
    {
        if s.get_char(i) == '/' {
            cut = i + 1;
        }
        i += 1;
    }
    proof {
        lemma_base_of_suffix(path@, cut as int);
    }
    let r = s.substring_char(cut, n);
    String::from_str(r)
}

/// Builds the isolation target path for a record.
fn make_target(dir: &String, base: &String, stamp: &String) -> (r: String)
    ensures
        r@ == target_of(dir@, base@, stamp@),
{
    let mut r = dir.clone();
    r.append("/");
    r.append(base.as_str());
    r.append("_");
    r.append(stamp.as_str());
    proof {
        reveal_strlit("/");
        reveal_strlit("_");
        assert("/"@ =~= seq!['/']);
        assert("_"@ =~= seq!['_']);
    }
    r
}

/// Selects the filter a listing reads from: the durable store, or the
/// in-memory working set.
pub enum ViewMode {
    Database,
    Memory,
}

/// The record a store row stands for: a completed containment.
pub open spec fn row_record(r: RowModel) -> RecordModel {
    RecordModel {
        original_path: r.0,
        quarantine_path: Some(r.1),
        reason: r.2,
        quarantined_date: Some(r.3),
    }
}

pub open spec fn rows_as_records(rows: Seq<RowModel>) -> Seq<RecordModel> {
    rows.map_values(|r: RowModel| row_record(r))
}

/// Does the durable store already reference this original path?
pub open spec fn rows_have_original(rows: Seq<RowModel>, orig: Seq<char>) -> bool {
    exists|i: int| 0 <= i < rows.len() && rows[i].0 == orig
}

/// Does the working set already hold a contained record for this original
/// path?
pub open spec fn working_set_has_contained(recs: Seq<RecordModel>, orig: Seq<char>) -> bool {
    exists|j: int|
        0 <= j < recs.len() && recs[j].quarantine_path is Some && recs[j].original_path == orig
}

/// The engine's idempotency test: a containment for this original path is
/// already known, either durably or in memory, so isolating it again would
/// create a second copy.
pub open spec fn already_contained(
    rows: Seq<RowModel>,
    recs: Seq<RecordModel>,
    orig: Seq<char>,
) -> bool {
    rows_have_original(rows, orig) || working_set_has_contained(recs, orig)
}

/// Record `i` still awaits isolation: it is pending (no quarantine path
/// yet) and no containment for its original path is known.
pub open spec fn needs_isolation(rows: Seq<RowModel>, recs: Seq<RecordModel>, i: int) -> bool {
    recs[i].quarantine_path is None && !already_contained(rows, recs, recs[i].original_path)
}

/// Every record that awaits isolation has a non-empty base name, so a
/// target name can be derived for it.
pub open spec fn plan_bases_ok(rows: Seq<RowModel>, recs: Seq<RecordModel>) -> bool {
    forall|i: int|
        0 <= i < recs.len() && needs_isolation(rows, recs, i) ==> base_of(
            recs[i].original_path,
        ).len() > 0
}

/// Mathematical value of one planned isolation.
#[verifier::ext_equal]
pub struct TicketModel {
    pub index: int,
    pub target_path: Seq<char>,
    pub date: Seq<char>,
}

/// One planned isolation: the working-set record it belongs to, the
/// exclusive-create target inside the isolation directory, and the
/// containment date to record on success.
pub struct IsolationTicket {
    pub index: usize,
    pub target_path: String,
    pub date: String,
}

impl View for IsolationTicket {
    type V = TicketModel;

    open spec fn view(&self) -> TicketModel {
        TicketModel { index: self.index as int, target_path: self.target_path@, date: self.date@ }
    }
}

/// The isolation plan over the first `n` records: one ticket, in working-set
/// order, for every record that awaits isolation.
pub open spec fn plan_model(
    rows: Seq<RowModel>,
    recs: Seq<RecordModel>,
    dir: Seq<char>,
    stamp: Seq<char>,
    date: Seq<char>,
    n: int,
) -> Seq<TicketModel>
    decreases n,
{
    if n <= 0 {
        Seq::empty()
    } else {
        let prefix = plan_model(rows, recs, dir, stamp, date, n - 1);
        if needs_isolation(rows, recs, n - 1) {
            prefix.push(
                TicketModel {
                    index: n - 1,
                    target_path: target_of(dir, base_of(recs[n - 1].original_path), stamp),
                    date: date,
                },
            )
        } else {
            prefix
        }
    }
}

/// Scans store rows for one referencing the given original path.
fn rows_have_orig(rows: &Vec<StoreRow>, orig: &String) -> (r: bool)
    ensures
        r == rows_have_original(rows@.map_values(|x: StoreRow| x@), orig@),
{
    let ghost rows_model = rows@.map_values(|x: StoreRow| x@);
    let mut i: usize = 0;
    while i < rows.len()
        invariant
            0 <= i <= rows.len(),
            rows_model == rows@.map_values(|x: StoreRow| x@),
            forall|j: int| 0 <= j < i ==> rows_model[j].0 != orig@,
        decreases rows.len() - i,
    {
        if rows[i].original_path == *orig {
            proof {
                assert(rows_model[i as int].0 == orig@);
            }
            return true;
        }
        i += 1;
    }
    false
}

/// Scans the working set for a contained record with the given original
/// path.
fn working_has_contained(recs: &Vec<QuarantinedFile>, orig: &String) -> (r: bool)
    ensures
        r == working_set_has_contained(recs@.map_values(|q: QuarantinedFile| q@), orig@),
{
    let ghost recs_model = recs@.map_values(|q: QuarantinedFile| q@);
    let mut i: usize = 0;
    while i < recs.len()
        invariant
            0 <= i <= recs.len(),
            recs_model == recs@.map_values(|q: QuarantinedFile| q@),
            forall|j: int|
                0 <= j < i ==> !(recs_model[j].quarantine_path is Some
                    && recs_model[j].original_path == orig@),
        decreases recs.len() - i,
    {
        if recs[i].quarantine_path.is_some() && recs[i].original_path == *orig {
            proof {
                assert(recs_model[i as int].quarantine_path is Some && recs_model[
                    i as int
                ].original_path == orig@);
            }
            return true;
        }
        i += 1;
    }
    false
}

/// The quarantine engine.
pub struct Quarantinizer {
    pub quarantine_dir: String,
    pub quarantined_files: Vec<QuarantinedFile>,
    db: Option<rusqlite::Connection>,
}

impl Quarantinizer {
    /// The isolation directory as a mathematical value.
    pub closed spec fn dir(&self) -> Seq<char> {
        self.quarantine_dir@
    }

    /// The working set as a sequence of record values.
    pub closed spec fn records(&self) -> Seq<RecordModel> {
        self.quarantined_files@.map_values(|q: QuarantinedFile| q@)
    }

    /// The durable store's rows, or nothing in ephemeral mode.
    pub closed spec fn store_model(&self) -> Option<Seq<RowModel>> {
        match self.db {
            Some(conn) => Some(store::store_rows(conn)),
            None => None,
        }
    }

    /// The rows the idempotency test consults: the store's rows, or no rows
    /// at all in ephemeral mode.
    pub open spec fn snapshot_model(&self) -> Seq<RowModel> {
        match self.store_model() {
            Some(rows) => rows,
            None => Seq::empty(),
        }
    }

    /// Starts an ephemeral engine over the given isolation directory: an
    /// empty working set and no durable store.
    pub fn new(quarantine_dir: String) -> (r: Quarantinizer)
        ensures
            r.dir() == quarantine_dir@,
            r.records() == Seq::<RecordModel>::empty(),
            r.store_model() is None,
    {
        let r = Quarantinizer { quarantine_dir, quarantined_files: Vec::new(), db: None };
        proof {
            assert(r.records() =~= Seq::<RecordModel>::empty());
        }
        r
    }

    /// Starts an engine backed by the given store connection, loading every
    /// stored record into the working set.  A record read back from the
    /// store counts as already contained and is never isolated again.
    pub fn from_db(conn: rusqlite::Connection, quarantine_dir: String) -> (r: Result<
        Quarantinizer,
        QuarantineError,
    >)
        ensures
            r matches Ok(q) ==> q.dir() == quarantine_dir@ && q.records()
                == rows_as_records(store::store_rows(conn)) && q.store_model() == Some(
                store::store_rows(conn),
            ),
            r matches Err(e) ==> e is Persistence,
    {
        let rows = match store::select_quarantined_rows(&conn) {
            Ok(rows) => rows,
            Err(e) => {
                return Err(e);
            },
        };
        let ghost rows_model = store::store_rows(conn);
        let mut working: Vec<QuarantinedFile> = Vec::new();
        let mut i: usize = 0;
        while i < rows.len()
            invariant
                0 <= i <= rows.len(),
                rows@.map_values(|x: StoreRow| x@) == rows_model,
                working@.map_values(|q: QuarantinedFile| q@) == rows_as_records(
                    rows_model.take(i as int),
                ),
            decreases rows.len() - i,
        {
            let row = &rows[i];
            let ghost pre = working@;
            let rec = QuarantinedFile {
                original_path: row.original_path.clone(),
                quarantine_path: Some(row.quarantine_path.clone()),
                reason: row.reason.clone(),
                quarantined_date: Some(row.quarantined_date.clone()),
            };
            proof {
                assert(rows_model[i as int] == rows@[i as int]@);
                assert(rec@ == row_record(rows_model[i as int]));
                rows_model.lemma_map_take_succ(|r: RowModel| row_record(r), i as int);
                pre.lemma_push_map_commute(|q: QuarantinedFile| q@, rec);
            }
            working.push(rec);
            i += 1;
        }
        proof {
            assert(rows_model.take(rows@.len() as int) =~= rows_model);
        }
        let q = Quarantinizer { quarantine_dir, quarantined_files: working, db: Some(conn) };
        Ok(q)
    }

    /// Every record the durable store knows, in insertion order.  In
    /// ephemeral mode there is no store and the listing is empty.
    pub fn get_quarantined(&self) -> (r: Result<Vec<QuarantinedFile>, QuarantineError>)
        ensures
            self.store_model() matches Some(rows) ==> (r matches Ok(v) ==> v@.map_values(
                |q: QuarantinedFile| q@,
            ) == rows_as_records(rows)),
            self.store_model() is None ==> (r matches Ok(v) && v@.len() == 0),
            r matches Err(e) ==> e is Persistence && self.store_model() is Some,
    {
        match &self.db {
            None => Ok(Vec::new()),
            Some(conn) => {
                let rows = match store::select_quarantined_rows(conn) {
                    Ok(rows) => rows,
                    Err(e) => {
                        return Err(e);
                    },
                };
                let ghost rows_model = store::store_rows(*conn);
                let mut out: Vec<QuarantinedFile> = Vec::new();
                let mut i: usize = 0;
                while i < rows.len()
                    invariant
                        0 <= i <= rows.len(),
                        rows@.map_values(|x: StoreRow| x@) == rows_model,
                        out@.map_values(|q: QuarantinedFile| q@) == rows_as_records(
                            rows_model.take(i as int),
                        ),
                    decreases rows.len() - i,
                {
                    let row = &rows[i];
                    let ghost pre = out@;
                    let rec = QuarantinedFile {
                        original_path: row.original_path.clone(),
                        quarantine_path: Some(row.quarantine_path.clone()),
                        reason: row.reason.clone(),
                        quarantined_date: Some(row.quarantined_date.clone()),
                    };
                    proof {
                        assert(rows_model[i as int] == rows@[i as int]@);
                        assert(rec@ == row_record(rows_model[i as int]));
                        rows_model.lemma_map_take_succ(|r: RowModel| row_record(r), i as int);
                        pre.lemma_push_map_commute(|q: QuarantinedFile| q@, rec);
                    }
                    out.push(rec);
                    i += 1;
                }
                proof {
                    assert(rows_model.take(rows@.len() as int) =~= rows_model);
                }
                Ok(out)
            },
        }
    }

    /// Read-only projection over the store or the working set, depending on
    /// the requested filter.
    pub fn list(&self, mode: &ViewMode) -> (r: Result<Vec<QuarantinedFile>, QuarantineError>)
        ensures
            mode is Database ==> (self.store_model() matches Some(rows) ==> (r matches Ok(v)
                ==> v@.map_values(|q: QuarantinedFile| q@) == rows_as_records(rows))),
            mode is Database && self.store_model() is None ==> (r matches Ok(v) && v@.len() == 0),
            mode is Memory ==> (r matches Ok(v) && v@.map_values(|q: QuarantinedFile| q@)
                == self.records()),
            r matches Err(e) ==> e is Persistence,
    {
        match mode {
            ViewMode::Database => self.get_quarantined(),
            ViewMode::Memory => {
                let mut out: Vec<QuarantinedFile> = Vec::new();
                let mut i: usize = 0;
                while i < self.quarantined_files.len()
                    invariant
                        0 <= i <= self.quarantined_files.len(),
                        out@.map_values(|q: QuarantinedFile| q@) == self.records().take(i as int),
                    decreases self.quarantined_files.len() - i,
                {
                    out.push(self.quarantined_files[i].duplicate());
                    proof {
                        assert(self.records().take(i + 1) =~= self.records().take(i as int).push(
                            self.records()[i as int],
                        ));
                        assert(out@.map_values(|q: QuarantinedFile| q@) =~= self.records().take(
                            i + 1,
                        ));
                    }
                    i += 1;
                }
                proof {
                    assert(self.records().take(self.quarantined_files@.len() as int)
                        =~= self.records());
                }
                Ok(out)
            },
        }
    }
}

impl Quarantinizer {
    /// Plans the isolation step for every record that still needs it: reads
    /// the store snapshot, applies the idempotency test, and derives one
    /// exclusive-create target per record from its base name and a fresh
    /// clock stamp.  Planning changes nothing; the caller performs the
    /// filesystem work and reports the outcomes to `quarantine`.
    pub fn quarantine_plan(&self) -> (r: Result<Vec<IsolationTicket>, QuarantineError>)
        ensures
            r matches Ok(tickets) ==> plan_bases_ok(self.snapshot_model(), self.records()),
            r matches Ok(tickets) ==> exists|stamp: Seq<char>, date: Seq<char>|
                clock::valid_stamp(stamp) && tickets@.map_values(|t: IsolationTicket| t@)
                    == plan_model(
                    self.snapshot_model(),
                    self.records(),
                    self.dir(),
                    stamp,
                    date,
                    self.records().len() as int,
                ),
            r matches Err(e) ==> e is Isolation || e is Persistence,
            r matches Err(e) ==> (e is Isolation ==> !plan_bases_ok(
                self.snapshot_model(),
                self.records(),
            )),
            self.store_model() is None && plan_bases_ok(self.snapshot_model(), self.records())
                ==> r is Ok,
    {
        let rows: Vec<StoreRow> = match &self.db {
            Some(conn) => {
                match store::select_quarantined_rows(conn) {
                    Ok(rows) => rows,
                    Err(e) => {
                        return Err(e);
                    },
                }
            },
            None => Vec::new(),
        };
        proof {
            assert(rows@.map_values(|x: StoreRow| x@) =~= self.snapshot_model());
        }
        let stamp = clock::now_stamp();
        let date = clock::now_iso();
        let ghost snap = self.snapshot_model();
        let ghost recs = self.records();
        let mut tickets: Vec<IsolationTicket> = Vec::new();
        let mut i: usize = 0;
        while i < self.quarantined_files.len()
            invariant
                0 <= i <= self.quarantined_files.len(),
                snap == self.snapshot_model(),
                recs == self.records(),
                recs.len() == self.quarantined_files@.len(),
                rows@.map_values(|x: StoreRow| x@) == snap,
                clock::valid_stamp(stamp@),
                tickets@.map_values(|t: IsolationTicket| t@) == plan_model(
                    snap,
                    recs,
                    self.dir(),
                    stamp@,
                    date@,
                    i as int,
                ),
                forall|j: int|
                    0 <= j < i && needs_isolation(snap, recs, j) ==> base_of(
                        recs[j].original_path,
                    ).len() > 0,
            decreases self.quarantined_files.len() - i,
        {
            let qf = &self.quarantined_files[i];
            proof {
                assert(recs[i as int] == qf@);
            }
            if qf.quarantine_path.is_none() {
                let in_store = rows_have_orig(&rows, &qf.original_path);
                let in_working = working_has_contained(&self.quarantined_files, &qf.original_path);
                if !in_store && !in_working {
                    let base = base_name(&qf.original_path);
                    if base.as_str().is_empty() {
                        proof {
                            assert(needs_isolation(snap, recs, i as int));
                            assert(!plan_bases_ok(snap, recs));
                        }
                        return Err(
                            QuarantineError::Isolation {
                                path: qf.original_path.clone(),
                                message: String::from_str(
                                    "the path has no file name to contain",
                                ),
                            },
                        );
                    }
                    let ghost pre = tickets@;
                    let ticket = IsolationTicket {
                        index: i,
                        target_path: make_target(&self.quarantine_dir, &base, &stamp),
                        date: date.clone(),
                    };
                    proof {
                        assert(needs_isolation(snap, recs, i as int));
                        assert(ticket@ == TicketModel {
                            index: i as int,
                            target_path: target_of(
                                self.dir(),
                                base_of(recs[i as int].original_path),
                                stamp@,
                            ),
                            date: date@,
                        });
                        pre.lemma_push_map_commute(|t: IsolationTicket| t@, ticket);
                    }
                    tickets.push(ticket);
                } else {
                    proof {
                        assert(already_contained(snap, recs, recs[i as int].original_path));
                        assert(!needs_isolation(snap, recs, i as int));
                    }
                }
            } else {
                proof {
                    assert(!needs_isolation(snap, recs, i as int));
                }
            }
            i += 1;
        }
        proof {
            assert(clock::valid_stamp(stamp@) && tickets@.map_values(|t: IsolationTicket| t@)
                == plan_model(
                self.snapshot_model(),
                self.records(),
                self.dir(),
                stamp@,
                date@,
                self.records().len() as int,
            ));
        }
        Ok(tickets)
    }
}

/// One filesystem outcome, reported back for one planned isolation.
/// `Created` means the target was exclusively created, the original file's
/// bytes were fully transferred, every permission bit was revoked and the
/// original was neutralized.  `AlreadyExists` means the exclusive create
/// lost the race because the target name was already present: the record
/// counts as already contained.  `Failed` is any other filesystem error.
pub enum IsolationOutcome {
    Created,
    AlreadyExists,
    Failed { message: String },
}

/// A plan is well-formed against a working set: every ticket points at a
/// pending record, ticket indices strictly increase, and there is exactly
/// one outcome per ticket.
pub open spec fn tickets_valid(
    recs: Seq<RecordModel>,
    tickets: Seq<TicketModel>,
    outcomes: Seq<IsolationOutcome>,
) -> bool {
    &&& outcomes.len() == tickets.len()
    &&& forall|k: int|
        0 <= k < tickets.len() ==> 0 <= #[trigger] tickets[k].index < recs.len()
            && recs[tickets[k].index].quarantine_path is None
    &&& forall|k1: int, k2: int|
        #![trigger tickets[k1].index, tickets[k2].index]
        0 <= k1 < k2 < tickets.len() ==> tickets[k1].index < tickets[k2].index
}

/// How one outcome rewrites the record its ticket points at.
pub open spec fn outcome_record(
    prev: RecordModel,
    t: TicketModel,
    o: IsolationOutcome,
) -> RecordModel {
    match o {
        IsolationOutcome::Created => RecordModel {
            original_path: prev.original_path,
            quarantine_path: Some(t.target_path),
            reason: prev.reason,
            quarantined_date: Some(t.date),
        },
        IsolationOutcome::AlreadyExists => RecordModel {
            original_path: prev.original_path,
            quarantine_path: Some(t.target_path),
            reason: prev.reason,
            quarantined_date: prev.quarantined_date,
        },
        IsolationOutcome::Failed { .. } => prev,
    }
}

/// The working set after the first `n` outcomes have been applied.
pub open spec fn apply_outcomes(
    recs: Seq<RecordModel>,
    tickets: Seq<TicketModel>,
    outcomes: Seq<IsolationOutcome>,
    n: int,
) -> Seq<RecordModel>
    decreases n,
{
    if n <= 0 {
        recs
    } else {
        apply_outcomes(recs, tickets, outcomes, n - 1).update(
            tickets[n - 1].index,
            outcome_record(recs[tickets[n - 1].index], tickets[n - 1], outcomes[n - 1]),
        )
    }
}

/// The store rows appended for the first `n` tickets whose outcome is
/// `Created`: freshly contained records and no others are persisted.
pub open spec fn created_rows(
    recs: Seq<RecordModel>,
    tickets: Seq<TicketModel>,
    outcomes: Seq<IsolationOutcome>,
    n: int,
) -> Seq<RowModel>
    decreases n,
{
    if n <= 0 {
        Seq::empty()
    } else {
        let prefix = created_rows(recs, tickets, outcomes, n - 1);
        if outcomes[n - 1] is Created {
            prefix.push(
                (
                    recs[tickets[n - 1].index].original_path,
                    tickets[n - 1].target_path,
                    recs[tickets[n - 1].index].reason,
                    tickets[n - 1].date,
                ),
            )
        } else {
            prefix
        }
    }
}

pub open spec fn has_failure(outcomes: Seq<IsolationOutcome>) -> bool {
    exists|k: int| 0 <= k < outcomes.len() && outcomes[k] is Failed
}

/// The position of the first failed outcome.
pub open spec fn first_failure(outcomes: Seq<IsolationOutcome>) -> int
    decreases outcomes.len(),
{
    if outcomes.len() == 0 {
        0
    } else if outcomes.first() is Failed {
        0
    } else {
        1 + first_failure(outcomes.drop_first())
    }
}

proof fn lemma_first_failure_at(outcomes: Seq<IsolationOutcome>, j: int)
    requires
        0 <= j < outcomes.len(),
        outcomes[j] is Failed,
        forall|i: int| 0 <= i < j ==> !(outcomes[i] is Failed),
    ensures
        first_failure(outcomes) == j,
    decreases j,
{
    if j == 0 {
    } else {
        assert(!(outcomes.first() is Failed));
        lemma_first_failure_at(outcomes.drop_first(), j - 1);
    }
}

proof fn lemma_apply_outcomes_len(
    recs: Seq<RecordModel>,
    tickets: Seq<TicketModel>,
    outcomes: Seq<IsolationOutcome>,
    n: int,
)
    requires
        forall|k: int|
            0 <= k < tickets.len() ==> 0 <= #[trigger] tickets[k].index < recs.len(),
        n <= tickets.len(),
    ensures
        apply_outcomes(recs, tickets, outcomes, n).len() == recs.len(),
    decreases n,
{
    if n > 0 {
        lemma_apply_outcomes_len(recs, tickets, outcomes, n - 1);
    }
}

/// A record no ticket among the first `n` points at is left as it was.
proof fn lemma_apply_outcomes_untouched(
    recs: Seq<RecordModel>,
    tickets: Seq<TicketModel>,
    outcomes: Seq<IsolationOutcome>,
    n: int,
    i: int,
)
    requires
        forall|k: int|
            0 <= k < tickets.len() ==> 0 <= #[trigger] tickets[k].index < recs.len(),
        n <= tickets.len(),
        0 <= i < recs.len(),
        forall|k: int| 0 <= k < n ==> #[trigger] tickets[k].index != i,
    ensures
        apply_outcomes(recs, tickets, outcomes, n)[i] == recs[i],
    decreases n,
{
    if n > 0 {
        lemma_apply_outcomes_untouched(recs, tickets, outcomes, n - 1, i);
        lemma_apply_outcomes_len(recs, tickets, outcomes, n - 1);
    }
}

/// The record ticket `k` points at carries exactly its outcome once applied.
proof fn lemma_apply_outcomes_touched(
    recs: Seq<RecordModel>,
    tickets: Seq<TicketModel>,
    outcomes: Seq<IsolationOutcome>,
    n: int,
    k: int,
)
    requires
        forall|j: int|
            0 <= j < tickets.len() ==> 0 <= #[trigger] tickets[j].index < recs.len(),
        forall|j1: int, j2: int|
            #![trigger tickets[j1].index, tickets[j2].index]
            0 <= j1 < j2 < tickets.len() ==> tickets[j1].index < tickets[j2].index,
        0 <= k < n <= tickets.len(),
    ensures
        apply_outcomes(recs, tickets, outcomes, n)[tickets[k].index] == outcome_record(
            recs[tickets[k].index],
            tickets[k],
            outcomes[k],
        ),
    decreases n,
{
    lemma_apply_outcomes_len(recs, tickets, outcomes, n - 1);
    if k == n - 1 {
    } else {
        lemma_apply_outcomes_touched(recs, tickets, outcomes, n - 1, k);
    }
}

/// Mapping record views commutes with a single update.
proof fn lemma_map_update(s: Seq<QuarantinedFile>, i: int, x: QuarantinedFile)
    requires
        0 <= i < s.len(),
    ensures
        s.update(i, x).map_values(|q: QuarantinedFile| q@) == s.map_values(
            |q: QuarantinedFile| q@,
        ).update(i, x@),
{
    assert(s.update(i, x).map_values(|q: QuarantinedFile| q@) =~= s.map_values(
        |q: QuarantinedFile| q@,
    ).update(i, x@));
}

/// What a quarantine call guarantees when handed a well-formed plan: the
/// working set carries every outcome, freshly contained records (and no
/// others) are appended to the store in plan order up to the first store
/// failure, any filesystem failure is reported through the first failing
/// record's original path, and success is owed exactly when no outcome
/// failed and every append reached the store.
pub open spec fn quarantine_post(
    old_recs: Seq<RecordModel>,
    old_store: Option<Seq<RowModel>>,
    new_recs: Seq<RecordModel>,
    new_store: Option<Seq<RowModel>>,
    tickets: Seq<TicketModel>,
    outcomes: Seq<IsolationOutcome>,
    r: Result<(), QuarantineError>,
) -> bool {
    let n = tickets.len() as int;
    &&& new_recs == apply_outcomes(old_recs, tickets, outcomes, n)
    &&& (old_store is None ==> new_store is None)
    &&& (old_store matches Some(rows0) ==> exists|m: int|
        0 <= m <= n && new_store == Some(rows0 + created_rows(old_recs, tickets, outcomes, m)))
    &&& (r is Ok ==> !has_failure(outcomes))
    &&& (r is Ok ==> (old_store matches Some(rows0) ==> new_store == Some(
        rows0 + created_rows(old_recs, tickets, outcomes, n),
    )))
    &&& (has_failure(outcomes) ==> (r matches Err(e) && e matches QuarantineError::Isolation {
        path,
        ..
    } && path@ == old_recs[tickets[first_failure(outcomes)].index].original_path))
    &&& (!has_failure(outcomes) && old_store is None ==> r is Ok)
    &&& (!has_failure(outcomes) ==> (r is Ok || (r matches Err(e) && e is Persistence)))
}

impl Quarantinizer {
    /// Applies the reported filesystem outcomes to the working set and
    /// persists every freshly contained record.  A `Failed` outcome leaves
    /// its record pending and is reported through that record's original
    /// path, but it aborts neither the remaining records nor the appends
    /// for records that were contained in the same call.
    #[verifier::rlimit(100)]
    pub fn quarantine(&mut self, tickets: &Vec<IsolationTicket>, outcomes: &Vec<
        IsolationOutcome,
    >) -> (r: Result<(), QuarantineError>)
        ensures
            final(self).dir() == old(self).dir(),
            tickets_valid(
                old(self).records(),
                tickets@.map_values(|t: IsolationTicket| t@),
                outcomes@,
            ) ==> quarantine_post(
                old(self).records(),
                old(self).store_model(),
                final(self).records(),
                final(self).store_model(),
                tickets@.map_values(|t: IsolationTicket| t@),
                outcomes@,
                r,
            ),
            !tickets_valid(
                old(self).records(),
                tickets@.map_values(|t: IsolationTicket| t@),
                outcomes@,
            ) ==> (r matches Err(e) && e is Config && final(self).records() == old(self).records()
                && final(self).store_model() == old(self).store_model()),
    {
        let ghost recs0 = self.records();
        let ghost store0 = self.store_model();
        let ghost tm = tickets@.map_values(|t: IsolationTicket| t@);
        let ghost om = outcomes@;

        // Validate the plan against the working set.
        if outcomes.len() != tickets.len() {
            return Err(
                QuarantineError::Config {
                    message: String::from_str("one outcome is owed per planned isolation"),
                },
            );
        }
        let n = tickets.len();
        let mut k: usize = 0;
        while k < n
            invariant
                n == tickets@.len(),
                tm == tickets@.map_values(|t: IsolationTicket| t@),
                recs0 == self.records(),
                recs0.len() == self.quarantined_files@.len(),
                0 <= k <= n,
                forall|j: int|
                    0 <= j < k ==> 0 <= #[trigger] tm[j].index < recs0.len()
                        && recs0[tm[j].index].quarantine_path is None,
                forall|j1: int, j2: int|
                    #![trigger tm[j1].index, tm[j2].index]
                    0 <= j1 < j2 < k ==> tm[j1].index < tm[j2].index,
            decreases n - k,
        {
            let idx = tickets[k].index;
            if idx >= self.quarantined_files.len() {
                return Err(
                    QuarantineError::Config {
                        message: String::from_str("a ticket points outside the working set"),
                    },
                );
            }
            if self.quarantined_files[idx].quarantine_path.is_some() {
                proof {
                    assert(tm[k as int].index == idx as int);
                    assert(recs0[tm[k as int].index] == self.quarantined_files@[idx as int]@);
                    assert(recs0[tm[k as int].index].quarantine_path is Some);
                    assert(!tickets_valid(recs0, tm, om));
                }
                return Err(
                    QuarantineError::Config {
                        message: String::from_str("a ticket points at a contained record"),
                    },
                );
            }
            if k > 0 && tickets[k - 1].index >= idx {
                proof {
                    assert(tm[k as int].index == idx as int);
                    assert(tm[k as int - 1].index >= idx as int);
                    assert(!tickets_valid(recs0, tm, om));
                }
                return Err(
                    QuarantineError::Config {
                        message: String::from_str("tickets must follow working-set order"),
                    },
                );
            }
            proof {
                assert(recs0[tm[k as int].index] == self.quarantined_files@[idx as int]@);
                assert(tm[k as int].index == idx as int);
                assert forall|j1: int, j2: int|
                    0 <= j1 < j2 < k + 1 implies #[trigger] tm[j1].index < #[trigger] tm[
                    j2
                ].index by {
                    if j2 == k as int && j1 < k - 1 {
                        assert(tm[j1].index < tm[k as int - 1].index);
                    }
                }
            }
            k += 1;
        }
        proof {
            assert(tickets_valid(recs0, tm, om));
        }

        // Apply every outcome to the working set; remember the first failure.
        let mut isolation_err: Option<QuarantineError> = None;
        let mut k: usize = 0;
        while k < n
            invariant
                n == tickets@.len(),
                n == outcomes@.len(),
                tm == tickets@.map_values(|t: IsolationTicket| t@),
                om == outcomes@,
                tickets_valid(recs0, tm, om),
                recs0.len() == self.quarantined_files@.len(),
                0 <= k <= n,
                self.dir() == old(self).dir(),
                self.store_model() == store0,
                self.records() == apply_outcomes(recs0, tm, om, k as int),
                match isolation_err {
                    None => forall|j: int| 0 <= j < k ==> !(om[j] is Failed),
                    Some(e) => has_failure(om) && first_failure(om) < k && (e matches
                        QuarantineError::Isolation { path, .. } && path@ == recs0[tm[
                        first_failure(om)
                    ].index].original_path),
                },
            decreases n - k,
        {
            proof {
                lemma_apply_outcomes_len(recs0, tm, om, k as int);
            }
            let idx = tickets[k].index;
            proof {
                assert(tm[k as int].index == idx as int);
                assert forall|j: int| 0 <= j < k implies #[trigger] tm[j].index != idx as int by {
                    assert(tm[j].index < tm[k as int].index);
                }
                lemma_apply_outcomes_untouched(recs0, tm, om, k as int, idx as int);
                assert(self.records()[idx as int] == recs0[idx as int]);
                assert(self.quarantined_files@[idx as int]@ == recs0[idx as int]);
            }
            match &outcomes[k] {
                IsolationOutcome::Created => {
                    let prev_rec = &self.quarantined_files[idx];
                    let new_rec = QuarantinedFile {
                        original_path: prev_rec.original_path.clone(),
                        quarantine_path: Some(tickets[k].target_path.clone()),
                        reason: prev_rec.reason.clone(),
                        quarantined_date: Some(tickets[k].date.clone()),
                    };
                    proof {
                        assert(new_rec@ == outcome_record(recs0[idx as int], tm[k as int], om[
                            k as int
                        ]));
                    }
                    let ghost pre = self.quarantined_files@;
                    self.quarantined_files[idx] = new_rec;
                    proof {
                        lemma_map_update(pre, idx as int, self.quarantined_files@[idx as int]);
                    }
                },
                IsolationOutcome::AlreadyExists => {
                    let prev_rec = &self.quarantined_files[idx];
                    let new_rec = QuarantinedFile {
                        original_path: prev_rec.original_path.clone(),
                        quarantine_path: Some(tickets[k].target_path.clone()),
                        reason: prev_rec.reason.clone(),
                        quarantined_date: match &prev_rec.quarantined_date {
                            Some(d) => Some(d.clone()),
                            None => None,
                        },
                    };
                    proof {
                        assert(new_rec@ == outcome_record(recs0[idx as int], tm[k as int], om[
                            k as int
                        ]));
                    }
                    let ghost pre = self.quarantined_files@;
                    self.quarantined_files[idx] = new_rec;
                    proof {
                        lemma_map_update(pre, idx as int, self.quarantined_files@[idx as int]);
                    }
                },
                IsolationOutcome::Failed { message } => {
                    if isolation_err.is_none() {
                        proof {
                            lemma_first_failure_at(om, k as int);
                        }
                        isolation_err = Some(
                            QuarantineError::Isolation {
                                path: self.quarantined_files[idx].original_path.clone(),
                                message: message.clone(),
                            },
                        );
                    }
                    proof {
                        assert(apply_outcomes(recs0, tm, om, k + 1) =~= apply_outcomes(
                            recs0,
                            tm,
                            om,
                            k as int,
                        ).update(idx as int, recs0[idx as int]));
                    }
                },
            }
            k += 1;
        }

        // Persist every freshly contained record, in plan order, stopping
        // only when the store itself fails.
        let mut persist_err: Option<QuarantineError> = None;
        let ghost recs_applied = self.records();
        let mut k: usize = 0;
        while k < n
            invariant
                n == tickets@.len(),
                n == outcomes@.len(),
                tm == tickets@.map_values(|t: IsolationTicket| t@),
                om == outcomes@,
                tickets_valid(recs0, tm, om),
                recs0.len() == self.quarantined_files@.len(),
                0 <= k <= n,
                self.dir() == old(self).dir(),
                self.records() == recs_applied,
                recs_applied == apply_outcomes(recs0, tm, om, n as int),
                store0 is None ==> self.store_model() is None && persist_err is None,
                store0 matches Some(rows0) ==> match persist_err {
                    None => self.store_model() == Some(
                        rows0 + created_rows(recs0, tm, om, k as int),
                    ),
                    Some(e) => exists|m: int|
                        0 <= m <= k && self.store_model() == Some(
                            rows0 + created_rows(recs0, tm, om, m),
                        ),
                },
                persist_err matches Some(e) ==> e is Persistence,
            decreases n - k,
        {
            let idx = tickets[k].index;
            let mut do_insert = persist_err.is_none();
            match &outcomes[k] {
                IsolationOutcome::Created => {},
                _ => {
                    do_insert = false;
                },
            }
            if do_insert {
                proof {
                    assert(tm[k as int].index == idx as int);
                    lemma_apply_outcomes_len(recs0, tm, om, n as int);
                    lemma_apply_outcomes_touched(recs0, tm, om, n as int, k as int);
                    assert(self.quarantined_files@[idx as int]@ == outcome_record(
                        recs0[idx as int],
                        tm[k as int],
                        om[k as int],
                    ));
                }
                let rec = &self.quarantined_files[idx];
                let row = StoreRow {
                    original_path: rec.original_path.clone(),
                    quarantine_path: tickets[k].target_path.clone(),
                    reason: rec.reason.clone(),
                    quarantined_date: tickets[k].date.clone(),
                };
                proof {
                    assert(row@ == (
                        recs0[idx as int].original_path,
                        tm[k as int].target_path,
                        recs0[idx as int].reason,
                        tm[k as int].date,
                    ));
                }
                match &mut self.db {
                    Some(conn) => {
                        match store::insert_quarantined_row(conn, &row) {
                            Ok(_) => {},
                            Err(e) => {
                                persist_err = Some(e);
                            },
                        }
                    },
                    None => {},
                }
            }
            k += 1;
        }

        proof {
            assert(om.take(n as int) =~= om);
        }
        match isolation_err {
            Some(e) => Err(e),
            None => match persist_err {
                Some(e) => Err(e),
                None => Ok(()),
            },
        }
    }
}

/// What `push_quarantined` answers: the candidate is already covered by a
/// known containment (`Done`), or one isolation must be performed and
/// reported to `finish_push` (`Isolate`).
pub enum PushStep {
    Done,
    Isolate(IsolationTicket),
}

/// A finish ticket is well-formed: it points at the last working-set
/// record, which is still pending.
pub open spec fn finish_valid(recs: Seq<RecordModel>, t: TicketModel) -> bool {
    recs.len() > 0 && t.index == recs.len() - 1 && recs.last().quarantine_path is None
}

impl Quarantinizer {
    /// Appends a candidate record to the working set and decides its
    /// containment.  A candidate whose original path is already contained —
    /// durably or in memory — is an idempotent skip: the call succeeds with
    /// `Done` and no filesystem work.  Otherwise the caller must perform
    /// the returned isolation and hand the outcome to `finish_push`.  On
    /// failure nothing is appended: a failed attempt leaves no partial
    /// record behind.
    pub fn push_quarantined(&mut self, quarantined: QuarantinedFile) -> (r: Result<
        PushStep,
        QuarantineError,
    >)
        ensures
            final(self).dir() == old(self).dir(),
            final(self).store_model() == old(self).store_model(),
            r matches Err(e) ==> final(self).records() == old(self).records() && (e is Isolation
                || e is Persistence),
            r matches Err(e) ==> (e is Isolation ==> quarantined@.quarantine_path is None
                && base_of(quarantined@.original_path).len() == 0),
            r is Ok ==> final(self).records() == old(self).records().push(quarantined@),
            r matches Ok(step) ==> (step is Done ==> (quarantined@.quarantine_path is Some
                || already_contained(
                old(self).snapshot_model(),
                old(self).records(),
                quarantined@.original_path,
            ))),
            r matches Ok(step) ==> (step matches PushStep::Isolate(t)
                ==> quarantined@.quarantine_path is None && !already_contained(
                old(self).snapshot_model(),
                old(self).records(),
                quarantined@.original_path,
            ) && t@.index == old(self).records().len() && t@.date.len() >= 1 && exists|
                stamp: Seq<char>,
            |
                clock::valid_stamp(stamp) && t@.target_path == target_of(
                    old(self).dir(),
                    base_of(quarantined@.original_path),
                    stamp,
                )),
            quarantined@.quarantine_path is None && base_of(quarantined@.original_path).len() == 0
                ==> (r matches Err(e) && e is Isolation),
            old(self).store_model() is None && (quarantined@.quarantine_path is Some || base_of(
                quarantined@.original_path,
            ).len() > 0) ==> r is Ok,
    {
        let ghost recs0 = self.records();
        if quarantined.quarantine_path.is_some() {
            let ghost cand = quarantined@;
            let ghost pre = self.quarantined_files@;
            proof {
                pre.lemma_push_map_commute(|q: QuarantinedFile| q@, quarantined);
            }
            self.quarantined_files.push(quarantined);
            return Ok(PushStep::Done);
        }
        let base = base_name(&quarantined.original_path);
        if base.as_str().is_empty() {
            return Err(
                QuarantineError::Isolation {
                    path: quarantined.original_path,
                    message: String::from_str("the path has no file name to contain"),
                },
            );
        }
        let rows: Vec<StoreRow> = match &self.db {
            Some(conn) => {
                match store::select_quarantined_rows(conn) {
                    Ok(rows) => rows,
                    Err(e) => {
                        return Err(e);
                    },
                }
            },
            None => Vec::new(),
        };
        proof {
            assert(rows@.map_values(|x: StoreRow| x@) =~= self.snapshot_model());
        }
        let in_store = rows_have_orig(&rows, &quarantined.original_path);
        let in_working = working_has_contained(&self.quarantined_files, &quarantined.original_path);
        if in_store || in_working {
            let ghost pre = self.quarantined_files@;
            proof {
                pre.lemma_push_map_commute(|q: QuarantinedFile| q@, quarantined);
            }
            self.quarantined_files.push(quarantined);
            return Ok(PushStep::Done);
        }
        let stamp = clock::now_stamp();
        let date = clock::now_iso();
        let target = make_target(&self.quarantine_dir, &base, &stamp);
        let index = self.quarantined_files.len();
        let ghost pre = self.quarantined_files@;
        proof {
            pre.lemma_push_map_commute(|q: QuarantinedFile| q@, quarantined);
        }
        let ghost cand = quarantined@;
        self.quarantined_files.push(quarantined);
        let ticket = IsolationTicket { index, target_path: target, date };
        proof {
            assert(clock::valid_stamp(stamp@) && ticket@.target_path == target_of(
                old(self).dir(),
                base_of(cand.original_path),
                stamp@,
            ));
        }
        Ok(PushStep::Isolate(ticket))
    }

    /// Applies the filesystem outcome of the isolation that
    /// `push_quarantined` asked for.  On `Created` the record is marked
    /// contained and persisted; on `AlreadyExists` it is marked contained
    /// without a new store row (the containment that won the race owns the
    /// row); on `Failed` the append is undone, so a failed attempt leaves
    /// no partial record visible.  A store failure after a successful
    /// containment is reported, never masked: the record stays contained.
    pub fn finish_push(&mut self, ticket: &IsolationTicket, outcome: &IsolationOutcome) -> (r:
        Result<(), QuarantineError>)
        ensures
            final(self).dir() == old(self).dir(),
            !finish_valid(old(self).records(), ticket@) ==> (r matches Err(e) && e is Config
                && final(self).records() == old(self).records() && final(self).store_model()
                == old(self).store_model()),
            finish_valid(old(self).records(), ticket@) ==> match outcome {
                IsolationOutcome::Created => final(self).records() == old(self).records().update(
                    old(self).records().len() - 1,
                    outcome_record(old(self).records().last(), ticket@, IsolationOutcome::Created),
                ),
                IsolationOutcome::AlreadyExists => r is Ok && final(self).records() == old(
                    self,
                ).records().update(
                    old(self).records().len() - 1,
                    outcome_record(
                        old(self).records().last(),
                        ticket@,
                        IsolationOutcome::AlreadyExists,
                    ),
                ) && final(self).store_model() == old(self).store_model(),
                IsolationOutcome::Failed { .. } => final(self).records() == old(
                    self,
                ).records().drop_last() && final(self).store_model() == old(self).store_model(),
            },
            finish_valid(old(self).records(), ticket@) ==> (outcome matches
                IsolationOutcome::Failed { message } ==> (r matches Err(e) && e matches
                QuarantineError::Isolation { path, message: m } && path@ == old(
                self,
            ).records().last().original_path && m@ == message@)),
            finish_valid(old(self).records(), ticket@) && outcome is Created ==> (old(
                self,
            ).store_model() is None ==> r is Ok && final(self).store_model() is None),
            finish_valid(old(self).records(), ticket@) && outcome is Created ==> (old(
                self,
            ).store_model() matches Some(rows0) ==> (r is Ok ==> final(self).store_model() == Some(
                rows0.push(
                    (
                        old(self).records().last().original_path,
                        ticket@.target_path,
                        old(self).records().last().reason,
                        ticket@.date,
                    ),
                ),
            ))),
            finish_valid(old(self).records(), ticket@) && outcome is Created ==> (r matches Err(e)
                ==> e is Persistence && final(self).store_model() == old(self).store_model()),
    {
        let ghost recs0 = self.records();
        let len = self.quarantined_files.len();
        if len == 0 || ticket.index != len - 1 {
            return Err(
                QuarantineError::Config {
                    message: String::from_str("the ticket does not match the pending record"),
                },
            );
        }
        if self.quarantined_files[len - 1].quarantine_path.is_some() {
            proof {
                assert(recs0.last() == self.quarantined_files@[len - 1]@);
            }
            return Err(
                QuarantineError::Config {
                    message: String::from_str("the record is already contained"),
                },
            );
        }
        proof {
            assert(recs0.last() == self.quarantined_files@[len - 1]@);
            assert(finish_valid(recs0, ticket@));
        }
        match outcome {
            IsolationOutcome::Created => {
                let prev_rec = &self.quarantined_files[len - 1];
                let new_rec = QuarantinedFile {
                    original_path: prev_rec.original_path.clone(),
                    quarantine_path: Some(ticket.target_path.clone()),
                    reason: prev_rec.reason.clone(),
                    quarantined_date: Some(ticket.date.clone()),
                };
                let row = StoreRow {
                    original_path: prev_rec.original_path.clone(),
                    quarantine_path: ticket.target_path.clone(),
                    reason: prev_rec.reason.clone(),
                    quarantined_date: ticket.date.clone(),
                };
                proof {
                    assert(new_rec@ == outcome_record(recs0.last(), ticket@,
                        IsolationOutcome::Created));
                }
                let ghost pre = self.quarantined_files@;
                self.quarantined_files[len - 1] = new_rec;
                proof {
                    lemma_map_update(pre, len - 1 as int, self.quarantined_files@[len - 1]);
                }
                match &mut self.db {
                    Some(conn) => {
                        match store::insert_quarantined_row(conn, &row) {
                            Ok(_) => Ok(()),
                            Err(e) => Err(e),
                        }
                    },
                    None => Ok(()),
                }
            },
            IsolationOutcome::AlreadyExists => {
                let prev_rec = &self.quarantined_files[len - 1];
                let new_rec = QuarantinedFile {
                    original_path: prev_rec.original_path.clone(),
                    quarantine_path: Some(ticket.target_path.clone()),
                    reason: prev_rec.reason.clone(),
                    quarantined_date: match &prev_rec.quarantined_date {
                        Some(d) => Some(d.clone()),
                        None => None,
                    },
                };
                proof {
                    assert(new_rec@ == outcome_record(recs0.last(), ticket@,
                        IsolationOutcome::AlreadyExists));
                }
                let ghost pre = self.quarantined_files@;
                self.quarantined_files[len - 1] = new_rec;
                proof {
                    lemma_map_update(pre, len - 1 as int, self.quarantined_files@[len - 1]);
                }
                Ok(())
            },
            IsolationOutcome::Failed { message } => {
                let ghost pre = self.quarantined_files@;
                let popped = self.quarantined_files.pop();
                let rec = popped.unwrap();
                proof {
                    assert(rec@ == recs0.last());
                    assert(self.quarantined_files@.map_values(|q: QuarantinedFile| q@)
                        =~= recs0.drop_last());
                }
                Err(
                    QuarantineError::Isolation {
                        path: rec.original_path,
                        message: message.clone(),
                    },
                )
            },
        }
    }
}

/// A target path is never empty, and it decomposes exactly into the
/// isolation directory, a separator, the base name, an underscore and the
/// stamp — so the file created for a containment of base name `b` lives in
/// the isolation directory under a name that starts with `b` followed by
/// an underscore.
pub proof fn lemma_target_shape(dir: Seq<char>, base: Seq<char>, stamp: Seq<char>)
    ensures
        target_of(dir, base, stamp).len() > 0,
        target_of(dir, base, stamp).take((dir.len() + 1 + base.len() + 1) as int) == dir + seq![
            '/',
        ] + base + seq!['_'],
        target_of(dir, base, stamp).skip((dir.len() + 1 + base.len() + 1) as int) == stamp,
{
    assert(target_of(dir, base, stamp).take((dir.len() + 1 + base.len() + 1) as int) =~= dir
        + seq!['/'] + base + seq!['_']);
    assert(target_of(dir, base, stamp).skip((dir.len() + 1 + base.len() + 1) as int) =~= stamp);
}

/// Idempotence: once a containment for an original path is known — as a
/// contained record in the working set or as a row in the durable store —
/// a record enqueued later for the same original path never needs
/// isolation: the engine performs no second filesystem copy and appends no
/// second row for it.
pub proof fn lemma_containment_idempotent(
    rows: Seq<RowModel>,
    recs: Seq<RecordModel>,
    cand: RecordModel,
)
    requires
        already_contained(rows, recs, cand.original_path),
    ensures
        !needs_isolation(rows, recs.push(cand), recs.len() as int),
{
    if rows_have_original(rows, cand.original_path) {
    } else {
        let j = choose|j: int|
            0 <= j < recs.len() && recs[j].quarantine_path is Some && recs[j].original_path
                == cand.original_path;
        assert(recs.push(cand)[j].quarantine_path is Some && recs.push(cand)[j].original_path
            == cand.original_path);
    }
}

/// A containment that was just applied makes its original path known to
/// the idempotency test: the updated record is contained under the same
/// original path.
pub proof fn lemma_containment_marks_contained(
    rows: Seq<RowModel>,
    recs: Seq<RecordModel>,
    i: int,
    t: TicketModel,
)
    requires
        0 <= i < recs.len(),
    ensures
        already_contained(
            rows,
            recs.update(i, outcome_record(recs[i], t, IsolationOutcome::Created)),
            recs[i].original_path,
        ),
{
    let updated = recs.update(i, outcome_record(recs[i], t, IsolationOutcome::Created));
    assert(updated[i].quarantine_path is Some && updated[i].original_path
        == recs[i].original_path);
}

/// A row appended for a containment makes its original path known to the
/// idempotency test through the store as well, whatever the working set.
pub proof fn lemma_row_marks_contained(
    rows: Seq<RowModel>,
    row: RowModel,
    recs: Seq<RecordModel>,
)
    ensures
        already_contained(rows.push(row), recs, row.0),
{
    assert(rows.push(row)[rows.len() as int].0 == row.0);
}

/// Every record read back from the store is contained.
pub proof fn lemma_loaded_records_contained(rows: Seq<RowModel>)
    ensures
        forall|i: int|
            0 <= i < rows_as_records(rows).len() ==> #[trigger] rows_as_records(
                rows,
            )[i].quarantine_path is Some,
{
}

/// A working set whose records are all contained plans no isolation work.
pub proof fn lemma_plan_empty_when_all_contained(
    rows: Seq<RowModel>,
    recs: Seq<RecordModel>,
    dir: Seq<char>,
    stamp: Seq<char>,
    date: Seq<char>,
    n: int,
)
    requires
        n <= recs.len(),
        forall|i: int| 0 <= i < recs.len() ==> #[trigger] recs[i].quarantine_path is Some,
    ensures
        plan_model(rows, recs, dir, stamp, date, n) == Seq::<TicketModel>::empty(),
    decreases n,
{
    if n > 0 {
        lemma_plan_empty_when_all_contained(rows, recs, dir, stamp, date, n - 1);
    }
}

/// Crash-recovery reload: an engine whose working set was loaded from the
/// store plans no isolation at all, so a quarantine pass after a restart
/// performs no new filesystem writes — a pure idempotent skip.
pub proof fn lemma_reload_plans_nothing(
    rows: Seq<RowModel>,
    dir: Seq<char>,
    stamp: Seq<char>,
    date: Seq<char>,
)
    ensures
        plan_model(rows, rows_as_records(rows), dir, stamp, date, rows_as_records(rows).len() as int)
            == Seq::<TicketModel>::empty(),
{
    lemma_loaded_records_contained(rows);
    lemma_plan_empty_when_all_contained(
        rows,
        rows_as_records(rows),
        dir,
        stamp,
        date,
        rows_as_records(rows).len() as int,
    );
}

/// Failure isolation: when exactly one planned record fails, every other
/// planned record still carries its outcome — records already contained in
/// the same call stay contained — while the failing record is left as it
/// was, and the call's error names exactly the failing record's original
/// path.
pub proof fn lemma_failure_isolation(
    recs: Seq<RecordModel>,
    tickets: Seq<TicketModel>,
    outcomes: Seq<IsolationOutcome>,
    k: int,
)
    requires
        tickets_valid(recs, tickets, outcomes),
        0 <= k < outcomes.len(),
        outcomes[k] is Failed,
        forall|j: int| 0 <= j < outcomes.len() && j != k ==> !(#[trigger] outcomes[j] is Failed),
    ensures
        has_failure(outcomes),
        first_failure(outcomes) == k,
        forall|j: int|
            0 <= j < tickets.len() && j != k ==> apply_outcomes(
                recs,
                tickets,
                outcomes,
                tickets.len() as int,
            )[#[trigger] tickets[j].index] == outcome_record(
                recs[tickets[j].index],
                tickets[j],
                outcomes[j],
            ),
        apply_outcomes(recs, tickets, outcomes, tickets.len() as int)[tickets[k].index] == recs[
            tickets[k].index
        ],
{
    lemma_first_failure_at(outcomes, k);
    assert forall|j: int| 0 <= j < tickets.len() implies apply_outcomes(
        recs,
        tickets,
        outcomes,
        tickets.len() as int,
    )[#[trigger] tickets[j].index] == outcome_record(
        recs[tickets[j].index],
        tickets[j],
        outcomes[j],
    ) by {
        lemma_apply_outcomes_touched(recs, tickets, outcomes, tickets.len() as int, j);
    }
}

/// Listing: two successful containments append their two rows, and the
/// store listing then shows exactly two more records whose quarantine
/// paths are the two target paths — distinct and non-empty.
pub proof fn lemma_listing_after_two_containments(
    rows0: Seq<RowModel>,
    row1: RowModel,
    row2: RowModel,
)
    requires
        row1.1.len() > 0,
        row2.1.len() > 0,
        row1.1 != row2.1,
    ensures
        ({
            let listing = rows_as_records(rows0.push(row1).push(row2));
            &&& listing.len() == rows0.len() + 2
            &&& listing[rows0.len() as int].quarantine_path == Some(row1.1)
            &&& listing[rows0.len() as int + 1].quarantine_path == Some(row2.1)
            &&& listing[rows0.len() as int].quarantine_path != listing[rows0.len() as int
                + 1].quarantine_path
            &&& listing[rows0.len() as int].quarantine_path != Some(Seq::<char>::empty())
            &&& listing[rows0.len() as int + 1].quarantine_path != Some(Seq::<char>::empty())
        }),
{
    let listing = rows_as_records(rows0.push(row1).push(row2));
    assert(listing[rows0.len() as int] == row_record(row1));
    assert(listing[rows0.len() as int + 1] == row_record(row2));
}

} // verus!
