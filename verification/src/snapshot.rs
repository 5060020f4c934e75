//! Refreshing the private snapshot of a database: what is copied, and when the copy is repeated
//! because the source changed meanwhile.

use crate::live_db::{SourceMainSignature, WalSignature};
use crate::text::opt_text;
use crate::text_map::TextMap;
use vstd::prelude::*;

verus! {

// ---------------------------------------------------------------------------
// Files and operations
// ---------------------------------------------------------------------------

/// The files of a database and of its snapshot. The index that lies beside the database itself is
/// there to be left alone: no operation of a refresh names it.
#[derive(Debug, Clone, Copy, PartialEq, Eq, Structural)]
pub enum FileRole {
    SourceMain,
    LiveWal,
    SourceShm,
    SnapshotMain,
    SnapshotWal,
    SnapshotWalTmp,
    SnapshotShm,
}

/// One operation of a pass over the files.
#[derive(Debug, Clone, Copy, PartialEq, Eq, Structural)]
pub enum CopyOp {
    CopyMain,
    CopyWal,
    RenameWal { bytes: u64 },
    CheckWal,
    RemoveWal,
    RemoveShm,
}

/// What an operation does to the files.
#[derive(Debug, Clone, Copy, PartialEq, Eq, Structural)]
pub enum FileAction {
    Copy { from: FileRole, to: FileRole },
    Rename { from: FileRole, to: FileRole },
    Remove(FileRole),
    Exists(FileRole),
}

/// What an operation does to the files.
pub open spec fn action_of(op: CopyOp) -> FileAction {
    match op {
        CopyOp::CopyMain => FileAction::Copy {
            from: FileRole::SourceMain,
            to: FileRole::SnapshotMain,
        },
        CopyOp::CopyWal => FileAction::Copy {
            from: FileRole::LiveWal,
            to: FileRole::SnapshotWalTmp,
        },
        CopyOp::RenameWal { .. } => FileAction::Rename {
            from: FileRole::SnapshotWalTmp,
            to: FileRole::SnapshotWal,
        },
        CopyOp::CheckWal => FileAction::Exists(FileRole::SnapshotWal),
        CopyOp::RemoveWal => FileAction::Remove(FileRole::SnapshotWal),
        CopyOp::RemoveShm => FileAction::Remove(FileRole::SnapshotShm),
    }
}

impl CopyOp {
    /// What the operation does to the files.
    pub fn action(&self) -> (r: FileAction)
        ensures
            r == action_of(*self),
    {
        match self {
            CopyOp::CopyMain => FileAction::Copy {
                from: FileRole::SourceMain,
                to: FileRole::SnapshotMain,
            },
            CopyOp::CopyWal => FileAction::Copy {
                from: FileRole::LiveWal,
                to: FileRole::SnapshotWalTmp,
            },
            CopyOp::RenameWal { .. } => FileAction::Rename {
                from: FileRole::SnapshotWalTmp,
                to: FileRole::SnapshotWal,
            },
            CopyOp::CheckWal => FileAction::Exists(FileRole::SnapshotWal),
            CopyOp::RemoveWal => FileAction::Remove(FileRole::SnapshotWal),
            CopyOp::RemoveShm => FileAction::Remove(FileRole::SnapshotShm),
        }
    }
}

/// The name of a file of the snapshot in the cache; the source has none there.
pub open spec fn snapshot_name(role: FileRole, db_name: Seq<char>) -> Option<Seq<char>> {
    match role {
        FileRole::SnapshotMain => Some(db_name),
        FileRole::SnapshotWal => Some(db_name + "-wal"@),
        FileRole::SnapshotWalTmp => Some(db_name + "-wal.tmp"@),
        FileRole::SnapshotShm => Some(db_name + "-shm"@),
        _ => None,
    }
}

fn with_ending(name: &str, ending: &str) -> (r: String)
    ensures
        r@ == name@ + ending@,
{
    let mut out = name.to_owned();
    out.append(ending);
    out
}

impl FileRole {
    /// The name of the file in the cache, if it is one of the snapshot.
    pub fn name_in_cache(&self, db_name: &str) -> (r: Option<String>)
        ensures
            opt_text(r) == snapshot_name(*self, db_name@),
    {
        match self {
            FileRole::SnapshotMain => Some(db_name.to_owned()),
            FileRole::SnapshotWal => Some(with_ending(db_name, "-wal")),
            FileRole::SnapshotWalTmp => Some(with_ending(db_name, "-wal.tmp")),
            FileRole::SnapshotShm => Some(with_ending(db_name, "-shm")),
            _ => None,
        }
    }
}

// ---------------------------------------------------------------------------
// The cache
// ---------------------------------------------------------------------------

/// The signatures of a database and its log, as far as they could be read.
#[derive(Clone, Copy, Debug)]
pub struct DbCacheState {
    pub source_main_sig: Option<SourceMainSignature>,
    pub wal_sig: Option<WalSignature>,
}

/// What is known of the snapshots, and what was copied so far.
#[derive(Debug)]
pub struct SnapshotCache {
    pub states: TextMap<DbCacheState>,
    pub main_copies: u64,
    pub wal_copies: u64,
    pub bytes_written: u64,
}

/// What a [`SnapshotCache`] holds.
pub struct Cache {
    pub states: Map<Seq<char>, DbCacheState>,
    pub main_copies: u64,
    pub wal_copies: u64,
    pub bytes_written: u64,
}

impl View for SnapshotCache {
    type V = Cache;

    open spec fn view(&self) -> Cache {
        Cache {
            states: self.states@,
            main_copies: self.main_copies,
            wal_copies: self.wal_copies,
            bytes_written: self.bytes_written,
        }
    }
}

impl SnapshotCache {
    /// A cache that knows of no snapshot.
    pub fn new() -> (r: SnapshotCache)
        ensures
            r@ == (Cache {
                states: Map::empty(),
                main_copies: 0,
                wal_copies: 0,
                bytes_written: 0,
            }),
    {
        SnapshotCache { states: TextMap::new(), main_copies: 0, wal_copies: 0, bytes_written: 0 }
    }
}

/// The key of a snapshot in the cache.
pub open spec fn cache_key(session_id: Seq<char>, db_name: Seq<char>) -> Seq<char> {
    session_id + ":"@ + db_name
}

/// Whether the log is of another generation: both signatures are known and their salts differ.
pub open spec fn generation_changed(a: Option<WalSignature>, b: Option<WalSignature>) -> bool {
    a is Some && b is Some && (a->Some_0.salt1 != b->Some_0.salt1 || a->Some_0.salt2
        != b->Some_0.salt2)
}

/// Whether the whole snapshot has to be built anew: nothing is known of it, it is not there, the
/// database has changed, or the log is of another generation.
pub open spec fn needs_full_rebuild(
    prev: Option<DbCacheState>,
    snapshot_exists: bool,
    now: DbCacheState,
) -> bool {
    match prev {
        None => true,
        Some(st) => !snapshot_exists || st.source_main_sig != now.source_main_sig
            || generation_changed(st.wal_sig, now.wal_sig),
    }
}

/// Whether a repeated copy has to build the whole snapshot anew.
pub open spec fn needs_rebuild_on_retry(before: DbCacheState, after: DbCacheState) -> bool {
    after.source_main_sig != before.source_main_sig || generation_changed(
        before.wal_sig,
        after.wal_sig,
    )
}

fn same_main(a: &Option<SourceMainSignature>, b: &Option<SourceMainSignature>) -> (r: bool)
    ensures
        r == (*a == *b),
{
    match (a, b) {
        (Some(x), Some(y)) => *x == *y,
        (None, None) => true,
        _ => false,
    }
}

fn same_wal(a: &Option<WalSignature>, b: &Option<WalSignature>) -> (r: bool)
    ensures
        r == (*a == *b),
{
    match (a, b) {
        (Some(x), Some(y)) => *x == *y,
        (None, None) => true,
        _ => false,
    }
}

fn wal_generation_changed(a: &Option<WalSignature>, b: &Option<WalSignature>) -> (r: bool)
    ensures
        r == generation_changed(*a, *b),
{
    match (a, b) {
        (Some(x), Some(y)) => x.salt1 != y.salt1 || x.salt2 != y.salt2,
        _ => false,
    }
}

/// Decides whether the whole snapshot has to be built anew.
pub fn must_rebuild(prev: Option<&DbCacheState>, snapshot_exists: bool, now: &DbCacheState) -> (r:
    bool)
    ensures
        r == needs_full_rebuild(
            match prev {
                Some(st) => Some(*st),
                None => None,
            },
            snapshot_exists,
            *now,
        ),
{
    match prev {
        None => true,
        Some(st) => !snapshot_exists || !same_main(&st.source_main_sig, &now.source_main_sig)
            || wal_generation_changed(&st.wal_sig, &now.wal_sig),
    }
}

// ---------------------------------------------------------------------------
// Refreshing
// ---------------------------------------------------------------------------

/// What a refresh waits for.
#[derive(Debug)]
pub enum RefreshStage {
    /// Whether the database is there.
    CheckSource,
    /// The directory of the cache.
    CreateDir,
    /// The signature of the database.
    ReadMain,
    /// The live log and its signature.
    FindWal { main: SourceMainSignature },
    /// Whether the snapshot is there.
    CheckSnapshot { has_wal: bool, before: DbCacheState },
    /// An operation of the first or the second pass.
    Copy { has_wal: bool, before: DbCacheState, retry: bool, op: CopyOp },
    /// The signatures after the first pass.
    Verify { has_wal: bool, before: DbCacheState },
    /// The signatures at the end.
    Settle,
    /// Nothing: the snapshot is fresh, or this is why it is not.
    Done(Result<(), String>),
}

/// What the outside world answers.
#[derive(Debug)]
pub enum RefreshEvent {
    SourceExists(bool),
    DirCreated,
    DirFailed { dir: String, error: String },
    MainSignature(Result<SourceMainSignature, String>),
    LiveWal { found: bool, signature: Option<WalSignature> },
    SnapshotExists(bool),
    Copied(Result<u64, String>),
    Renamed(Result<(), String>),
    Removed,
    WalExists(bool),
    Signatures { main: Option<SourceMainSignature>, wal: Option<WalSignature> },
}

/// The refresh of one snapshot.
#[derive(Debug)]
pub struct Refresh {
    pub source_path: String,
    pub db_name: String,
    pub session_id: String,
    pub stage: RefreshStage,
}

/// What a [`RefreshStage`] is.
pub enum Phase {
    CheckSource,
    CreateDir,
    ReadMain,
    FindWal { main: SourceMainSignature },
    CheckSnapshot { has_wal: bool, before: DbCacheState },
    Copy { has_wal: bool, before: DbCacheState, retry: bool, op: CopyOp },
    Verify { has_wal: bool, before: DbCacheState },
    Settle,
    Done(Result<(), Seq<char>>),
}

/// What a [`RefreshEvent`] says.
pub enum Report {
    SourceExists(bool),
    DirCreated,
    DirFailed { dir: Seq<char>, error: Seq<char> },
    MainSignature(Result<SourceMainSignature, Seq<char>>),
    LiveWal { found: bool, signature: Option<WalSignature> },
    SnapshotExists(bool),
    Copied(Result<u64, Seq<char>>),
    Renamed(Result<(), Seq<char>>),
    Removed,
    WalExists(bool),
    Signatures { main: Option<SourceMainSignature>, wal: Option<WalSignature> },
}

/// What a [`Refresh`] holds.
pub struct Job {
    pub source_path: Seq<char>,
    pub db_name: Seq<char>,
    pub session_id: Seq<char>,
    pub phase: Phase,
}

/// A result with the text of its error.
pub open spec fn told<T>(r: Result<T, String>) -> Result<T, Seq<char>> {
    match r {
        Ok(t) => Ok(t),
        Err(e) => Err(e@),
    }
}

impl View for RefreshStage {
    type V = Phase;

    open spec fn view(&self) -> Phase {
        match *self {
            RefreshStage::CheckSource => Phase::CheckSource,
            RefreshStage::CreateDir => Phase::CreateDir,
            RefreshStage::ReadMain => Phase::ReadMain,
            RefreshStage::FindWal { main } => Phase::FindWal { main },
            RefreshStage::CheckSnapshot { has_wal, before } => Phase::CheckSnapshot {
                has_wal,
                before,
            },
            RefreshStage::Copy { has_wal, before, retry, op } => Phase::Copy {
                has_wal,
                before,
                retry,
                op,
            },
            RefreshStage::Verify { has_wal, before } => Phase::Verify { has_wal, before },
            RefreshStage::Settle => Phase::Settle,
            RefreshStage::Done(r) => Phase::Done(told(r)),
        }
    }
}

impl View for RefreshEvent {
    type V = Report;

    open spec fn view(&self) -> Report {
        match *self {
            RefreshEvent::SourceExists(b) => Report::SourceExists(b),
            RefreshEvent::DirCreated => Report::DirCreated,
            RefreshEvent::DirFailed { dir, error } => Report::DirFailed {
                dir: dir@,
                error: error@,
            },
            RefreshEvent::MainSignature(r) => Report::MainSignature(told(r)),
            RefreshEvent::LiveWal { found, signature } => Report::LiveWal { found, signature },
            RefreshEvent::SnapshotExists(b) => Report::SnapshotExists(b),
            RefreshEvent::Copied(r) => Report::Copied(told(r)),
            RefreshEvent::Renamed(r) => Report::Renamed(told(r)),
            RefreshEvent::Removed => Report::Removed,
            RefreshEvent::WalExists(b) => Report::WalExists(b),
            RefreshEvent::Signatures { main, wal } => Report::Signatures { main, wal },
        }
    }
}

impl View for Refresh {
    type V = Job;

    open spec fn view(&self) -> Job {
        Job {
            source_path: self.source_path@,
            db_name: self.db_name@,
            session_id: self.session_id@,
            phase: self.stage@,
        }
    }
}

/// How a pass goes on after an answer to one of its operations.
pub enum Progress {
    /// The answer was not waited for.
    Stay,
    Next(CopyOp),
    End,
    Fail(Seq<char>),
}

/// The first operation of a pass: the database where everything is built anew, else the log.
pub open spec fn first_op(full: bool, has_wal: bool) -> CopyOp {
    if full {
        CopyOp::CopyMain
    } else if has_wal {
        CopyOp::CopyWal
    } else {
        CopyOp::CheckWal
    }
}

/// How a pass goes on: the log replaces its old copy in one step, or an old copy goes with it, and
/// the old index of the log is removed wherever the log was touched.
pub open spec fn pass_progress(op: CopyOp, has_wal: bool, report: Report) -> Progress {
    match (op, report) {
        (CopyOp::CopyMain, Report::Copied(Ok(_))) => Progress::Next(
            if has_wal {
                CopyOp::CopyWal
            } else {
                CopyOp::RemoveWal
            },
        ),
        (CopyOp::CopyMain, Report::Copied(Err(e))) => Progress::Fail(
            "Failed to copy main DB to snapshot: "@ + e,
        ),
        (CopyOp::CopyWal, Report::Copied(Ok(bytes))) => Progress::Next(
            CopyOp::RenameWal { bytes },
        ),
        (CopyOp::CopyWal, Report::Copied(Err(e))) => Progress::Fail(
            "Failed to copy WAL to tmp: "@ + e,
        ),
        (CopyOp::RenameWal { .. }, Report::Renamed(Ok(_))) => Progress::Next(CopyOp::RemoveShm),
        (CopyOp::RenameWal { .. }, Report::Renamed(Err(e))) => Progress::Fail(
            "Failed to atomic rename WAL: "@ + e,
        ),
        (CopyOp::CheckWal, Report::WalExists(exists)) => if exists {
            Progress::Next(CopyOp::RemoveWal)
        } else {
            Progress::End
        },
        (CopyOp::RemoveWal, Report::Removed) => Progress::Next(CopyOp::RemoveShm),
        (CopyOp::RemoveShm, Report::Removed) => Progress::End,
        _ => Progress::Stay,
    }
}

/// What was copied so far, after an answer to an operation.
pub open spec fn counted(cache: Cache, op: CopyOp, report: Report) -> Cache {
    match (op, report) {
        (CopyOp::CopyMain, Report::Copied(Ok(n))) => Cache {
            main_copies: cache.main_copies.wrapping_add(1),
            bytes_written: cache.bytes_written.wrapping_add(n),
            ..cache
        },
        (CopyOp::RenameWal { bytes }, Report::Renamed(Ok(_))) => Cache {
            wal_copies: cache.wal_copies.wrapping_add(1),
            bytes_written: cache.bytes_written.wrapping_add(bytes),
            ..cache
        },
        _ => cache,
    }
}

/// The state of a snapshot in the cache, if it is known.
pub open spec fn known(cache: Cache, key: Seq<char>) -> Option<DbCacheState> {
    if cache.states.dom().contains(key) {
        Some(cache.states[key])
    } else {
        None
    }
}

/// A refresh and the cache after an answer. After the first pass the signatures are read again;
/// where they have changed there is a second pass, and no third. An answer that the refresh does
/// not wait for changes nothing.
pub open spec fn refreshed(job: Job, cache: Cache, report: Report) -> (Phase, Cache) {
    match (job.phase, report) {
        (Phase::CheckSource, Report::SourceExists(exists)) => (
            if exists {
                Phase::CreateDir
            } else {
                Phase::Done(Err("Source DB does not exist: "@ + job.source_path))
            },
            cache,
        ),
        (Phase::CreateDir, Report::DirCreated) => (Phase::ReadMain, cache),
        (Phase::CreateDir, Report::DirFailed { dir, error }) => (
            Phase::Done(Err("Failed to create cache dir "@ + dir + ": "@ + error)),
            cache,
        ),
        (Phase::ReadMain, Report::MainSignature(r)) => (
            match r {
                Ok(main) => Phase::FindWal { main },
                Err(e) => Phase::Done(Err("Failed to read source main sig: "@ + e)),
            },
            cache,
        ),
        (Phase::FindWal { main }, Report::LiveWal { found, signature }) => (
            Phase::CheckSnapshot {
                has_wal: found,
                before: DbCacheState {
                    source_main_sig: Some(main),
                    wal_sig: if found {
                        signature
                    } else {
                        None
                    },
                },
            },
            cache,
        ),
        (Phase::CheckSnapshot { has_wal, before }, Report::SnapshotExists(exists)) => {
            let prev = known(cache, cache_key(job.session_id, job.db_name));
            let full = needs_full_rebuild(prev, exists, before);
            (Phase::Copy { has_wal, before, retry: false, op: first_op(full, has_wal) }, cache)
        },
        (Phase::Copy { has_wal, before, retry, op }, _) => (
            match pass_progress(op, has_wal, report) {
                Progress::Stay => job.phase,
                Progress::Next(next) => Phase::Copy { has_wal, before, retry, op: next },
                Progress::End => if retry {
                    Phase::Settle
                } else {
                    Phase::Verify { has_wal, before }
                },
                Progress::Fail(e) => Phase::Done(Err(e)),
            },
            counted(cache, op, report),
        ),
        (Phase::Verify { has_wal, before }, Report::Signatures { main, wal }) => {
            let after = DbCacheState { source_main_sig: main, wal_sig: wal };
            (
                if after == before {
                    Phase::Settle
                } else {
                    Phase::Copy {
                        has_wal,
                        before,
                        retry: true,
                        op: first_op(needs_rebuild_on_retry(before, after), has_wal),
                    }
                },
                cache,
            )
        },
        (Phase::Settle, Report::Signatures { main, wal }) => (
            Phase::Done(Ok(())),
            Cache {
                states: cache.states.insert(
                    cache_key(job.session_id, job.db_name),
                    DbCacheState { source_main_sig: main, wal_sig: wal },
                ),
                ..cache
            },
        ),
        _ => (job.phase, cache),
    }
}

/// Begins the refresh of a snapshot of the database at `source_path`.
pub fn refresh_snapshot(source_path: String, db_name: String, session_id: String) -> (r: Refresh)
    ensures
        r@ == (Job {
            source_path: source_path@,
            db_name: db_name@,
            session_id: session_id@,
            phase: Phase::CheckSource,
        }),
{
    Refresh { source_path, db_name, session_id, stage: RefreshStage::CheckSource }
}

fn begin_pass(full: bool, has_wal: bool) -> (r: CopyOp)
    ensures
        r == first_op(full, has_wal),
{
    if full {
        CopyOp::CopyMain
    } else if has_wal {
        CopyOp::CopyWal
    } else {
        CopyOp::CheckWal
    }
}

fn fail(head: &str, detail: &str) -> (r: RefreshStage)
    ensures
        r@ == Phase::Done(Err(head@ + detail@)),
{
    RefreshStage::Done(Err(with_ending(head, detail)))
}

fn copy_on(
    has_wal: bool,
    before: DbCacheState,
    retry: bool,
    op: CopyOp,
    cache: &mut SnapshotCache,
    event: RefreshEvent,
) -> (r: RefreshStage)
    ensures
        r@ == (match pass_progress(op, has_wal, event@) {
            Progress::Stay => Phase::Copy { has_wal, before, retry, op },
            Progress::Next(next) => Phase::Copy { has_wal, before, retry, op: next },
            Progress::End => if retry {
                Phase::Settle
            } else {
                Phase::Verify { has_wal, before }
            },
            Progress::Fail(e) => Phase::Done(Err(e)),
        }),
        final(cache)@ == counted(old(cache)@, op, event@),
{
    match (op, event) {
        (CopyOp::CopyMain, RefreshEvent::Copied(Ok(bytes))) => {
            cache.main_copies = cache.main_copies.wrapping_add(1);
            cache.bytes_written = cache.bytes_written.wrapping_add(bytes);
            let op = if has_wal {
                CopyOp::CopyWal
            } else {
                CopyOp::RemoveWal
            };
            RefreshStage::Copy { has_wal, before, retry, op }
        },
        (CopyOp::CopyMain, RefreshEvent::Copied(Err(e))) => fail(
            "Failed to copy main DB to snapshot: ",
            e.as_str(),
        ),
        (CopyOp::CopyWal, RefreshEvent::Copied(Ok(bytes))) => RefreshStage::Copy {
            has_wal,
            before,
            retry,
            op: CopyOp::RenameWal { bytes },
        },
        (CopyOp::CopyWal, RefreshEvent::Copied(Err(e))) => fail(
            "Failed to copy WAL to tmp: ",
            e.as_str(),
        ),
        (CopyOp::RenameWal { bytes }, RefreshEvent::Renamed(Ok(_))) => {
            cache.wal_copies = cache.wal_copies.wrapping_add(1);
            cache.bytes_written = cache.bytes_written.wrapping_add(bytes);
            RefreshStage::Copy { has_wal, before, retry, op: CopyOp::RemoveShm }
        },
        (CopyOp::RenameWal { .. }, RefreshEvent::Renamed(Err(e))) => fail(
            "Failed to atomic rename WAL: ",
            e.as_str(),
        ),
        (CopyOp::CheckWal, RefreshEvent::WalExists(true)) => RefreshStage::Copy {
            has_wal,
            before,
            retry,
            op: CopyOp::RemoveWal,
        },
        (CopyOp::CheckWal, RefreshEvent::WalExists(false))
        | (CopyOp::RemoveShm, RefreshEvent::Removed) => if retry {
            RefreshStage::Settle
        } else {
            RefreshStage::Verify { has_wal, before }
        },
        (CopyOp::RemoveWal, RefreshEvent::Removed) => RefreshStage::Copy {
            has_wal,
            before,
            retry,
            op: CopyOp::RemoveShm,
        },
        (op, _) => RefreshStage::Copy { has_wal, before, retry, op },
    }
}

fn key_of(session_id: &str, db_name: &str) -> (r: String)
    ensures
        r@ == cache_key(session_id@, db_name@),
{
    let mut key = session_id.to_owned();
    key.append(":");
    key.append(db_name);
    key
}

impl Refresh {
    /// Takes in an answer.
    pub fn resume(self, cache: &mut SnapshotCache, event: RefreshEvent) -> (r: Refresh)
        ensures
            r@ == (Job { phase: refreshed(self@, old(cache)@, event@).0, ..self@ }),
            final(cache)@ == refreshed(self@, old(cache)@, event@).1,
    {
        let Refresh { source_path, db_name, session_id, stage } = self;
        let stage = match (stage, event) {
            (RefreshStage::CheckSource, RefreshEvent::SourceExists(exists)) => if exists {
                RefreshStage::CreateDir
            } else {
                fail("Source DB does not exist: ", source_path.as_str())
            },
            (RefreshStage::CreateDir, RefreshEvent::DirCreated) => RefreshStage::ReadMain,
            (RefreshStage::CreateDir, RefreshEvent::DirFailed { dir, error }) => {
                let mut head = "Failed to create cache dir ".to_owned();
                head.append(dir.as_str());
                head.append(": ");
                fail(head.as_str(), error.as_str())
            },
            (RefreshStage::ReadMain, RefreshEvent::MainSignature(r)) => match r {
                Ok(main) => RefreshStage::FindWal { main },
                Err(e) => fail("Failed to read source main sig: ", e.as_str()),
            },
            (RefreshStage::FindWal { main }, RefreshEvent::LiveWal { found, signature }) => {
                let wal_sig = if found {
                    signature
                } else {
                    None
                };
                let before = DbCacheState { source_main_sig: Some(main), wal_sig };
                RefreshStage::CheckSnapshot { has_wal: found, before }
            },
            (
                RefreshStage::CheckSnapshot { has_wal, before },
                RefreshEvent::SnapshotExists(exists),
            ) => {
                let key = key_of(session_id.as_str(), db_name.as_str());
                let full = must_rebuild(cache.states.get(key.as_str()), exists, &before);
                RefreshStage::Copy {
                    has_wal,
                    before,
                    retry: false,
                    op: begin_pass(full, has_wal),
                }
            },
            (RefreshStage::Copy { has_wal, before, retry, op }, event) => copy_on(
                has_wal,
                before,
                retry,
                op,
                cache,
                event,
            ),
            (
                RefreshStage::Verify { has_wal, before },
                RefreshEvent::Signatures { main, wal },
            ) => {
                let main_same = same_main(&main, &before.source_main_sig);
                if main_same && same_wal(&wal, &before.wal_sig) {
                    RefreshStage::Settle
                } else {
                    let full = !main_same || wal_generation_changed(&before.wal_sig, &wal);
                    RefreshStage::Copy {
                        has_wal,
                        before,
                        retry: true,
                        op: begin_pass(full, has_wal),
                    }
                }
            },
            (RefreshStage::Settle, RefreshEvent::Signatures { main, wal }) => {
                let key = key_of(session_id.as_str(), db_name.as_str());
                cache.states.insert(key, DbCacheState { source_main_sig: main, wal_sig: wal });
                RefreshStage::Done(Ok(()))
            },
            (stage, _) => stage,
        };
        Refresh { source_path, db_name, session_id, stage }
    }
}

// ---------------------------------------------------------------------------
// Laws
// ---------------------------------------------------------------------------

/// Whether a file belongs to the source.
pub open spec fn is_source(role: FileRole) -> bool {
    role == FileRole::SourceMain || role == FileRole::LiveWal || role == FileRole::SourceShm
}

/// Whether an action changes a file.
pub open spec fn changes(action: FileAction, role: FileRole) -> bool {
    match action {
        FileAction::Copy { to, .. } => to == role,
        FileAction::Rename { from, to } => from == role || to == role,
        FileAction::Remove(file) => file == role,
        FileAction::Exists(_) => false,
    }
}

/// No operation changes the source: every file that is written, renamed or removed is one of the
/// snapshot, and has its name in the cache.
pub proof fn law_source_is_only_read(op: CopyOp, role: FileRole, db_name: Seq<char>)
    requires
        changes(action_of(op), role),
    ensures
        !is_source(role),
        snapshot_name(role, db_name) is Some,
{
}

/// The place of an operation in a pass.
pub open spec fn op_rank(op: CopyOp) -> int {
    match op {
        CopyOp::CopyMain => 0,
        CopyOp::CopyWal => 1,
        CopyOp::CheckWal => 1,
        CopyOp::RenameWal { .. } => 2,
        CopyOp::RemoveWal => 2,
        CopyOp::RemoveShm => 3,
    }
}

/// How far a refresh has got.
pub open spec fn refresh_rank(phase: Phase) -> int {
    match phase {
        Phase::CheckSource => 0,
        Phase::CreateDir => 1,
        Phase::ReadMain => 2,
        Phase::FindWal { .. } => 3,
        Phase::CheckSnapshot { .. } => 4,
        Phase::Copy { retry, op, .. } => if retry {
            10 + op_rank(op)
        } else {
            5 + op_rank(op)
        },
        Phase::Verify { .. } => 9,
        Phase::Settle => 14,
        Phase::Done(_) => 15,
    }
}

/// A refresh always gets on: every answer that it waits for takes it further, so it comes to an
/// end after at most two passes. Once done it stays as it is, and so does the cache.
pub proof fn law_refresh_ends(job: Job, cache: Cache, report: Report)
    ensures
        refreshed(job, cache, report).0 == job.phase || refresh_rank(job.phase) < refresh_rank(
            refreshed(job, cache, report).0,
        ),
        job.phase is Done ==> refreshed(job, cache, report) == (job.phase, cache),
{
}

/// There is a second pass exactly where the signatures after the first pass are not those from
/// before it; it builds everything anew where the database or the generation of the log has
/// changed.
pub proof fn law_changed_source_is_copied_again(
    job: Job,
    cache: Cache,
    main: Option<SourceMainSignature>,
    wal: Option<WalSignature>,
)
    requires
        job.phase is Verify,
    ensures
        ({
            let before = job.phase->Verify_before;
            let next = refreshed(job, cache, Report::Signatures { main, wal }).0;
            let same = main == before.source_main_sig && wal == before.wal_sig;
            &&& same <==> next is Settle
            &&& !same <==> next is Copy && next->Copy_retry
            &&& !same && (main != before.source_main_sig || generation_changed(
                before.wal_sig,
                wal,
            )) ==> next->Copy_op == CopyOp::CopyMain
        }),
{
}

/// The database itself is copied only where it has to be: a snapshot that is there and was taken
/// of the same database and the same generation of the log gets a new copy of the log at most.
pub proof fn law_unchanged_main_is_not_copied(
    job: Job,
    cache: Cache,
    main: Option<SourceMainSignature>,
    wal: Option<WalSignature>,
)
    requires
        job.phase is CheckSnapshot,
        known(cache, cache_key(job.session_id, job.db_name)) == Some(
            DbCacheState { source_main_sig: main, wal_sig: wal },
        ),
    ensures
        ({
            let before = job.phase->CheckSnapshot_before;
            let next = refreshed(job, cache, Report::SnapshotExists(true)).0;
            &&& next is Copy
            &&& next->Copy_op == CopyOp::CopyMain <==> main != before.source_main_sig
                || generation_changed(wal, before.wal_sig)
        }),
{
}

/// A snapshot of which nothing is known, and one that is not there, is built anew.
pub proof fn law_missing_snapshot_is_rebuilt(job: Job, cache: Cache, exists: bool)
    requires
        job.phase is CheckSnapshot,
        known(cache, cache_key(job.session_id, job.db_name)) is None || !exists,
    ensures
        refreshed(job, cache, Report::SnapshotExists(exists)).0 is Copy,
        refreshed(job, cache, Report::SnapshotExists(exists)).0->Copy_op == CopyOp::CopyMain,
{
}

/// What is known of a snapshot changes only when its refresh has come to a good end: then it is
/// what the source was last seen as. Nothing else that is known changes at any time.
pub proof fn law_cache_follows_success(job: Job, cache: Cache, report: Report)
    ensures
        ({
            let (phase, after) = refreshed(job, cache, report);
            if job.phase is Settle && report is Signatures {
                phase == Phase::Done(Ok::<(), Seq<char>>(())) && after.states
                    == cache.states.insert(
                    cache_key(job.session_id, job.db_name),
                    DbCacheState {
                        source_main_sig: report->Signatures_main,
                        wal_sig: report->Signatures_wal,
                    },
                )
            } else {
                after.states == cache.states && (phase == Phase::Done(Ok::<(), Seq<char>>(()))
                    ==> job.phase == phase)
            }
        }),
{
}

/// What the files hold after an operation has succeeded.
pub open spec fn performed(files: Map<FileRole, int>, op: CopyOp) -> Map<FileRole, int> {
    match action_of(op) {
        FileAction::Copy { from, to } => files.insert(to, files[from]),
        FileAction::Rename { from, to } => files.insert(to, files[from]).remove(from),
        FileAction::Remove(file) => files.remove(file),
        FileAction::Exists(_) => files,
    }
}

/// The answer to an operation that has succeeded on the given files.
pub open spec fn success(files: Map<FileRole, int>, op: CopyOp) -> Report {
    match action_of(op) {
        FileAction::Copy { .. } => Report::Copied(Ok(0)),
        FileAction::Rename { .. } => Report::Renamed(Ok(())),
        FileAction::Remove(_) => Report::Removed,
        FileAction::Exists(file) => Report::WalExists(files.dom().contains(file)),
    }
}

/// What the files hold after the rest of a pass, from `op` on, all of which succeeds.
pub open spec fn passed(files: Map<FileRole, int>, op: CopyOp, has_wal: bool) -> Map<FileRole, int>
    decreases 4 - op_rank(op),
{
    let after = performed(files, op);
    match pass_progress(op, has_wal, success(files, op)) {
        Progress::Next(next) => if op_rank(op) < op_rank(next) {
            passed(after, next, has_wal)
        } else {
            after
        },
        _ => after,
    }
}

/// A pass that succeeds leaves a snapshot of the source. A full pass copies the database. Either
/// pass leaves the live log in place of the old copy, or no copy where there is no log; the old
/// index of the log is gone wherever the log was touched. A temporary copy that was left over is used
/// up where there is a log, and no new one is left behind.
pub proof fn law_pass_takes_a_snapshot(files: Map<FileRole, int>, full: bool, has_wal: bool)
    ensures
        ({
            let after = passed(files, first_op(full, has_wal), has_wal);
            let touched = full || has_wal || files.dom().contains(FileRole::SnapshotWal);
            &&& same_source(files, after)
            &&& after[FileRole::SnapshotMain] == (if full {
                files[FileRole::SourceMain]
            } else {
                files[FileRole::SnapshotMain]
            })
            &&& after.dom().contains(FileRole::SnapshotWal) <==> has_wal
            &&& has_wal ==> after[FileRole::SnapshotWal] == files[FileRole::LiveWal]
            &&& touched ==> !after.dom().contains(FileRole::SnapshotShm)
            &&& !touched ==> after == files
            &&& after.dom().contains(FileRole::SnapshotWalTmp) <==> !has_wal
                && files.dom().contains(FileRole::SnapshotWalTmp)
        }),
{
    reveal_with_fuel(passed, 5);
}

/// Whether what is known of a snapshot is true of it: a snapshot that is there holds what the
/// database held when its signature was the one that is known. `contents` are the contents that a
/// signature stands for.
pub open spec fn is_faithful(
    known: Option<DbCacheState>,
    files: Map<FileRole, int>,
    contents: Map<SourceMainSignature, int>,
) -> bool {
    known is Some && known->Some_0.source_main_sig is Some && files.dom().contains(
        FileRole::SnapshotMain,
    ) ==> files[FileRole::SnapshotMain] == contents[known->Some_0.source_main_sig->Some_0]
}

/// Whether the snapshot holds the database of the given signature, and the live log or none.
pub open spec fn is_fresh(
    files: Map<FileRole, int>,
    main: SourceMainSignature,
    has_wal: bool,
    contents: Map<SourceMainSignature, int>,
) -> bool {
    &&& files.dom().contains(FileRole::SnapshotMain)
    &&& files[FileRole::SnapshotMain] == contents[main]
    &&& files.dom().contains(FileRole::SnapshotWal) <==> has_wal
    &&& has_wal ==> files[FileRole::SnapshotWal] == files[FileRole::LiveWal]
}

/// The first pass of a refresh leaves a fresh snapshot, whether it has to copy the database or may
/// rely on what is known, where that was true and the database has its signature's contents.
pub proof fn law_first_pass_is_fresh(
    job: Job,
    cache: Cache,
    files: Map<FileRole, int>,
    contents: Map<SourceMainSignature, int>,
    main: SourceMainSignature,
)
    requires
        job.phase is CheckSnapshot,
        job.phase->CheckSnapshot_before.source_main_sig == Some(main),
        is_faithful(known(cache, cache_key(job.session_id, job.db_name)), files, contents),
        files[FileRole::SourceMain] == contents[main],
    ensures
        ({
            let has_wal = job.phase->CheckSnapshot_has_wal;
            let exists = files.dom().contains(FileRole::SnapshotMain);
            let next = refreshed(job, cache, Report::SnapshotExists(exists)).0;
            &&& next is Copy
            &&& is_fresh(passed(files, next->Copy_op, has_wal), main, has_wal, contents)
        }),
{
    reveal_with_fuel(passed, 5);
}

/// Where the source has changed during the first pass and then keeps still, the second pass leaves
/// a fresh snapshot of the changed source.
pub proof fn law_second_pass_is_fresh(
    job: Job,
    cache: Cache,
    files: Map<FileRole, int>,
    contents: Map<SourceMainSignature, int>,
    was: SourceMainSignature,
    main: SourceMainSignature,
    wal: Option<WalSignature>,
)
    requires
        job.phase is Verify,
        job.phase->Verify_before.source_main_sig == Some(was),
        files.dom().contains(FileRole::SnapshotMain),
        files[FileRole::SnapshotMain] == contents[was],
        files[FileRole::SourceMain] == contents[main],
        refreshed(job, cache, Report::Signatures { main: Some(main), wal }).0 is Copy,
    ensures
        ({
            let has_wal = job.phase->Verify_has_wal;
            let next = refreshed(job, cache, Report::Signatures { main: Some(main), wal }).0;
            is_fresh(passed(files, next->Copy_op, has_wal), main, has_wal, contents)
        }),
{
    reveal_with_fuel(passed, 5);
}

/// A refresh that ends with a fresh snapshot of the source as it is then leaves behind what is
/// true: the next refresh may rely on it.
pub proof fn law_settled_cache_is_faithful(
    job: Job,
    cache: Cache,
    files: Map<FileRole, int>,
    contents: Map<SourceMainSignature, int>,
    main: SourceMainSignature,
    has_wal: bool,
    wal: Option<WalSignature>,
)
    requires
        job.phase is Settle,
        is_fresh(files, main, has_wal, contents),
    ensures
        ({
            let (phase, after) = refreshed(
                job,
                cache,
                Report::Signatures { main: Some(main), wal },
            );
            &&& phase == Phase::Done(Ok::<(), Seq<char>>(()))
            &&& is_faithful(
                known(after, cache_key(job.session_id, job.db_name)),
                files,
                contents,
            )
        }),
{
}

/// A source that keeps still during a refresh: the signature of the database, and whether there is
/// a live log, with its signature.
pub struct Source {
    pub main: SourceMainSignature,
    pub has_wal: bool,
    pub wal: Option<WalSignature>,
}

/// A refresh under way: how far it is, the cache, the files, and how often the database was copied.
pub struct Course {
    pub job: Job,
    pub cache: Cache,
    pub files: Map<FileRole, int>,
    pub main_copies: nat,
}

/// The answer that a refresh gets while nothing fails and the source keeps still.
pub open spec fn still_answer(course: Course, source: Source) -> Report {
    match course.job.phase {
        Phase::CheckSource => Report::SourceExists(true),
        Phase::CreateDir => Report::DirCreated,
        Phase::ReadMain => Report::MainSignature(Ok(source.main)),
        Phase::FindWal { .. } => Report::LiveWal { found: source.has_wal, signature: source.wal },
        Phase::CheckSnapshot { .. } => Report::SnapshotExists(
            course.files.dom().contains(FileRole::SnapshotMain),
        ),
        Phase::Copy { op, .. } => success(course.files, op),
        Phase::Verify { .. } => Report::Signatures { main: Some(source.main), wal: source.wal },
        Phase::Settle => Report::Signatures { main: Some(source.main), wal: source.wal },
        Phase::Done(_) => Report::Removed,
    }
}

/// A refresh one answer further.
pub open spec fn still_step(course: Course, source: Source) -> Course {
    let (phase, cache) = refreshed(course.job, course.cache, still_answer(course, source));
    Course {
        job: Job { phase, ..course.job },
        cache,
        files: match course.job.phase {
            Phase::Copy { op, .. } => performed(course.files, op),
            _ => course.files,
        },
        main_copies: course.main_copies + match course.job.phase {
            Phase::Copy { op, .. } => if op == CopyOp::CopyMain {
                1nat
            } else {
                0nat
            },
            _ => 0nat,
        },
    }
}

/// A refresh `n` answers further.
pub open spec fn still_run(course: Course, source: Source, n: nat) -> Course
    decreases n,
{
    if n == 0 {
        course
    } else {
        still_run(still_step(course, source), source, (n - 1) as nat)
    }
}

/// The rest of a pass, in a refresh that nothing disturbs.
proof fn lemma_still_pass(course: Course, source: Source) -> (n: nat)
    requires
        course.job.phase is Copy,
        !course.job.phase->Copy_retry,
        course.job.phase->Copy_has_wal == source.has_wal,
        course.job.phase->Copy_op is CopyWal ==> source.has_wal,
    ensures
        n <= 4 - op_rank(course.job.phase->Copy_op),
        ({
            let end = still_run(course, source, n);
            let op = course.job.phase->Copy_op;
            &&& end.job == (Job {
                phase: Phase::Verify {
                    has_wal: source.has_wal,
                    before: course.job.phase->Copy_before,
                },
                ..course.job
            })
            &&& end.cache.states == course.cache.states
            &&& end.files == passed(course.files, op, source.has_wal)
            &&& end.main_copies == course.main_copies + if op == CopyOp::CopyMain {
                1nat
            } else {
                0nat
            }
        }),
    decreases 4 - op_rank(course.job.phase->Copy_op),
{
    let next = still_step(course, source);
    let op = course.job.phase->Copy_op;
    if next.job.phase is Copy {
        assert(op_rank(op) < op_rank(next.job.phase->Copy_op));
        let n = lemma_still_pass(next, source);
        n + 1
    } else {
        assert(still_run(course, source, 1) == next) by {
            reveal_with_fuel(still_run, 2);
        }
        1
    }
}

proof fn lemma_still_runs_add(course: Course, source: Source, a: nat, b: nat)
    ensures
        still_run(course, source, a + b) == still_run(still_run(course, source, a), source, b),
    decreases a,
{
    if a > 0 {
        lemma_still_runs_add(still_step(course, source), source, (a - 1) as nat, b);
        assert((a + b - 1) as nat == (a - 1) as nat + b);
    }
}

/// A whole refresh that nothing disturbs ends well, after eleven answers at most. The database is
/// copied once where the snapshot has to be built anew, and else not at all. The copy of the log is
/// the live log, or there is none where there is no log, and no temporary copy is left that was not
/// there before. The source is as it was, and what is known of the snapshot is what the source is.
/// Where what was known before was true, the snapshot is fresh.
pub proof fn law_undisturbed_refresh(
    job: Job,
    cache: Cache,
    files: Map<FileRole, int>,
    source: Source,
    contents: Map<SourceMainSignature, int>,
) -> (n: nat)
    requires
        job.phase is CheckSource,
        source.has_wal || source.wal is None,
    ensures
        n <= 11,
        ({
            let begin = Course { job, cache, files, main_copies: 0 };
            let end = still_run(begin, source, n);
            let key = cache_key(job.session_id, job.db_name);
            let now = DbCacheState { source_main_sig: Some(source.main), wal_sig: source.wal };
            let due = needs_full_rebuild(
                known(cache, key),
                files.dom().contains(FileRole::SnapshotMain),
                now,
            );
            &&& end.job.phase == Phase::Done(Ok::<(), Seq<char>>(()))
            &&& end.main_copies == (if due {
                1nat
            } else {
                0nat
            })
            &&& end.files[FileRole::SnapshotMain] == (if due {
                files[FileRole::SourceMain]
            } else {
                files[FileRole::SnapshotMain]
            })
            &&& end.files.dom().contains(FileRole::SnapshotWal) <==> source.has_wal
            &&& source.has_wal ==> end.files[FileRole::SnapshotWal] == files[FileRole::LiveWal]
            &&& same_source(files, end.files)
            &&& end.files.dom().contains(FileRole::SnapshotWalTmp) <==> !source.has_wal
                && files.dom().contains(FileRole::SnapshotWalTmp)
            &&& known(end.cache, key) == Some(now)
            &&& is_faithful(known(cache, key), files, contents) && files[FileRole::SourceMain]
                == contents[source.main] ==> is_fresh(
                end.files,
                source.main,
                source.has_wal,
                contents,
            )
        }),
{
    let begin = Course { job, cache, files, main_copies: 0 };
    let key = cache_key(job.session_id, job.db_name);
    let now = DbCacheState { source_main_sig: Some(source.main), wal_sig: source.wal };
    let exists = files.dom().contains(FileRole::SnapshotMain);
    let due = needs_full_rebuild(known(cache, key), exists, now);
    let op = first_op(due, source.has_wal);
    let copying = Course {
        job: Job {
            phase: Phase::Copy { has_wal: source.has_wal, before: now, retry: false, op },
            ..job
        },
        ..begin
    };
    assert(still_run(begin, source, 5) == copying) by {
        reveal_with_fuel(still_run, 6);
    }
    let k = lemma_still_pass(copying, source);
    let verifying = still_run(copying, source, k);
    let end = still_run(verifying, source, 2);
    assert(end.job.phase == Phase::Done(Ok::<(), Seq<char>>(())) && end.files == verifying.files
        && end.main_copies == verifying.main_copies && known(end.cache, key) == Some(now)) by {
        reveal_with_fuel(still_run, 3);
    }
    lemma_still_runs_add(begin, source, 5, k);
    lemma_still_runs_add(begin, source, 5 + k, 2);
    law_pass_takes_a_snapshot(files, due, source.has_wal);
    if is_faithful(known(cache, key), files, contents) && files[FileRole::SourceMain]
        == contents[source.main] {
        let checking = Job {
            phase: Phase::CheckSnapshot { has_wal: source.has_wal, before: now },
            ..job
        };
        law_first_pass_is_fresh(checking, cache, files, contents, source.main);
    }
    5 + k + 2
}

/// Whether two states of the files agree on one file.
pub open spec fn same_file(a: Map<FileRole, int>, b: Map<FileRole, int>, role: FileRole) -> bool {
    (a.dom().contains(role) <==> b.dom().contains(role)) && a[role] == b[role]
}

/// Whether two states of the files agree on the source.
pub open spec fn same_source(a: Map<FileRole, int>, b: Map<FileRole, int>) -> bool {
    forall|role: FileRole| is_source(role) ==> #[trigger] same_file(a, b, role)
}

/// Whether a refresh in the given phase may leave the files so. An operation of a pass changes
/// nothing but the files that it is there to change, whether it succeeds, fails or breaks off; in
/// any other phase nothing is changed.
pub open spec fn may_leave(
    phase: Phase,
    before: Map<FileRole, int>,
    after: Map<FileRole, int>,
) -> bool {
    match phase {
        Phase::Copy { op, .. } => forall|role: FileRole|
            !changes(action_of(op), role) ==> #[trigger] same_file(before, after, role),
        _ => before == after,
    }
}

/// An operation that has succeeded leaves what a refresh may leave behind, and whatever a refresh
/// may leave behind leaves the source alone.
pub proof fn law_refresh_leaves_the_source_alone(
    phase: Phase,
    before: Map<FileRole, int>,
    after: Map<FileRole, int>,
)
    ensures
        may_leave(phase, before, after) ==> same_source(before, after),
        phase is Copy ==> may_leave(phase, before, performed(before, phase->Copy_op)),
{
}

// ---------------------------------------------------------------------------
// Laws: what each step of a refresh is for
// ---------------------------------------------------------------------------

/// Each operation deals with its own files: the database and the log are copied from the source, the
/// log by way of a temporary copy that is then renamed; only copies are removed or looked for.
pub proof fn law_operations_have_their_files(bytes: u64)
    ensures
        action_of(CopyOp::CopyMain) == (FileAction::Copy {
            from: FileRole::SourceMain,
            to: FileRole::SnapshotMain,
        }),
        action_of(CopyOp::CopyWal) == (FileAction::Copy {
            from: FileRole::LiveWal,
            to: FileRole::SnapshotWalTmp,
        }),
        action_of(CopyOp::RenameWal { bytes }) == (FileAction::Rename {
            from: FileRole::SnapshotWalTmp,
            to: FileRole::SnapshotWal,
        }),
        action_of(CopyOp::CheckWal) == FileAction::Exists(FileRole::SnapshotWal),
        action_of(CopyOp::RemoveWal) == FileAction::Remove(FileRole::SnapshotWal),
        action_of(CopyOp::RemoveShm) == FileAction::Remove(FileRole::SnapshotShm),
{
}

/// The files of a snapshot are named after the database, each with its own ending, so that the copy
/// of the database finds its log; the source has no name there.
pub proof fn law_snapshot_names(db_name: Seq<char>)
    ensures
        snapshot_name(FileRole::SnapshotMain, db_name) == Some(db_name),
        snapshot_name(FileRole::SnapshotWal, db_name) == Some(db_name + "-wal"@),
        snapshot_name(FileRole::SnapshotWalTmp, db_name) == Some(db_name + "-wal.tmp"@),
        snapshot_name(FileRole::SnapshotShm, db_name) == Some(db_name + "-shm"@),
        snapshot_name(FileRole::SourceMain, db_name) is None,
        snapshot_name(FileRole::LiveWal, db_name) is None,
        snapshot_name(FileRole::SourceShm, db_name) is None,
{
}

/// Nothing of a cache, a refresh or an answer is lost in what it is taken for.
pub proof fn law_refreshes_say_all(c: SnapshotCache, r: Refresh, e: RefreshEvent)
    ensures
        c@.states == c.states@,
        c@.main_copies == c.main_copies,
        c@.wal_copies == c.wal_copies,
        c@.bytes_written == c.bytes_written,
        r@.source_path == r.source_path@,
        r@.db_name == r.db_name@,
        r@.session_id == r.session_id@,
        r.stage is CheckSource <==> r@.phase is CheckSource,
        r.stage is CreateDir <==> r@.phase is CreateDir,
        r.stage is ReadMain <==> r@.phase is ReadMain,
        r.stage is FindWal ==> r@.phase == (Phase::FindWal { main: r.stage->main }),
        r.stage is CheckSnapshot ==> r@.phase == (Phase::CheckSnapshot {
            has_wal: r.stage->CheckSnapshot_has_wal,
            before: r.stage->CheckSnapshot_before,
        }),
        r.stage is Copy ==> r@.phase == (Phase::Copy {
            has_wal: r.stage->Copy_has_wal,
            before: r.stage->Copy_before,
            retry: r.stage->retry,
            op: r.stage->op,
        }),
        r.stage is Verify ==> r@.phase == (Phase::Verify {
            has_wal: r.stage->Verify_has_wal,
            before: r.stage->Verify_before,
        }),
        r.stage is Settle <==> r@.phase is Settle,
        r.stage is Done ==> r@.phase is Done && (r.stage->Done_0 is Ok <==> r@.phase->Done_0 is Ok),
        r.stage is Done && r.stage->Done_0 is Err ==> r@.phase->Done_0->Err_0
            == r.stage->Done_0->Err_0@,
        e is SourceExists ==> e@ == Report::SourceExists(e->SourceExists_0),
        e is DirCreated ==> e@ is DirCreated,
        e is DirFailed ==> e@ == (Report::DirFailed { dir: e->dir@, error: e->error@ }),
        e is MainSignature && e->MainSignature_0 is Ok ==> e@ == Report::MainSignature(
            Ok(e->MainSignature_0->Ok_0),
        ),
        e is MainSignature && e->MainSignature_0 is Err ==> e@ == Report::MainSignature(
            Err(e->MainSignature_0->Err_0@),
        ),
        e is LiveWal ==> e@ == (Report::LiveWal { found: e->found, signature: e->signature }),
        e is SnapshotExists ==> e@ == Report::SnapshotExists(e->SnapshotExists_0),
        e is Copied && e->Copied_0 is Ok ==> e@ == Report::Copied(Ok(e->Copied_0->Ok_0)),
        e is Copied && e->Copied_0 is Err ==> e@ == Report::Copied(Err(e->Copied_0->Err_0@)),
        e is Renamed && e->Renamed_0 is Ok ==> e@ == Report::Renamed(Ok(())),
        e is Renamed && e->Renamed_0 is Err ==> e@ == Report::Renamed(Err(e->Renamed_0->Err_0@)),
        e is Removed ==> e@ is Removed,
        e is WalExists ==> e@ == Report::WalExists(e->WalExists_0),
        e is Signatures ==> e@ == (Report::Signatures { main: e->Signatures_main, wal: e->wal }),
{
}

/// A snapshot goes by its session and its database.
pub proof fn law_snapshots_go_by_session_and_name(session_id: Seq<char>, db_name: Seq<char>)
    ensures
        cache_key(session_id, db_name) == session_id + ":"@ + db_name,
{
}

/// The log is of another generation exactly where both signatures are known and one of the salts is
/// another; its size does not matter.
pub proof fn law_generations(a: WalSignature, b: WalSignature)
    ensures
        generation_changed(Some(a), Some(b)) <==> a.salt1 != b.salt1 || a.salt2 != b.salt2,
        !generation_changed(Some(a), None),
        !generation_changed(None, Some(b)),
        !generation_changed(None, None),
{
}

/// Everything is built anew exactly where nothing is known of the snapshot, where it is not there,
/// where the database has changed since, or where the log is of another generation.
pub proof fn law_when_all_is_built_anew(
    prev: Option<DbCacheState>,
    there: bool,
    now: DbCacheState,
)
    ensures
        needs_full_rebuild(prev, there, now) <==> {
            ||| prev is None
            ||| !there
            ||| prev->Some_0.source_main_sig != now.source_main_sig
            ||| generation_changed(prev->Some_0.wal_sig, now.wal_sig)
        },
        needs_rebuild_on_retry(prev->Some_0, now) <==> (prev->Some_0.source_main_sig
            != now.source_main_sig || generation_changed(prev->Some_0.wal_sig, now.wal_sig)),
{
}

/// A refresh looks for the database, makes the directory, and reads the signatures of the database
/// and of its log. What it has read it keeps as the state from before the copies; without a log
/// there is no signature of one.
pub proof fn law_refresh_takes_stock(
    job: Job,
    cache: Cache,
    main: SourceMainSignature,
    found: bool,
    signature: Option<WalSignature>,
)
    ensures
        job.phase is CheckSource ==> refreshed(job, cache, Report::SourceExists(true)) == (
            Phase::CreateDir,
            cache,
        ),
        job.phase is CreateDir ==> refreshed(job, cache, Report::DirCreated) == (
            Phase::ReadMain,
            cache,
        ),
        job.phase is ReadMain ==> refreshed(job, cache, Report::MainSignature(Ok(main))) == (
            Phase::FindWal { main },
            cache,
        ),
        job.phase is FindWal ==> {
            let (next, after) = refreshed(job, cache, Report::LiveWal { found, signature });
            &&& after == cache
            &&& next is CheckSnapshot
            &&& next->CheckSnapshot_has_wal == found
            &&& next->CheckSnapshot_before.source_main_sig == Some(job.phase->main)
            &&& found ==> next->CheckSnapshot_before.wal_sig == signature
            &&& !found ==> next->CheckSnapshot_before.wal_sig is None
        },
{
}

/// The first pass begins with the database where everything is built anew; else with the log, or by
/// looking for an old copy of it where there is no log any more. What was read before is kept.
pub proof fn law_first_pass_begins(job: Job, cache: Cache, there: bool)
    requires
        job.phase is CheckSnapshot,
    ensures
        ({
            let has_wal = job.phase->CheckSnapshot_has_wal;
            let before = job.phase->CheckSnapshot_before;
            let key = job.session_id + ":"@ + job.db_name;
            let prev = if cache.states.dom().contains(key) {
                Some(cache.states[key])
            } else {
                None
            };
            let anew = prev is None || !there || prev->Some_0.source_main_sig
                != before.source_main_sig || generation_changed(
                prev->Some_0.wal_sig,
                before.wal_sig,
            );
            let (next, after) = refreshed(job, cache, Report::SnapshotExists(there));
            &&& after == cache
            &&& next is Copy
            &&& next->Copy_has_wal == has_wal
            &&& next->Copy_before == before
            &&& !next->Copy_retry
            &&& anew ==> next->Copy_op is CopyMain
            &&& !anew && has_wal ==> next->Copy_op is CopyWal
            &&& !anew && !has_wal ==> next->Copy_op is CheckWal
        }),
{
}

/// Whether a refresh goes on to another operation of the same pass.
pub open spec fn goes_on_to(next: Phase, phase: Phase, op: CopyOp) -> bool {
    &&& next is Copy
    &&& next->Copy_has_wal == phase->Copy_has_wal
    &&& next->Copy_before == phase->Copy_before
    &&& next->Copy_retry == phase->Copy_retry
    &&& next->Copy_op == op
}

/// Whether a pass has come to its end: the first is followed by a look at the signatures, the second
/// by the last one.
pub open spec fn ends_pass(next: Phase, phase: Phase) -> bool {
    &&& phase->Copy_retry ==> next is Settle
    &&& !phase->Copy_retry ==> next is Verify && next->Verify_has_wal == phase->Copy_has_wal
        && next->Verify_before == phase->Copy_before
}

/// A pass goes from the database to the log, or to the removal of its old copy where there is none;
/// a copy of the log is put in place by renaming it; then the old index goes, and the pass is over.
/// Where there is neither a log nor an old copy of one, it is over at once. Copies are counted when
/// they are in place, and so are their bytes.
pub proof fn law_pass_goes_on(job: Job, cache: Cache, n: u64, there: bool)
    requires
        job.phase is Copy,
    ensures
        ({
            let p = job.phase;
            let has_wal = p->Copy_has_wal;
            let copied = refreshed(job, cache, Report::Copied(Ok(n)));
            let renamed = refreshed(job, cache, Report::Renamed(Ok(())));
            let removed = refreshed(job, cache, Report::Removed);
            let checked = refreshed(job, cache, Report::WalExists(there));
            &&& p->Copy_op is CopyMain ==> {
                &&& has_wal ==> goes_on_to(copied.0, p, CopyOp::CopyWal)
                &&& !has_wal ==> goes_on_to(copied.0, p, CopyOp::RemoveWal)
                &&& copied.1.states == cache.states
                &&& copied.1.main_copies == (cache.main_copies + 1) % 0x1_0000_0000_0000_0000
                &&& copied.1.wal_copies == cache.wal_copies
                &&& copied.1.bytes_written == (cache.bytes_written + n) % 0x1_0000_0000_0000_0000
            }
            &&& p->Copy_op is CopyWal ==> goes_on_to(copied.0, p, CopyOp::RenameWal { bytes: n })
                && copied.1 == cache
            &&& p->Copy_op is RenameWal ==> {
                &&& goes_on_to(renamed.0, p, CopyOp::RemoveShm)
                &&& renamed.1.states == cache.states
                &&& renamed.1.main_copies == cache.main_copies
                &&& renamed.1.wal_copies == (cache.wal_copies + 1) % 0x1_0000_0000_0000_0000
                &&& renamed.1.bytes_written == (cache.bytes_written + p->Copy_op->bytes)
                    % 0x1_0000_0000_0000_0000
            }
            &&& p->Copy_op is CheckWal ==> {
                &&& there ==> goes_on_to(checked.0, p, CopyOp::RemoveWal)
                &&& !there ==> ends_pass(checked.0, p)
                &&& checked.1 == cache
            }
            &&& p->Copy_op is RemoveWal ==> goes_on_to(removed.0, p, CopyOp::RemoveShm)
                && removed.1 == cache
            &&& p->Copy_op is RemoveShm ==> ends_pass(removed.0, p) && removed.1 == cache
        }),
{
}

/// A refresh that fails says at which step, and what went wrong, and nothing is counted or known
/// that was not before.
pub proof fn law_refresh_fails(job: Job, cache: Cache, dir: Seq<char>, e: Seq<char>)
    ensures
        job.phase is CheckSource ==> refreshed(job, cache, Report::SourceExists(false)) == (
            Phase::Done(Err("Source DB does not exist: "@ + job.source_path)),
            cache,
        ),
        job.phase is CreateDir ==> refreshed(job, cache, Report::DirFailed { dir, error: e }) == (
            Phase::Done(Err("Failed to create cache dir "@ + dir + ": "@ + e)),
            cache,
        ),
        job.phase is ReadMain ==> refreshed(job, cache, Report::MainSignature(Err(e))) == (
            Phase::Done(Err("Failed to read source main sig: "@ + e)),
            cache,
        ),
        job.phase is Copy && job.phase->Copy_op is CopyMain ==> refreshed(
            job,
            cache,
            Report::Copied(Err(e)),
        ) == (Phase::Done(Err("Failed to copy main DB to snapshot: "@ + e)), cache),
        job.phase is Copy && job.phase->Copy_op is CopyWal ==> refreshed(
            job,
            cache,
            Report::Copied(Err(e)),
        ) == (Phase::Done(Err("Failed to copy WAL to tmp: "@ + e)), cache),
        job.phase is Copy && job.phase->Copy_op is RenameWal ==> refreshed(
            job,
            cache,
            Report::Renamed(Err(e)),
        ) == (Phase::Done(Err("Failed to atomic rename WAL: "@ + e)), cache),
{
}

/// After the first pass the signatures are compared with those from before it. Where they are the
/// same the refresh settles; else there is a second pass, which begins with the database where that
/// has changed or the log is of another generation, and else with the log, or by looking for an old
/// copy of it.
pub proof fn law_first_pass_is_verified(
    job: Job,
    cache: Cache,
    main: Option<SourceMainSignature>,
    wal: Option<WalSignature>,
)
    requires
        job.phase is Verify,
    ensures
        ({
            let has_wal = job.phase->Verify_has_wal;
            let before = job.phase->Verify_before;
            let same = main == before.source_main_sig && wal == before.wal_sig;
            let anew = main != before.source_main_sig || generation_changed(before.wal_sig, wal);
            let (next, after) = refreshed(job, cache, Report::Signatures { main, wal });
            &&& after == cache
            &&& same ==> next is Settle
            &&& !same ==> {
                &&& next is Copy
                &&& next->Copy_retry
                &&& next->Copy_has_wal == has_wal
                &&& next->Copy_before == before
                &&& anew ==> next->Copy_op is CopyMain
                &&& !anew && has_wal ==> next->Copy_op is CopyWal
                &&& !anew && !has_wal ==> next->Copy_op is CheckWal
            }
        }),
{
}

/// A refresh that settles has succeeded, and what is known of its snapshot from then on is what the
/// source was last seen as. Other snapshots, and what was counted, are as they were.
pub proof fn law_refresh_settles(
    job: Job,
    cache: Cache,
    main: Option<SourceMainSignature>,
    wal: Option<WalSignature>,
    other: Seq<char>,
)
    requires
        job.phase is Settle,
    ensures
        ({
            let key = job.session_id + ":"@ + job.db_name;
            let (next, after) = refreshed(job, cache, Report::Signatures { main, wal });
            &&& next is Done
            &&& next->Done_0 is Ok
            &&& after.states.dom().contains(key)
            &&& after.states[key].source_main_sig == main
            &&& after.states[key].wal_sig == wal
            &&& other != key ==> (after.states.dom().contains(other)
                <==> cache.states.dom().contains(other)) && after.states[other]
                == cache.states[other]
            &&& after.main_copies == cache.main_copies
            &&& after.wal_copies == cache.wal_copies
            &&& after.bytes_written == cache.bytes_written
        }),
{
}

/// An answer that a refresh does not wait for changes nothing, in the refresh or in the cache.
pub proof fn law_unasked_reports_change_nothing(job: Job, cache: Cache, report: Report)
    requires
        !(job.phase is CheckSource && report is SourceExists),
        !(job.phase is CreateDir && (report is DirCreated || report is DirFailed)),
        !(job.phase is ReadMain && report is MainSignature),
        !(job.phase is FindWal && report is LiveWal),
        !(job.phase is CheckSnapshot && report is SnapshotExists),
        !((job.phase is Verify || job.phase is Settle) && report is Signatures),
        job.phase is Copy ==> {
            let op = job.phase->Copy_op;
            &&& !((op is CopyMain || op is CopyWal) && report is Copied)
            &&& !(op is RenameWal && report is Renamed)
            &&& !(op is CheckWal && report is WalExists)
            &&& !((op is RemoveWal || op is RemoveShm) && report is Removed)
        },
    ensures
        refreshed(job, cache, report) == (job.phase, cache),
{
}

/// A result is told with its value, or with the text of its error.
pub proof fn law_told<T>(r: Result<T, String>)
    ensures
        r is Ok ==> told(r) == Ok::<T, Seq<char>>(r->Ok_0),
        r is Err ==> told(r) == Err::<T, Seq<char>>(r->Err_0@),
{
}

} // verus!
