//! Live logs, snapshots and queries on them.

use agent_server::hot_query::{
    Cell, HotQuery, JsonValue, QueryEvent, QueryStage, Row, make_row, query_hot_wechat_db,
};
use agent_server::live_db::{
    DbLocks, SourceMainSignature, WalEvent, WalPlace, WalSearch, WalSignature,
    find_live_wal_from_proc_fd, find_live_wal_path, get_cache_dir,
};
use agent_server::snapshot::{
    CopyOp, DbCacheState, FileAction, FileRole, Refresh, RefreshEvent, RefreshStage,
    SnapshotCache, must_rebuild, refresh_snapshot,
};

fn main_sig(size: u64) -> SourceMainSignature {
    SourceMainSignature { dev: 1, ino: 2, size, mtime_sec: 3, mtime_nsec: 4 }
}

fn wal_sig(size: u64, salt1: u32) -> WalSignature {
    WalSignature { size, salt1, salt2: 20 }
}

fn header(salt1: u32, salt2: u32) -> Vec<u8> {
    let mut h = vec![0u8; 32];
    h[16..20].copy_from_slice(&salt1.to_be_bytes());
    h[20..24].copy_from_slice(&salt2.to_be_bytes());
    h
}

fn targets(list: &[Option<&str>]) -> Vec<Option<String>> {
    list.iter().map(|t| t.map(|s| s.to_string())).collect()
}

#[test]
fn test_deleted_wal_fd_discovery() {
    let source = "/tmp/x/session.db";
    let fds = targets(&[
        Some("/tmp/x/session.db"),
        Some("/tmp/x/session.db-wal (deleted)"),
        Some("/other/path/unrelated.db-wal"),
    ]);
    assert_eq!(find_live_wal_from_proc_fd(source, &None, &fds), Some(1));
}

#[test]
fn test_unrelated_fd_not_matched() {
    let fds = targets(&[Some("/tmp/x/message_0.db-wal (deleted)")]);
    assert_eq!(find_live_wal_from_proc_fd("/tmp/x/session.db", &None, &fds), None);
}

#[test]
fn test_wal_generation_change_rebuild() {
    let wsig1 = WalSignature::from_header(32, &header(10, 20));
    assert_eq!(wsig1.salt1, 10);
    assert_eq!(wsig1.salt2, 20);

    let wsig2 = WalSignature::from_header(32, &header(30, 40));
    assert_eq!(wsig2.salt1, 30);
    assert_eq!(wsig2.salt2, 40);
    assert_ne!(wsig1, wsig2);

    let known = DbCacheState { source_main_sig: Some(main_sig(1)), wal_sig: Some(wsig1) };
    let now = DbCacheState { source_main_sig: Some(main_sig(1)), wal_sig: Some(wsig2) };
    assert!(must_rebuild(Some(&known), true, &now));
}

#[test]
fn test_main_signature_change_rebuild() {
    let sig1 = main_sig("version1".len() as u64);
    let sig2 = main_sig("version2_with_more_data".len() as u64);
    assert_ne!(sig1, sig2);
    assert_ne!(sig1.size, sig2.size);
    let known = DbCacheState { source_main_sig: Some(sig1), wal_sig: None };
    let now = DbCacheState { source_main_sig: Some(sig2), wal_sig: None };
    assert!(must_rebuild(Some(&known), true, &now));
    assert!(!must_rebuild(Some(&known), true, &known));
    assert!(must_rebuild(Some(&known), false, &known));
    assert!(must_rebuild(None, true, &known));
}

#[test]
fn test_concurrent_same_db_read_single_refresh() {
    let mut locks = DbLocks::new();
    let mut counter = 0;
    for _ in 0..10 {
        assert_eq!(locks.get_db_lock("session.db"), 0);
        counter += 1;
    }
    assert_eq!(counter, 10);
    assert_eq!(locks.given_out(), 1);
    assert_eq!(locks.get_db_lock("message_0.db"), 1);
    assert_eq!(locks.get_db_lock("session.db"), 0);
    assert_eq!(locks.given_out(), 2);
}

#[test]
fn test_list_chats_does_not_touch_message_db() {
    let session_cache = get_cache_dir(Some("/cache"), true, "/tmp", "test_session", "session.db");
    let msg_cache = get_cache_dir(Some("/cache"), true, "/tmp", "test_session", "message_0.db");
    assert_eq!(session_cache, vec!["/cache", "test_session", "session.db"]);
    assert_ne!(session_cache, msg_cache);
}

#[test]
fn test_list_messages_only_refreshes_actual_shard() {
    let msg0_cache = get_cache_dir(Some("/cache"), false, "/tmp", "test_session", "message_0.db");
    let msg1_cache = get_cache_dir(Some("/cache"), false, "/tmp", "test_session", "message_1.db");
    assert_ne!(msg0_cache, msg1_cache);
}

#[test]
fn cache_directories() {
    assert_eq!(
        get_cache_dir(None, true, "/tmp", "s", "a.db"),
        vec!["/data/live-db-cache", "s", "a.db"]
    );
    assert_eq!(
        get_cache_dir(None, false, "/tmp", "s", "a.db"),
        vec!["/tmp", "live-db-cache", "s", "a.db"]
    );
}

#[test]
fn short_logs_have_no_salts() {
    assert_eq!(
        WalSignature::from_header(5, &header(10, 20)[..23]),
        WalSignature { size: 5, salt1: 0, salt2: 0 }
    );
    assert_eq!(
        WalSignature::from_header(5, &header(0xDEAD_BEEF, u32::MAX)[..24]),
        WalSignature { size: 5, salt1: 0xDEAD_BEEF, salt2: u32::MAX }
    );
}

#[test]
fn descriptors_by_canonical_path() {
    let fds = targets(&[None, Some("/real/a.db-wal"), Some("/link/a.db-wal")]);
    let canonical = Some("/real/a.db".to_string());
    assert_eq!(find_live_wal_from_proc_fd("/link/a.db", &canonical, &fds), Some(1));
    assert_eq!(find_live_wal_from_proc_fd("/link/a.db", &None, &fds), Some(2));
    let fds = targets(&[Some("/real/a.db-wal (deleted)")]);
    assert_eq!(find_live_wal_from_proc_fd("/link/a.db", &canonical, &fds), Some(0));
}

#[test]
fn the_search_for_a_log() {
    let search = find_live_wal_path(Some("a.db"));
    assert!(matches!(&search, WalSearch::Beside { file } if file == "a.db-wal"));
    let beside = search.resume("/x/a.db", WalEvent::BesideExists(true));
    assert!(matches!(beside, WalSearch::Done(Some(WalPlace::Beside(f))) if f == "a.db-wal"));

    let search = find_live_wal_path(Some("a.db"))
        .resume("/x/a.db", WalEvent::BesideExists(false))
        .resume("/x/a.db", WalEvent::Process(Some(1234)));
    assert!(matches!(&search, WalSearch::Descriptors { dir } if dir == "/proc/1234/fd"));
    let found = search.resume(
        "/x/a.db",
        WalEvent::Descriptors {
            canonical: None,
            targets: Some(targets(&[Some("/x/b.db-wal"), Some("/x/a.db-wal (deleted)")])),
        },
    );
    assert!(matches!(found, WalSearch::Done(Some(WalPlace::Descriptor(1)))));

    let none = find_live_wal_path(Some("a.db"))
        .resume("/x/a.db", WalEvent::BesideExists(false))
        .resume("/x/a.db", WalEvent::Process(None));
    assert!(matches!(none, WalSearch::Done(None)));
    assert!(matches!(find_live_wal_path(None), WalSearch::Done(None)));
}

/// Answers the operations of a pass; gives them back with the stage that follows.
fn pass(mut job: Refresh, cache: &mut SnapshotCache, wal_there: bool) -> (Vec<CopyOp>, Refresh) {
    let mut ops = Vec::new();
    let mut retrying = None;
    loop {
        let op = match &job.stage {
            RefreshStage::Copy { op, retry, .. } if retrying.is_none() || retrying == Some(*retry) => {
                retrying = Some(*retry);
                *op
            }
            _ => return (ops, job),
        };
        ops.push(op);
        let event = match op.action() {
            FileAction::Copy { .. } => RefreshEvent::Copied(Ok(100)),
            FileAction::Rename { .. } => RefreshEvent::Renamed(Ok(())),
            FileAction::Remove(_) => RefreshEvent::Removed,
            FileAction::Exists(_) => RefreshEvent::WalExists(wal_there),
        };
        job = job.resume(cache, event);
    }
}

fn copying(cache: &mut SnapshotCache, wal: Option<WalSignature>, exists: bool) -> Refresh {
    refresh_snapshot("/src/a.db".to_string(), "a.db".to_string(), "s".to_string())
        .resume(cache, RefreshEvent::SourceExists(true))
        .resume(cache, RefreshEvent::DirCreated)
        .resume(cache, RefreshEvent::MainSignature(Ok(main_sig(1))))
        .resume(cache, RefreshEvent::LiveWal { found: wal.is_some(), signature: wal })
        .resume(cache, RefreshEvent::SnapshotExists(exists))
}

fn seen(wal: Option<WalSignature>) -> RefreshEvent {
    RefreshEvent::Signatures { main: Some(main_sig(1)), wal }
}

#[test]
fn a_first_snapshot_copies_everything() {
    let mut cache = SnapshotCache::new();
    let wal = Some(wal_sig(9, 10));
    let (ops, job) = {
        let job = copying(&mut cache, wal, false);
        pass(job, &mut cache, false)
    };
    assert_eq!(
        ops,
        vec![
            CopyOp::CopyMain,
            CopyOp::CopyWal,
            CopyOp::RenameWal { bytes: 100 },
            CopyOp::RemoveShm,
        ]
    );
    let job = job.resume(&mut cache, seen(wal));
    assert!(matches!(job.stage, RefreshStage::Settle));
    let job = job.resume(&mut cache, seen(wal));
    assert!(matches!(job.stage, RefreshStage::Done(Ok(()))));
    assert_eq!(cache.main_copies, 1);
    assert_eq!(cache.wal_copies, 1);
    assert_eq!(cache.bytes_written, 200);
    assert_eq!(cache.states.get("s:a.db").unwrap().wal_sig, wal);

    // The next refresh touches the log only.
    let grown = Some(wal_sig(12, 10));
    let (ops, _) = {
        let job = copying(&mut cache, grown, true);
        pass(job, &mut cache, true)
    };
    assert_eq!(
        ops,
        vec![CopyOp::CopyWal, CopyOp::RenameWal { bytes: 100 }, CopyOp::RemoveShm]
    );
    assert_eq!(cache.main_copies, 1);
}

#[test]
fn without_a_log_old_copies_go() {
    let mut cache = SnapshotCache::new();
    let (ops, job) = {
        let job = copying(&mut cache, None, false);
        pass(job, &mut cache, true)
    };
    assert_eq!(ops, vec![CopyOp::CopyMain, CopyOp::RemoveWal, CopyOp::RemoveShm]);
    let job = job.resume(&mut cache, seen(None)).resume(&mut cache, seen(None));
    assert!(matches!(job.stage, RefreshStage::Done(Ok(()))));

    let (ops, _) = {
        let job = copying(&mut cache, None, true);
        pass(job, &mut cache, true)
    };
    assert_eq!(ops, vec![CopyOp::CheckWal, CopyOp::RemoveWal, CopyOp::RemoveShm]);
    let (ops, _) = {
        let job = copying(&mut cache, None, true);
        pass(job, &mut cache, false)
    };
    assert_eq!(ops, vec![CopyOp::CheckWal]);
}

#[test]
fn a_source_that_changes_is_copied_once_more() {
    let mut cache = SnapshotCache::new();
    let wal = Some(wal_sig(9, 10));
    let (_, job) = {
        let job = copying(&mut cache, wal, false);
        pass(job, &mut cache, false)
    };
    assert!(matches!(job.stage, RefreshStage::Verify { .. }));
    // The log has grown: it is copied again, the database is not.
    let job = job.resume(&mut cache, seen(Some(wal_sig(10, 10))));
    let (ops, job) = pass(job, &mut cache, true);
    assert_eq!(
        ops,
        vec![CopyOp::CopyWal, CopyOp::RenameWal { bytes: 100 }, CopyOp::RemoveShm]
    );
    // Whatever it is now, there is no third pass.
    let job = job.resume(&mut cache, seen(Some(wal_sig(11, 99))));
    assert!(matches!(job.stage, RefreshStage::Done(Ok(()))));
    assert_eq!(cache.states.get("s:a.db").unwrap().wal_sig, Some(wal_sig(11, 99)));

    let (_, job) = {
        let job = copying(&mut cache, wal, false);
        pass(job, &mut cache, false)
    };
    let job = job.resume(&mut cache, seen(Some(wal_sig(9, 77))));
    let (ops, _) = pass(job, &mut cache, true);
    assert_eq!(ops[0], CopyOp::CopyMain);
}

fn failure(job: Refresh) -> String {
    match job.stage {
        RefreshStage::Done(Err(e)) => e,
        other => panic!("{:?}", other),
    }
}

#[test]
fn refreshes_that_fail() {
    let mut cache = SnapshotCache::new();
    let new = || refresh_snapshot("/src/a.db".to_string(), "a.db".to_string(), "s".to_string());
    assert_eq!(
        failure(new().resume(&mut cache, RefreshEvent::SourceExists(false))),
        "Source DB does not exist: /src/a.db"
    );
    let dir = RefreshEvent::DirFailed { dir: "/c".to_string(), error: "denied".to_string() };
    assert_eq!(
        failure(new().resume(&mut cache, RefreshEvent::SourceExists(true)).resume(&mut cache, dir)),
        "Failed to create cache dir /c: denied"
    );
    assert_eq!(
        failure(
            new()
                .resume(&mut cache, RefreshEvent::SourceExists(true))
                .resume(&mut cache, RefreshEvent::DirCreated)
                .resume(&mut cache, RefreshEvent::MainSignature(Err("gone".to_string())))
        ),
        "Failed to read source main sig: gone"
    );
    let e = || "io".to_string();
    let job = copying(&mut cache, Some(wal_sig(1, 1)), false);
    assert_eq!(
        failure(job.resume(&mut cache, RefreshEvent::Copied(Err(e())))),
        "Failed to copy main DB to snapshot: io"
    );
    let job = copying(&mut cache, Some(wal_sig(1, 1)), false)
        .resume(&mut cache, RefreshEvent::Copied(Ok(5)));
    assert_eq!(
        failure(job.resume(&mut cache, RefreshEvent::Copied(Err(e())))),
        "Failed to copy WAL to tmp: io"
    );
    let job = copying(&mut cache, Some(wal_sig(1, 1)), false)
        .resume(&mut cache, RefreshEvent::Copied(Ok(5)))
        .resume(&mut cache, RefreshEvent::Copied(Ok(6)));
    assert_eq!(
        failure(job.resume(&mut cache, RefreshEvent::Renamed(Err(e())))),
        "Failed to atomic rename WAL: io"
    );
    assert!(cache.states.get("s:a.db").is_none());
    assert_eq!(cache.bytes_written, 10);
}

#[test]
fn the_source_is_only_read() {
    let ops = [
        CopyOp::CopyMain,
        CopyOp::CopyWal,
        CopyOp::RenameWal { bytes: 1 },
        CopyOp::CheckWal,
        CopyOp::RemoveWal,
        CopyOp::RemoveShm,
    ];
    for op in ops {
        let changed = match op.action() {
            FileAction::Copy { to, .. } => vec![to],
            FileAction::Rename { from, to } => vec![from, to],
            FileAction::Remove(file) => vec![file],
            FileAction::Exists(_) => vec![],
        };
        for role in changed {
            assert!(role.name_in_cache("a.db").is_some(), "{:?}", role);
        }
    }
    assert_eq!(FileRole::SourceMain.name_in_cache("a.db"), None);
    assert_eq!(FileRole::LiveWal.name_in_cache("a.db"), None);
    assert_eq!(FileRole::SourceShm.name_in_cache("a.db"), None);
    assert_eq!(FileRole::SnapshotWalTmp.name_in_cache("a.db").as_deref(), Some("a.db-wal.tmp"));
    assert_eq!(FileRole::SnapshotShm.name_in_cache("a.db").as_deref(), Some("a.db-shm"));
}

fn text(s: &str) -> JsonValue {
    JsonValue::Text(s.to_string())
}

#[test]
fn cells_as_they_are_handed_out() {
    assert_eq!(Cell::Null.to_json(), JsonValue::Null);
    assert_eq!(Cell::Integer(-5).to_json(), JsonValue::Integer(-5));
    assert_eq!(
        Cell::Real(1.5f64.to_bits()).to_json(),
        JsonValue::Real(1.5f64.to_bits())
    );
    for no_number in [f64::NAN, f64::INFINITY, f64::NEG_INFINITY] {
        assert_eq!(Cell::Real(no_number.to_bits()).to_json(), JsonValue::Null);
    }
    assert_eq!(Cell::Text("héllo 微信".as_bytes().to_vec()).to_json(), text("héllo 微信"));
    assert_eq!(Cell::Text(vec![b'a', 0xff, b'b']).to_json(), text("a\u{fffd}b"));
    assert_eq!(Cell::Blob(vec![0xde, 0xad, 0x01]).to_json(), text("DEAD01"));
    assert_eq!(Cell::Unreadable.to_json(), JsonValue::Null);
}

fn columns(names: &[&str]) -> Vec<String> {
    names.iter().map(|s| s.to_string()).collect()
}

#[test]
fn the_last_column_of_a_name_counts() {
    let row = make_row(
        &columns(&["a", "b", "a", "c"]),
        &[Cell::Integer(1), Cell::Integer(2), Cell::Integer(3)],
    );
    assert_eq!(row.values.get("a"), Some(&JsonValue::Integer(3)));
    assert_eq!(row.values.get("b"), Some(&JsonValue::Integer(2)));
    assert_eq!(row.values.get("c"), Some(&JsonValue::Null));
    assert_eq!(row.values.entries().len(), 3);
}

fn query() -> HotQuery {
    query_hot_wechat_db("a.db".to_string(), "00ff".to_string(), "SELECT 1".to_string())
}

fn opened() -> HotQuery {
    query()
        .resume(QueryEvent::Locked(true))
        .resume(QueryEvent::Refreshed(Ok("/c/a.db".to_string())))
        .resume(QueryEvent::Opened(Ok(())))
}

fn rows(q: HotQuery) -> Result<Vec<Row>, String> {
    match q.stage {
        QueryStage::Done(r) => r,
        other => panic!("{:?}", other),
    }
}

#[test]
fn a_query_keeps_the_rows_that_can_be_read() {
    let q = opened();
    match &q.stage {
        QueryStage::SetKey { batch } => assert_eq!(
            batch,
            "PRAGMA key = \"x'00ff'\"; PRAGMA cipher_compatibility = 4;"
        ),
        other => panic!("{:?}", other),
    }
    assert_eq!(q.sql, "SELECT 1");
    let q = q
        .resume(QueryEvent::KeySet(Ok(())))
        .resume(QueryEvent::Prepared(Ok(columns(&["x"]))))
        .resume(QueryEvent::Rows(Ok(vec![
            Some(vec![Cell::Integer(1)]),
            None,
            Some(vec![Cell::Integer(2)]),
        ])));
    let rows = rows(q).unwrap();
    assert_eq!(rows.len(), 2);
    assert_eq!(rows[1].values.get("x"), Some(&JsonValue::Integer(2)));
}

#[test]
fn queries_that_fail() {
    let e = || "why".to_string();
    let locked = query().resume(QueryEvent::Locked(false));
    assert_eq!(rows(locked).unwrap_err(), "DB lock poisoned");
    let stale = query().resume(QueryEvent::Locked(true)).resume(QueryEvent::Refreshed(Err(e())));
    assert_eq!(rows(stale).unwrap_err(), "why");
    let closed = query()
        .resume(QueryEvent::Locked(true))
        .resume(QueryEvent::Refreshed(Ok("/c/a.db".to_string())))
        .resume(QueryEvent::Opened(Err(e())));
    assert_eq!(rows(closed).unwrap_err(), "Failed to open snapshot /c/a.db: why");
    let no_key = opened().resume(QueryEvent::KeySet(Err(e())));
    assert_eq!(rows(no_key).unwrap_err(), "PRAGMA key failed for a.db: why");
    let keyed = || opened().resume(QueryEvent::KeySet(Ok(())));
    let bad = keyed().resume(QueryEvent::Prepared(Err(e())));
    assert_eq!(rows(bad).unwrap_err(), "Prepare failed for a.db: why");
    let failed = keyed()
        .resume(QueryEvent::Prepared(Ok(columns(&["x"]))))
        .resume(QueryEvent::Rows(Err(e())));
    assert_eq!(rows(failed).unwrap_err(), "Query failed for a.db: why");
}

#[test]
fn an_unreadable_row_leaves_no_trace() {
    let answer = |read: Vec<Option<Vec<Cell>>>| {
        let q = opened()
            .resume(QueryEvent::KeySet(Ok(())))
            .resume(QueryEvent::Prepared(Ok(columns(&["x"]))))
            .resume(QueryEvent::Rows(Ok(read)));
        let values: Vec<JsonValue> = rows(q)
            .unwrap()
            .iter()
            .map(|r| r.values.get("x").unwrap().clone())
            .collect();
        values
    };
    let row = |n: i64| Some(vec![Cell::Integer(n)]);
    assert_eq!(
        answer(vec![row(1), None, row(2), row(3)]),
        answer(vec![row(1), row(2), row(3)])
    );
}

/// The files of a source and its snapshot, by what they hold.
struct Files {
    source: u64,
    wal: u64,
    snapshot: Option<u64>,
    snapshot_wal: Option<u64>,
    tmp: Option<u64>,
    shm: bool,
}

impl Files {
    fn perform(&mut self, op: CopyOp) -> RefreshEvent {
        match op {
            CopyOp::CopyMain => {
                self.snapshot = Some(self.source);
                RefreshEvent::Copied(Ok(1))
            }
            CopyOp::CopyWal => {
                self.tmp = Some(self.wal);
                RefreshEvent::Copied(Ok(1))
            }
            CopyOp::RenameWal { .. } => {
                self.snapshot_wal = self.tmp.take();
                RefreshEvent::Renamed(Ok(()))
            }
            CopyOp::CheckWal => RefreshEvent::WalExists(self.snapshot_wal.is_some()),
            CopyOp::RemoveWal => {
                self.snapshot_wal = None;
                RefreshEvent::Removed
            }
            CopyOp::RemoveShm => {
                self.shm = false;
                RefreshEvent::Removed
            }
        }
    }

    fn refresh(&mut self, cache: &mut SnapshotCache, mut disturb: Option<(u64, u64)>) {
        let sig = |v: u64| Some(wal_sig(v, (v / 100) as u32));
        let mut job =
            refresh_snapshot("/src/a.db".to_string(), "a.db".to_string(), "s".to_string());
        loop {
            let event = match &job.stage {
                RefreshStage::CheckSource => RefreshEvent::SourceExists(true),
                RefreshStage::CreateDir => RefreshEvent::DirCreated,
                RefreshStage::ReadMain => RefreshEvent::MainSignature(Ok(main_sig(self.source))),
                RefreshStage::FindWal { .. } => {
                    RefreshEvent::LiveWal { found: true, signature: sig(self.wal) }
                }
                RefreshStage::CheckSnapshot { .. } => {
                    RefreshEvent::SnapshotExists(self.snapshot.is_some())
                }
                RefreshStage::Copy { op, .. } => {
                    let op = *op;
                    let event = self.perform(op);
                    if op == CopyOp::RemoveShm {
                        if let Some((source, wal)) = disturb.take() {
                            self.source = source;
                            self.wal = wal;
                        }
                    }
                    event
                }
                RefreshStage::Verify { .. } | RefreshStage::Settle => RefreshEvent::Signatures {
                    main: Some(main_sig(self.source)),
                    wal: sig(self.wal),
                },
                RefreshStage::Done(r) => {
                    assert!(r.is_ok());
                    return;
                }
            };
            job = job.resume(cache, event);
        }
    }

    fn is_fresh(&self) -> bool {
        self.snapshot == Some(self.source)
            && self.snapshot_wal == Some(self.wal)
            && self.tmp.is_none()
            && !self.shm
    }
}

#[test]
fn refreshed_snapshots_are_fresh() {
    let mut cache = SnapshotCache::new();
    let mut files =
        Files { source: 1, wal: 101, snapshot: None, snapshot_wal: None, tmp: None, shm: true };
    files.refresh(&mut cache, None);
    assert!(files.is_fresh());
    assert_eq!(cache.main_copies, 1);
    // The log grows.
    files.wal = 102;
    files.shm = true;
    files.refresh(&mut cache, None);
    assert!(files.is_fresh());
    assert_eq!(cache.main_copies, 1);
    // The log is of another generation.
    files.source = 2;
    files.wal = 205;
    files.refresh(&mut cache, None);
    assert!(files.is_fresh());
    assert_eq!(cache.main_copies, 2);
    // The source changes while it is copied.
    files.refresh(&mut cache, Some((3, 301)));
    assert!(files.is_fresh());
    assert_eq!(files.snapshot, Some(3));
    // Only the log changes while it is copied.
    files.refresh(&mut cache, Some((3, 302)));
    assert!(files.is_fresh());
    assert_eq!(files.snapshot_wal, Some(302));
}

#[test]
fn signatures_where_little_is_known() {
    assert_eq!(
        SourceMainSignature::from_modified(7, Some((5, 6))),
        SourceMainSignature { dev: 0, ino: 0, size: 7, mtime_sec: 5, mtime_nsec: 6 }
    );
    assert_eq!(
        SourceMainSignature::from_modified(7, None),
        SourceMainSignature { dev: 0, ino: 0, size: 7, mtime_sec: 0, mtime_nsec: 0 }
    );
}
