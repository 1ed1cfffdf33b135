use powersync_session::codec::{CellValue, ColumnValue};
use powersync_session::error::Error;
use powersync_session::extension::{
    extension_candidates, find_extension, get_extension_filename, probe_after, probe_step, ExtensionProbe,
    ProbeStep,
};
use powersync_session::powersync::{crud_batch_limit, has_pending_crud};
use powersync_session::registry::DatabaseManager;
use powersync_session::results::{get_optional, Batch, BatchAction, BatchEvent, ExecuteResult, QueryResult};
use powersync_session::transaction::Stmt;
use powersync_session::session::Session;

#[test]
fn test_extension_filename() {
    let filename = get_extension_filename("linux");
    assert!(!filename.is_empty());
    assert_eq!(get_extension_filename("macos"), "libpowersync.dylib");
    assert_eq!(get_extension_filename("linux"), "libpowersync.so");
    assert_eq!(get_extension_filename("windows"), "powersync.dll");
}

#[test]
fn open_twice_then_close() {
    let mut m: DatabaseManager<u32> = DatabaseManager::new("/data".to_string(), None);
    m.open("x", 1);
    m.open("x", 2);
    assert_eq!(m.len(), 1);
    assert_eq!(*m.get("x").unwrap(), 1);
    assert!(m.contains("x"));
    m.close("x").unwrap();
    assert_eq!(m.len(), 0);
    assert!(matches!(m.get("x"), Err(Error::DatabaseNotFound(n)) if n == "x"));
    assert!(m.close("never").is_ok());
}

#[test]
fn registry_keeps_names_apart() {
    let mut m: DatabaseManager<&str> = DatabaseManager::new("/data".to_string(), Some("/res".to_string()));
    m.open("a", "first");
    m.open("b", "second");
    m.close("a").unwrap();
    assert!(!m.contains("a"));
    assert_eq!(*m.get("b").unwrap(), "second");
    assert_eq!(DatabaseManager::<u8>::database_file("b"), "b.db");
    assert_eq!(m.app_data_dir(), "/data");
    assert_eq!(m.resource_dir().as_deref(), Some("/res"));
}

#[test]
fn get_optional_takes_the_first_row() {
    let raw = vec![vec![ColumnValue::Integer(1)], vec![ColumnValue::Integer(2)]];
    let q = QueryResult::decode(vec!["x".to_string()], &raw);
    assert_eq!(q.rows.len(), 2);
    let first = get_optional(q).unwrap();
    assert!(matches!(first[0], CellValue::Integer(1)));
    let empty = QueryResult::decode(vec!["x".to_string()], &vec![]);
    assert!(get_optional(empty).is_none());
}

#[test]
fn execute_results() {
    let w = ExecuteResult::write(3, 17);
    assert_eq!((w.changes, w.last_insert_rowid), (3, 17));
    assert!(w.columns.is_none() && w.rows.is_none());
    let q = QueryResult::decode(vec!["a".to_string()], &vec![vec![ColumnValue::Null]]);
    let r = ExecuteResult::query(q);
    assert_eq!((r.changes, r.last_insert_rowid), (0, 0));
    assert_eq!(r.columns.unwrap(), vec!["a".to_string()]);
    assert_eq!(r.rows.unwrap().len(), 1);
}

#[test]
fn batch_totals_saturate() {
    let mut b = Batch::new();
    assert!(b.savepoint.starts_with("batch_"));
    assert_eq!(b.open_stmt().sql(), format!("SAVEPOINT {}", b.savepoint));
    b.record(2, 5);
    b.record(3, 9);
    let r = b.result();
    assert_eq!((r.changes, r.last_insert_rowid), (5, 9));
    b.record(usize::MAX, 10);
    assert_eq!(b.changes, i64::MAX);
    assert_eq!(b.abort_stmts().len(), 2);
    assert_eq!(b.release_stmts()[0].sql(), format!("RELEASE SAVEPOINT {}", b.savepoint));
}

#[test]
fn extension_search_order() {
    let c = extension_candidates("libpowersync.so");
    assert_eq!(c, vec!["libpowersync.so", "libs/libpowersync.so", "native/libpowersync.so"]);
    assert_eq!(find_extension("/r", "libpowersync.so", &[false, true, true]).unwrap(), "libs/libpowersync.so");
    assert_eq!(find_extension("/r", "libpowersync.so", &[true, true, true]).unwrap(), "libpowersync.so");
    let e = find_extension("\"/r\"", "libpowersync.so", &[false, false, false]);
    assert!(matches!(e, Err(Error::ExtensionNotFound(m)) if m == "PowerSync extension 'libpowersync.so' not found in \"/r\""));
    assert!(find_extension("/r", "x", &[]).is_err());
}

#[test]
fn extension_operations_need_the_extension() {
    let s = Session::new("a.db".to_string(), false);
    assert!(matches!(s.require_powersync(), Err(Error::PowerSyncNotInitialized)));
    assert!(!s.is_powersync_loaded());
    assert_eq!(s.path(), "a.db");
    let t = Session::new("b.db".to_string(), true);
    assert!(t.require_powersync().is_ok());
    assert_eq!(crud_batch_limit(None), 100);
    assert_eq!(crud_batch_limit(Some(5)), 5);
    assert!(has_pending_crud(1));
    assert!(!has_pending_crud(0));
}

#[test]
fn error_messages() {
    assert_eq!(Error::DatabaseNotFound("x".to_string()).message(), "Database not found: x");
    assert_eq!(Error::PowerSyncNotInitialized.message(), "PowerSync not initialized");
    assert_eq!(Error::TransactionCompleted("h".to_string()).message(), "Transaction already completed: h");
}

#[test]
fn extension_probes_in_order() {
    assert_eq!(probe_after(None), Some(ExtensionProbe::BuildPath));
    assert_eq!(probe_after(Some(ExtensionProbe::BuildPath)), Some(ExtensionProbe::ResourceDir));
    assert_eq!(probe_after(Some(ExtensionProbe::ResourceDir)), Some(ExtensionProbe::Linked));
    assert_eq!(probe_after(Some(ExtensionProbe::Linked)), None);
    assert_eq!(probe_step(None), ProbeStep::Try(ExtensionProbe::BuildPath));
    assert_eq!(probe_step(Some((ExtensionProbe::BuildPath, false))), ProbeStep::Try(ExtensionProbe::ResourceDir));
    assert_eq!(probe_step(Some((ExtensionProbe::ResourceDir, true))), ProbeStep::Initialise);
    assert_eq!(probe_step(Some((ExtensionProbe::Linked, false))), ProbeStep::GiveUp);
}

#[test]
fn batch_steps_run_each_set_then_release() {
    let mut b = Batch::new();
    assert!(matches!(b.next(2, BatchEvent::Opened), BatchAction::Run(0)));
    assert!(matches!(b.next(2, BatchEvent::Ran { changes: 1, last_insert_rowid: 7 }), BatchAction::Run(1)));
    match b.next(2, BatchEvent::Ran { changes: 2, last_insert_rowid: 8 }) {
        BatchAction::Release(stmts) => {
            assert!(matches!(stmts.as_slice(), [Stmt::Release(n)] if *n == b.savepoint));
        }
        _ => panic!("expected release"),
    }
    assert_eq!((b.changes, b.last_insert_rowid, b.ran), (3, 8, 2));
}

#[test]
fn batch_steps_abort_on_failure() {
    let mut b = Batch::new();
    assert!(matches!(b.next(0, BatchEvent::Opened), BatchAction::Release(_)));
    let mut c = Batch::new();
    assert!(matches!(c.next(3, BatchEvent::Opened), BatchAction::Run(0)));
    match c.next(3, BatchEvent::Failed("boom".to_string())) {
        BatchAction::Abort(stmts, err) => {
            assert_eq!(stmts.len(), 2);
            assert_eq!(stmts[0].sql(), format!("ROLLBACK TO SAVEPOINT {}", c.savepoint));
            assert_eq!(stmts[1].sql(), format!("RELEASE SAVEPOINT {}", c.savepoint));
            assert!(matches!(err, Error::Database(m) if m == "boom"));
        }
        _ => panic!("expected abort"),
    }
    assert_eq!(c.ran, 0);
}
