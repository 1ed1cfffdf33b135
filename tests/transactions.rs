use powersync_session::connection::PowerSyncConnection;
use powersync_session::error::Error;
use powersync_session::session::Session;
use powersync_session::transaction::{Stmt, TxOp};
use rusqlite::Connection;

fn run(conn: &Connection, session: &mut Session, op: &TxOp) -> Result<(), Error> {
    let stmts = session.plan(op)?;
    let mut done = 0usize;
    let mut failure = None;
    for stmt in &stmts {
        match conn.execute(&stmt.sql(), []) {
            Ok(_) => done += 1,
            Err(e) => {
                failure = Some(Error::Database(e.to_string()));
                break;
            }
        }
    }
    session.settle(op, done);
    match failure {
        Some(e) => Err(e),
        None => Ok(()),
    }
}

fn begin_op(is_write: bool) -> TxOp {
    let (id, savepoint_name) = Session::begin_names();
    TxOp::Begin { is_write, id, savepoint_name }
}

fn begin(conn: &Connection, session: &mut Session, is_write: bool) -> String {
    let op = begin_op(is_write);
    run(conn, session, &op).unwrap();
    match op {
        TxOp::Begin { id, .. } => id,
        _ => unreachable!(),
    }
}

fn setup() -> (Connection, Session) {
    let conn = Connection::open_in_memory().unwrap();
    conn.execute("CREATE TABLE t (x INTEGER)", []).unwrap();
    (conn, Session::new("a.db".to_string(), false))
}

fn count(conn: &Connection) -> i64 {
    conn.query_row("SELECT COUNT(*) FROM t", [], |r| r.get(0)).unwrap()
}

#[test]
fn deferred_commit_applies_after_savepoint_release() {
    let (conn, mut s) = setup();
    let h1 = begin(&conn, &mut s, true);
    conn.execute("INSERT INTO t VALUES (1)", []).unwrap();
    let h2 = begin(&conn, &mut s, true);
    assert_eq!(s.depth(), 2);
    conn.execute("INSERT INTO t VALUES (2)", []).unwrap();
    run(&conn, &mut s, &TxOp::Commit(h1.clone())).unwrap();
    // Deferred: still inside the physical transaction.
    assert!(!conn.is_autocommit());
    assert_eq!(s.depth(), 2);
    run(&conn, &mut s, &TxOp::Commit(h2)).unwrap();
    assert!(conn.is_autocommit());
    assert_eq!(s.depth(), 0);
    assert_eq!(count(&conn), 2);
}

#[test]
fn inner_commit_first_then_outer() {
    let (conn, mut s) = setup();
    let h1 = begin(&conn, &mut s, false);
    let h2 = begin(&conn, &mut s, false);
    conn.execute("INSERT INTO t VALUES (1)", []).unwrap();
    assert_eq!(s.plan(&TxOp::Commit(h2.clone())).unwrap().len(), 1);
    run(&conn, &mut s, &TxOp::Commit(h2)).unwrap();
    assert_eq!(s.depth(), 1);
    assert!(!conn.is_autocommit());
    let plan = s.plan(&TxOp::Commit(h1.clone())).unwrap();
    assert!(matches!(plan.as_slice(), [Stmt::Commit]));
    run(&conn, &mut s, &TxOp::Commit(h1)).unwrap();
    assert_eq!(s.depth(), 0);
    assert!(conn.is_autocommit());
    assert_eq!(count(&conn), 1);
}

#[test]
fn outer_rollback_discards_nested_work() {
    let (conn, mut s) = setup();
    let h1 = begin(&conn, &mut s, true);
    conn.execute("INSERT INTO t VALUES (1)", []).unwrap();
    let h2 = begin(&conn, &mut s, true);
    conn.execute("INSERT INTO t VALUES (2)", []).unwrap();
    run(&conn, &mut s, &TxOp::Rollback(h1.clone())).unwrap();
    assert_eq!(s.depth(), 0);
    assert!(conn.is_autocommit());
    assert_eq!(count(&conn), 0);
    assert!(matches!(
        run(&conn, &mut s, &TxOp::Commit(h2.clone())),
        Err(Error::TransactionNotFound(id)) if id == h2
    ));
    assert!(matches!(
        run(&conn, &mut s, &TxOp::Commit(h1)),
        Err(Error::TransactionNotFound(_))
    ));
}

#[test]
fn savepoint_rollback_keeps_outer_work() {
    let (conn, mut s) = setup();
    let h1 = begin(&conn, &mut s, true);
    conn.execute("INSERT INTO t VALUES (1)", []).unwrap();
    let h2 = begin(&conn, &mut s, true);
    conn.execute("INSERT INTO t VALUES (2)", []).unwrap();
    run(&conn, &mut s, &TxOp::Rollback(h2)).unwrap();
    assert_eq!(s.depth(), 1);
    assert_eq!(count(&conn), 1);
    run(&conn, &mut s, &TxOp::Commit(h1)).unwrap();
    assert!(conn.is_autocommit());
    assert_eq!(count(&conn), 1);
}

#[test]
fn commit_twice_reports_completed() {
    let (conn, mut s) = setup();
    let h1 = begin(&conn, &mut s, true);
    let _h2 = begin(&conn, &mut s, false);
    run(&conn, &mut s, &TxOp::Commit(h1.clone())).unwrap();
    assert!(matches!(
        run(&conn, &mut s, &TxOp::Commit(h1.clone())),
        Err(Error::TransactionCompleted(id)) if id == h1
    ));
    assert!(matches!(
        run(&conn, &mut s, &TxOp::Rollback(h1)),
        Err(Error::TransactionCompleted(_))
    ));
    assert_eq!(s.depth(), 2);
}

#[test]
fn unknown_handle_is_not_found() {
    let (conn, mut s) = setup();
    let r = run(&conn, &mut s, &TxOp::Rollback("nope".to_string()));
    assert!(matches!(r, Err(Error::TransactionNotFound(id)) if id == "nope"));
    assert_eq!(s.depth(), 0);
}

#[test]
fn write_begin_is_immediate_and_nested_begin_is_a_savepoint() {
    let (_conn, s) = setup();
    let op = TxOp::Begin { is_write: true, id: "h".to_string(), savepoint_name: "sp_x".to_string() };
    let plan = s.plan(&op).unwrap();
    assert_eq!(plan.len(), 1);
    assert_eq!(plan[0].sql(), "BEGIN IMMEDIATE");
    let read = TxOp::Begin { is_write: false, id: "h".to_string(), savepoint_name: "sp_x".to_string() };
    assert_eq!(s.plan(&read).unwrap()[0].sql(), "BEGIN");
    let mut s = s;
    s.settle(&op, 1);
    let nested = TxOp::Begin { is_write: true, id: "g".to_string(), savepoint_name: "sp_y".to_string() };
    assert_eq!(s.plan(&nested).unwrap()[0].sql(), "SAVEPOINT sp_y");
    let dup = TxOp::Begin { is_write: true, id: "h".to_string(), savepoint_name: "sp_z".to_string() };
    assert!(matches!(s.plan(&dup), Err(Error::InvalidParameter(id)) if id == "h"));
}

#[test]
fn failed_statement_leaves_bookkeeping_unchanged() {
    let (_conn, mut s) = setup();
    let op = begin_op(true);
    s.settle(&op, 0);
    assert_eq!(s.depth(), 0);
}

#[test]
fn statement_texts() {
    assert_eq!(Stmt::Release("sp_1".to_string()).sql(), "RELEASE SAVEPOINT sp_1");
    assert_eq!(Stmt::RollbackTo("sp_1".to_string()).sql(), "ROLLBACK TO SAVEPOINT sp_1");
    assert_eq!(Stmt::Commit.sql(), "COMMIT");
    assert_eq!(Stmt::Rollback.sql(), "ROLLBACK");
}

#[test]
fn generated_handles_are_hex_and_distinct() {
    let a = begin_op(false);
    let b = begin_op(false);
    match (a, b) {
        (
            TxOp::Begin { id: ia, savepoint_name: sa, .. },
            TxOp::Begin { id: ib, savepoint_name: sb, .. },
        ) => {
            assert_eq!(ia.len(), 32);
            assert!(ia.chars().all(|c| c.is_ascii_hexdigit() && !c.is_ascii_uppercase()));
            assert!(sa.starts_with("sp_") && sa.len() == 35);
            assert_ne!(ia, ib);
            assert_ne!(sa, sb);
            assert_ne!(&sa[3..], ia.as_str());
        }
        _ => unreachable!(),
    }
}

fn open_connection() -> PowerSyncConnection {
    let conn = Connection::open_in_memory().unwrap();
    conn.execute("CREATE TABLE t (x INTEGER)", []).unwrap();
    PowerSyncConnection::new(conn, Session::new("a.db".to_string(), false))
}

#[test]
fn scenario_nested_write_transactions_commit_once() {
    let mut c = open_connection();
    let h1 = c.begin_transaction(true).unwrap();
    c.connection().execute("INSERT INTO t VALUES (1)", []).unwrap();
    let h2 = c.begin_transaction(true).unwrap();
    assert_ne!(h1, h2);
    c.connection().execute("INSERT INTO t VALUES (2)", []).unwrap();
    c.commit_transaction(&h1).unwrap();
    assert_eq!(c.depth(), 2);
    assert!(!c.connection().is_autocommit());
    c.commit_transaction(&h2).unwrap();
    assert_eq!(c.depth(), 0);
    assert!(c.connection().is_autocommit());
    assert_eq!(count(c.connection()), 2);
}

#[test]
fn connection_rollback_of_outer_discards_everything() {
    let mut c = open_connection();
    let h1 = c.begin_transaction(false).unwrap();
    let h2 = c.begin_transaction(true).unwrap();
    c.connection().execute("INSERT INTO t VALUES (1)", []).unwrap();
    c.rollback_transaction(&h1).unwrap();
    assert_eq!(c.depth(), 0);
    assert_eq!(count(c.connection()), 0);
    assert!(matches!(c.rollback_transaction(&h2), Err(Error::TransactionNotFound(_))));
}

#[test]
fn connection_reports_engine_failures() {
    let mut c = open_connection();
    // A transaction opened behind the session's back makes its BEGIN fail.
    c.connection().execute("BEGIN", []).unwrap();
    let r = c.begin_transaction(true);
    assert!(matches!(r, Err(Error::Database(_))));
    assert_eq!(c.depth(), 0);
    assert!(matches!(c.remove_crud(1), Err(Error::PowerSyncNotInitialized)));
    assert!(!c.is_powersync_loaded());
}

#[test]
fn nested_begin_issues_a_savepoint_not_a_begin() {
    let mut c = open_connection();
    let _h1 = c.begin_transaction(true).unwrap();
    // A second BEGIN would fail inside an open transaction; a savepoint does not.
    let h2 = c.begin_transaction(true).unwrap();
    assert_eq!(c.depth(), 2);
    c.rollback_transaction(&h2).unwrap();
    assert_eq!(c.depth(), 1);
    assert!(!c.connection().is_autocommit());
}

#[test]
fn live_savepoint_name_is_refused() {
    let (_conn, mut s) = setup();
    let top = TxOp::Begin { is_write: true, id: "h".to_string(), savepoint_name: "sp_a".to_string() };
    s.settle(&top, 1);
    let nested = TxOp::Begin { is_write: false, id: "g".to_string(), savepoint_name: "sp_b".to_string() };
    s.settle(&nested, 1);
    let clash = TxOp::Begin { is_write: false, id: "k".to_string(), savepoint_name: "sp_b".to_string() };
    assert!(matches!(s.plan(&clash), Err(Error::InvalidParameter(id)) if id == "k"));
    s.settle(&clash, 1);
    assert_eq!(s.depth(), 2);
}

#[test]
fn remove_crud_statement_text() {
    let (sql, params) = powersync_session::connection::remove_crud_statement(5);
    assert_eq!(sql, "DELETE FROM ps_crud WHERE id <= ?");
    assert_eq!(params, vec![5]);
}
