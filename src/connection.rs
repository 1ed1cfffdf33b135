//! An open database: the engine connection and the session's bookkeeping,
//! with the transaction operations that drive one by the other.
use vstd::prelude::*;
use crate::session::{generated_name, op_id, refused_with, stmts_view, Session};
use crate::transaction::{
    begin_stmt, lemma_nested_commit_applied_once, lemma_rollback_discards_all, plan_of, run_all,
    settle_of, stmt_text, wf_txs, OpModel, StmtModel, TxModel, TxOp,
};

verus! {

/// rusqlite's connection, carried through opaquely.
#[verifier::external_type_specification]
#[verifier::external_body]
pub struct ExConnection(rusqlite::Connection);

/// Relies on `rusqlite::Connection::execute`: runs one statement with the
/// given integer parameters and reports the rows it changed, or the
/// engine's error as its message. The outcome depends on the database.
#[verifier::external_body]
fn execute_statement(conn: &rusqlite::Connection, sql: &str, params: &[i64]) -> (r: Result<
    usize,
    String,
>) {
    conn.execute(sql, rusqlite::params_from_iter(params.iter())).map_err(|e| e.to_string())
}

/// A statement as sent to the engine: its SQL text and its parameters.
pub type Sent = (Seq<char>, Seq<i64>);

/// The statements of a plan as sent: each text, with no parameters.
pub open spec fn texts(ss: Seq<StmtModel>) -> Seq<Sent> {
    ss.map_values(|st: StmtModel| (stmt_text(st), Seq::<i64>::empty()))
}

/// What a transaction operation did, to the transactions and to the log of
/// statements sent to the engine. A refused operation sends nothing and
/// changes nothing. An accepted one sends its planned statements in order,
/// stopping after the first that fails: when all succeed it takes effect;
/// when one fails the result is a storage error and the transactions stay
/// as they were.
pub open spec fn op_outcome<T>(
    before: Seq<TxModel>,
    op: OpModel,
    after: Seq<TxModel>,
    sent_before: Seq<Sent>,
    sent_after: Seq<Sent>,
    r: Result<T, crate::error::Error>,
) -> bool {
    match plan_of(before, op) {
        Err(f) => r is Err && refused_with(r->Err_0, f, op_id(op)) && after == before && sent_after
            == sent_before,
        Ok(stmts) => {
            &&& r is Ok ==> after == settle_of(before, op, stmts.len()) && sent_after == sent_before
                + texts(stmts)
            &&& r is Err ==> r->Err_0 is Database && after == before && exists|n: int|
                1 <= n <= stmts.len() && sent_after == sent_before + texts(#[trigger] stmts.take(n))
        },
    }
}

/// The statement that drops queued changes up to and including an id, with
/// its one parameter.
pub fn remove_crud_statement(crud_id: i64) -> (r: (String, Vec<i64>))
    ensures
        r.0@ == "DELETE FROM ps_crud WHERE id <= ?"@,
        r.1@ == seq![crud_id],
{
    let params: Vec<i64> = vec![crud_id];
    (String::from_str("DELETE FROM ps_crud WHERE id <= ?"), params)
}

/// An open database.
pub struct PowerSyncConnection {
    conn: rusqlite::Connection,
    session: Session,
    /// The statements sent to the engine by this library, in order.
    sent: Ghost<Seq<Sent>>,
}

impl PowerSyncConnection {
    /// The live transactions, outermost first.
    pub closed spec fn txs(&self) -> Seq<TxModel> {
        self.session.txs()
    }

    pub closed spec fn spec_loaded(&self) -> bool {
        self.session.spec_loaded()
    }

    /// The statements that the transaction operations and `remove_crud`
    /// have sent to the engine, in order, failed ones included.
    pub closed spec fn sent(&self) -> Seq<Sent> {
        self.sent@
    }

    /// Puts an opened engine connection under a session's bookkeeping.
    pub fn new(conn: rusqlite::Connection, session: Session) -> (r: Self)
        ensures
            r.txs() == session.txs(),
            r.spec_loaded() == session.spec_loaded(),
            r.sent() == Seq::<Sent>::empty(),
    {
        PowerSyncConnection { conn, session, sent: Ghost(Seq::empty()) }
    }

    /// The engine connection, for statements with bound values.
    pub fn connection(&self) -> &rusqlite::Connection {
        &self.conn
    }

    /// The session's bookkeeping.
    pub fn session(&self) -> (r: &Session)
        ensures
            r.txs() == self.txs(),
            r.spec_loaded() == self.spec_loaded(),
    {
        &self.session
    }

    /// How many logical transactions are open.
    pub fn depth(&self) -> (r: usize)
        ensures
            r == self.txs().len(),
    {
        self.session.depth()
    }

    /// Whether the storage extension is available.
    pub fn is_powersync_loaded(&self) -> (r: bool)
        ensures
            r == self.spec_loaded(),
    {
        self.session.is_powersync_loaded()
    }

    /// Plans a transaction operation, runs its statements in order until
    /// one fails, and records what they did.
    fn run_op(&mut self, op: &TxOp) -> (r: Result<(), crate::error::Error>)
        ensures
            op_outcome(old(self).txs(), op@, final(self).txs(), old(self).sent(), final(self).sent(), r),
            wf_txs(final(self).txs()),
            final(self).spec_loaded() == old(self).spec_loaded(),
    {
        let stmts = match self.session.plan(op) {
            Ok(stmts) => stmts,
            Err(e) => {
                return Err(e);
            },
        };
        let ghost plan = stmts_view(stmts@);
        let ghost sent0 = self.sent@;
        let ghost txs0 = self.txs();
        let no_params: Vec<i64> = Vec::new();
        let mut done: usize = 0;
        let mut failure: Option<crate::error::Error> = None;
        while done < stmts.len() && failure.is_none()
            invariant
                done <= stmts@.len(),
                no_params@ == Seq::<i64>::empty(),
                plan == stmts_view(stmts@),
                plan == plan_of(txs0, op@)->Ok_0,
                plan_of(txs0, op@) is Ok,
                self.txs() == txs0,
                self.spec_loaded() == old(self).spec_loaded(),
                failure is Some ==> done < stmts@.len() && failure->Some_0 is Database,
                self.sent@ == sent0 + texts(
                    plan.take(done as int + if failure is Some { 1int } else { 0int }),
                ),
            decreases stmts@.len() - done + if failure is None { 1int } else { 0int },
        {
            let sql = stmts[done].sql();
            let outcome = execute_statement(&self.conn, sql.as_str(), no_params.as_slice());
            proof {
                assert(sql@ == stmt_text(plan[done as int]));
                assert(texts(plan.take(done + 1)) =~= texts(plan.take(done as int)).push(
                    (sql@, no_params@),
                ));
                self.sent = Ghost(self.sent@.push((sql@, no_params@)));
            }
            match outcome {
                Ok(_) => {
                    done = done + 1;
                },
                Err(e) => {
                    failure = Some(crate::error::Error::Database(e));
                },
            }
        }
        proof {
            if failure is None {
                assert(plan.take(done as int) =~= plan);
            }
        }
        self.session.settle(op, done);
        match failure {
            Some(e) => Err(e),
            None => Ok(()),
        }
    }

    /// Begins a transaction and gives its handle: the physical transaction
    /// when none is open (`BEGIN IMMEDIATE` for a write, `BEGIN` otherwise),
    /// a savepoint nested in it otherwise. The handle and the savepoint name
    /// are drawn fresh; the caller chooses neither.
    pub fn begin_transaction(&mut self, is_write: bool) -> (r: Result<String, crate::error::Error>)
        ensures
            exists|id: Seq<char>, sp: Seq<char>|
                {
                    &&& generated_name(id, Seq::empty())
                    &&& generated_name(sp, "sp_"@)
                    &&& (r is Ok ==> r->Ok_0@ == id)
                    &&& op_outcome(
                        old(self).txs(),
                        OpModel::Begin { is_write, id, savepoint_name: sp },
                        final(self).txs(),
                        old(self).sent(),
                        final(self).sent(),
                        r,
                    )
                },
            wf_txs(final(self).txs()),
            final(self).spec_loaded() == old(self).spec_loaded(),
    {
        let (id, savepoint_name) = Session::begin_names();
        let ghost sp = savepoint_name@;
        let op = TxOp::Begin { is_write, id: id.clone(), savepoint_name };
        let ghost handle = id@;
        let done = self.run_op(&op);
        let ghost outcome = done;
        let r: Result<String, crate::error::Error> = match done {
            Ok(_) => Ok(id),
            Err(e) => Err(e),
        };
        proof {
            let m = OpModel::Begin { is_write, id: handle, savepoint_name: sp };
            assert(r is Ok <==> outcome is Ok);
            assert(r is Err ==> r->Err_0 == outcome->Err_0);
            assert(op_outcome(old(self).txs(), m, self.txs(), old(self).sent(), self.sent(), outcome));
            assert(op_outcome(old(self).txs(), m, self.txs(), old(self).sent(), self.sent(), r));
        }
        assert(op@ == OpModel::Begin { is_write, id: id@, savepoint_name: sp });
        r
    }

    /// Commits a transaction: a savepoint is released; the outermost
    /// transaction commits at once when nothing is nested in it, and
    /// otherwise once the last nested savepoint is resolved; a deferred
    /// commit sends nothing. When any statement fails the transactions stay
    /// as they were.
    pub fn commit_transaction(&mut self, tx_id: &str) -> (r: Result<(), crate::error::Error>)
        ensures
            op_outcome(
                old(self).txs(),
                OpModel::Commit(tx_id@),
                final(self).txs(),
                old(self).sent(),
                final(self).sent(),
                r,
            ),
            wf_txs(final(self).txs()),
            final(self).spec_loaded() == old(self).spec_loaded(),
    {
        self.run_op(&TxOp::Commit(String::from_str(tx_id)))
    }

    /// Rolls a transaction back: a savepoint is rolled back to and
    /// released; the outermost transaction rolls back at once, ending every
    /// transaction nested in it.
    pub fn rollback_transaction(&mut self, tx_id: &str) -> (r: Result<(), crate::error::Error>)
        ensures
            op_outcome(
                old(self).txs(),
                OpModel::Rollback(tx_id@),
                final(self).txs(),
                old(self).sent(),
                final(self).sent(),
                r,
            ),
            wf_txs(final(self).txs()),
            final(self).spec_loaded() == old(self).spec_loaded(),
    {
        self.run_op(&TxOp::Rollback(String::from_str(tx_id)))
    }

    /// Drops the extension's queued changes up to and including `crud_id`,
    /// running exactly `remove_crud_statement(crud_id)`.
    pub fn remove_crud(&mut self, crud_id: i64) -> (r: Result<(), crate::error::Error>)
        ensures
            !old(self).spec_loaded() ==> r is Err && r->Err_0 is PowerSyncNotInitialized,
            old(self).spec_loaded() ==> r is Ok || r->Err_0 is Database,
            old(self).spec_loaded() ==> final(self).sent() == old(self).sent().push(
                ("DELETE FROM ps_crud WHERE id <= ?"@, seq![crud_id]),
            ),
            !old(self).spec_loaded() ==> final(self).sent() == old(self).sent(),
            final(self).txs() == old(self).txs(),
            final(self).spec_loaded() == old(self).spec_loaded(),
    {
        self.session.require_powersync()?;
        let (sql, params) = remove_crud_statement(crud_id);
        let outcome = execute_statement(&self.conn, sql.as_str(), params.as_slice());
        proof {
            self.sent = Ghost(self.sent@.push((sql@, params@)));
        }
        match outcome {
            Ok(_) => Ok(()),
            Err(e) => Err(crate::error::Error::Database(e)),
        }
    }
}

/// Operations that each succeeded leave the transactions that `run_all`
/// gives, and send exactly the statements it runs, in order.
pub proof fn lemma_outcomes_follow_run_all(
    txs: Seq<Seq<TxModel>>,
    sent: Seq<Seq<Sent>>,
    ops: Seq<OpModel>,
)
    requires
        txs.len() == ops.len() + 1,
        sent.len() == ops.len() + 1,
        forall|i: int|
            0 <= i < ops.len() ==> op_outcome(
                txs[i],
                #[trigger] ops[i],
                txs[i + 1],
                sent[i],
                sent[i + 1],
                Ok::<(), crate::error::Error>(()),
            ),
    ensures
        txs.last() == run_all(txs[0], ops).0,
        sent.last() == sent[0] + texts(run_all(txs[0], ops).1),
    decreases ops.len(),
{
    if ops.len() == 0 {
        assert(sent[0] + texts(Seq::empty()) =~= sent[0]);
    } else {
        let stmts = plan_of(txs[0], ops[0])->Ok_0;
        assert(op_outcome(txs[0], ops[0], txs[1], sent[0], sent[1], Ok::<(), crate::error::Error>(())));
        assert forall|i: int| 0 <= i < ops.drop_first().len() implies op_outcome(
            txs.drop_first()[i],
            #[trigger] ops.drop_first()[i],
            txs.drop_first()[i + 1],
            sent.drop_first()[i],
            sent.drop_first()[i + 1],
            Ok::<(), crate::error::Error>(()),
        ) by {
            assert(ops.drop_first()[i] == ops[i + 1]);
        }
        lemma_outcomes_follow_run_all(txs.drop_first(), sent.drop_first(), ops.drop_first());
        let rest = run_all(txs[1], ops.drop_first());
        assert(texts(stmts + rest.1) =~= texts(stmts) + texts(rest.1));
        assert(sent.last() =~= sent[0] + texts(stmts + rest.1));
    }
}

/// On a connection with no transaction open: begin, begin (a savepoint),
/// then commit both, the outer one first or last. When every call succeeds
/// the engine receives the opening statement, the savepoint, its release
/// and exactly one commit, in that order, and no transaction is left.
pub proof fn lemma_connection_commit_applied_once(
    w1: bool,
    w2: bool,
    h1: Seq<char>,
    h2: Seq<char>,
    sp1: Seq<char>,
    sp2: Seq<char>,
    outer_first: bool,
    txs: Seq<Seq<TxModel>>,
    sent: Seq<Seq<Sent>>,
)
    requires
        h1 != h2,
        txs.len() == 5,
        sent.len() == 5,
        txs[0] == Seq::<TxModel>::empty(),
        op_outcome(
            txs[0],
            OpModel::Begin { is_write: w1, id: h1, savepoint_name: sp1 },
            txs[1],
            sent[0],
            sent[1],
            Ok::<(), crate::error::Error>(()),
        ),
        op_outcome(
            txs[1],
            OpModel::Begin { is_write: w2, id: h2, savepoint_name: sp2 },
            txs[2],
            sent[1],
            sent[2],
            Ok::<(), crate::error::Error>(()),
        ),
        op_outcome(
            txs[2],
            OpModel::Commit(if outer_first { h1 } else { h2 }),
            txs[3],
            sent[2],
            sent[3],
            Ok::<(), crate::error::Error>(()),
        ),
        op_outcome(
            txs[3],
            OpModel::Commit(if outer_first { h2 } else { h1 }),
            txs[4],
            sent[3],
            sent[4],
            Ok::<(), crate::error::Error>(()),
        ),
    ensures
        txs[4] == Seq::<TxModel>::empty(),
        sent[4] == sent[0] + texts(
            seq![begin_stmt(w1), StmtModel::Savepoint(sp2), StmtModel::Release(sp2), StmtModel::Commit],
        ),
{
    let ops = seq![
        OpModel::Begin { is_write: w1, id: h1, savepoint_name: sp1 },
        OpModel::Begin { is_write: w2, id: h2, savepoint_name: sp2 },
        OpModel::Commit(if outer_first { h1 } else { h2 }),
        OpModel::Commit(if outer_first { h2 } else { h1 }),
    ];
    lemma_nested_commit_applied_once(w1, w2, h1, h2, sp1, sp2);
    let ok = Ok::<(), crate::error::Error>(());
    assert forall|i: int| 0 <= i < ops.len() implies op_outcome(
        txs[i],
        #[trigger] ops[i],
        txs[i + 1],
        sent[i],
        sent[i + 1],
        ok,
    ) by {
        if i == 0 {
            assert(ops[0] == OpModel::Begin { is_write: w1, id: h1, savepoint_name: sp1 });
        } else if i == 1 {
            assert(ops[1] == OpModel::Begin { is_write: w2, id: h2, savepoint_name: sp2 });
        } else if i == 2 {
            assert(ops[2] == OpModel::Commit(if outer_first { h1 } else { h2 }));
        } else {
            assert(ops[3] == OpModel::Commit(if outer_first { h2 } else { h1 }));
        }
    }
    lemma_outcomes_follow_run_all(txs, sent, ops);
    if outer_first {
        assert(ops =~= seq![
            OpModel::Begin { is_write: w1, id: h1, savepoint_name: sp1 },
            OpModel::Begin { is_write: w2, id: h2, savepoint_name: sp2 },
            OpModel::Commit(h1),
            OpModel::Commit(h2),
        ]);
    } else {
        assert(ops =~= seq![
            OpModel::Begin { is_write: w1, id: h1, savepoint_name: sp1 },
            OpModel::Begin { is_write: w2, id: h2, savepoint_name: sp2 },
            OpModel::Commit(h2),
            OpModel::Commit(h1),
        ]);
    }
}

/// Rolling back the outermost transaction, when it succeeds, sends one
/// `ROLLBACK` and nothing else, and ends every transaction; a commit or
/// rollback asked for afterwards is refused and sends nothing.
pub proof fn lemma_connection_rollback_discards_all(
    t0: Seq<TxModel>,
    t1: Seq<TxModel>,
    t2: Seq<TxModel>,
    s0: Seq<Sent>,
    s1: Seq<Sent>,
    s2: Seq<Sent>,
    later: OpModel,
    r2: Result<(), crate::error::Error>,
)
    requires
        wf_txs(t0),
        t0.len() > 0,
        !t0[0].completed,
        op_outcome(t0, OpModel::Rollback(t0[0].id), t1, s0, s1, Ok::<(), crate::error::Error>(())),
        later is Commit || later is Rollback,
        op_outcome(t1, later, t2, s1, s2, r2),
    ensures
        t1 == Seq::<TxModel>::empty(),
        s1 == s0.push((stmt_text(StmtModel::Rollback), Seq::<i64>::empty())),
        r2 is Err,
        s2 == s1,
        t2 == t1,
{
    lemma_rollback_discards_all(t0, later);
    assert(texts(seq![StmtModel::Rollback]) =~= seq![(stmt_text(StmtModel::Rollback), Seq::<i64>::empty())]);
}

} // verus!
