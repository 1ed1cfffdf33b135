//! The nested-transaction state machine, stated over mathematical models.
//!
//! The engine keeps one physical transaction. The first logical transaction
//! of a session opens it; each one begun inside it becomes a savepoint. A
//! commit of the outermost transaction while savepoints are still open is
//! recorded and applied once they have all been resolved.
//!
//! Every operation is split in two: `plan` names the statements that the
//! engine must run, in order; `settle` records what the operation did, given
//! how many of those statements succeeded (a caller stops at the first
//! failure).
use vstd::prelude::*;

verus! {

/// One logical transaction or savepoint.
#[derive(Debug, Clone)]
pub struct Transaction {
    /// The opaque handle given to the caller.
    pub id: String,
    pub is_write: bool,
    /// A commit was requested and is waiting for nested savepoints.
    pub completed: bool,
    /// Realised as a savepoint inside the physical transaction.
    pub is_savepoint: bool,
    /// The engine-side savepoint name, present exactly for savepoints.
    pub savepoint_name: Option<String>,
}

/// The model of a `Transaction`.
pub struct TxModel {
    pub id: Seq<char>,
    pub is_write: bool,
    pub completed: bool,
    pub savepoint: Option<Seq<char>>,
}

impl View for Transaction {
    type V = TxModel;

    open spec fn view(&self) -> TxModel {
        TxModel {
            id: self.id@,
            is_write: self.is_write,
            completed: self.completed,
            savepoint: match self.savepoint_name {
                Some(n) => Some(n@),
                None => None,
            },
        }
    }
}

impl Transaction {
    /// The flag and the name agree.
    pub open spec fn wf(&self) -> bool {
        self.is_savepoint == self.savepoint_name is Some
    }
}

/// A statement of transaction control that the engine must run.
#[derive(Debug, Clone)]
pub enum Stmt {
    /// A deferred transaction: locks are taken on first use.
    Begin,
    /// A transaction that takes the write lock at once.
    BeginImmediate,
    Savepoint(String),
    Release(String),
    RollbackTo(String),
    Commit,
    Rollback,
}

pub enum StmtModel {
    Begin,
    BeginImmediate,
    Savepoint(Seq<char>),
    Release(Seq<char>),
    RollbackTo(Seq<char>),
    Commit,
    Rollback,
}

impl View for Stmt {
    type V = StmtModel;

    open spec fn view(&self) -> StmtModel {
        match self {
            Stmt::Begin => StmtModel::Begin,
            Stmt::BeginImmediate => StmtModel::BeginImmediate,
            Stmt::Savepoint(n) => StmtModel::Savepoint(n@),
            Stmt::Release(n) => StmtModel::Release(n@),
            Stmt::RollbackTo(n) => StmtModel::RollbackTo(n@),
            Stmt::Commit => StmtModel::Commit,
            Stmt::Rollback => StmtModel::Rollback,
        }
    }
}

/// The SQL text of a statement.
pub open spec fn stmt_text(s: StmtModel) -> Seq<char> {
    match s {
        StmtModel::Begin => "BEGIN"@,
        StmtModel::BeginImmediate => "BEGIN IMMEDIATE"@,
        StmtModel::Savepoint(n) => "SAVEPOINT "@ + n,
        StmtModel::Release(n) => "RELEASE SAVEPOINT "@ + n,
        StmtModel::RollbackTo(n) => "ROLLBACK TO SAVEPOINT "@ + n,
        StmtModel::Commit => "COMMIT"@,
        StmtModel::Rollback => "ROLLBACK"@,
    }
}

impl Stmt {
    /// The SQL text to run.
    pub fn sql(&self) -> (r: String)
        ensures
            r@ == stmt_text(self@),
    {
        match self {
            Stmt::Begin => String::from_str("BEGIN"),
            Stmt::BeginImmediate => String::from_str("BEGIN IMMEDIATE"),
            Stmt::Savepoint(n) => {
                let mut s = String::from_str("SAVEPOINT ");
                s.append(n.as_str());
                s
            },
            Stmt::Release(n) => {
                let mut s = String::from_str("RELEASE SAVEPOINT ");
                s.append(n.as_str());
                s
            },
            Stmt::RollbackTo(n) => {
                let mut s = String::from_str("ROLLBACK TO SAVEPOINT ");
                s.append(n.as_str());
                s
            },
            Stmt::Commit => String::from_str("COMMIT"),
            Stmt::Rollback => String::from_str("ROLLBACK"),
        }
    }
}

/// A request on a session's transactions.
#[derive(Debug, Clone)]
pub enum TxOp {
    /// Begin a transaction under a fresh handle; `savepoint_name` is used
    /// when it nests.
    Begin { is_write: bool, id: String, savepoint_name: String },
    Commit(String),
    Rollback(String),
}

pub enum OpModel {
    Begin { is_write: bool, id: Seq<char>, savepoint_name: Seq<char> },
    Commit(Seq<char>),
    Rollback(Seq<char>),
}

impl View for TxOp {
    type V = OpModel;

    open spec fn view(&self) -> OpModel {
        match self {
            TxOp::Begin { is_write, id, savepoint_name } => OpModel::Begin {
                is_write: *is_write,
                id: id@,
                savepoint_name: savepoint_name@,
            },
            TxOp::Commit(id) => OpModel::Commit(id@),
            TxOp::Rollback(id) => OpModel::Rollback(id@),
        }
    }
}

/// Why an operation was refused before any statement ran.
pub enum Refusal {
    /// No live transaction has the handle.
    NotFound,
    /// Its commit was already requested.
    Completed,
    /// A new transaction was offered a handle, or a savepoint name, that
    /// is already live.
    InUse,
}

/// Some live transaction has the handle.
pub open spec fn live(txs: Seq<TxModel>, id: Seq<char>) -> bool {
    exists|i: int| 0 <= i < txs.len() && txs[i].id == id
}

/// Some live savepoint has the name.
pub open spec fn savepoint_live(txs: Seq<TxModel>, name: Seq<char>) -> bool {
    exists|i: int| 0 <= i < txs.len() && txs[i].savepoint == Some(name)
}

/// The position of the live transaction with the handle.
pub open spec fn index_of(txs: Seq<TxModel>, id: Seq<char>) -> int {
    choose|i: int| 0 <= i < txs.len() && txs[i].id == id
}

/// The shape of a session's transactions: the first is the physical
/// transaction, every later one a savepoint nested in it whose commit is
/// never pending, and no handle appears twice.
pub open spec fn wf_txs(txs: Seq<TxModel>) -> bool {
    &&& txs.len() > 0 ==> txs[0].savepoint is None
    &&& forall|i: int| 1 <= i < txs.len() ==> (#[trigger] txs[i]).savepoint is Some && !txs[i].completed
    &&& forall|i: int, j: int| 0 <= i < j < txs.len() ==> (#[trigger] txs[i]).id != (#[trigger] txs[j]).id
}

/// A commit of the physical transaction is pending and nothing is nested
/// above it any more.
pub open spec fn deferred_commit_due(txs: Seq<TxModel>) -> bool {
    txs.len() == 1 && txs[0].completed && txs[0].savepoint is None
}

/// The statements an operation runs, or why it is refused.
pub open spec fn plan_of(txs: Seq<TxModel>, op: OpModel) -> Result<Seq<StmtModel>, Refusal> {
    match op {
        OpModel::Begin { is_write, id, savepoint_name } => {
            if live(txs, id) || savepoint_live(txs, savepoint_name) {
                Err(Refusal::InUse)
            } else if txs.len() == 0 {
                Ok(seq![if is_write { StmtModel::BeginImmediate } else { StmtModel::Begin }])
            } else {
                Ok(seq![StmtModel::Savepoint(savepoint_name)])
            }
        },
        OpModel::Commit(id) => {
            if !live(txs, id) {
                Err(Refusal::NotFound)
            } else if txs[index_of(txs, id)].completed {
                Err(Refusal::Completed)
            } else {
                let i = index_of(txs, id);
                match txs[i].savepoint {
                    Some(name) => Ok(
                        seq![StmtModel::Release(name)] + if deferred_commit_due(txs.remove(i)) {
                            seq![StmtModel::Commit]
                        } else {
                            Seq::empty()
                        },
                    ),
                    None => if txs.len() == 1 {
                        Ok(seq![StmtModel::Commit])
                    } else {
                        Ok(Seq::empty())
                    },
                }
            }
        },
        OpModel::Rollback(id) => {
            if !live(txs, id) {
                Err(Refusal::NotFound)
            } else if txs[index_of(txs, id)].completed {
                Err(Refusal::Completed)
            } else {
                let i = index_of(txs, id);
                match txs[i].savepoint {
                    Some(name) => Ok(
                        seq![StmtModel::RollbackTo(name), StmtModel::Release(name)]
                            + if deferred_commit_due(txs.remove(i)) {
                            seq![StmtModel::Commit]
                        } else {
                            Seq::empty()
                        },
                    ),
                    None => Ok(seq![StmtModel::Rollback]),
                }
            }
        },
    }
}

/// The transactions after an operation whose first `done` statements
/// succeeded. It takes effect only when every statement of its plan
/// succeeded: a refused operation, or one with a failed statement, leaves
/// the transactions as they were.
pub open spec fn settle_of(txs: Seq<TxModel>, op: OpModel, done: nat) -> Seq<TxModel> {
    match plan_of(txs, op) {
        Err(_) => txs,
        Ok(stmts) => if done < stmts.len() {
            txs
        } else {
            match op {
            OpModel::Begin { is_write, id, savepoint_name } => {
                if done >= 1 {
                    txs.push(
                        TxModel {
                            id,
                            is_write,
                            completed: false,
                            savepoint: if txs.len() == 0 {
                                None
                            } else {
                                Some(savepoint_name)
                            },
                        },
                    )
                } else {
                    txs
                }
            },
            OpModel::Commit(id) => {
                let i = index_of(txs, id);
                if txs[i].savepoint is Some {
                    if done == 0 {
                        txs
                    } else if deferred_commit_due(txs.remove(i)) && done >= 2 {
                        Seq::empty()
                    } else {
                        txs.remove(i)
                    }
                } else if txs.len() == 1 {
                    if done >= 1 {
                        Seq::empty()
                    } else {
                        txs
                    }
                } else {
                    txs.update(i, TxModel { completed: true, ..txs[i] })
                }
            },
            OpModel::Rollback(id) => {
                let i = index_of(txs, id);
                if txs[i].savepoint is Some {
                    if done < 2 {
                        txs
                    } else if deferred_commit_due(txs.remove(i)) && done >= 3 {
                        Seq::empty()
                    } else {
                        txs.remove(i)
                    }
                } else if done >= 1 {
                    Seq::empty()
                } else {
                    txs
                }
            },
        }
        },
    }
}

/// Runs the operations in order, each with all of its statements
/// succeeding; gives the transactions at the end and every statement run.
pub open spec fn run_all(txs: Seq<TxModel>, ops: Seq<OpModel>) -> (Seq<TxModel>, Seq<StmtModel>)
    decreases ops.len(),
{
    if ops.len() == 0 {
        (txs, Seq::empty())
    } else {
        let stmts = match plan_of(txs, ops[0]) {
            Ok(ss) => ss,
            Err(_) => Seq::empty(),
        };
        let rest = run_all(settle_of(txs, ops[0], stmts.len()), ops.drop_first());
        (rest.0, stmts + rest.1)
    }
}

/// The statement that opens the physical transaction.
pub open spec fn begin_stmt(is_write: bool) -> StmtModel {
    if is_write {
        StmtModel::BeginImmediate
    } else {
        StmtModel::Begin
    }
}

/// Two begins on an idle session open the physical transaction, then a
/// savepoint nested in it.
proof fn lemma_two_open(w1: bool, w2: bool, h1: Seq<char>, h2: Seq<char>, sp1: Seq<char>, sp2: Seq<char>)
    requires
        h1 != h2,
    ensures
        ({
            let b1 = OpModel::Begin { is_write: w1, id: h1, savepoint_name: sp1 };
            let b2 = OpModel::Begin { is_write: w2, id: h2, savepoint_name: sp2 };
            let s1 = settle_of(Seq::empty(), b1, 1);
            let s2 = settle_of(s1, b2, 1);
            &&& plan_of(Seq::empty(), b1) == Ok::<Seq<StmtModel>, Refusal>(seq![begin_stmt(w1)])
            &&& plan_of(s1, b2) == Ok::<Seq<StmtModel>, Refusal>(seq![StmtModel::Savepoint(sp2)])
            &&& s2.len() == 2
            &&& s2[0] == TxModel { id: h1, is_write: w1, completed: false, savepoint: None }
            &&& s2[1] == TxModel { id: h2, is_write: w2, completed: false, savepoint: Some(sp2) }
        }),
{
    let b1 = OpModel::Begin { is_write: w1, id: h1, savepoint_name: sp1 };
    let b2 = OpModel::Begin { is_write: w2, id: h2, savepoint_name: sp2 };
    let e = Seq::<TxModel>::empty();
    assert(!live(e, h1));
    let s1 = settle_of(e, b1, 1);
    assert(s1.len() == 1 && s1[0].id == h1);
    assert(!live(s1, h2));
    assert(!savepoint_live(e, sp1));
    assert(!savepoint_live(s1, sp2)) by {
        assert(s1[0].savepoint is None);
    }
}

/// A savepoint nested in the outer transaction, committed in either order
/// with the outer one: the physical commit runs exactly once, after the
/// savepoint is released, and no transaction is left open.
pub proof fn lemma_nested_commit_applied_once(
    w1: bool,
    w2: bool,
    h1: Seq<char>,
    h2: Seq<char>,
    sp1: Seq<char>,
    sp2: Seq<char>,
)
    requires
        h1 != h2,
    ensures
        ({
            let b1 = OpModel::Begin { is_write: w1, id: h1, savepoint_name: sp1 };
            let b2 = OpModel::Begin { is_write: w2, id: h2, savepoint_name: sp2 };
            let expected = seq![
                begin_stmt(w1),
                StmtModel::Savepoint(sp2),
                StmtModel::Release(sp2),
                StmtModel::Commit,
            ];
            &&& run_all(Seq::empty(), seq![b1, b2, OpModel::Commit(h1), OpModel::Commit(h2)])
                == (Seq::<TxModel>::empty(), expected)
            &&& run_all(Seq::empty(), seq![b1, b2, OpModel::Commit(h2), OpModel::Commit(h1)])
                == (Seq::<TxModel>::empty(), expected)
        }),
{
    let b1 = OpModel::Begin { is_write: w1, id: h1, savepoint_name: sp1 };
    let b2 = OpModel::Begin { is_write: w2, id: h2, savepoint_name: sp2 };
    let e = Seq::<TxModel>::empty();
    lemma_two_open(w1, w2, h1, h2, sp1, sp2);
    let s1 = settle_of(e, b1, 1);
    let s2 = settle_of(s1, b2, 1);
    assert(live(s2, h1) && live(s2, h2)) by {
        assert(s2[0].id == h1);
        assert(s2[1].id == h2);
    }
    assert(index_of(s2, h1) == 0);
    assert(index_of(s2, h2) == 1);
    // The outer commit first: it is only recorded.
    let c1 = OpModel::Commit(h1);
    let c2 = OpModel::Commit(h2);
    assert(plan_of(s2, c1) == Ok::<Seq<StmtModel>, Refusal>(Seq::empty()));
    let s3 = settle_of(s2, c1, 0);
    assert(s3 == s2.update(0, TxModel { completed: true, ..s2[0] }));
    assert(s3[1].id == h2);
    assert(live(s3, h2));
    assert(index_of(s3, h2) == 1);
    assert(s3.remove(1) =~= seq![s3[0]]);
    assert(s3[1] == s2[1]);
    assert(s3[0].completed && s3[0].savepoint is None);
    assert(deferred_commit_due(s3.remove(1)));
    assert(plan_of(s3, c2) is Ok);
    assert(plan_of(s3, c2)->Ok_0 =~= seq![StmtModel::Release(sp2)] + seq![StmtModel::Commit]);
    assert(plan_of(s3, c2)->Ok_0 =~= seq![StmtModel::Release(sp2), StmtModel::Commit]);
    assert(settle_of(s3, c2, 2) == e);
    let ops_a = seq![b1, b2, c1, c2];
    assert(ops_a.drop_first() =~= seq![b2, c1, c2]);
    assert(ops_a.drop_first().drop_first() =~= seq![c1, c2]);
    assert(ops_a.drop_first().drop_first().drop_first() =~= seq![c2]);
    assert(seq![c2].drop_first() =~= Seq::<OpModel>::empty());
    let tail = seq![StmtModel::Release(sp2), StmtModel::Commit];
    assert(run_all(e, Seq::<OpModel>::empty()) == (e, Seq::<StmtModel>::empty()));
    assert(run_all(s3, seq![c2]) == (e, tail + Seq::<StmtModel>::empty()));
    assert(tail + Seq::<StmtModel>::empty() =~= tail);
    assert(run_all(s2, seq![c1, c2]) == (e, Seq::<StmtModel>::empty() + tail));
    assert(Seq::<StmtModel>::empty() + tail =~= tail);
    assert(run_all(s1, seq![b2, c1, c2]) == (e, seq![StmtModel::Savepoint(sp2)] + tail));
    assert(run_all(e, ops_a).1 =~= seq![
        begin_stmt(w1),
        StmtModel::Savepoint(sp2),
        StmtModel::Release(sp2),
        StmtModel::Commit,
    ]);
    // The savepoint first: releasing it leaves the outer one to commit.
    assert(s2.remove(1) =~= seq![s2[0]]);
    assert(plan_of(s2, c2) =~= Ok::<Seq<StmtModel>, Refusal>(seq![StmtModel::Release(sp2)]));
    let t3 = settle_of(s2, c2, 1);
    assert(t3 == s2.remove(1));
    assert(live(t3, h1)) by {
        assert(t3[0].id == h1);
    }
    assert(index_of(t3, h1) == 0);
    assert(plan_of(t3, c1) =~= Ok::<Seq<StmtModel>, Refusal>(seq![StmtModel::Commit]));
    assert(settle_of(t3, c1, 1) == e);
    let ops_b = seq![b1, b2, c2, c1];
    assert(ops_b.drop_first() =~= seq![b2, c2, c1]);
    assert(ops_b.drop_first().drop_first() =~= seq![c2, c1]);
    assert(ops_b.drop_first().drop_first().drop_first() =~= seq![c1]);
    assert(seq![c1].drop_first() =~= Seq::<OpModel>::empty());
    let last = seq![StmtModel::Commit];
    assert(run_all(t3, seq![c1]) == (e, last + Seq::<StmtModel>::empty()));
    assert(last + Seq::<StmtModel>::empty() =~= last);
    assert(run_all(s2, seq![c2, c1]) == (e, seq![StmtModel::Release(sp2)] + last));
    assert(run_all(s1, seq![b2, c2, c1]) == (e, seq![StmtModel::Savepoint(sp2)] + (seq![StmtModel::Release(sp2)] + last)));
    assert(run_all(e, ops_b).1 =~= seq![
        begin_stmt(w1),
        StmtModel::Savepoint(sp2),
        StmtModel::Release(sp2),
        StmtModel::Commit,
    ]);
}

/// Rolling back the outermost transaction runs one physical rollback and
/// ends every nested transaction with it; a commit that was pending is
/// gone, and no later request can reach any of them.
pub proof fn lemma_rollback_discards_all(txs: Seq<TxModel>, later: OpModel)
    requires
        wf_txs(txs),
        txs.len() > 0,
        !txs[0].completed,
        later is Commit || later is Rollback,
    ensures
        plan_of(txs, OpModel::Rollback(txs[0].id)) == Ok::<Seq<StmtModel>, Refusal>(
            seq![StmtModel::Rollback],
        ),
        settle_of(txs, OpModel::Rollback(txs[0].id), 1) == Seq::<TxModel>::empty(),
        plan_of(Seq::<TxModel>::empty(), later) == Err::<Seq<StmtModel>, Refusal>(Refusal::NotFound),
{
    let id = txs[0].id;
    assert(live(txs, id));
    let i = index_of(txs, id);
    if i != 0 {
        assert(txs[0].id != txs[i].id);
    }
}

/// When any statement of an operation fails, the transactions stay as they
/// were.
pub proof fn lemma_failure_changes_nothing(txs: Seq<TxModel>, op: OpModel, done: nat)
    requires
        plan_of(txs, op) is Ok,
        done < plan_of(txs, op)->Ok_0.len(),
    ensures
        settle_of(txs, op, done) == txs,
{
}

/// Every operation, whatever its outcome, keeps the shape of the
/// transactions: one physical transaction first, savepoints after it, and
/// distinct handles.
pub proof fn lemma_settle_keeps_shape(txs: Seq<TxModel>, op: OpModel, done: nat)
    requires
        wf_txs(txs),
    ensures
        wf_txs(settle_of(txs, op, done)),
{
    let r = settle_of(txs, op, done);
    if plan_of(txs, op) is Ok {
        match op {
            OpModel::Begin { is_write, id, savepoint_name } => {
                if done >= 1 {
                    assert forall|k: int, m: int| 0 <= k < m < r.len() implies (#[trigger] r[k]).id
                        != (#[trigger] r[m]).id by {
                        if m == txs.len() {
                            assert(r[k] == txs[k]);
                        }
                    }
                }
            },
            OpModel::Commit(id) => {
                let i = index_of(txs, id);
                if txs[i].savepoint is Some {
                    lemma_remove_keeps_shape(txs, i);
                } else if txs.len() > 1 {
                    if i != 0 {
                        assert(txs[i].savepoint is Some);
                    }
                    assert forall|k: int, m: int| 0 <= k < m < r.len() implies (#[trigger] r[k]).id
                        != (#[trigger] r[m]).id by {
                        assert(txs[k].id != txs[m].id);
                    }
                }
            },
            OpModel::Rollback(id) => {
                let i = index_of(txs, id);
                if txs[i].savepoint is Some {
                    lemma_remove_keeps_shape(txs, i);
                }
            },
        }
    }
}

proof fn lemma_remove_keeps_shape(txs: Seq<TxModel>, i: int)
    requires
        wf_txs(txs),
        0 <= i < txs.len(),
        txs[i].savepoint is Some,
    ensures
        wf_txs(txs.remove(i)),
{
    let r = txs.remove(i);
    assert(i != 0);
    assert forall|k: int| 1 <= k < r.len() implies (#[trigger] r[k]).savepoint is Some
        && !r[k].completed by {
        if k >= i {
            assert(r[k] == txs[k + 1]);
        }
    }
    assert forall|k: int, m: int| 0 <= k < m < r.len() implies (#[trigger] r[k]).id != (
    #[trigger] r[m]).id by {
        let k2 = if k < i { k } else { k + 1 };
        let m2 = if m < i { m } else { m + 1 };
        assert(r[k] == txs[k2]);
        assert(r[m] == txs[m2]);
    }
}

} // verus!
