//! A session: the transaction bookkeeping of one open database.
use vstd::prelude::*;
use crate::error::Error;
use crate::transaction::{
    deferred_commit_due, index_of, lemma_settle_keeps_shape, live, plan_of, savepoint_live, settle_of, wf_txs, OpModel, Refusal, Stmt, StmtModel, Transaction,
    TxModel, TxOp,
};

verus! {

/// A lower-case hexadecimal digit.
pub open spec fn is_hex_digit(c: char) -> bool {
    ('0' <= c && c <= '9') || ('a' <= c && c <= 'f')
}

/// Relies on `uuid::Uuid::new_v4` and its `simple` form: a random UUID
/// written as 32 lower-case hexadecimal digits. (`new_v4` panics only when
/// the operating system's random source fails.)
#[verifier::external_body]
fn fresh_hex_id() -> (r: String)
    ensures
        r@.len() == 32,
        forall|i: int| 0 <= i < r@.len() ==> is_hex_digit(#[trigger] r@[i]),
{
    uuid::Uuid::new_v4().simple().to_string()
}

/// A name the engine accepts as a savepoint: a prefix and 32 hex digits.
pub open spec fn generated_name(name: Seq<char>, prefix: Seq<char>) -> bool {
    &&& name.len() == prefix.len() + 32
    &&& name.subrange(0, prefix.len() as int) == prefix
    &&& forall|i: int| prefix.len() <= i < name.len() ==> is_hex_digit(#[trigger] name[i])
}

/// A fresh name made of `prefix` and a random id.
fn generate_name(prefix: &str) -> (r: String)
    ensures
        generated_name(r@, prefix@),
{
    let id = fresh_hex_id();
    let mut name = String::from_str(prefix);
    name.append(id.as_str());
    proof {
        assert(name@.subrange(0, prefix@.len() as int) =~= prefix@);
        assert forall|i: int| prefix@.len() <= i < name@.len() implies is_hex_digit(#[trigger] name@[i]) by {
            assert(name@[i] == id@[i - prefix@.len()]);
        }
    }
    name
}

/// A fresh savepoint name for one batch of executions.
pub fn batch_savepoint_name() -> (r: String)
    ensures
        generated_name(r@, "batch_"@),
{
    generate_name("batch_")
}

/// The error that reports a refused operation on the handle `id`.
pub open spec fn refused_with(e: Error, f: Refusal, id: Seq<char>) -> bool {
    match f {
        Refusal::NotFound => e is TransactionNotFound && e->TransactionNotFound_0@ == id,
        Refusal::Completed => e is TransactionCompleted && e->TransactionCompleted_0@ == id,
        Refusal::InUse => e is InvalidParameter && e->InvalidParameter_0@ == id,
    }
}

/// The handle an operation names.
pub open spec fn op_id(op: OpModel) -> Seq<char> {
    match op {
        OpModel::Begin { id, .. } => id,
        OpModel::Commit(id) => id,
        OpModel::Rollback(id) => id,
    }
}

/// The models of a list of statements.
pub open spec fn stmts_view(v: Seq<Stmt>) -> Seq<StmtModel> {
    v.map_values(|s: Stmt| s@)
}

/// The models of a list of transactions.
pub open spec fn views(v: Seq<Transaction>) -> Seq<TxModel> {
    v.map_values(|t: Transaction| t@)
}

/// Each entry's savepoint flag agrees with its savepoint name.
pub open spec fn entries_wf(v: Seq<Transaction>) -> bool {
    forall|i: int| 0 <= i < v.len() ==> (#[trigger] v[i]).wf()
}

/// Removing a nested transaction, dropping them all, or marking the
/// outermost one's commit as pending keeps the shape of the entries.
proof fn lemma_after_change(before: Seq<Transaction>, after: Seq<Transaction>, i: int)
    requires
        wf_txs(views(before)),
        entries_wf(before),
        0 <= i < before.len(),
        (after == before.remove(i) && i >= 1) || after.len() == 0 || (i == 0 && after
            == before.update(i, Transaction { completed: true, ..before[i] }) && before.len() > 1),
    ensures
        wf_txs(views(after)),
        entries_wf(after),
        after == before.remove(i) ==> views(after) == views(before).remove(i),
        after.len() == 0 ==> views(after) == Seq::<TxModel>::empty(),
        after.len() == before.len() ==> views(after) == views(before).update(
            i,
            TxModel { completed: true, ..views(before)[i] },
        ),
{
    let vb = views(before);
    let va = views(after);
    if after.len() == 0 {
        assert(va =~= Seq::<TxModel>::empty());
    } else if after == before.remove(i) {
        assert(va =~= vb.remove(i));
        assert forall|k: int| 0 <= k < after.len() implies (#[trigger] after[k]).wf() by {
            if k < i {
                assert(after[k] == before[k]);
            } else {
                assert(after[k] == before[k + 1]);
            }
        }
        assert forall|k: int| 1 <= k < va.len() implies (#[trigger] va[k]).savepoint is Some
            && !va[k].completed by {
            if k < i {
                assert(va[k] == vb[k]);
            } else {
                assert(va[k] == vb[k + 1]);
            }
        }
        assert forall|k: int, m: int| 0 <= k < m < va.len() implies (#[trigger] va[k]).id != (
        #[trigger] va[m]).id by {
            let k2 = if k < i { k } else { k + 1 };
            let m2 = if m < i { m } else { m + 1 };
            assert(va[k] == vb[k2]);
            assert(va[m] == vb[m2]);
        }
        assert(va[0] == vb[0]);
    } else {
        let t = TxModel { completed: true, ..vb[i] };
        assert(va =~= vb.update(i, t));
        assert forall|k: int| 0 <= k < after.len() implies (#[trigger] after[k]).wf() by {
            if k != i {
                assert(after[k] == before[k]);
            }
        }
        assert forall|k: int, m: int| 0 <= k < m < va.len() implies (#[trigger] va[k]).id != (
        #[trigger] va[m]).id by {
            assert(vb[k].id != vb[m].id);
        }
    }
}

/// The transaction bookkeeping of one open database.
pub struct Session {
    transactions: Vec<Transaction>,
    db_path: String,
    powersync_loaded: bool,
}

impl Session {
    /// The live transactions, outermost first.
    pub closed spec fn txs(&self) -> Seq<TxModel> {
        views(self.transactions@)
    }

    pub closed spec fn spec_path(&self) -> Seq<char> {
        self.db_path@
    }

    pub closed spec fn spec_loaded(&self) -> bool {
        self.powersync_loaded
    }

    /// The live transactions have the shape that `wf_txs` describes.
    #[verifier::type_invariant]
    closed spec fn wf(&self) -> bool {
        &&& wf_txs(self.txs())
        &&& entries_wf(self.transactions@)
    }

    /// A session on the database at `db_path` with no transaction open.
    pub fn new(db_path: String, powersync_loaded: bool) -> (r: Session)
        ensures
            r.txs().len() == 0,
            r.spec_path() == db_path@,
            r.spec_loaded() == powersync_loaded,
    {
        let transactions: Vec<Transaction> = Vec::new();
        assert(views(transactions@) =~= Seq::<TxModel>::empty());
        Session { transactions, db_path, powersync_loaded }
    }

    /// How many logical transactions are open: one per live handle.
    pub fn depth(&self) -> (r: usize)
        ensures
            r == self.txs().len(),
            r == handles(self.txs()).len(),
            wf_txs(self.txs()),
    {
        proof {
            use_type_invariant(self);
            lemma_depth_counts_handles(self.txs());
        }
        self.transactions.len()
    }

    /// The database file of this session.
    pub fn path(&self) -> (r: &String)
        ensures
            r@ == self.spec_path(),
    {
        &self.db_path
    }

    /// Whether the storage extension is available on this session.
    pub fn is_powersync_loaded(&self) -> (r: bool)
        ensures
            r == self.spec_loaded(),
    {
        self.powersync_loaded
    }

    /// Succeeds exactly when the storage extension is available; the
    /// extension's operations call this first.
    pub fn require_powersync(&self) -> (r: Result<(), Error>)
        ensures
            r is Ok <==> self.spec_loaded(),
            r is Err ==> r->Err_0 is PowerSyncNotInitialized,
    {
        if self.powersync_loaded {
            Ok(())
        } else {
            Err(Error::PowerSyncNotInitialized)
        }
    }

    /// The position of the live transaction with the handle.
    fn find(&self, id: &String) -> (r: Option<usize>)
        requires
            self.wf(),
        ensures
            r is Some ==> r->Some_0 < self.txs().len() && live(self.txs(), id@) && index_of(
                self.txs(),
                id@,
            ) == r->Some_0,
            r is None ==> !live(self.txs(), id@),
    {
        let mut i: usize = 0;
        while i < self.transactions.len()
            invariant
                self.wf(),
                i <= self.txs().len(),
                self.txs().len() == self.transactions@.len(),
                forall|k: int| 0 <= k < i ==> (#[trigger] self.txs()[k]).id != id@,
            decreases self.transactions@.len() - i,
        {
            if self.transactions[i].id == *id {
                proof {
                    let t = self.txs();
                    assert(t[i as int].id == id@);
                    let j = index_of(t, id@);
                    assert(0 <= j < t.len() && t[j].id == id@);
                    if j != i {
                        if j < i {
                            assert(t[j].id != t[i as int].id);
                        } else {
                            assert(t[i as int].id != t[j].id);
                        }
                    }
                }
                return Some(i);
            }
            i = i + 1;
        }
        None
    }

    /// Whether a live savepoint has the name.
    fn savepoint_in_use(&self, name: &String) -> (r: bool)
        ensures
            r == savepoint_live(self.txs(), name@),
    {
        let mut i: usize = 0;
        while i < self.transactions.len()
            invariant
                i <= self.txs().len(),
                self.txs().len() == self.transactions@.len(),
                forall|k: int| 0 <= k < i ==> (#[trigger] self.txs()[k]).savepoint != Some(name@),
            decreases self.transactions@.len() - i,
        {
            let hit = match &self.transactions[i].savepoint_name {
                Some(n) => *n == *name,
                None => false,
            };
            if hit {
                assert(self.txs()[i as int].savepoint == Some(name@));
                return true;
            }
            i = i + 1;
        }
        false
    }

    /// A fresh random handle and a fresh random savepoint name for a new
    /// transaction. The caller never chooses either.
    pub fn begin_names() -> (r: (String, String))
        ensures
            generated_name(r.0@, Seq::empty()),
            generated_name(r.1@, "sp_"@),
    {
        let id = generate_name("");
        let savepoint_name = generate_name("sp_");
        proof {
            reveal_strlit("");
            assert(""@ =~= Seq::<char>::empty());
        }
        (id, savepoint_name)
    }

    /// After the nested transaction at `i` is removed, the physical commit
    /// that was requested earlier is due: only the outermost transaction
    /// remains, and its commit is pending.
    fn check_deferred_commits(&self, i: usize) -> (r: bool)
        requires
            self.wf(),
            1 <= i < self.txs().len(),
        ensures
            r == deferred_commit_due(self.txs().remove(i as int)),
    {
        self.transactions.len() == 2 && self.transactions[0].completed
    }

    /// The statements that the operation must run, in order; or the error
    /// with which it is refused before anything runs.
    pub fn plan(&self, op: &TxOp) -> (r: Result<Vec<Stmt>, Error>)
        ensures
            wf_txs(self.txs()),
            match plan_of(self.txs(), op@) {
                Ok(stmts) => r is Ok && stmts_view(r->Ok_0@) == stmts,
                Err(f) => r is Err && refused_with(r->Err_0, f, op_id(op@)),
            },
    {
        proof {
            use_type_invariant(self);
        }
        let ghost txs = self.txs();
        match op {
            TxOp::Begin { is_write, id, savepoint_name } => {
                if self.find(id).is_some() || self.savepoint_in_use(savepoint_name) {
                    return Err(Error::InvalidParameter(id.clone()));
                }
                let mut v: Vec<Stmt> = Vec::new();
                if self.transactions.len() == 0 {
                    if *is_write {
                        v.push(Stmt::BeginImmediate);
                    } else {
                        v.push(Stmt::Begin);
                    }
                } else {
                    v.push(Stmt::Savepoint(savepoint_name.clone()));
                }
                assert(stmts_view(v@) =~= plan_of(txs, op@)->Ok_0);
                Ok(v)
            },
            TxOp::Commit(id) => {
                let i = match self.find(id) {
                    None => {
                        return Err(Error::TransactionNotFound(id.clone()));
                    },
                    Some(i) => i,
                };
                assert(txs[i as int] == self.transactions@[i as int]@);
                if self.transactions[i].completed {
                    return Err(Error::TransactionCompleted(id.clone()));
                }
                let mut v: Vec<Stmt> = Vec::new();
                match &self.transactions[i].savepoint_name {
                    Some(name) => {
                        v.push(Stmt::Release(name.clone()));
                        if self.check_deferred_commits(i) {
                            v.push(Stmt::Commit);
                        }
                    },
                    None => {
                        if self.transactions.len() == 1 {
                            v.push(Stmt::Commit);
                        }
                    },
                }
                assert(stmts_view(v@) =~= plan_of(txs, op@)->Ok_0);
                Ok(v)
            },
            TxOp::Rollback(id) => {
                let i = match self.find(id) {
                    None => {
                        return Err(Error::TransactionNotFound(id.clone()));
                    },
                    Some(i) => i,
                };
                assert(txs[i as int] == self.transactions@[i as int]@);
                if self.transactions[i].completed {
                    return Err(Error::TransactionCompleted(id.clone()));
                }
                let mut v: Vec<Stmt> = Vec::new();
                match &self.transactions[i].savepoint_name {
                    Some(name) => {
                        v.push(Stmt::RollbackTo(name.clone()));
                        v.push(Stmt::Release(name.clone()));
                        if self.check_deferred_commits(i) {
                            v.push(Stmt::Commit);
                        }
                    },
                    None => {
                        v.push(Stmt::Rollback);
                    },
                }
                assert(stmts_view(v@) =~= plan_of(txs, op@)->Ok_0);
                Ok(v)
            },
        }
    }

    /// Records the effect of an operation of which the first `done`
    /// statements of its plan succeeded. Only an operation whose every
    /// statement succeeded takes effect; a refused or failed one changes
    /// nothing.
    pub fn settle(&mut self, op: &TxOp, done: usize)
        ensures
            wf_txs(final(self).txs()),
            final(self).txs() == settle_of(old(self).txs(), op@, done as nat),
            final(self).spec_path() == old(self).spec_path(),
            final(self).spec_loaded() == old(self).spec_loaded(),
    {
        proof {
            use_type_invariant(&*self);
        }
        match self.plan(op) {
            Err(_) => {
                return;
            },
            Ok(stmts) => {
                if done < stmts.len() {
                    return;
                }
            },
        }
        let ghost txs = self.txs();
        match op {
            TxOp::Begin { is_write, id, savepoint_name } => {
                if self.find(id).is_some() || self.savepoint_in_use(savepoint_name) || done == 0 {
                    return;
                }
                let nested = self.transactions.len() > 0;
                let name = if nested {
                    Some(savepoint_name.clone())
                } else {
                    None
                };
                let mut entries: Vec<Transaction> = Vec::new();
                std::mem::swap(&mut entries, &mut self.transactions);
                let ghost before = entries@;
                entries.push(
                    Transaction {
                        id: id.clone(),
                        is_write: *is_write,
                        completed: false,
                        is_savepoint: nested,
                        savepoint_name: name,
                    },
                );
                proof {
                    let new_tx = TxModel {
                        id: id@,
                        is_write: *is_write,
                        completed: false,
                        savepoint: if txs.len() == 0 {
                            None
                        } else {
                            Some(savepoint_name@)
                        },
                    };
                    assert(views(entries@) =~= txs.push(new_tx));
                    lemma_settle_keeps_shape(txs, op@, done as nat);
                    assert forall|k: int| 0 <= k < entries@.len() implies (
                    #[trigger] entries@[k]).wf() by {
                        if k < txs.len() {
                            assert(entries@[k] == before[k]);
                        }
                    }
                }
                std::mem::swap(&mut entries, &mut self.transactions);
            },
            TxOp::Commit(id) => {
                let i = match self.find(id) {
                    None => {
                        return;
                    },
                    Some(i) => i,
                };
                assert(txs[i as int] == self.transactions@[i as int]@);
                if self.transactions[i].completed {
                    return;
                }
                let nested = self.transactions[i].is_savepoint;
                let alone = self.transactions.len() == 1;
                if done == 0 && (nested || alone) {
                    return;
                }
                let due = nested && self.check_deferred_commits(i);
                let mut entries: Vec<Transaction> = Vec::new();
                std::mem::swap(&mut entries, &mut self.transactions);
                let ghost before = entries@;
                if nested {
                    let _ = entries.remove(i);
                    if due && done >= 2 {
                        entries.clear();
                    }
                } else if alone {
                    entries.clear();
                } else {
                    entries[i].completed = true;
                }
                proof {
                    lemma_after_change(before, entries@, i as int);
                }
                std::mem::swap(&mut entries, &mut self.transactions);
            },
            TxOp::Rollback(id) => {
                let i = match self.find(id) {
                    None => {
                        return;
                    },
                    Some(i) => i,
                };
                assert(txs[i as int] == self.transactions@[i as int]@);
                if self.transactions[i].completed {
                    return;
                }
                let nested = self.transactions[i].is_savepoint;
                if (nested && done < 2) || done == 0 {
                    return;
                }
                let due = nested && self.check_deferred_commits(i);
                let mut entries: Vec<Transaction> = Vec::new();
                std::mem::swap(&mut entries, &mut self.transactions);
                let ghost before = entries@;
                if nested {
                    let _ = entries.remove(i);
                    if due && done >= 3 {
                        entries.clear();
                    }
                } else {
                    entries.clear();
                }
                proof {
                    lemma_after_change(before, entries@, i as int);
                }
                std::mem::swap(&mut entries, &mut self.transactions);
            },
        }
    }
}

/// The handles of a session's live transactions.
pub open spec fn handles(txs: Seq<TxModel>) -> Set<Seq<char>> {
    txs.map_values(|t: TxModel| t.id).to_set()
}

/// Well-shaped transactions have one handle each: their number is the
/// number of live handles.
pub proof fn lemma_depth_counts_handles(txs: Seq<TxModel>)
    requires
        wf_txs(txs),
    ensures
        txs.len() == handles(txs).len(),
{
    let ids = txs.map_values(|t: TxModel| t.id);
    assert(ids.no_duplicates()) by {
        assert forall|i: int, j: int| 0 <= i < ids.len() && 0 <= j < ids.len() && i != j implies ids[i]
            != ids[j] by {
            if i < j {
                assert(txs[i].id != txs[j].id);
            } else {
                assert(txs[j].id != txs[i].id);
            }
        }
    }
    ids.unique_seq_to_set();
}

} // verus!
