//! What statement execution hands back: result rows, change counts, and the
//! bookkeeping of a batch run inside its own savepoint.
use vstd::prelude::*;
use crate::codec::{decode_row, decodes, CellValue, ColumnValue};
use crate::session::{batch_savepoint_name, generated_name};
use crate::error::Error;
use crate::transaction::Stmt;

verus! {

/// One result row: a cell per column, in column order.
pub type RowResult = Vec<CellValue>;

/// The rows of a query with their column names.
#[derive(Debug, Clone)]
pub struct QueryResult {
    pub columns: Vec<String>,
    pub rows: Vec<RowResult>,
}

/// The outcome of `execute`: changed rows and the last inserted row id for
/// a write; for a statement that returns rows, zero counts and the rows.
#[derive(Debug, Clone)]
pub struct ExecuteResult {
    pub changes: i64,
    pub last_insert_rowid: i64,
    pub columns: Option<Vec<String>>,
    pub rows: Option<Vec<RowResult>>,
}

/// A pending change recorded by the storage extension.
#[derive(Debug, Clone)]
pub struct CrudEntry {
    pub id: i64,
    pub tx_id: Option<i64>,
    pub data: String,
}

/// Each row of `rows` decodes the raw row at the same place.
pub open spec fn rows_decode(raw: Seq<Vec<ColumnValue>>, rows: Seq<RowResult>) -> bool {
    &&& rows.len() == raw.len()
    &&& forall|i: int|
        #![trigger rows[i]]
        0 <= i < rows.len() ==> rows[i]@.len() == raw[i]@.len() && forall|j: int|
            0 <= j < raw[i]@.len() ==> decodes(#[trigger] raw[i]@[j], rows[i]@[j])
}

/// A count of changed rows as a signed 64-bit value, saturating.
pub open spec fn count_as_i64(n: int) -> i64 {
    if n > i64::MAX {
        i64::MAX
    } else {
        n as i64
    }
}

fn count_to_i64(n: usize) -> (r: i64)
    ensures
        r == count_as_i64(n as int),
{
    let wide = n as u64;
    if wide > i64::MAX as u64 {
        i64::MAX
    } else {
        wide as i64
    }
}

impl QueryResult {
    /// Decodes the raw rows that a query produced.
    pub fn decode(columns: Vec<String>, raw: &Vec<Vec<ColumnValue>>) -> (r: QueryResult)
        ensures
            r.columns == columns,
            rows_decode(raw@, r.rows@),
    {
        let mut rows: Vec<RowResult> = Vec::new();
        let mut i: usize = 0;
        while i < raw.len()
            invariant
                i <= raw@.len(),
                rows_decode(raw@.take(i as int), rows@),
            decreases raw@.len() - i,
        {
            let row = decode_row(&raw[i]);
            rows.push(row);
            i = i + 1;
            assert forall|k: int| 0 <= k < i implies raw@.take(i as int)[k] == raw@[k] by {}
        }
        assert(raw@.take(raw@.len() as int) =~= raw@);
        QueryResult { columns, rows }
    }
}

/// The first row of a query, or none when it matched nothing.
pub fn get_optional(result: QueryResult) -> (r: Option<RowResult>)
    ensures
        r is None <==> result.rows@.len() == 0,
        r is Some ==> r->Some_0 == result.rows@[0],
{
    let mut rows = result.rows;
    if rows.len() == 0 {
        None
    } else {
        Some(rows.swap_remove(0))
    }
}

impl ExecuteResult {
    /// The result of a write.
    pub fn write(changes: usize, last_insert_rowid: i64) -> (r: ExecuteResult)
        ensures
            r.changes == count_as_i64(changes as int),
            r.last_insert_rowid == last_insert_rowid,
            r.columns is None,
            r.rows is None,
    {
        ExecuteResult {
            changes: count_to_i64(changes),
            last_insert_rowid,
            columns: None,
            rows: None,
        }
    }

    /// The result of a statement that returned rows.
    pub fn query(q: QueryResult) -> (r: ExecuteResult)
        ensures
            r.changes == 0,
            r.last_insert_rowid == 0,
            r.columns == Some(q.columns),
            r.rows == Some(q.rows),
    {
        ExecuteResult { changes: 0, last_insert_rowid: 0, columns: Some(q.columns), rows: Some(q.rows) }
    }
}

/// One statement run once per parameter set, inside a savepoint of its own
/// so that it nests in whatever transaction is open.
pub struct Batch {
    pub savepoint: String,
    pub changes: i64,
    pub last_insert_rowid: i64,
    /// How many parameter sets have run successfully.
    pub ran: usize,
}

/// What happened to the last action a batch asked for.
pub enum BatchEvent {
    /// The savepoint was opened.
    Opened,
    /// The parameter set ran, changing rows and setting the last row id.
    Ran { changes: usize, last_insert_rowid: i64 },
    /// The parameter set failed with the engine's message.
    Failed(String),
}

/// What a batch asks for next.
pub enum BatchAction {
    /// Run the statement with the parameter set at this index.
    Run(usize),
    /// Every set ran: run these statements to keep the work, then report.
    Release(Vec<Stmt>),
    /// A set failed: run these statements to undo the work, each whatever
    /// the other's outcome, then fail with the error.
    Abort(Vec<Stmt>, Error),
}

/// After `ran` successful sets out of `total`: the next set, or release.
pub open spec fn proceed(b: Batch, total: usize, r: BatchAction) -> bool {
    if b.ran < total {
        r == BatchAction::Run(b.ran)
    } else {
        r is Release && r->Release_0@ == seq![Stmt::Release(b.savepoint)]
    }
}

impl Batch {
    /// A batch under a fresh savepoint name, with nothing run yet.
    pub fn new() -> (r: Batch)
        ensures
            generated_name(r.savepoint@, "batch_"@),
            r.changes == 0,
            r.last_insert_rowid == 0,
            r.ran == 0,
    {
        Batch { savepoint: batch_savepoint_name(), changes: 0, last_insert_rowid: 0, ran: 0 }
    }

    /// The statement that opens the batch.
    pub fn open_stmt(&self) -> (r: Stmt)
        ensures
            r == Stmt::Savepoint(self.savepoint),
    {
        Stmt::Savepoint(self.savepoint.clone())
    }

    /// The statement that keeps the batch's work once every run succeeded.
    pub fn release_stmts(&self) -> (r: Vec<Stmt>)
        ensures
            r@ == seq![Stmt::Release(self.savepoint)],
    {
        let mut v: Vec<Stmt> = Vec::new();
        v.push(Stmt::Release(self.savepoint.clone()));
        v
    }

    /// The statements that undo the batch's work after a run failed.
    pub fn abort_stmts(&self) -> (r: Vec<Stmt>)
        ensures
            r@ == seq![Stmt::RollbackTo(self.savepoint), Stmt::Release(self.savepoint)],
    {
        let mut v: Vec<Stmt> = Vec::new();
        v.push(Stmt::RollbackTo(self.savepoint.clone()));
        v.push(Stmt::Release(self.savepoint.clone()));
        v
    }

    /// Records one successful run: its changes add up, saturating, and its
    /// row id becomes the last one.
    pub fn record(&mut self, changes: usize, last_insert_rowid: i64)
        ensures
            final(self).savepoint == old(self).savepoint,
            final(self).ran == old(self).ran,
            final(self).changes == count_as_i64(old(self).changes + count_as_i64(changes as int)),
            final(self).last_insert_rowid == last_insert_rowid,
    {
        let c = count_to_i64(changes);
        if self.changes >= 0 && c > i64::MAX - self.changes {
            self.changes = i64::MAX;
        } else {
            self.changes = self.changes + c;
        }
        self.last_insert_rowid = last_insert_rowid;
    }

    /// Decides the next step of a batch of `total` parameter sets: the sets
    /// run once each, in order; after the last one the savepoint is
    /// released; the first failure rolls the savepoint back and ends the
    /// batch with that failure, so no later set runs.
    pub fn next(&mut self, total: usize, event: BatchEvent) -> (r: BatchAction)
        ensures
            final(self).savepoint == old(self).savepoint,
            match event {
                BatchEvent::Opened => *final(self) == *old(self) && proceed(*old(self), total, r),
                BatchEvent::Ran { changes, last_insert_rowid } => {
                    &&& final(self).ran == if old(self).ran < total {
                        old(self).ran + 1
                    } else {
                        old(self).ran as int
                    }
                    &&& final(self).changes == count_as_i64(
                        old(self).changes + count_as_i64(changes as int),
                    )
                    &&& final(self).last_insert_rowid == last_insert_rowid
                    &&& proceed(*final(self), total, r)
                },
                BatchEvent::Failed(e) => {
                    &&& *final(self) == *old(self)
                    &&& r is Abort
                    &&& r->Abort_0@ == seq![
                        Stmt::RollbackTo(old(self).savepoint),
                        Stmt::Release(old(self).savepoint),
                    ]
                    &&& r->Abort_1 == Error::Database(e)
                },
            },
    {
        match event {
            BatchEvent::Opened => {},
            BatchEvent::Ran { changes, last_insert_rowid } => {
                self.record(changes, last_insert_rowid);
                if self.ran < total {
                    self.ran = self.ran + 1;
                }
            },
            BatchEvent::Failed(e) => {
                return BatchAction::Abort(self.abort_stmts(), Error::Database(e));
            },
        }
        if self.ran < total {
            BatchAction::Run(self.ran)
        } else {
            BatchAction::Release(self.release_stmts())
        }
    }

    /// The result of a batch whose every run succeeded.
    pub fn result(&self) -> (r: ExecuteResult)
        ensures
            r.changes == self.changes,
            r.last_insert_rowid == self.last_insert_rowid,
            r.columns is None,
            r.rows is None,
    {
        ExecuteResult {
            changes: self.changes,
            last_insert_rowid: self.last_insert_rowid,
            columns: None,
            rows: None,
        }
    }
}

} // verus!
