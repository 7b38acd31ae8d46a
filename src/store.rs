use vstd::prelude::*;
use crate::task::Task;

verus! {

/// The store-assigned id of a task record.
#[derive(Debug, Clone, Copy, PartialEq, Eq, Structural)]
pub struct DbId(pub i64);

/// One task record: its id, variant, status and due time (seconds since the
/// Unix epoch).
#[derive(Debug, Clone, Copy, PartialEq, Eq, Structural)]
pub struct Record {
    pub id: DbId,
    pub task: Task,
    pub complete: bool,
    pub due_at: i64,
}

/// The stored status code: 0 for pending, 1 for complete.
pub open spec fn status_code(complete: bool) -> u8 {
    if complete { 1 } else { 0 }
}

/// Record `a` comes before record `b` in execution order: earlier due time
/// first, ties broken by id (that is, by insertion order).
pub open spec fn runs_before(a: Record, b: Record) -> bool {
    a.due_at < b.due_at || (a.due_at == b.due_at && a.id.0 < b.id.0)
}

/// Record `r` is pending and due strictly before `time`.
pub open spec fn is_due(r: Record, time: i64) -> bool {
    !r.complete && r.due_at < time
}

/// Ids are positive and strictly increasing in insertion order.
pub open spec fn rows_wf(rows: Seq<Record>) -> bool {
    &&& forall|i: int| 0 <= i < rows.len() ==> rows[i].id.0 >= 1
    &&& forall|i: int, j: int| 0 <= i < j < rows.len() ==> rows[i].id.0 < rows[j].id.0
}

/// The id the next insert assigns, where there is one.
pub open spec fn next_id(rows: Seq<Record>) -> int {
    if rows.len() == 0 { 1 } else { rows.last().id.0 + 1 }
}

/// The rows after an insert of `task` due at `time`.
pub open spec fn insert_spec(rows: Seq<Record>, task: Task, time: i64) -> Seq<Record> {
    rows.push(Record { id: DbId(next_id(rows) as i64), task, complete: false, due_at: time })
}

/// The rows after marking `id` complete: the record with that id, if any, is
/// complete and every other field of every record is kept.
pub open spec fn complete_spec(rows: Seq<Record>, id: DbId) -> Seq<Record> {
    rows.map_values(|r: Record| if r.id == id { Record { complete: true, ..r } } else { r })
}

/// `out` is the due selection of `rows` at `time`: exactly the pending
/// records due before `time`, in execution order.
pub open spec fn is_due_selection(rows: Seq<Record>, time: i64, out: Seq<Record>) -> bool {
    &&& forall|k: int| 0 <= k < out.len() ==> rows.contains(#[trigger] out[k]) && is_due(out[k], time)
    &&& forall|i: int| 0 <= i < rows.len() && is_due(#[trigger] rows[i], time) ==> out.contains(rows[i])
    &&& forall|a: int, b: int| 0 <= a < b < out.len() ==> runs_before(#[trigger] out[a], #[trigger] out[b])
}

/// One row of a full snapshot: id, variant, status code and due time.
pub open spec fn snapshot_row(r: Record) -> (DbId, Task, u8, i64) {
    (r.id, r.task, status_code(r.complete), r.due_at)
}

/// A row of a snapshot that a store can be rebuilt from.
pub open spec fn snapshot_row_ok(row: (DbId, Task, u8, i64)) -> bool {
    row.2 == 0 || row.2 == 1
}

/// The record a snapshot row stands for.
pub open spec fn row_record(row: (DbId, Task, u8, i64)) -> Record {
    Record { id: row.0, task: row.1, complete: row.2 == 1, due_at: row.3 }
}

/// A snapshot that a store can be rebuilt from: known status codes, and
/// positive, strictly increasing ids.
pub open spec fn snapshot_ok(rows: Seq<(DbId, Task, u8, i64)>) -> bool {
    &&& forall|i: int| 0 <= i < rows.len() ==> snapshot_row_ok(#[trigger] rows[i])
    &&& rows_wf(rows.map_values(|row: (DbId, Task, u8, i64)| row_record(row)))
}

/// The event store: every task record, in insertion order.
pub struct Db {
    rows: Vec<Record>,
}

impl View for Db {
    type V = Seq<Record>;

    closed spec fn view(&self) -> Seq<Record> {
        self.rows@
    }
}

impl Db {
    /// Ids are positive and strictly increasing.
    pub open spec fn wf(&self) -> bool {
        rows_wf(self@)
    }

    /// An empty store.
    pub fn new() -> (r: Db)
        ensures
            r.wf(),
            r@ == Seq::<Record>::empty(),
    {
        Db { rows: Vec::new() }
    }

    /// Appends a pending record of `task` due at `time`, with the next id,
    /// and returns that id. Returns `None`, and changes nothing, only where
    /// the id space is used up (the last id is `i64::MAX`).
    pub fn insert_task(&mut self, task: Task, time: i64) -> (r: Option<DbId>)
        requires
            old(self).wf(),
        ensures
            final(self).wf(),
            next_id(old(self)@) <= i64::MAX ==> r == Some(DbId(next_id(old(self)@) as i64))
                && final(self)@ == insert_spec(old(self)@, task, time),
            next_id(old(self)@) > i64::MAX ==> r is None && final(self)@ == old(self)@,
    {
        let n = self.rows.len();
        let id: i64 = if n == 0 {
            1
        } else {
            let last = self.rows[n - 1].id.0;
            if last == i64::MAX {
                return None;
            }
            last + 1
        };
        self.rows.push(Record { id: DbId(id), task, complete: false, due_at: time });
        proof {
            assert(self@ == insert_spec(old(self)@, task, time));
        }
        Some(DbId(id))
    }

    /// Marks the record with id `id` complete. Completing a record that is
    /// already complete, or an id that no record has, changes nothing.
    pub fn complete_task(&mut self, id: DbId)
        requires
            old(self).wf(),
        ensures
            final(self).wf(),
            final(self)@ == complete_spec(old(self)@, id),
    {
        let n = self.rows.len();
        let mut i: usize = 0;
        while i < n
            invariant
                n == old(self)@.len(),
                self@.len() == n,
                i <= n,
                forall|k: int| 0 <= k < i ==> self@[k] == complete_spec(old(self)@, id)[k],
                forall|k: int| i <= k < n ==> self@[k] == old(self)@[k],
            decreases n - i,
        {
            if self.rows[i].id == id {
                let r = self.rows[i];
                self.rows.set(i, Record { complete: true, ..r });
            }
            i = i + 1;
        }
        proof {
            assert(self@ == complete_spec(old(self)@, id));
        }
    }

    /// The pending records due strictly before `time`, in execution order:
    /// earlier due time first, ties broken by id.
    pub fn due_records(&self, time: i64) -> (r: Vec<Record>)
        requires
            self.wf(),
        ensures
            is_due_selection(self@, time, r@),
    {
        let mut out: Vec<Record> = Vec::new();
        let n = self.rows.len();
        let mut i: usize = 0;
        while i < n
            invariant
                self.wf(),
                n == self@.len(),
                i <= n,
                forall|k: int| 0 <= k < out@.len() ==>
                    self@.subrange(0, i as int).contains(#[trigger] out@[k]) && is_due(out@[k], time),
                forall|j: int| 0 <= j < i && is_due(#[trigger] self@[j], time) ==> out@.contains(self@[j]),
                forall|a: int, b: int| 0 <= a < b < out@.len() ==>
                    runs_before(#[trigger] out@[a], #[trigger] out@[b]),
            decreases n - i,
        {
            let r = self.rows[i];
            if !r.complete && r.due_at < time {
                let m = out.len();
                let mut p: usize = 0;
                while p < m && out[p].due_at <= r.due_at
                    invariant
                        m == out@.len(),
                        p <= m,
                        forall|k: int| 0 <= k < p ==> (#[trigger] out@[k]).due_at <= r.due_at,
                    decreases m - p,
                {
                    p = p + 1;
                }
                proof {
                    assert forall|k: int| 0 <= k < m implies (#[trigger] out@[k]).id.0 < r.id.0 by {
                        let w = choose|w: int| 0 <= w < i && self@[w] == out@[k];
                        assert(self@.subrange(0, i as int)[w] == out@[k]);
                    }
                    assert forall|k: int| p <= k < m implies r.due_at < (#[trigger] out@[k]).due_at by {
                        if p < k {
                            assert(runs_before(out@[p as int], out@[k]));
                        }
                    }
                }
                let ghost before = out@;
                out.insert(p, r);
                proof {
                    assert forall|j: int| 0 <= j < i + 1 && is_due(#[trigger] self@[j], time)
                        implies out@.contains(self@[j]) by {
                        if j < i {
                            let w = choose|w: int| 0 <= w < before.len() && before[w] == self@[j];
                            if w < p {
                                assert(out@[w] == self@[j]);
                            } else {
                                assert(out@[w + 1] == self@[j]);
                            }
                        } else {
                            assert(out@[p as int] == self@[j]);
                        }
                    }
                }
            }
            proof {
                assert forall|k: int| 0 <= k < out@.len() implies
                    self@.subrange(0, i + 1).contains(#[trigger] out@[k]) by {
                    if out@[k] == r {
                        assert(self@.subrange(0, i + 1)[i as int] == r);
                    } else {
                        let w = choose|w: int| 0 <= w < i && self@.subrange(0, i as int)[w] == out@[k];
                        assert(self@.subrange(0, i + 1)[w] == out@[k]);
                    }
                }
            }
            i = i + 1;
        }
        assert(self@.subrange(0, n as int) == self@);
        out
    }

    /// The pending tasks due strictly before `time`, in execution order:
    /// earlier due time first, ties broken by id.
    pub fn fetch_pending_tasks_due_by(&self, time: i64) -> (r: Vec<(DbId, Task)>)
        requires
            self.wf(),
        ensures
            exists|sel: Seq<Record>| is_due_selection(self@, time, sel)
                && r@ == sel.map_values(|x: Record| (x.id, x.task)),
    {
        let sel = self.due_records(time);
        let mut out: Vec<(DbId, Task)> = Vec::new();
        let mut i: usize = 0;
        while i < sel.len()
            invariant
                i <= sel@.len(),
                out@ == sel@.subrange(0, i as int).map_values(|x: Record| (x.id, x.task)),
            decreases sel@.len() - i,
        {
            out.push((sel[i].id, sel[i].task));
            i = i + 1;
            assert(sel@.subrange(0, i as int) == sel@.subrange(0, i - 1).push(sel@[i - 1]));
        }
        assert(sel@.subrange(0, i as int) == sel@);
        out
    }

    /// Every record, in insertion order, as (id, variant, status code, due
    /// time).
    pub fn fetch_all_tasks(&self) -> (r: Vec<(DbId, Task, u8, i64)>)
        ensures
            r@ == self@.map_values(|x: Record| snapshot_row(x)),
    {
        let mut out: Vec<(DbId, Task, u8, i64)> = Vec::new();
        let mut i: usize = 0;
        while i < self.rows.len()
            invariant
                i <= self@.len(),
                out@ == self@.subrange(0, i as int).map_values(|x: Record| snapshot_row(x)),
            decreases self@.len() - i,
        {
            let x = self.rows[i];
            let code: u8 = if x.complete { 1 } else { 0 };
            out.push((x.id, x.task, code, x.due_at));
            i = i + 1;
            assert(self@.subrange(0, i as int) == self@.subrange(0, i - 1).push(self@[i - 1]));
        }
        assert(self@.subrange(0, i as int) == self@);
        out
    }

    /// Rebuilds a store from a full snapshot (as `fetch_all_tasks` gives it).
    /// Returns `None` where a status code is unknown or the ids are not
    /// positive and strictly increasing.
    pub fn restore(rows: &Vec<(DbId, Task, u8, i64)>) -> (r: Option<Db>)
        ensures
            r is Some <==> snapshot_ok(rows@),
            r matches Some(db) ==> db.wf()
                && db@ == rows@.map_values(|row: (DbId, Task, u8, i64)| row_record(row)),
    {
        let ghost recs = rows@.map_values(|row: (DbId, Task, u8, i64)| row_record(row));
        let mut out: Vec<Record> = Vec::new();
        let mut i: usize = 0;
        while i < rows.len()
            invariant
                i <= rows@.len(),
                recs == rows@.map_values(|row: (DbId, Task, u8, i64)| row_record(row)),
                out@ == recs.subrange(0, i as int),
                forall|k: int| 0 <= k < i ==> snapshot_row_ok(#[trigger] rows@[k]),
                rows_wf(out@),
            decreases rows@.len() - i,
        {
            let row = rows[i];
            if row.2 > 1 {
                assert(!snapshot_row_ok(rows@[i as int]));
                return None;
            }
            if row.0.0 < 1 || (i > 0 && row.0.0 <= out[i - 1].id.0) {
                proof {
                    assert(recs[i as int] == row_record(row));
                    if i > 0 {
                        assert(recs[i - 1] == out@[i - 1]);
                    }
                }
                return None;
            }
            out.push(Record { id: row.0, task: row.1, complete: row.2 == 1, due_at: row.3 });
            i = i + 1;
            proof {
                assert(out@ == recs.subrange(0, i as int));
            }
        }
        assert(recs.subrange(0, i as int) == recs);
        Some(Db { rows: out })
    }
}

/// A full snapshot of a store rebuilds that store: the records, their
/// statuses and due times come back as they were.
pub proof fn lemma_snapshot_restores(rows: Seq<Record>)
    requires
        rows_wf(rows),
    ensures
        snapshot_ok(rows.map_values(|x: Record| snapshot_row(x))),
        rows.map_values(|x: Record| snapshot_row(x)).map_values(
            |row: (DbId, Task, u8, i64)| row_record(row),
        ) == rows,
{
    let snap = rows.map_values(|x: Record| snapshot_row(x));
    let back = snap.map_values(|row: (DbId, Task, u8, i64)| row_record(row));
    assert(back =~= rows);
}

} // verus!
