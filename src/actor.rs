use vstd::prelude::*;
use crate::task::Task;
use crate::store::{
    Db, DbId, Record, complete_spec, insert_spec, is_due, is_due_selection, next_id, rows_wf,
};

verus! {

/// A write intent for the store's single writer.
#[derive(Debug, Clone, Copy, PartialEq, Eq, Structural)]
pub enum Event {
    /// A newly submitted task, due at the time the writer applies it.
    New(Task),
    /// The executor has run the task with this id.
    Complete(DbId),
}

/// What applying an intent wrote, for a durable copy of the store to repeat.
#[derive(Debug, Clone, Copy, PartialEq, Eq, Structural)]
pub enum Write {
    /// A new record was appended.
    Insert(Record),
    /// The record with this id, if any, is now complete.
    Complete(DbId),
}

/// The rows after applying `event` at time `now`.
pub open spec fn event_spec(rows: Seq<Record>, event: Event, now: i64) -> Seq<Record> {
    match event {
        Event::New(t) => if next_id(rows) <= i64::MAX { insert_spec(rows, t, now) } else { rows },
        Event::Complete(id) => complete_spec(rows, id),
    }
}

/// The rows after marking each id of `ids` complete, in order.
pub open spec fn complete_each(rows: Seq<Record>, ids: Seq<DbId>) -> Seq<Record>
    decreases ids.len(),
{
    if ids.len() == 0 {
        rows
    } else {
        complete_each(complete_spec(rows, ids[0]), ids.drop_first())
    }
}

/// The ids of `sel`, in order.
pub open spec fn ids_of(sel: Seq<Record>) -> Seq<DbId> {
    sel.map_values(|x: Record| x.id)
}

/// Applies one write intent at time `now`: a new task is inserted pending,
/// due at `now`; a completion marks its record complete. Returns what was
/// written, or `None` where a new task found the id space used up.
pub fn apply_event(db: &mut Db, event: Event, now: i64) -> (r: Option<Write>)
    requires
        old(db).wf(),
    ensures
        final(db).wf(),
        final(db)@ == event_spec(old(db)@, event, now),
        r == write_spec(old(db)@, final(db)@, event),
{
    match event {
        Event::New(t) => {
            match db.insert_task(t, now) {
                Some(id) => Some(Write::Insert(Record { id, task: t, complete: false, due_at: now })),
                None => None,
            }
        },
        Event::Complete(id) => {
            db.complete_task(id);
            Some(Write::Complete(id))
        },
    }
}

/// What applying `event` to `before` returns, given the rows `after` it.
pub open spec fn write_spec(before: Seq<Record>, after: Seq<Record>, event: Event) -> Option<Write> {
    match event {
        Event::New(t) => if next_id(before) <= i64::MAX {
            Some(Write::Insert(after.last()))
        } else {
            None
        },
        Event::Complete(id) => Some(Write::Complete(id)),
    }
}

/// Relies on chrono's `Utc::now` and `DateTime::timestamp`: the current time,
/// in whole seconds since the Unix epoch. Nothing is promised of its value.
#[verifier::external_body]
fn now_secs() -> (r: i64) {
    chrono::Utc::now().timestamp()
}

/// Applies one write intent at the current time: a new task is due at the
/// moment it is applied. Whatever the clock says, the store changes as
/// `apply_event` at that time would change it.
pub fn apply_event_now(db: &mut Db, event: Event) -> (r: Option<Write>)
    requires
        old(db).wf(),
    ensures
        final(db).wf(),
        exists|now: i64| final(db)@ == event_spec(old(db)@, event, now),
        r == write_spec(old(db)@, final(db)@, event),
{
    let now = now_secs();
    apply_event(db, event, now)
}

/// Completing an id a second time changes nothing, and neither does
/// completing an id that no record has; the record with that id, if any,
/// stays complete.
pub proof fn lemma_complete_idempotent(rows: Seq<Record>, id: DbId)
    ensures
        complete_spec(complete_spec(rows, id), id) == complete_spec(rows, id),
        (forall|i: int| 0 <= i < rows.len() ==> (#[trigger] rows[i]).id != id)
            ==> complete_spec(rows, id) == rows,
        forall|i: int| 0 <= i < rows.len() && (#[trigger] rows[i]).id == id
            ==> complete_spec(rows, id)[i].complete,
{
    assert(complete_spec(complete_spec(rows, id), id) =~= complete_spec(rows, id));
    if forall|i: int| 0 <= i < rows.len() ==> (#[trigger] rows[i]).id != id {
        assert(complete_spec(rows, id) =~= rows);
    }
}

/// No intent turns a complete record back to pending. Every record keeps its
/// place, id, variant and due time; records are only ever appended.
pub proof fn lemma_status_monotone(rows: Seq<Record>, event: Event, now: i64)
    ensures
        event_spec(rows, event, now).len() >= rows.len(),
        forall|i: int| 0 <= i < rows.len() ==> {
            let after = #[trigger] event_spec(rows, event, now)[i];
            &&& rows[i].complete ==> after.complete
            &&& after.id == rows[i].id
            &&& after.task == rows[i].task
            &&& after.due_at == rows[i].due_at
        },
{
}

/// Completing ids keeps every record's place, id, variant and due time, and
/// leaves complete each record that was complete or whose id was completed.
proof fn lemma_complete_each(rows: Seq<Record>, ids: Seq<DbId>)
    ensures
        complete_each(rows, ids).len() == rows.len(),
        forall|i: int| 0 <= i < rows.len() ==> {
            let after = #[trigger] complete_each(rows, ids)[i];
            &&& after.id == rows[i].id
            &&& after.due_at == rows[i].due_at
            &&& (rows[i].complete || ids.contains(rows[i].id)) ==> after.complete
        },
    decreases ids.len(),
{
    if ids.len() > 0 {
        let next = complete_spec(rows, ids[0]);
        lemma_complete_each(next, ids.drop_first());
        assert forall|i: int| 0 <= i < rows.len() implies {
            let after = #[trigger] complete_each(rows, ids)[i];
            &&& after.id == rows[i].id
            &&& after.due_at == rows[i].due_at
            &&& (rows[i].complete || ids.contains(rows[i].id)) ==> after.complete
        } by {
            assert(next[i].id == rows[i].id);
            if ids.contains(rows[i].id) && rows[i].id != ids[0] {
                let k = choose|k: int| 0 <= k < ids.len() && ids[k] == rows[i].id;
                assert(ids.drop_first()[k - 1] == rows[i].id);
            }
        }
    }
}

/// One executor pass: completing, in order, every task of the due selection
/// at `time` leaves no record pending that was due before `time`.
pub proof fn lemma_pass_completes_due(rows: Seq<Record>, time: i64, sel: Seq<Record>)
    requires
        rows_wf(rows),
        is_due_selection(rows, time, sel),
    ensures
        complete_each(rows, ids_of(sel)).len() == rows.len(),
        forall|i: int| 0 <= i < rows.len() ==>
            !is_due(#[trigger] complete_each(rows, ids_of(sel))[i], time),
{
    let ids = ids_of(sel);
    lemma_complete_each(rows, ids);
    assert forall|i: int| 0 <= i < rows.len() implies
        !is_due(#[trigger] complete_each(rows, ids)[i], time) by {
        if is_due(rows[i], time) {
            let k = choose|k: int| 0 <= k < sel.len() && sel[k] == rows[i];
            assert(ids[k] == rows[i].id);
        }
    }
}

} // verus!
