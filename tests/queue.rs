use svix_server::{apply_event, Action, Db, DbId, Event, Executor, Task, Write};

fn run_pass(db: &mut Db, now: i64) -> Vec<(DbId, Task)> {
    let mut ex = Executor::new();
    ex.start_pass(db.fetch_pending_tasks_due_by(now));
    let mut ran = Vec::new();
    loop {
        match ex.next_action() {
            Action::Run(id, task) => {
                ran.push((id, task));
                apply_event(db, Executor::finished(id), now);
            }
            Action::Sleep => break,
        }
    }
    ran
}

#[test]
fn task_identifiers_round_trip() {
    for t in [Task::Foo, Task::Bar, Task::Baz] {
        assert_eq!(Task::from_str(t.to_str()), t);
        assert_eq!(Task::parse(t.to_str()), Some(t));
    }
    assert_eq!(Task::Foo.to_str(), "foo");
    assert_eq!(Task::Bar.to_str(), "bar");
    assert_eq!(Task::Baz.to_str(), "baz");
}

#[test]
fn unknown_identifier_is_rejected() {
    assert_eq!(Task::parse("qux"), None);
    assert_eq!(Task::parse(""), None);
    assert_eq!(Task::parse("fooo"), None);
    assert_eq!(Task::parse("Foo"), None);
}

#[test]
fn insert_assigns_increasing_ids() {
    let mut db = Db::new();
    assert_eq!(db.insert_task(Task::Foo, 5), Some(DbId(1)));
    assert_eq!(db.insert_task(Task::Bar, 3), Some(DbId(2)));
    assert_eq!(
        db.fetch_all_tasks(),
        vec![(DbId(1), Task::Foo, 0, 5), (DbId(2), Task::Bar, 0, 3)]
    );
}

#[test]
fn fetch_due_orders_by_due_time_then_id() {
    let mut db = Db::new();
    db.insert_task(Task::Foo, 30);
    db.insert_task(Task::Bar, 10);
    db.insert_task(Task::Baz, 20);
    db.insert_task(Task::Foo, 10);
    db.insert_task(Task::Bar, 100);
    assert_eq!(
        db.fetch_pending_tasks_due_by(50),
        vec![(DbId(2), Task::Bar), (DbId(4), Task::Foo), (DbId(3), Task::Baz), (DbId(1), Task::Foo)]
    );
    // due strictly before the given time
    assert_eq!(db.fetch_pending_tasks_due_by(10), vec![]);
    assert_eq!(db.fetch_pending_tasks_due_by(11), vec![(DbId(2), Task::Bar), (DbId(4), Task::Foo)]);
}

#[test]
fn fetch_due_skips_complete_records() {
    let mut db = Db::new();
    db.insert_task(Task::Foo, 1);
    db.insert_task(Task::Bar, 2);
    db.complete_task(DbId(1));
    assert_eq!(db.fetch_pending_tasks_due_by(10), vec![(DbId(2), Task::Bar)]);
}

#[test]
fn completing_twice_or_missing_id_is_harmless() {
    let mut db = Db::new();
    db.insert_task(Task::Foo, 1);
    db.insert_task(Task::Bar, 2);
    db.complete_task(DbId(2));
    let once = db.fetch_all_tasks();
    db.complete_task(DbId(2));
    assert_eq!(db.fetch_all_tasks(), once);
    db.complete_task(DbId(99));
    assert_eq!(db.fetch_all_tasks(), once);
    assert_eq!(once, vec![(DbId(1), Task::Foo, 0, 1), (DbId(2), Task::Bar, 1, 2)]);
}

#[test]
fn status_never_reverts() {
    let mut db = Db::new();
    apply_event(&mut db, Event::New(Task::Baz), 7);
    apply_event(&mut db, Event::Complete(DbId(1)), 8);
    apply_event(&mut db, Event::New(Task::Foo), 9);
    apply_event(&mut db, Event::Complete(DbId(1)), 10);
    assert_eq!(
        db.fetch_all_tasks(),
        vec![(DbId(1), Task::Baz, 1, 7), (DbId(2), Task::Foo, 0, 9)]
    );
}

#[test]
fn apply_event_reports_writes() {
    let mut db = Db::new();
    let w = apply_event(&mut db, Event::New(Task::Bar), 42);
    assert_eq!(
        w,
        Some(Write::Insert(svix_server::Record { id: DbId(1), task: Task::Bar, complete: false, due_at: 42 }))
    );
    assert_eq!(apply_event(&mut db, Event::Complete(DbId(1)), 43), Some(Write::Complete(DbId(1))));
    assert_eq!(db.fetch_all_tasks(), vec![(DbId(1), Task::Bar, 1, 42)]);
}

#[test]
fn a_pass_completes_every_due_task() {
    let mut db = Db::new();
    db.insert_task(Task::Foo, 3);
    db.insert_task(Task::Bar, 1);
    db.insert_task(Task::Baz, 50);
    let ran = run_pass(&mut db, 10);
    assert_eq!(ran, vec![(DbId(2), Task::Bar), (DbId(1), Task::Foo)]);
    assert_eq!(db.fetch_pending_tasks_due_by(10), vec![]);
    assert_eq!(
        db.fetch_all_tasks(),
        vec![(DbId(1), Task::Foo, 1, 3), (DbId(2), Task::Bar, 1, 1), (DbId(3), Task::Baz, 0, 50)]
    );
}

#[test]
fn executor_hands_out_in_order_then_sleeps() {
    let mut ex = Executor::new();
    assert_eq!(ex.next_action(), Action::Sleep);
    ex.start_pass(vec![(DbId(4), Task::Baz), (DbId(2), Task::Foo)]);
    assert_eq!(ex.next_action(), Action::Run(DbId(4), Task::Baz));
    assert_eq!(ex.next_action(), Action::Run(DbId(2), Task::Foo));
    assert_eq!(ex.next_action(), Action::Sleep);
    assert_eq!(ex.next_action(), Action::Sleep);
    assert_eq!(Executor::finished(DbId(4)), Event::Complete(DbId(4)));
}

#[test]
fn restart_restores_all_records() {
    let mut db = Db::new();
    for i in 0..5i64 {
        db.insert_task(Task::Foo, 100 + i);
    }
    db.complete_task(DbId(2));
    db.complete_task(DbId(5));
    let snapshot = db.fetch_all_tasks();
    let mut back = Db::restore(&snapshot).unwrap();
    assert_eq!(back.fetch_all_tasks(), snapshot);
    assert_eq!(back.insert_task(Task::Bar, 1), Some(DbId(6)));
}

#[test]
fn restore_rejects_bad_snapshots() {
    assert!(Db::restore(&vec![(DbId(1), Task::Foo, 2, 0)]).is_none());
    assert!(Db::restore(&vec![(DbId(0), Task::Foo, 0, 0)]).is_none());
    assert!(Db::restore(&vec![(DbId(2), Task::Foo, 0, 0), (DbId(2), Task::Bar, 0, 0)]).is_none());
    assert!(Db::restore(&vec![(DbId(3), Task::Foo, 0, 0), (DbId(1), Task::Bar, 1, 0)]).is_none());
    assert!(Db::restore(&vec![]).is_some());
}

#[test]
fn insert_fails_when_ids_are_used_up() {
    let mut db = Db::restore(&vec![(DbId(i64::MAX), Task::Foo, 0, 0)]).unwrap();
    assert_eq!(db.insert_task(Task::Bar, 1), None);
    assert_eq!(db.fetch_all_tasks(), vec![(DbId(i64::MAX), Task::Foo, 0, 0)]);
    assert_eq!(apply_event(&mut db, Event::New(Task::Baz), 2), None);
}

#[test]
fn end_to_end_scenario() {
    let now: i64 = 1_000;
    let mut db = Db::new();
    db.insert_task(Task::Foo, now + 1);
    db.insert_task(Task::Bar, now + 4);
    db.insert_task(Task::Baz, now + 7);
    db.insert_task(Task::Foo, now - 10);
    let mut log: Vec<String> = Vec::new();
    for t in now..now + 12 {
        for (id, task) in run_pass(&mut db, t) {
            log.push(format!("{} {}", task.to_str(), id.0));
        }
    }
    assert_eq!(log.len(), 4);
    assert!(log[0].starts_with("foo "));
    assert!(log[1].starts_with("foo "));
    assert!(log[2].starts_with("bar "));
    assert!(log[3].starts_with("baz "));
    assert_eq!(log, vec!["foo 4", "foo 1", "bar 2", "baz 3"]);
    for row in db.fetch_all_tasks() {
        assert_eq!(row.2, 1);
    }
}

#[test]
fn writer_stamps_new_tasks_with_the_current_time() {
    let mut db = Db::new();
    let before = chrono::Utc::now().timestamp();
    let w = svix_server::apply_event_now(&mut db, Event::New(Task::Foo));
    let after = chrono::Utc::now().timestamp();
    let rows = db.fetch_all_tasks();
    assert_eq!(rows.len(), 1);
    assert_eq!((rows[0].0, rows[0].1, rows[0].2), (DbId(1), Task::Foo, 0));
    assert!(before <= rows[0].3 && rows[0].3 <= after);
    assert!(rows[0].3 > 1_600_000_000);
    assert!(matches!(w, Some(Write::Insert(r)) if r.due_at == rows[0].3));
    assert_eq!(
        svix_server::apply_event_now(&mut db, Event::Complete(DbId(1))),
        Some(Write::Complete(DbId(1)))
    );
    assert_eq!(db.fetch_all_tasks()[0].2, 1);
}
