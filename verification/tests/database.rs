use rusqlite::types::{Value, ValueRef};
use rusqlite::{params_from_iter, Connection};
use tie_api_server::database::lease::{
    DeleteStage, LeaseAction, LeaseStage, LeaseTerms, Reply, BEGIN, CLAIM_TASK, COMMIT, NEXT_QUEUED,
    ROLLBACK,
};
use tie_api_server::database::migrations::{column_exists, MigrationAction, MigrationRun};
use tie_api_server::database::sql::{
    read_count, read_events, read_first_task, read_ids, read_task, read_tasks, RowError, SqlValue,
    Statement,
};
use tie_api_server::database::Database;
use tie_api_server::models::task::{Task, TaskStatus};
use tie_api_server::path::System;
use tie_api_server::state::{AppState, QueueAction, QueueReply};
use tie_api_server::time::Timestamp;

const ID: u128 = 0x0123_4567_89ab_4cde_8f01_2345_6789_abcd;

fn bound(statement: &Statement) -> Vec<Value> {
    statement
        .params
        .iter()
        .map(|p| match p {
            SqlValue::Null => Value::Null,
            SqlValue::Integer(n) => Value::Integer(*n),
            SqlValue::Text(s) => Value::Text(s.clone()),
            SqlValue::Other => panic!("never bound"),
        })
        .collect()
}

fn execute(conn: &Connection, statement: &Statement) -> usize {
    conn.execute(statement.sql, params_from_iter(bound(statement))).unwrap()
}

fn query(conn: &Connection, statement: &Statement) -> Vec<Vec<SqlValue>> {
    let mut prepared = conn.prepare(statement.sql).unwrap();
    let columns = prepared.column_count();
    let mut rows = prepared.query(params_from_iter(bound(statement))).unwrap();
    let mut all = Vec::new();
    while let Some(row) = rows.next().unwrap() {
        let mut cells = Vec::new();
        for c in 0..columns {
            cells.push(match row.get_ref(c).unwrap() {
                ValueRef::Null => SqlValue::Null,
                ValueRef::Integer(n) => SqlValue::Integer(n),
                ValueRef::Text(t) => SqlValue::Text(String::from_utf8(t.to_vec()).unwrap()),
                _ => SqlValue::Other,
            });
        }
        all.push(cells);
    }
    all
}

fn column_names(conn: &Connection, statement: &Statement) -> Vec<String> {
    query(conn, statement)
        .into_iter()
        .map(|row| match &row[1] {
            SqlValue::Text(s) => s.clone(),
            other => panic!("{:?}", other),
        })
        .collect()
}

fn migrate(conn: &Connection, mut run: MigrationRun) -> Vec<String> {
    loop {
        match run.next() {
            MigrationAction::Execute(s) => {
                execute(conn, &s);
                run.executed();
            }
            MigrationAction::Inspect(s) => {
                let names = column_names(conn, &s);
                run.inspected(&names);
            }
            MigrationAction::Done => return run.applied(),
        }
    }
}

fn version(conn: &Connection, db: &Database) -> i64 {
    match query(conn, &db.get_schema_version())[0][0] {
        SqlValue::Integer(n) => n,
        ref other => panic!("{:?}", other),
    }
}

fn open() -> (Connection, Database) {
    let conn = Connection::open_in_memory().unwrap();
    let (db, _) = Database::new(System::Unix, "tasks.db");
    execute(&conn, &db.init_tables());
    let run = db.run_migrations(Some(0));
    migrate(&conn, run);
    (conn, db)
}

fn task(id: u128, created: i64) -> Task {
    Task {
        task_id: id,
        status: TaskStatus::Queued,
        progress: 0,
        estimated_time_remaining: None,
        current_step: Some("Queued".to_string()),
        error: None,
        created_at: Timestamp { secs: created, nanos: 0 },
        updated_at: Timestamp { secs: created, nanos: 500 },
        retry_count: 1,
        max_retries: 3,
        build_duration: None,
        priority: -2,
        file_id: "a9993e364706816aba3e25717850c26c9cd0d89d".to_string(),
        file_path: "./uploads/a.tsp".to_string(),
        output_path: None,
        user_id: "10.0.0.1".to_string(),
    }
}

fn text(v: &SqlValue) -> &str {
    match v {
        SqlValue::Text(s) => s,
        other => panic!("{:?}", other),
    }
}

#[test]
fn database_directory_is_the_parent_of_the_file() {
    let (db, dir) = Database::new(System::Unix, "./.tiec/tasks.db");
    assert_eq!(db.path, "./.tiec/tasks.db");
    assert_eq!(dir.as_deref(), Some("./.tiec"));
    assert_eq!(Database::new(System::Unix, "tasks.db").1.as_deref(), Some(""));
    assert_eq!(Database::new(System::Unix, "/").1, None);
}

#[test]
fn fresh_database_gets_all_migrations_in_order() {
    let conn = Connection::open_in_memory().unwrap();
    let (db, _) = Database::new(System::Unix, "tasks.db");
    execute(&conn, &db.init_tables());
    assert_eq!(version(&conn, &db), 0);
    let applied = migrate(&conn, db.run_migrations(None));
    assert_eq!(
        applied,
        vec![
            "create_tasks_table",
            "add_build_duration_column",
            "add_task_priority_column",
            "add_queue_columns",
            "create_task_events_table",
            "add_task_file_id_column",
        ]
    );
    assert_eq!(version(&conn, &db), 6);
}

#[test]
fn migrated_database_needs_no_step() {
    let (conn, db) = open();
    let current = version(&conn, &db);
    assert!(migrate(&conn, db.run_migrations(Some(current))).is_empty());
    assert!(migrate(&conn, db.run_pending_migrations(Some(current))).is_empty());
    assert_eq!(version(&conn, &db), 6);
}

#[test]
fn pending_migrations_start_at_the_second_version() {
    let (_, db) = open();
    let run = db.run_pending_migrations(Some(0));
    match run.next_at(&Timestamp { secs: 0, nanos: 0 }) {
        MigrationAction::Inspect(s) => assert_eq!(s.sql, "PRAGMA table_info(tasks)"),
        other => panic!("{:?}", other),
    }
    let mut run = db.run_pending_migrations(Some(4));
    match run.next() {
        MigrationAction::Execute(s) => assert!(s.sql.contains("task_events")),
        other => panic!("{:?}", other),
    }
    run.executed();
    assert!(run.applied().is_empty());
}

#[test]
fn a_column_that_is_there_is_not_added_again() {
    let (_, db) = open();
    let names = vec!["task_id".to_string(), "file_id".to_string()];
    let mut run = db.run_migrations(Some(5));
    run.inspected(&names);
    match run.next() {
        MigrationAction::Execute(s) => assert!(s.sql.starts_with("CREATE INDEX")),
        other => panic!("{:?}", other),
    }
    let mut run = db.run_migrations(Some(5));
    run.inspected(&Vec::new());
    match run.next() {
        MigrationAction::Execute(s) => assert!(s.sql.starts_with("ALTER TABLE tasks ADD COLUMN file_id")),
        other => panic!("{:?}", other),
    }
    assert!(column_exists(&names, "file_id"));
    assert!(!column_exists(&names, "file"));
}

#[test]
fn migration_record_has_version_name_and_date() {
    let (_, db) = open();
    let mut run = db.run_migrations(Some(0));
    run.executed();
    match run.next_at(&Timestamp { secs: 0, nanos: 0 }) {
        MigrationAction::Execute(s) => {
            assert!(matches!(s.params[0], SqlValue::Integer(1)));
            assert_eq!(text(&s.params[1]), "create_tasks_table");
            assert_eq!(text(&s.params[2]), "1970-01-01T00:00:00+00:00");
        }
        other => panic!("{:?}", other),
    }
}

#[test]
fn inserted_task_is_read_back() {
    let (conn, db) = open();
    let t = task(ID, 1_700_000_000);
    execute(&conn, &db.insert_task(&t));
    let rows = query(&conn, &db.get_task(ID));
    let back = read_first_task(&rows).unwrap().unwrap();
    assert_eq!(back.task_id, ID);
    assert_eq!(back.status, TaskStatus::Queued);
    assert_eq!(back.progress, 0);
    assert_eq!(back.estimated_time_remaining, None);
    assert_eq!(back.current_step.as_deref(), Some("Queued"));
    assert_eq!(back.error.as_deref(), Some(""));
    assert_eq!(back.created_at, Timestamp { secs: 1_700_000_000, nanos: 0 });
    assert_eq!(back.updated_at, Timestamp { secs: 1_700_000_000, nanos: 500 });
    assert_eq!(back.retry_count, 1);
    assert_eq!(back.max_retries, 3);
    assert_eq!(back.build_duration, None);
    assert_eq!(back.priority, -2);
    assert_eq!(back.file_id, "a9993e364706816aba3e25717850c26c9cd0d89d");
    assert_eq!(back.file_path, "./uploads/a.tsp");
    assert_eq!(back.output_path.as_deref(), Some(""));
    assert_eq!(back.user_id, "10.0.0.1");
}

#[test]
fn a_task_with_a_duration_cannot_be_read_back() {
    let (conn, db) = open();
    let mut t = task(ID, 1_700_000_000);
    t.build_duration = Some(9);
    execute(&conn, &db.insert_task(&t));
    let rows = query(&conn, &db.get_task(ID));
    assert!(matches!(read_task(&rows[0]), Err(RowError::WrongType(10))));
    assert!(matches!(read_tasks(&rows), Err(RowError::WrongType(10))));
}

#[test]
fn updated_task_is_read_back() {
    let (conn, db) = open();
    let mut t = task(ID, 1_700_000_000);
    execute(&conn, &db.insert_task(&t));
    t.status = TaskStatus::Success;
    t.progress = 100;
    t.output_path = Some("./uploads/app.apk".to_string());
    assert_eq!(execute(&conn, &db.update_task(&t)), 1);
    let rows = query(&conn, &db.get_task(ID));
    let back = read_first_task(&rows).unwrap().unwrap();
    assert_eq!(back.status, TaskStatus::Success);
    assert_eq!(back.progress, 100);
    assert_eq!(back.output_path.as_deref(), Some("./uploads/app.apk"));
}

#[test]
fn a_missing_task_has_no_row() {
    let (conn, db) = open();
    let rows = query(&conn, &db.get_task(ID));
    assert!(read_first_task(&rows).unwrap().is_none());
    assert!(read_tasks(&rows).unwrap().is_empty());
}

#[test]
fn queue_is_ordered_by_age_and_counted() {
    let (conn, db) = open();
    for (id, created) in [(3u128, 30i64), (1, 10), (2, 20)] {
        execute(&conn, &db.insert_task(&task(id, created)));
    }
    let counted = query(&conn, &db.count_queued_tasks());
    assert_eq!(read_count(&counted[0]).unwrap(), 3);
    let oldest = query(&conn, &db.get_oldest_queued_tasks(2).unwrap());
    assert_eq!(read_ids(&oldest).unwrap(), vec![1, 2]);
    assert!(db.get_oldest_queued_tasks(u64::MAX).is_none());
    let all = read_tasks(&query(&conn, &db.get_all_tasks())).unwrap();
    assert_eq!(all.iter().map(|t| t.task_id).collect::<Vec<_>>(), vec![3, 2, 1]);
    let queued = read_tasks(&query(&conn, &db.get_tasks_by_status(TaskStatus::Queued))).unwrap();
    assert_eq!(queued.len(), 3);
    let done = query(&conn, &db.get_tasks_by_status(TaskStatus::Success));
    assert!(done.is_empty());
}

#[test]
fn cancelled_task_is_recorded_with_its_reason() {
    let (conn, db) = open();
    execute(&conn, &db.insert_task(&task(ID, 10)));
    let now = Timestamp { secs: 60, nanos: 0 };
    for s in db.cancel_at(ID, "too many", &now) {
        execute(&conn, &s);
    }
    let back = read_first_task(&query(&conn, &db.get_task(ID))).unwrap().unwrap();
    assert_eq!(back.status, TaskStatus::Cancelled);
    assert_eq!(back.error.as_deref(), Some("too many"));
    assert_eq!(back.current_step.as_deref(), Some("Cancelled"));
    assert_eq!(back.updated_at, now);
    let events = read_events(&query(&conn, &db.get_task_events(ID, 10, 0).unwrap())).unwrap();
    assert_eq!(events.len(), 1);
    assert_eq!(events[0].event_type, "cancelled");
    assert_eq!(events[0].message.as_deref(), Some("too many"));
    assert_eq!(events[0].status, Some(TaskStatus::Cancelled));
    assert_eq!(events[0].worker_id, None);
    assert_eq!(events[0].created_at, now);
}

#[test]
fn events_are_read_back_oldest_first_by_pages() {
    let (conn, db) = open();
    for n in 0..5 {
        let at = Timestamp { secs: 100 - n, nanos: 0 };
        let s = db.event_at(ID, "step", None, Some("m"), Some("worker-1"), &at);
        execute(&conn, &s);
    }
    let page = read_events(&query(&conn, &db.get_task_events(ID, 2, 1).unwrap())).unwrap();
    assert_eq!(page.len(), 2);
    assert_eq!(page[0].created_at.secs, 97);
    assert_eq!(page[1].created_at.secs, 98);
    assert_eq!(page[0].status, None);
    assert_eq!(page[0].worker_id.as_deref(), Some("worker-1"));
    assert!(db.get_task_events(ID, 2, u64::MAX).is_none());
}

#[test]
fn retry_and_enqueue_put_a_task_back() {
    let (conn, db) = open();
    let mut t = task(ID, 10);
    t.status = TaskStatus::Processing;
    execute(&conn, &db.insert_task(&t));
    let later = Timestamp { secs: 1000, nanos: 0 };
    let now = Timestamp { secs: 900, nanos: 0 };
    for s in db.retry_at(ID, &later, "lost", &now) {
        execute(&conn, &s);
    }
    let queued = query(&conn, &db.get_oldest_queued_tasks(9).unwrap());
    assert_eq!(read_ids(&queued).unwrap(), vec![ID]);
    for s in db.enqueue_at(ID, &now) {
        execute(&conn, &s);
    }
    let events = read_events(&query(&conn, &db.get_task_events(ID, 9, 0).unwrap())).unwrap();
    assert_eq!(events[0].event_type, "retry_scheduled");
    assert_eq!(events[1].event_type, "enqueued");
    assert_eq!(events[1].message.as_deref(), Some("Task enqueued"));
}

#[test]
fn stats_count_all_succeeded_failed_and_waiting() {
    let (conn, db) = open();
    let states = [
        TaskStatus::Queued,
        TaskStatus::Success,
        TaskStatus::UnknownError,
        TaskStatus::CompilationFailed,
        TaskStatus::Timeout,
        TaskStatus::Cancelled,
        TaskStatus::Processing,
    ];
    for (i, s) in states.iter().enumerate() {
        let mut t = task(i as u128 + 1, 10);
        t.status = *s;
        execute(&conn, &db.insert_task(&t));
    }
    let counts: Vec<u64> = db
        .get_task_stats()
        .iter()
        .map(|s| read_count(&query(&conn, s)[0]).unwrap())
        .collect();
    assert_eq!(counts, vec![7, 1, 3, 1]);
}

#[test]
fn latest_task_of_a_file_and_a_user_is_found() {
    let (conn, db) = open();
    let file = "a9993e364706816aba3e25717850c26c9cd0d89d";
    execute(&conn, &db.insert_task(&task(1, 10)));
    execute(&conn, &db.insert_task(&task(2, 20)));
    let mut other = task(3, 30);
    other.user_id = "10.0.0.2".to_string();
    execute(&conn, &db.insert_task(&other));
    let found = |user: &str| {
        let s = db.find_latest_task_by_file_id_and_user_id(file, user);
        read_first_task(&query(&conn, &s)).unwrap().map(|t| t.task_id)
    };
    assert_eq!(found("10.0.0.1"), Some(2));
    assert_eq!(found("10.0.0.2"), Some(3));
    assert_eq!(found("10.0.0.3"), None);
}

#[test]
fn unreadable_rows_are_told_apart() {
    let (conn, db) = open();
    execute(&conn, &db.insert_task(&task(ID, 10)));
    let mut row = query(&conn, &db.get_task(ID)).remove(0);
    row[0] = SqlValue::Text("no id".to_string());
    assert!(matches!(read_task(&row), Err(RowError::Malformed(0))));
    row[0] = SqlValue::Text("01234567-89ab-4cde-8f01-23456789abcd".to_string());
    row[2] = SqlValue::Integer(256);
    assert!(matches!(read_task(&row), Err(RowError::OutOfRange(2))));
    row[2] = SqlValue::Integer(255);
    row[6] = SqlValue::Text("yesterday".to_string());
    assert!(matches!(read_task(&row), Err(RowError::Malformed(6))));
    row[6] = SqlValue::Text("2024-05-06T07:08:09.25+02:00".to_string());
    let t = read_task(&row).unwrap();
    assert_eq!(t.created_at, Timestamp { secs: 1_714_972_089, nanos: 250_000_000 });
    row.truncate(15);
    assert!(matches!(read_task(&row), Err(RowError::Missing(15))));
    assert!(matches!(read_count(&vec![SqlValue::Integer(-1)]), Err(RowError::OutOfRange(0))));
}

fn lease(conn: &Connection, db: &Database, terms: &LeaseTerms) -> Option<u128> {
    let mut stage = db.lease_next_task();
    loop {
        match db.next_lease_action(&stage, terms) {
            LeaseAction::Execute(s) => {
                let n = execute(conn, &s);
                stage = stage.receive(Reply::Changed(n));
            }
            LeaseAction::Query(s) => {
                let rows = query(conn, &s);
                let found = rows.first().map(|r| text(&r[0]).to_string());
                stage = stage.receive(Reply::Found(found));
            }
            LeaseAction::Done(id) => return id,
            LeaseAction::Fail => panic!("failed"),
        }
    }
}

#[test]
fn lease_takes_the_most_urgent_then_the_oldest_task() {
    let (conn, db) = open();
    for (id, created, priority) in [(1u128, 10i64, 0i32), (2, 5, 0), (3, 50, 7)] {
        let mut t = task(id, created);
        t.priority = priority;
        execute(&conn, &db.insert_task(&t));
    }
    let terms = LeaseTerms::from("worker-1", 60, Timestamp { secs: 2000, nanos: 0 });
    assert_eq!(lease(&conn, &db, &terms), Some(3));
    assert_eq!(lease(&conn, &db, &terms), Some(2));
    assert_eq!(lease(&conn, &db, &terms), Some(1));
    assert_eq!(lease(&conn, &db, &terms), None);
    let back = read_first_task(&query(&conn, &db.get_task(3))).unwrap().unwrap();
    assert_eq!(back.status, TaskStatus::Processing);
    assert_eq!(back.current_step.as_deref(), Some("Leased"));
    let events = read_events(&query(&conn, &db.get_task_events(3, 9, 0).unwrap())).unwrap();
    assert_eq!(events[0].event_type, "leased");
    assert_eq!(events[0].worker_id.as_deref(), Some("worker-1"));
}

#[test]
fn a_task_that_may_not_run_yet_is_not_leased() {
    let (conn, db) = open();
    execute(&conn, &db.insert_task(&task(1, 10)));
    let later = Timestamp { secs: 5000, nanos: 0 };
    for s in db.retry_at(1, &later, "lost", &Timestamp { secs: 20, nanos: 0 }) {
        execute(&conn, &s);
    }
    let early = LeaseTerms::from("w", 60, Timestamp { secs: 4000, nanos: 0 });
    assert_eq!(lease(&conn, &db, &early), None);
    let late = LeaseTerms::from("w", 60, Timestamp { secs: 6000, nanos: 0 });
    assert_eq!(lease(&conn, &db, &late), Some(1));
}

#[test]
fn lease_statements_follow_the_replies() {
    let (_, db) = open();
    let terms = LeaseTerms::from("worker-7", 60, Timestamp { secs: 0, nanos: 0 });
    let sql = |stage: &LeaseStage| match db.next_lease_action(stage, &terms) {
        LeaseAction::Execute(s) | LeaseAction::Query(s) => s.sql.to_string(),
        other => format!("{:?}", other),
    };
    let mut stage = db.lease_next_task();
    assert_eq!(sql(&stage), BEGIN);
    stage = stage.receive(Reply::Changed(0));
    assert_eq!(sql(&stage), NEXT_QUEUED);
    stage = stage.receive(Reply::Found(Some("01234567-89ab-4cde-8f01-23456789abcd".to_string())));
    assert_eq!(sql(&stage), CLAIM_TASK);
    match db.next_lease_action(&stage, &terms) {
        LeaseAction::Execute(s) => {
            assert_eq!(text(&s.params[0]), "\"处理中\"");
            assert_eq!(text(&s.params[1]), "1970-01-01T00:01:00+00:00");
            assert_eq!(text(&s.params[2]), "worker-7");
            assert_eq!(text(&s.params[3]), "1970-01-01T00:00:00+00:00");
            assert_eq!(text(&s.params[4]), "Leased");
            assert_eq!(text(&s.params[6]), "\"排队中\"");
        }
        other => panic!("{:?}", other),
    }
    stage = stage.receive(Reply::Changed(1));
    assert_eq!(sql(&stage), COMMIT);
    stage = stage.receive(Reply::Changed(0));
    assert!(sql(&stage).starts_with("INSERT INTO task_events"));
    stage = stage.receive(Reply::Changed(1));
    assert!(matches!(stage, LeaseStage::Over(Some(ID))));
}

#[test]
fn a_claim_that_changes_nothing_is_rolled_back() {
    let (_, db) = open();
    let terms = LeaseTerms::from("w", 60, Timestamp { secs: 0, nanos: 0 });
    let mut stage = LeaseStage::Claim("x".to_string()).receive(Reply::Changed(0));
    match db.next_lease_action(&stage, &terms) {
        LeaseAction::Execute(s) => assert_eq!(s.sql, ROLLBACK),
        other => panic!("{:?}", other),
    }
    stage = stage.receive(Reply::Changed(0));
    assert!(matches!(stage, LeaseStage::Over(None)));
    let stage = LeaseStage::Find.receive(Reply::Found(None)).receive(Reply::Changed(0));
    assert!(matches!(stage, LeaseStage::Over(None)));
    assert!(matches!(LeaseStage::Commit("x".to_string()).receive(Reply::Failed), LeaseStage::Broken));
    assert!(matches!(LeaseStage::Broken.receive(Reply::Changed(1)), LeaseStage::Broken));
}

#[test]
fn lease_that_starts_now_ends_after_its_length() {
    let (_, db) = open();
    let terms = db.lease_terms("w", 960).unwrap();
    assert_eq!(terms.until.secs - terms.now.secs, 960);
    assert_eq!(terms.until.nanos, terms.now.nanos);
    assert!(terms.now.secs > 1_600_000_000);
    assert!(db.lease_terms("w", u64::MAX).is_none());
    assert!(db.refresh_lease(ID, "w", u64::MAX).is_none());
    let s = db.refresh_lease(ID, "w", 60).unwrap();
    assert_eq!(text(&s.params[3]), "w");
}

#[test]
fn deleted_task_leaves_no_events() {
    let (conn, db) = open();
    execute(&conn, &db.insert_task(&task(ID, 10)));
    execute(&conn, &db.insert_task_event(ID, "x", None, None, None));
    let mut stage = DeleteStage::Open;
    while let Some(s) = db.delete_task(ID, stage) {
        execute(&conn, &s);
        stage = stage.receive(true);
    }
    assert_eq!(stage, DeleteStage::Done);
    assert!(query(&conn, &db.get_task(ID)).is_empty());
    assert!(query(&conn, &db.get_task_events(ID, 9, 0).unwrap()).is_empty());
}

#[test]
fn deletion_that_fails_is_rolled_back() {
    let (_, db) = open();
    let stage = DeleteStage::Open.receive(true).receive(true).receive(false);
    assert_eq!(db.delete_task(ID, stage).unwrap().sql, ROLLBACK);
    assert_eq!(stage.receive(true), DeleteStage::Failed);
    assert_eq!(DeleteStage::Open.receive(false), DeleteStage::Failed);
    assert!(db.delete_task(ID, DeleteStage::Failed).is_none());
}

#[test]
fn lease_of_a_task_is_cleared() {
    let (conn, db) = open();
    execute(&conn, &db.insert_task(&task(ID, 10)));
    let terms = LeaseTerms::from("w", 60, Timestamp { secs: 20, nanos: 0 });
    assert_eq!(lease(&conn, &db, &terms), Some(ID));
    let refresh = db.refresh_at(ID, "w", 60, &Timestamp { secs: 50, nanos: 0 });
    assert_eq!(execute(&conn, &refresh), 1);
    let wrong = db.refresh_at(ID, "v", 60, &Timestamp { secs: 50, nanos: 0 });
    assert_eq!(execute(&conn, &wrong), 0);
    assert_eq!(execute(&conn, &db.clear_lease(ID)), 1);
    assert_eq!(execute(&conn, &refresh), 0);
}

#[test]
fn recorded_times_are_ordered_as_texts() {
    let times: Vec<Timestamp> = [
        (-62_167_219_200, 0),
        (-1, 999_999_999),
        (1_483_228_799, 0),
        (1_483_228_799, 1),
        (1_483_228_799, 250_000_000),
        (1_483_228_799, 250_000_001),
        (1_483_228_799, 250_001_000),
        (1_483_228_799, 251_000_000),
        (1_483_228_799, 1_000_000_000),
        (1_483_228_799, 1_000_001_000),
        (1_483_228_800, 0),
        (253_402_300_799, 999_999_999),
    ]
    .iter()
    .map(|&(secs, nanos)| Timestamp { secs, nanos })
    .collect();
    for (i, a) in times.iter().enumerate() {
        assert_eq!(Timestamp::parse_from_rfc3339(&a.to_rfc3339()), Some(*a));
        for (j, b) in times.iter().enumerate() {
            assert_eq!(a.to_rfc3339() < b.to_rfc3339(), i < j);
        }
    }
}

#[test]
fn a_retry_is_leased_from_its_moment_on() {
    let (conn, db) = open();
    execute(&conn, &db.insert_task(&task(ID, 50)));
    let moment = Timestamp { secs: 1000, nanos: 250_000_000 };
    for s in db.retry_at(ID, &moment, "again", &Timestamp { secs: 60, nanos: 0 }) {
        execute(&conn, &s);
    }
    for (secs, nanos) in [(999, 999_999_999), (1000, 0), (1000, 249_999_999)] {
        let terms = LeaseTerms::from("w", 60, Timestamp { secs, nanos });
        assert_eq!(lease(&conn, &db, &terms), None);
    }
    let terms = LeaseTerms::from("w", 60, moment);
    assert_eq!(lease(&conn, &db, &terms), Some(ID));
}

#[test]
fn the_states_part_the_tasks() {
    let (conn, db) = open();
    let states = [
        TaskStatus::Queued,
        TaskStatus::Processing,
        TaskStatus::Success,
        TaskStatus::UnknownError,
        TaskStatus::CompilationFailed,
        TaskStatus::Timeout,
        TaskStatus::Cancelled,
    ];
    for k in 0..20u128 {
        let mut t = task(k, 100 + k as i64);
        t.status = states[(k * k % 7) as usize];
        execute(&conn, &db.insert_task(&t));
    }
    let all = read_tasks(&query(&conn, &db.get_all_tasks())).unwrap();
    let mut ids = Vec::new();
    for s in states {
        let some = read_tasks(&query(&conn, &db.get_tasks_by_status(s))).unwrap();
        assert!(some.iter().all(|t| t.status == s));
        assert!(some.windows(2).all(|w| !w[0].created_at.before(&w[1].created_at)));
        ids.extend(some.iter().map(|t| t.task_id));
    }
    ids.sort();
    let mut every: Vec<u128> = all.iter().map(|t| t.task_id).collect();
    every.sort();
    assert_eq!(ids, every);
    let counts: Vec<u64> =
        db.get_task_stats().iter().map(|s| read_count(&query(&conn, s)[0]).unwrap()).collect();
    let count = |s: TaskStatus| all.iter().filter(|t| t.status == s).count() as u64;
    assert_eq!(
        counts[0],
        counts[1] + counts[2] + counts[3] + count(TaskStatus::Processing)
            + count(TaskStatus::Cancelled)
    );
}

#[test]
fn pages_of_events_join_without_gap_or_repetition() {
    let (conn, db) = open();
    for k in 0..7i64 {
        let at = Timestamp { secs: 100, nanos: (k * 250) as u32 };
        execute(&conn, &db.event_at(ID, &format!("e{}", k), None, None, None, &at));
        execute(&conn, &db.event_at(9, "other", None, None, None, &at));
    }
    let page = |limit: u64, offset: u64| -> Vec<String> {
        let s = db.get_task_events(ID, limit, offset).unwrap();
        let events = read_events(&query(&conn, &s)).unwrap();
        assert!(events.iter().all(|e| e.task_id == ID));
        events.into_iter().map(|e| e.event_type).collect()
    };
    let all: Vec<String> = (0..7).map(|k| format!("e{}", k)).collect();
    for limit in 1..9u64 {
        let mut joined = Vec::new();
        for k in 0..8 {
            joined.extend(page(limit, k * limit));
        }
        assert_eq!(joined, all);
    }
    assert!(page(0, 0).is_empty());
    assert_eq!(page(3, 5), all[5..7].to_vec());
}

fn put_into_queue(conn: &Connection, s: &mut AppState, id: u128, max: usize) {
    let mut stage = s.enqueue_task(id);
    loop {
        let reply = match s.queue_action(id, &stage) {
            QueueAction::Count(q) => QueueReply::Counted(read_count(&query(conn, &q)[0]).unwrap()),
            QueueAction::Fetch(q) => QueueReply::Found(read_ids(&query(conn, &q)).unwrap()),
            QueueAction::Run(groups) => {
                for group in groups {
                    for statement in group {
                        execute(conn, &statement);
                    }
                }
                QueueReply::Over
            }
            QueueAction::Done => return,
        };
        stage = stage.receive(reply, max);
    }
}

#[test]
fn a_full_queue_lets_the_oldest_tasks_go() {
    for (max, left) in [(3, vec![5, 6, 9]), (10, vec![1, 2, 3, 4, 5, 6, 9]), (0, vec![9])] {
        let (conn, db) = open();
        for id in [4u128, 1, 6, 3, 5, 2] {
            execute(&conn, &db.insert_task(&task(id, 100 + id as i64)));
        }
        let mut new = task(9, 99);
        new.status = TaskStatus::CompilationFailed;
        execute(&conn, &db.insert_task(&new));
        let mut s = AppState::new(
            System::Unix,
            "/up".to_string(),
            "/tiecc".to_string(),
            "/stdlib".to_string(),
            max,
            Database::new(System::Unix, "tasks.db").0,
            3,
        );
        put_into_queue(&conn, &mut s, 9, max);
        let waiting =
            read_tasks(&query(&conn, &db.get_tasks_by_status(TaskStatus::Queued))).unwrap();
        let mut ids: Vec<u128> = waiting.iter().map(|t| t.task_id).collect();
        ids.sort();
        assert_eq!(ids, left);
        assert!(ids.len() <= max.max(1));
        let gone =
            read_tasks(&query(&conn, &db.get_tasks_by_status(TaskStatus::Cancelled))).unwrap();
        assert_eq!(gone.len() + ids.len(), 7);
    }
}

#[test]
fn a_queued_task_may_run_at_once_and_is_leased_once() {
    let (conn, db) = open();
    let mut t = task(ID, 50);
    t.status = TaskStatus::Timeout;
    execute(&conn, &db.insert_task(&t));
    let moment = Timestamp { secs: 1000, nanos: 7 };
    let terms = LeaseTerms::from("w", 60, moment);
    assert_eq!(lease(&conn, &db, &terms), None);
    for s in db.enqueue_at(ID, &moment) {
        execute(&conn, &s);
    }
    assert_eq!(lease(&conn, &db, &terms), Some(ID));
    assert_eq!(lease(&conn, &db, &terms), None);
    let later = LeaseTerms::from("w", 60, Timestamp { secs: 9999, nanos: 0 });
    assert_eq!(lease(&conn, &db, &later), None);
}
