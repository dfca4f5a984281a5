//! The task database: the statements that each operation runs, and what it makes of the replies.
pub mod lease;
pub mod migrations;
pub mod rows;
pub mod sql;
pub mod stored;

use crate::models::task::{status_name, Task, TaskEventView, TaskStatus, TaskView};
use crate::outside::{format_id, id_text, id_value, instant_value, quoted};
use crate::path::{parent, path_parent, System};
use crate::text::{
    decimal, decimal_text, opt_str, opt_text, signed_decimal, signed_text, text_before,
};
use crate::time::{law_seconds_are_added, Timestamp};
use lease::ReplyView;
use rows::{
    answers_next, enqueued, found_from, lemma_queued_may_run, lemma_retry_reply, may_run,
    next_params, retried, runs_from, waits_alone, waits_until, TaskRow,
};
use sql::{
    cells, event_of_row, event_readable, opt_text_value, opt_value, statements_view, task_of_row,
    task_readable, text_value, unsigned_value, SqlValue, SqlView, Statement, StatementView,
};
use stored::{
    event_row, kept_row, lemma_event_kept, lemma_task_kept, lemma_task_updated, updated_row,
};
use vstd::prelude::*;

verus! {

pub const INSERT_TASK: &'static str =
    "INSERT INTO tasks (task_id, status, progress, estimated_time_remaining, current_step, error, created_at, updated_at, retry_count, max_retries, build_duration, priority, file_id, file_path, output_path, user_id) VALUES (?, ?, ?, ?, ?, ?, ?, ?, ?, ?, ?, ?, ?, ?, ?, ?)";

pub const UPDATE_TASK: &'static str =
    "UPDATE tasks SET status = ?, progress = ?, estimated_time_remaining = ?, current_step = ?, error = ?, updated_at = ?, retry_count = ?, output_path = ? WHERE task_id = ?";

pub const ENQUEUE_TASK: &'static str =
    "UPDATE tasks SET status = ?, next_run_at = ?, lease_until = NULL, locked_by = NULL, updated_at = ? WHERE task_id = ?";

pub const INSERT_EVENT: &'static str =
    "INSERT INTO task_events (task_id, event_type, status, message, worker_id, created_at) VALUES (?, ?, ?, ?, ?, ?)";

pub const COUNT_BY_STATUS: &'static str = "SELECT COUNT(*) FROM tasks WHERE status = ?";

pub const COUNT_FAILED: &'static str = "SELECT COUNT(*) FROM tasks WHERE status IN (?, ?, ?)";

pub const COUNT_ALL: &'static str = "SELECT COUNT(*) FROM tasks";

pub const OLDEST_QUEUED: &'static str =
    "SELECT task_id FROM tasks WHERE status = ? ORDER BY created_at ASC LIMIT ?";

pub const CANCEL_TASK: &'static str =
    "UPDATE tasks SET status = ?, error = ?, current_step = ?, updated_at = ?, lease_until = NULL, locked_by = NULL WHERE task_id = ?";

pub const REFRESH_LEASE: &'static str =
    "UPDATE tasks SET lease_until = ?, updated_at = ? WHERE task_id = ? AND locked_by = ?";

pub const CLEAR_LEASE: &'static str =
    "UPDATE tasks SET lease_until = NULL, locked_by = NULL WHERE task_id = ?";

pub const SCHEDULE_RETRY: &'static str =
    "UPDATE tasks SET status = ?, next_run_at = ?, last_error = ?, updated_at = ?, lease_until = NULL, locked_by = NULL WHERE task_id = ?";

pub const SELECT_TASK: &'static str =
    "SELECT task_id, status, progress, estimated_time_remaining, current_step, error, created_at, updated_at, retry_count, max_retries, build_duration, priority, file_id, file_path, output_path, user_id FROM tasks WHERE task_id = ?";

pub const SELECT_ALL_TASKS: &'static str =
    "SELECT task_id, status, progress, estimated_time_remaining, current_step, error, created_at, updated_at, retry_count, max_retries, build_duration, priority, file_id, file_path, output_path, user_id FROM tasks ORDER BY created_at DESC";

pub const SELECT_LATEST_TASK: &'static str =
    "SELECT task_id, status, progress, estimated_time_remaining, current_step, error, created_at, updated_at, retry_count, max_retries, build_duration, priority, file_id, file_path, output_path, user_id FROM tasks WHERE file_id = ? AND user_id = ? ORDER BY created_at DESC LIMIT 1";

pub const SELECT_BY_STATUS: &'static str =
    "SELECT task_id, status, progress, estimated_time_remaining, current_step, error, created_at, updated_at, retry_count, max_retries, build_duration, priority, file_id, file_path, output_path, user_id FROM tasks WHERE status = ? ORDER BY created_at DESC";

pub const SELECT_EVENTS: &'static str =
    "SELECT id, task_id, event_type, status, message, worker_id, created_at FROM task_events WHERE task_id = ? ORDER BY created_at ASC LIMIT ? OFFSET ?";

pub const SCHEMA_VERSION: &'static str = "SELECT COALESCE(MAX(version), 0) FROM schema_migrations";

/// The recorded form of a state.
pub open spec fn status_value(status: TaskStatus) -> SqlView {
    SqlView::Text(quoted(status_name(status)))
}

pub open spec fn id_cell(id: u128) -> SqlView {
    SqlView::Text(id_text(id))
}

pub open spec fn time_value(t: Timestamp) -> SqlView {
    SqlView::Text(t.text())
}

/// A text, empty where there is none.
pub open spec fn text_or_empty(s: Option<Seq<char>>) -> Seq<char> {
    match s {
        Some(t) => t,
        None => Seq::empty(),
    }
}

/// The digits of a number, empty where there is none.
pub open spec fn digits_or_empty(n: Option<u64>) -> Seq<char> {
    match n {
        Some(v) => decimal(v as nat),
        None => Seq::empty(),
    }
}

pub(crate) fn id_param(id: u128) -> (r: SqlValue)
    ensures
        r@ == id_cell(id),
        id_value(id_text(id)) == Some(id),
{
    SqlValue::Text(format_id(id))
}

pub(crate) fn status_param(status: TaskStatus) -> (r: SqlValue)
    ensures
        r@ == status_value(status),
{
    SqlValue::Text(status.to_json())
}

pub(crate) fn time_param(t: &Timestamp) -> (r: SqlValue)
    requires
        t.valid(),
    ensures
        r@ == time_value(*t),
        t.recordable() ==> instant_value(t.text()) == Some((t.secs, t.nanos)),
        t.recordable() ==> t.written_in_order(),
{
    SqlValue::Text(t.to_rfc3339())
}

fn number_param(n: u64) -> (r: SqlValue)
    ensures
        r@ == SqlView::Text(decimal(n as nat)),
{
    SqlValue::Text(decimal_text(n))
}

fn opt_number_param(n: Option<u64>) -> (r: SqlValue)
    ensures
        r@ == SqlView::Text(digits_or_empty(n)),
{
    match n {
        Some(v) => number_param(v),
        None => SqlValue::Text(String::new()),
    }
}

fn opt_param(s: &Option<String>) -> (r: SqlValue)
    ensures
        r@ == SqlView::Text(text_or_empty(opt_text(*s))),
{
    match s {
        Some(t) => text_value(t.as_str()),
        None => SqlValue::Text(String::new()),
    }
}

fn statement(sql: &'static str, params: Vec<SqlValue>) -> (r: Statement)
    ensures
        r@.sql == sql@,
        r@.params == cells(params@),
{
    Statement { sql, params }
}

// ---------------------------------------------------------------------------
// The statements
// ---------------------------------------------------------------------------
pub open spec fn insert_task_statement(t: TaskView) -> StatementView {
    StatementView {
        sql: INSERT_TASK@,
        params: seq![
            id_cell(t.task_id),
            status_value(t.status),
            SqlView::Text(decimal(t.progress as nat)),
            SqlView::Text(digits_or_empty(t.estimated_time_remaining)),
            SqlView::Text(text_or_empty(t.current_step)),
            SqlView::Text(text_or_empty(t.error)),
            time_value(t.created_at),
            time_value(t.updated_at),
            SqlView::Text(decimal(t.retry_count as nat)),
            SqlView::Text(decimal(t.max_retries as nat)),
            SqlView::Text(digits_or_empty(t.build_duration)),
            SqlView::Text(signed_decimal(t.priority as int)),
            SqlView::Text(t.file_id),
            SqlView::Text(t.file_path),
            SqlView::Text(text_or_empty(t.output_path)),
            SqlView::Text(t.user_id),
        ],
    }
}

pub open spec fn update_task_statement(t: TaskView) -> StatementView {
    StatementView {
        sql: UPDATE_TASK@,
        params: seq![
            status_value(t.status),
            SqlView::Text(decimal(t.progress as nat)),
            SqlView::Text(digits_or_empty(t.estimated_time_remaining)),
            SqlView::Text(text_or_empty(t.current_step)),
            SqlView::Text(text_or_empty(t.error)),
            time_value(t.updated_at),
            SqlView::Text(decimal(t.retry_count as nat)),
            SqlView::Text(text_or_empty(t.output_path)),
            id_cell(t.task_id),
        ],
    }
}

pub open spec fn event_statement(
    id: u128,
    event_type: Seq<char>,
    status: Option<TaskStatus>,
    message: Option<Seq<char>>,
    worker: Option<Seq<char>>,
    now: Timestamp,
) -> StatementView {
    StatementView {
        sql: INSERT_EVENT@,
        params: seq![
            id_cell(id),
            SqlView::Text(event_type),
            match status {
                Some(s) => status_value(s),
                None => SqlView::Null,
            },
            opt_value(message),
            opt_value(worker),
            time_value(now),
        ],
    }
}

pub open spec fn enqueue_statements(id: u128, now: Timestamp) -> Seq<StatementView> {
    seq![
        StatementView {
            sql: ENQUEUE_TASK@,
            params: seq![
                status_value(TaskStatus::Queued),
                time_value(now),
                time_value(now),
                id_cell(id),
            ],
        },
        event_statement(
            id,
            "enqueued"@,
            Some(TaskStatus::Queued),
            Some("Task enqueued"@),
            None,
            now,
        ),
    ]
}

pub open spec fn cancel_statements(id: u128, reason: Seq<char>, now: Timestamp) -> Seq<
    StatementView,
> {
    seq![
        StatementView {
            sql: CANCEL_TASK@,
            params: seq![
                status_value(TaskStatus::Cancelled),
                SqlView::Text(reason),
                SqlView::Text("Cancelled"@),
                time_value(now),
                id_cell(id),
            ],
        },
        event_statement(id, "cancelled"@, Some(TaskStatus::Cancelled), Some(reason), None, now),
    ]
}

pub open spec fn retry_statements(
    id: u128,
    next_run_at: Timestamp,
    last_error: Seq<char>,
    now: Timestamp,
) -> Seq<StatementView> {
    seq![
        StatementView {
            sql: SCHEDULE_RETRY@,
            params: seq![
                status_value(TaskStatus::Queued),
                time_value(next_run_at),
                SqlView::Text(last_error),
                time_value(now),
                id_cell(id),
            ],
        },
        event_statement(
            id,
            "retry_scheduled"@,
            Some(TaskStatus::Queued),
            Some(last_error),
            None,
            now,
        ),
    ]
}

pub open spec fn refresh_statement(
    id: u128,
    worker: Seq<char>,
    lease_secs: int,
    now: Timestamp,
) -> StatementView {
    StatementView {
        sql: REFRESH_LEASE@,
        params: seq![
            time_value(now.shifted(lease_secs)),
            time_value(now),
            id_cell(id),
            SqlView::Text(worker),
        ],
    }
}

pub open spec fn clear_lease_statement(id: u128) -> StatementView {
    StatementView { sql: CLEAR_LEASE@, params: seq![id_cell(id)] }
}

pub open spec fn count_statement(status: TaskStatus) -> StatementView {
    StatementView { sql: COUNT_BY_STATUS@, params: seq![status_value(status)] }
}

/// The four counts of the statistics: all tasks, those that succeeded, those that failed, those
/// that wait.
pub open spec fn stats_statements() -> Seq<StatementView> {
    seq![
        StatementView { sql: COUNT_ALL@, params: seq![] },
        count_statement(TaskStatus::Success),
        StatementView {
            sql: COUNT_FAILED@,
            params: seq![
                status_value(TaskStatus::UnknownError),
                status_value(TaskStatus::CompilationFailed),
                status_value(TaskStatus::Timeout),
            ],
        },
        count_statement(TaskStatus::Queued),
    ]
}

/// A statement with the values bound to it.
pub open spec fn plain_statement(sql: Seq<char>, params: Seq<SqlView>) -> StatementView {
    StatementView { sql, params }
}

/// The database of tasks, kept in one file.
#[derive(Debug)]
pub struct Database {
    pub path: String,
}

impl Clone for Database {
    fn clone(&self) -> (r: Database)
        ensures
            r.path@ == self.path@,
    {
        Database { path: self.path.clone() }
    }
}

impl Database {
    /// The database kept at `db_path`, and the directory that has to exist before it is opened.
    pub fn new(system: System, db_path: &str) -> (r: (Database, Option<String>))
        ensures
            r.0.path@ == db_path@,
            opt_text(r.1) == path_parent(system, db_path@),
    {
        (Database { path: db_path.to_owned() }, parent(system, db_path))
    }

    pub fn insert_task(&self, task: &Task) -> (r: Statement)
        requires
            task@.dated(),
        ensures
            r@ == insert_task_statement(task@),
            task@.keepable() ==> task_readable(kept_row(r@.params)) && task_of_row(
                kept_row(r@.params),
            ) == task@.filled(),
    {
        let r = statement(
            INSERT_TASK,
            vec![
                id_param(task.task_id),
                status_param(task.status),
                number_param(task.progress as u64),
                opt_number_param(task.estimated_time_remaining),
                opt_param(&task.current_step),
                opt_param(&task.error),
                time_param(&task.created_at),
                time_param(&task.updated_at),
                number_param(task.retry_count as u64),
                number_param(task.max_retries as u64),
                opt_number_param(task.build_duration),
                SqlValue::Text(signed_text(task.priority)),
                text_value(task.file_id.as_str()),
                text_value(task.file_path.as_str()),
                opt_param(&task.output_path),
                text_value(task.user_id.as_str()),
            ],
        );
        assert(r@.params =~= insert_task_statement(task@).params);
        proof {
            if task@.keepable() {
                lemma_task_kept(task@);
            }
        }
        r
    }

    pub fn update_task(&self, task: &Task) -> (r: Statement)
        requires
            task.updated_at.valid(),
        ensures
            r@ == update_task_statement(task@),
            task@.updated_at.recordable() && task@.estimated_time_remaining is None ==> forall|
                row: Seq<SqlView>,
            |
                row.len() == 16 && task_readable(row) ==> task_readable(
                    #[trigger] updated_row(row, r@.params),
                ) && task_of_row(updated_row(row, r@.params)) == task_of_row(row).updated_to(task@),
    {
        let r = statement(
            UPDATE_TASK,
            vec![
                status_param(task.status),
                number_param(task.progress as u64),
                opt_number_param(task.estimated_time_remaining),
                opt_param(&task.current_step),
                opt_param(&task.error),
                time_param(&task.updated_at),
                number_param(task.retry_count as u64),
                opt_param(&task.output_path),
                id_param(task.task_id),
            ],
        );
        assert(r@.params =~= update_task_statement(task@).params);
        proof {
            if task@.updated_at.recordable() && task@.estimated_time_remaining is None {
                assert forall|row: Seq<SqlView>| row.len() == 16 && task_readable(row) implies task_readable(
                    #[trigger] updated_row(row, r@.params),
                ) && task_of_row(updated_row(row, r@.params)) == task_of_row(row).updated_to(task@) by {
                    lemma_task_updated(row, task@);
                }
            }
        }
        r
    }

    /// The record of an event at a given time.
    pub fn event_at(
        &self,
        id: u128,
        event_type: &str,
        status: Option<TaskStatus>,
        message: Option<&str>,
        worker_id: Option<&str>,
        now: &Timestamp,
    ) -> (r: Statement)
        requires
            now.valid(),
        ensures
            r@ == event_statement(id, event_type@, status, opt_str(message), opt_str(worker_id), *now),
            now.recordable() ==> forall|number: i64|
                event_readable(#[trigger] event_row(number, r@.params)) && event_of_row(
                    event_row(number, r@.params),
                ) == (TaskEventView {
                    id: number,
                    task_id: id,
                    event_type: event_type@,
                    status,
                    message: opt_str(message),
                    worker_id: opt_str(worker_id),
                    created_at: *now,
                }),
    {
        let status_cell = match status {
            Some(s) => status_param(s),
            None => SqlValue::Null,
        };
        let r = statement(
            INSERT_EVENT,
            vec![
                id_param(id),
                text_value(event_type),
                status_cell,
                opt_text_value(message),
                opt_text_value(worker_id),
                time_param(now),
            ],
        );
        assert(r@.params =~= event_statement(
            id,
            event_type@,
            status,
            opt_str(message),
            opt_str(worker_id),
            *now,
        ).params);
        proof {
            if now.recordable() {
                assert forall|number: i64|
                    event_readable(#[trigger] event_row(number, r@.params)) && event_of_row(
                        event_row(number, r@.params),
                    ) == (TaskEventView {
                        id: number,
                        task_id: id,
                        event_type: event_type@,
                        status,
                        message: opt_str(message),
                        worker_id: opt_str(worker_id),
                        created_at: *now,
                    }) by {
                    lemma_event_kept(
                        number,
                        id,
                        event_type@,
                        status,
                        opt_str(message),
                        opt_str(worker_id),
                        *now,
                    );
                }
            }
        }
        r
    }

    pub fn insert_task_event(
        &self,
        id: u128,
        event_type: &str,
        status: Option<TaskStatus>,
        message: Option<&str>,
        worker_id: Option<&str>,
    ) -> (r: Statement)
        ensures
            exists|now: Timestamp| #[trigger]
                now.plain() && r@ == event_statement(
                    id,
                    event_type@,
                    status,
                    opt_str(message),
                    opt_str(worker_id),
                    now,
                ),
    {
        let now = Timestamp::now();
        self.event_at(id, event_type, status, message, worker_id, &now)
    }

    /// Puts a task into the queue at a given time.
    pub fn enqueue_at(&self, id: u128, now: &Timestamp) -> (r: Vec<Statement>)
        requires
            now.valid(),
        ensures
            statements_view(r@) == enqueue_statements(id, *now),
            now.recordable() ==> runs_from(r@[0]@.params, id, *now),
    {
        let first = statement(
            ENQUEUE_TASK,
            vec![status_param(TaskStatus::Queued), time_param(now), time_param(now), id_param(id)],
        );
        assert(first@.params =~= enqueue_statements(id, *now)[0].params);
        let second = self.event_at(
            id,
            "enqueued",
            Some(TaskStatus::Queued),
            Some("Task enqueued"),
            None,
            now,
        );
        let r = vec![first, second];
        assert(statements_view(r@) =~= enqueue_statements(id, *now));
        proof {
            let params = enqueue_statements(id, *now)[0].params;
            assert(statements_view(r@)[0] == r@[0]@);
            if now.recordable() {
                assert forall|rows: Seq<TaskRow>, i: int, at: Timestamp|
                    0 <= i < rows.len() && rows[i].cells.len() == 16 && rows[i].cells[0]
                        == id_cell(id) && at.recordable() && !at.earlier(*now) implies may_run(
                    #[trigger] enqueued(rows, params)[i],
                    #[trigger] next_params(at),
                ) by {
                    assert(text_before(at.text(), now.text()) <==> at.earlier(*now));
                    lemma_queued_may_run(rows, i, id, *now, at);
                }
            }
        }
        r
    }

    pub fn enqueue_task(&self, id: u128) -> (r: Vec<Statement>)
        ensures
            exists|now: Timestamp| #[trigger]
                now.plain() && statements_view(r@) == enqueue_statements(id, now),
    {
        let now = Timestamp::now();
        self.enqueue_at(id, &now)
    }

    pub fn count_queued_tasks(&self) -> (r: Statement)
        ensures
            r@ == count_statement(TaskStatus::Queued),
    {
        let r = statement(COUNT_BY_STATUS, vec![status_param(TaskStatus::Queued)]);
        assert(r@.params =~= count_statement(TaskStatus::Queued).params);
        r
    }

    /// The identifiers of the queued tasks, oldest first; none where the limit has no integer in
    /// the database.
    pub fn get_oldest_queued_tasks(&self, limit: u64) -> (r: Option<Statement>)
        ensures
            r is Some <==> limit <= i64::MAX,
            r is Some ==> r->0@ == plain_statement(
                OLDEST_QUEUED@,
                seq![status_value(TaskStatus::Queued), SqlView::Integer(limit as int)],
            ),
    {
        match unsigned_value(limit) {
            Some(n) => {
                let r = statement(OLDEST_QUEUED, vec![status_param(TaskStatus::Queued), n]);
                assert(r@.params =~= seq![
                    status_value(TaskStatus::Queued),
                    SqlView::Integer(limit as int),
                ]);
                Some(r)
            },
            None => None,
        }
    }

    /// Cancels a task at a given time.
    pub fn cancel_at(&self, id: u128, reason: &str, now: &Timestamp) -> (r: Vec<Statement>)
        requires
            now.valid(),
        ensures
            statements_view(r@) == cancel_statements(id, reason@, *now),
    {
        let first = statement(
            CANCEL_TASK,
            vec![
                status_param(TaskStatus::Cancelled),
                text_value(reason),
                text_value("Cancelled"),
                time_param(now),
                id_param(id),
            ],
        );
        assert(first@.params =~= cancel_statements(id, reason@, *now)[0].params);
        let second = self.event_at(
            id,
            "cancelled",
            Some(TaskStatus::Cancelled),
            Some(reason),
            None,
            now,
        );
        let r = vec![first, second];
        assert(statements_view(r@) =~= cancel_statements(id, reason@, *now));
        r
    }

    pub fn cancel_task(&self, id: u128, reason: &str) -> (r: Vec<Statement>)
        ensures
            exists|now: Timestamp| #[trigger]
                now.plain() && statements_view(r@) == cancel_statements(id, reason@, now),
    {
        let now = Timestamp::now();
        self.cancel_at(id, reason, &now)
    }

    /// Extends the lease that a worker holds, from a given time on.
    pub fn refresh_at(&self, id: u128, worker_id: &str, lease_secs: u64, now: &Timestamp) -> (r:
        Statement)
        requires
            now.can_shift(lease_secs as int),
        ensures
            r@ == refresh_statement(id, worker_id@, lease_secs as int, *now),
    {
        let until = now.plus_seconds(lease_secs);
        let r = statement(
            REFRESH_LEASE,
            vec![time_param(&until), time_param(now), id_param(id), text_value(worker_id)],
        );
        assert(r@.params =~= refresh_statement(id, worker_id@, lease_secs as int, *now).params);
        r
    }

    /// Extends the lease that a worker holds; none where its end would have no date.
    pub fn refresh_lease(&self, id: u128, worker_id: &str, lease_secs: u64) -> (r: Option<
        Statement,
    >)
        ensures
            exists|now: Timestamp| #[trigger]
                now.plain() && match r {
                    Some(s) => now.can_shift(lease_secs as int) && s@ == refresh_statement(
                        id,
                        worker_id@,
                        lease_secs as int,
                        now,
                    ),
                    None => !now.can_shift(lease_secs as int),
                },
    {
        let now = Timestamp::now();
        if now.reaches(lease_secs) {
            Some(self.refresh_at(id, worker_id, lease_secs, &now))
        } else {
            None
        }
    }

    pub fn clear_lease(&self, id: u128) -> (r: Statement)
        ensures
            r@ == clear_lease_statement(id),
    {
        let r = statement(CLEAR_LEASE, vec![id_param(id)]);
        assert(r@.params =~= clear_lease_statement(id).params);
        r
    }

    /// Puts a task back into the queue at a given time, to run at a later one.
    pub fn retry_at(&self, id: u128, next_run_at: &Timestamp, last_error: &str, now: &Timestamp) -> (r:
        Vec<Statement>)
        requires
            now.valid(),
            next_run_at.valid(),
        ensures
            statements_view(r@) == retry_statements(id, *next_run_at, last_error@, *now),
            next_run_at.recordable() ==> waits_until(r@[0]@.params, id, *next_run_at),
    {
        let first = statement(
            SCHEDULE_RETRY,
            vec![
                status_param(TaskStatus::Queued),
                time_param(next_run_at),
                text_value(last_error),
                time_param(now),
                id_param(id),
            ],
        );
        assert(first@.params =~= retry_statements(id, *next_run_at, last_error@, *now)[0].params);
        let second = self.event_at(
            id,
            "retry_scheduled",
            Some(TaskStatus::Queued),
            Some(last_error),
            None,
            now,
        );
        let r = vec![first, second];
        assert(statements_view(r@) =~= retry_statements(id, *next_run_at, last_error@, *now));
        proof {
            let params = retry_statements(id, *next_run_at, last_error@, *now)[0].params;
            assert(statements_view(r@)[0] == r@[0]@);
            if next_run_at.recordable() {
                assert forall|rows: Seq<TaskRow>, reply: ReplyView, at: Timestamp|
                    at.recordable() && waits_alone(rows, id) && #[trigger] answers_next(
                        reply,
                        retried(rows, params),
                        next_params(at),
                    ) implies reply == found_from(id, *next_run_at, at) by {
                    lemma_retry_reply(rows, id, *next_run_at, last_error@, *now, at, reply);
                    assert(text_before(at.text(), next_run_at.text()) <==> at.earlier(
                        *next_run_at,
                    ));
                }
            }
        }
        r
    }

    pub fn schedule_retry(&self, id: u128, next_run_at: &Timestamp, last_error: &str) -> (r: Vec<
        Statement,
    >)
        requires
            next_run_at.valid(),
        ensures
            exists|now: Timestamp| #[trigger]
                now.plain() && statements_view(r@) == retry_statements(
                    id,
                    *next_run_at,
                    last_error@,
                    now,
                ),
            next_run_at.recordable() ==> waits_until(r@[0]@.params, id, *next_run_at),
    {
        let now = Timestamp::now();
        self.retry_at(id, next_run_at, last_error, &now)
    }

    /// The query whose first row is the task; `sql::read_first_task` reads the reply.
    pub fn get_task(&self, id: u128) -> (r: Statement)
        ensures
            r@ == plain_statement(SELECT_TASK@, seq![id_cell(id)]),
    {
        let r = statement(SELECT_TASK, vec![id_param(id)]);
        assert(r@.params =~= seq![id_cell(id)]);
        r
    }

    /// The query for all tasks, newest first; `sql::read_tasks` reads the reply.
    pub fn get_all_tasks(&self) -> (r: Statement)
        ensures
            r@ == plain_statement(SELECT_ALL_TASKS@, seq![]),
    {
        let r = statement(SELECT_ALL_TASKS, Vec::new());
        assert(r@.params =~= seq![]);
        r
    }

    /// The query for a page of a task's events, oldest first; none where the page has no integers
    /// in the database. `sql::read_events` reads the reply.
    pub fn get_task_events(&self, id: u128, limit: u64, offset: u64) -> (r: Option<Statement>)
        ensures
            r is Some <==> limit <= i64::MAX && offset <= i64::MAX,
            r is Some ==> r->0@ == plain_statement(
                SELECT_EVENTS@,
                seq![
                    id_cell(id),
                    SqlView::Integer(limit as int),
                    SqlView::Integer(offset as int),
                ],
            ),
    {
        match (unsigned_value(limit), unsigned_value(offset)) {
            (Some(l), Some(o)) => {
                let r = statement(SELECT_EVENTS, vec![id_param(id), l, o]);
                assert(r@.params =~= seq![
                    id_cell(id),
                    SqlView::Integer(limit as int),
                    SqlView::Integer(offset as int),
                ]);
                Some(r)
            },
            _ => None,
        }
    }

    /// The query for the newest task of a file and a user; `sql::read_first_task` reads the reply.
    pub fn find_latest_task_by_file_id_and_user_id(&self, file_id: &str, user_id: &str) -> (r:
        Statement)
        ensures
            r@ == plain_statement(
                SELECT_LATEST_TASK@,
                seq![SqlView::Text(file_id@), SqlView::Text(user_id@)],
            ),
    {
        let r = statement(SELECT_LATEST_TASK, vec![text_value(file_id), text_value(user_id)]);
        assert(r@.params =~= seq![SqlView::Text(file_id@), SqlView::Text(user_id@)]);
        r
    }

    /// The query for the tasks in a state, newest first; `sql::read_tasks` reads the reply.
    pub fn get_tasks_by_status(&self, status: TaskStatus) -> (r: Statement)
        ensures
            r@ == plain_statement(SELECT_BY_STATUS@, seq![status_value(status)]),
    {
        let r = statement(SELECT_BY_STATUS, vec![status_param(status)]);
        assert(r@.params =~= seq![status_value(status)]);
        r
    }

    /// The four queries of the statistics, each of which gives one count.
    pub fn get_task_stats(&self) -> (r: Vec<Statement>)
        ensures
            statements_view(r@) == stats_statements(),
    {
        let all = statement(COUNT_ALL, Vec::new());
        assert(all@.params =~= seq![]);
        let completed = statement(COUNT_BY_STATUS, vec![status_param(TaskStatus::Success)]);
        assert(completed@.params =~= count_statement(TaskStatus::Success).params);
        let failed = statement(
            COUNT_FAILED,
            vec![
                status_param(TaskStatus::UnknownError),
                status_param(TaskStatus::CompilationFailed),
                status_param(TaskStatus::Timeout),
            ],
        );
        assert(failed@.params =~= stats_statements()[2].params);
        let queued = self.count_queued_tasks();
        let r = vec![all, completed, failed, queued];
        assert(statements_view(r@) =~= stats_statements());
        r
    }

    pub fn get_schema_version(&self) -> (r: Statement)
        ensures
            r@ == plain_statement(SCHEMA_VERSION@, seq![]),
    {
        let r = statement(SCHEMA_VERSION, Vec::new());
        assert(r@.params =~= seq![]);
        r
    }
}

/// Whatever the reason or the error, it is recorded as it is, in the task's row and in the event of
/// the task.
pub proof fn law_reasons_are_recorded(id: u128, reason: Seq<char>, next: Timestamp, now: Timestamp)
    ensures
        ({
            let c = cancel_statements(id, reason, now);
            let r = retry_statements(id, next, reason, now);
            &&& c.len() == 2 && r.len() == 2
            &&& c[0].params.contains(SqlView::Text(reason))
            &&& c[1].params.contains(SqlView::Text(reason))
            &&& r[0].params.contains(SqlView::Text(reason))
            &&& r[1].params.contains(SqlView::Text(reason))
            &&& c[0].params.last() == id_cell(id) && r[0].params.last() == id_cell(id)
            &&& c[1].params[0] == id_cell(id) && r[1].params[0] == id_cell(id)
            &&& c[0].params[0] == status_value(TaskStatus::Cancelled)
            &&& r[0].params[0] == status_value(TaskStatus::Queued)
            &&& r[0].params[1] == time_value(next)
        }),
{
    let c = cancel_statements(id, reason, now);
    let r = retry_statements(id, next, reason, now);
    assert(c[0].params[1] == SqlView::Text(reason));
    assert(c[1].params[3] == SqlView::Text(reason));
    assert(r[0].params[2] == SqlView::Text(reason));
    assert(r[1].params[3] == SqlView::Text(reason));
}

/// A lease that is extended ends so many seconds from now, for the worker that holds it and for no
/// other.
pub proof fn law_extended_lease(id: u128, worker: Seq<char>, lease_secs: int, now: Timestamp)
    requires
        now.plain(),
        now.can_shift(lease_secs),
    ensures
        ({
            let s = refresh_statement(id, worker, lease_secs, now);
            let until = Timestamp { secs: (now.secs + lease_secs) as i64, nanos: now.nanos };
            &&& s.params[0] == time_value(until)
            &&& s.params[2] == id_cell(id)
            &&& s.params[3] == SqlView::Text(worker)
        }),
{
    law_seconds_are_added(now, lease_secs);
}

} // verus!
