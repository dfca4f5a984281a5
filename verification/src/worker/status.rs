//! How a task's state changes while it is run.
use crate::database::sql::{statements_view, Statement, StatementView};
use crate::database::{clear_lease_statement, event_statement, update_task_statement};
use crate::models::task::{TaskStatus, TaskView};
use crate::path::{file_stem, path_file_stem, System};
use crate::state::{count_up, counted, AppState, StateView};
use crate::table::{get_task, put_task};
use crate::text::{opt_text, same_text};
use crate::time::Timestamp;
use vstd::prelude::*;

verus! {

// ---------------------------------------------------------------------------
// Changes of state
// ---------------------------------------------------------------------------
/// The states of a task that ended in a failure.
pub open spec fn is_failure(status: TaskStatus) -> bool {
    status is UnknownError || status is Timeout || status is CompilationFailed
}

/// A task after a change of state.
pub open spec fn changed_task(
    t: TaskView,
    status: TaskStatus,
    progress: u8,
    step: Option<Seq<char>>,
    error: Option<Seq<char>>,
    now: Timestamp,
) -> TaskView {
    TaskView { status, progress, current_step: step, error, updated_at: now, ..t }
}

/// The message of the event that records a change of state: the error, else the step.
pub open spec fn change_message(step: Option<Seq<char>>, error: Option<Seq<char>>) -> Option<
    Seq<char>,
> {
    match error {
        Some(e) => Some(e),
        None => step,
    }
}

/// What is recorded of a change of state. The lease ends with the run.
pub open spec fn change_statements(id: u128, t: TaskView, noted_at: Timestamp) -> Seq<StatementView> {
    let noted = seq![
        update_task_statement(t),
        event_statement(
            id,
            "status_change"@,
            Some(t.status),
            change_message(t.current_step, t.error),
            None,
            noted_at,
        ),
    ];
    if t.status is Processing {
        noted
    } else {
        noted.push(clear_lease_statement(id))
    }
}

impl StateView {
    /// The state after a task's state changed.
    pub open spec fn with_change(
        self,
        id: u128,
        status: TaskStatus,
        progress: u8,
        step: Option<Seq<char>>,
        error: Option<Seq<char>>,
        now: Timestamp,
    ) -> StateView {
        if !self.tasks.contains_key(id) {
            self
        } else {
            StateView {
                tasks: self.tasks.insert(
                    id,
                    changed_task(self.tasks[id], status, progress, step, error, now),
                ),
                completed_tasks: if status is Success {
                    counted(self.completed_tasks)
                } else {
                    self.completed_tasks
                },
                failed_tasks: if is_failure(status) {
                    counted(self.failed_tasks)
                } else {
                    self.failed_tasks
                },
                ..self
            }
        }
    }
}

/// Changes a task's state at a given time; the event is dated `noted_at`. Each statement is run
/// whatever became of those before it. A task that is not in memory is left as it is.
pub fn change_status(
    state: &mut AppState,
    id: u128,
    status: TaskStatus,
    progress: u8,
    current_step: Option<String>,
    error: Option<String>,
    now: &Timestamp,
    noted_at: &Timestamp,
) -> (r: Vec<Statement>)
    requires
        now.valid(),
        noted_at.valid(),
    ensures
        final(state)@ == old(state)@.with_change(
            id,
            status,
            progress,
            opt_text(current_step),
            opt_text(error),
            *now,
        ),
        statements_view(r@) == if old(state)@.tasks.contains_key(id) {
            change_statements(id, final(state)@.tasks[id], *noted_at)
        } else {
            seq![]
        },
{
    let mut r: Vec<Statement> = Vec::new();
    let found = get_task(&state.tasks, id);
    if let Some(task) = found {
        let mut task = task;
        task.status = status;
        task.progress = progress;
        task.current_step = current_step;
        task.error = error;
        task.updated_at = *now;
        let ghost after = task@;
        match status {
            TaskStatus::Success => {
                state.completed_tasks = count_up(state.completed_tasks);
            },
            TaskStatus::UnknownError | TaskStatus::Timeout | TaskStatus::CompilationFailed => {
                state.failed_tasks = count_up(state.failed_tasks);
            },
            _ => {},
        }
        r.push(state.database.update_task(&task));
        let message: Option<&str> = match &task.error {
            Some(e) => Some(e.as_str()),
            None => match &task.current_step {
                Some(s) => Some(s.as_str()),
                None => None,
            },
        };
        r.push(
            state.database.event_at(id, "status_change", Some(status), message, None, noted_at),
        );
        match status {
            TaskStatus::Processing => {},
            _ => {
                r.push(state.database.clear_lease(id));
            },
        }
        put_task(&mut state.tasks, id, task);
        assert(state@.tasks[id] == after);
        assert(statements_view(r@) =~= change_statements(id, after, *noted_at));
        assert(state@.tasks =~= old(state)@.with_change(
            id,
            status,
            progress,
            opt_text(current_step),
            opt_text(error),
            *now,
        ).tasks);
    } else {
        assert(statements_view(r@) =~= seq![]);
    }
    r
}

/// Changes a task's state.
pub fn update_task_status(
    state: &mut AppState,
    id: u128,
    status: TaskStatus,
    progress: u8,
    current_step: Option<String>,
    error: Option<String>,
) -> (r: Vec<Statement>)
    ensures
        exists|now: Timestamp, noted_at: Timestamp| #[trigger]
            now.plain() && #[trigger] noted_at.plain() && final(state)@ == old(state)@.with_change(
                id,
                status,
                progress,
                opt_text(current_step),
                opt_text(error),
                now,
            ) && statements_view(r@) == if old(state)@.tasks.contains_key(id) {
                change_statements(id, final(state)@.tasks[id], noted_at)
            } else {
                seq![]
            },
{
    let now = Timestamp::now();
    let noted_at = Timestamp::now();
    change_status(state, id, status, progress, current_step, error, &now, &noted_at)
}

// ---------------------------------------------------------------------------
// Progress
// ---------------------------------------------------------------------------
/// A task that has come further.
pub open spec fn advanced_task(t: TaskView, progress: u8, step: Seq<char>, now: Timestamp) -> TaskView {
    TaskView { progress, current_step: Some(step), updated_at: now, ..t }
}

/// Notes how far a task has come, at a given time.
pub fn progress_at(state: &mut AppState, id: u128, progress: u8, step: &str, now: &Timestamp) -> (r:
    Option<Statement>)
    requires
        now.valid(),
    ensures
        final(state)@ == old(state)@.with_task(
            id,
            |t: TaskView| advanced_task(t, progress, step@, *now),
        ),
        r is Some <==> old(state)@.tasks.contains_key(id),
        r is Some ==> r->0@ == update_task_statement(final(state)@.tasks[id]),
{
    match get_task(&state.tasks, id) {
        Some(task) => {
            let mut task = task;
            task.progress = progress;
            task.current_step = Some(step.to_owned());
            task.updated_at = *now;
            let s = state.database.update_task(&task);
            put_task(&mut state.tasks, id, task);
            Some(s)
        },
        None => None,
    }
}

/// Notes how far a task has come.
pub fn update_progress(state: &mut AppState, id: u128, progress: u8, step: &str) -> (r: Option<
    Statement,
>)
    ensures
        r is Some <==> old(state)@.tasks.contains_key(id),
        r is Some ==> r->0@ == update_task_statement(final(state)@.tasks[id]),
        exists|now: Timestamp| #[trigger]
            now.plain() && final(state)@ == old(state)@.with_task(
                id,
                |t: TaskView| advanced_task(t, progress, step@, now),
            ),
{
    let now = Timestamp::now();
    progress_at(state, id, progress, step, &now)
}

// ---------------------------------------------------------------------------
// Failures
// ---------------------------------------------------------------------------
/// What the user is told of a failure.
pub open spec fn failure_message(status: TaskStatus) -> Seq<char> {
    match status {
        TaskStatus::Timeout => "任务超时，请重新上传打包"@,
        TaskStatus::CompilationFailed => "编译失败，请检查代码"@,
        TaskStatus::Cancelled => "任务已取消"@,
        _ => "任务失败"@,
    }
}

/// The error of a failed task: the message, and the details where they say more.
pub open spec fn failure_text(message: Seq<char>, error: Seq<char>) -> Seq<char> {
    if error.len() > 0 && error != message {
        message + ": "@ + error
    } else {
        message
    }
}

/// A task that failed for good.
pub open spec fn failed_task(
    t: TaskView,
    error: Seq<char>,
    status: TaskStatus,
    now: Timestamp,
) -> TaskView {
    TaskView {
        status,
        current_step: Some(failure_message(status)),
        error: Some(failure_text(failure_message(status), error)),
        updated_at: now,
        ..t
    }
}

/// What is recorded of a failure.
pub open spec fn failure_statements(id: u128, t: TaskView, noted_at: Timestamp) -> Seq<StatementView> {
    seq![
        update_task_statement(t),
        event_statement(id, "failed"@, Some(t.status), t.error, None, noted_at),
        clear_lease_statement(id),
    ]
}

/// The files of a failed task, each of which is removed where it is there.
#[derive(Debug)]
pub struct FailureFiles {
    /// The uploaded file, or a directory.
    pub source: String,
    /// The directory into which the project was extracted.
    pub extracted: Option<String>,
}

/// The directory into which an uploaded file is extracted.
pub open spec fn extracted_dir(
    system: System,
    upload_dir: Seq<char>,
    file_path: Seq<char>,
) -> Option<Seq<char>> {
    match path_file_stem(system, file_path) {
        Some(stem) => Some(upload_dir + seq!['/'] + stem),
        None => None,
    }
}

/// `dir`, a slash and `name`.
pub(crate) fn below(dir: &str, name: &str) -> (r: String)
    ensures
        r@ == dir@ + seq!['/'] + name@,
{
    let mut r = dir.to_owned();
    r.push('/');
    r.append(name);
    assert(r@ =~= dir@ + seq!['/'] + name@);
    r
}

fn failure_note(status: TaskStatus) -> (r: &'static str)
    ensures
        r@ == failure_message(status),
{
    match status {
        TaskStatus::Timeout => "任务超时，请重新上传打包",
        TaskStatus::CompilationFailed => "编译失败，请检查代码",
        TaskStatus::Cancelled => "任务已取消",
        _ => "任务失败",
    }
}

/// What is left to do after a failure.
#[derive(Debug)]
pub struct Failure {
    /// Each is run whatever became of those before it.
    pub statements: Vec<Statement>,
    pub files: FailureFiles,
}

/// The effect of a failure at a given time on the state before it.
pub open spec fn failed_state(
    s: StateView,
    id: u128,
    error: Seq<char>,
    status: TaskStatus,
    now: Timestamp,
) -> StateView {
    if s.tasks.contains_key(id) {
        StateView {
            tasks: s.tasks.insert(id, failed_task(s.tasks[id], error, status, now)),
            failed_tasks: counted(s.failed_tasks),
            ..s
        }
    } else {
        s
    }
}

impl Failure {
    pub open spec fn is_of(&self, s: StateView, id: u128, noted_at: Timestamp) -> bool {
        &&& statements_view(self.statements@) == failure_statements(
            id,
            s.tasks[id],
            noted_at,
        )
        &&& self.files.source@ == s.tasks[id].file_path
        &&& opt_text(self.files.extracted) == extracted_dir(
            s.system,
            s.upload_dir,
            s.tasks[id].file_path,
        )
    }
}

/// Marks a task as failed for good, at a given time.
pub fn fail_at(
    state: &mut AppState,
    id: u128,
    error: &str,
    final_status: TaskStatus,
    now: &Timestamp,
    noted_at: &Timestamp,
) -> (r: Option<Failure>)
    requires
        now.valid(),
        noted_at.valid(),
    ensures
        final(state)@ == failed_state(old(state)@, id, error@, final_status, *now),
        r is Some <==> old(state)@.tasks.contains_key(id),
        r is Some ==> r->0.is_of(final(state)@, id, *noted_at),
{
    let found = get_task(&state.tasks, id);
    match found {
        None => None,
        Some(task) => {
            let mut task = task;
            let message = failure_note(final_status);
            let mut text = message.to_owned();
            if !error.is_empty() && !same_text(error, message) {
                text.append(": ");
                text.append(error);
            }
            assert(text@ =~= failure_text(message@, error@));
            task.status = final_status;
            task.current_step = Some(message.to_owned());
            task.error = Some(text);
            task.updated_at = *now;
            let ghost after = task@;
            state.failed_tasks = count_up(state.failed_tasks);
            let first = state.database.update_task(&task);
            let details: Option<&str> = match &task.error {
                Some(e) => Some(e.as_str()),
                None => None,
            };
            let second = state.database.event_at(
                id,
                "failed",
                Some(final_status),
                details,
                None,
                noted_at,
            );
            let third = state.database.clear_lease(id);
            let source = task.file_path.clone();
            let extracted = match file_stem(state.system, source.as_str()) {
                Some(stem) => Some(below(state.upload_dir.as_str(), stem.as_str())),
                None => None,
            };
            put_task(&mut state.tasks, id, task);
            let statements = vec![first, second, third];
            assert(statements_view(statements@) =~= failure_statements(id, after, *noted_at));
            Some(Failure { statements, files: FailureFiles { source, extracted } })
        },
    }
}

/// Marks a task as failed for good. It is not run again.
pub fn fail_task(state: &mut AppState, id: u128, error: &str, final_status: TaskStatus) -> (r: Option<
    Failure,
>)
    ensures
        r is Some <==> old(state)@.tasks.contains_key(id),
        exists|now: Timestamp, noted_at: Timestamp| #[trigger]
            now.plain() && #[trigger] noted_at.plain() && final(state)@ == failed_state(
                old(state)@,
                id,
                error@,
                final_status,
                now,
            ) && (r is Some ==> r->0.is_of(final(state)@, id, noted_at)),
{
    let now = Timestamp::now();
    let noted_at = Timestamp::now();
    fail_at(state, id, error, final_status, &now, &noted_at)
}

/// A task's lease is over once its run is.
pub fn stop_lease(state: &AppState, id: u128) -> (r: Statement)
    ensures
        r@ == clear_lease_statement(id),
{
    state.database.clear_lease(id)
}

/// A change of one task leaves every other as it was.
pub proof fn law_other_tasks_unchanged(
    s: StateView,
    id: u128,
    other: u128,
    status: TaskStatus,
    progress: u8,
    step: Option<Seq<char>>,
    error: Option<Seq<char>>,
    details: Seq<char>,
    now: Timestamp,
)
    requires
        id != other,
    ensures
        s.with_change(id, status, progress, step, error, now).tasks.contains_key(other)
            == s.tasks.contains_key(other),
        s.tasks.contains_key(other) ==> s.with_change(
            id,
            status,
            progress,
            step,
            error,
            now,
        ).tasks[other] == s.tasks[other],
        failed_state(s, id, details, status, now).tasks.contains_key(other)
            == s.tasks.contains_key(other),
        s.tasks.contains_key(other) ==> failed_state(s, id, details, status, now).tasks[other]
            == s.tasks[other],
{
}

/// A task that succeeds is counted as completed, one that ends in a failure as failed, and no
/// other change is counted.
pub proof fn law_ends_are_counted(
    s: StateView,
    id: u128,
    status: TaskStatus,
    progress: u8,
    step: Option<Seq<char>>,
    error: Option<Seq<char>>,
    now: Timestamp,
)
    requires
        s.tasks.contains_key(id),
        s.completed_tasks < u64::MAX,
        s.failed_tasks < u64::MAX,
    ensures
        ({
            let after = s.with_change(id, status, progress, step, error, now);
            let done = after.completed_tasks - s.completed_tasks;
            let lost = after.failed_tasks - s.failed_tasks;
            &&& status is Success ==> done == 1 && lost == 0
            &&& status is UnknownError || status is CompilationFailed || status is Timeout ==> done
                == 0 && lost == 1
            &&& status is Queued || status is Processing || status is Cancelled ==> done == 0
                && lost == 0
            &&& after.total_tasks == s.total_tasks
        }),
        ({
            let after = failed_state(s, id, Seq::empty(), status, now);
            &&& after.failed_tasks == s.failed_tasks + 1
            &&& after.completed_tasks == s.completed_tasks
            &&& after.total_tasks == s.total_tasks
        }),
{
}

/// A change sets what it is asked to set, and leaves alone what the task was made with.
pub proof fn law_change_keeps_the_rest(
    s: StateView,
    id: u128,
    status: TaskStatus,
    progress: u8,
    step: Option<Seq<char>>,
    error: Option<Seq<char>>,
    now: Timestamp,
)
    requires
        s.tasks.contains_key(id),
    ensures
        ({
            let t = s.tasks[id];
            let after = s.with_change(id, status, progress, step, error, now).tasks[id];
            &&& after.status == status && after.progress == progress
            &&& after.current_step == step && after.error == error && after.updated_at == now
            &&& after.task_id == t.task_id && after.created_at == t.created_at
            &&& after.file_id == t.file_id && after.file_path == t.file_path
            &&& after.user_id == t.user_id && after.output_path == t.output_path
            &&& after.retry_count == t.retry_count && after.max_retries == t.max_retries
            &&& after.priority == t.priority
        }),
        ({
            let t = s.tasks[id];
            let text = match step {
                Some(x) => x,
                None => Seq::empty(),
            };
            let after = advanced_task(t, progress, text, now);
            &&& after.progress == progress && after.current_step == Some(text)
            &&& after.updated_at == now && after.status == t.status && after.error == t.error
            &&& after.output_path == t.output_path && after.created_at == t.created_at
        }),
{
}

/// The lease of a task ends with every change to a state other than running, and with every
/// failure; the event of a change tells the error where there is one, else the step.
pub proof fn law_lease_ends_with_the_run(id: u128, t: TaskView, noted_at: Timestamp)
    ensures
        change_statements(id, t, noted_at).contains(clear_lease_statement(id)) <==> !(t.status
            is Processing),
        failure_statements(id, t, noted_at).contains(clear_lease_statement(id)),
        change_statements(id, t, noted_at)[0] == update_task_statement(t),
        failure_statements(id, t, noted_at)[0] == update_task_statement(t),
        t.error is Some ==> change_message(t.current_step, t.error) == t.error,
        t.error is None ==> change_message(t.current_step, t.error) == t.current_step,
{
    let clear = clear_lease_statement(id);
    let changed = change_statements(id, t, noted_at);
    let failed = failure_statements(id, t, noted_at);
    assert(failed[2] == clear);
    if t.status is Processing {
        assert forall|i: int| 0 <= i < changed.len() implies changed[i] != clear by {
            assert(clear.params.len() == 1);
            assert(update_task_statement(t).params.len() == 9);
            assert(changed[1].params.len() == 6);
        }
    } else {
        assert(changed[2] == clear);
    }
}

/// What a failed task tells starts with the message of its state and ends with the details,
/// whatever they are; without details, or with details that say the same, it is the message.
pub proof fn law_failure_is_told(t: TaskView, error: Seq<char>, status: TaskStatus, now: Timestamp)
    ensures
        ({
            let after = failed_task(t, error, status, now);
            let message = failure_message(status);
            &&& after.status == status && after.updated_at == now
            &&& after.current_step == Some(message)
            &&& after.error matches Some(text) && {
                &&& message.is_prefix_of(text)
                &&& error.len() > 0 && error != message ==> text == message + ": "@ + error
                &&& error.len() == 0 || error == message ==> text == message
            }
            &&& after.output_path == t.output_path && after.file_path == t.file_path
            &&& after.progress == t.progress && after.created_at == t.created_at
        }),
{
    let message = failure_message(status);
    assert((message + ": "@ + error).subrange(0, message.len() as int) =~= message);
    assert(message.subrange(0, message.len() as int) =~= message);
}

} // verus!
