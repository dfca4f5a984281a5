//! Build requests, and questions about builds.
use super::upload::{
    extraction_dir, extraction_path, has_file_id_form, is_file_id, law_file_id_form, stored_file, stored_path,
    UploadView,
};
use crate::database::rows::{
    answers_events, at_different_moments, is_history, joined as pages_joined, law_pages_join,
    least, EventRow,
};
use crate::database::sql::{SqlView, Statement, StatementView};
use crate::database::{id_cell, insert_task_statement, plain_statement, SELECT_EVENTS};
use crate::error::{ApiError, ApiErrorView};
use crate::models::task::{BuildResponse, Task, TaskStatus, TaskView};
use crate::outside::{format_id, fresh_id, id_digit, id_text, id_value, parse_id};
use crate::path::{is_separator, is_verbatim, lemma_name_below, prefix_len, System};
use crate::state::{count_up, counted, AppState, StateView};
use crate::table::{get_task, put_task};
use crate::text::{
    decimal, is_hex_digit, last_index, law_decimal_read_back, opt_str, parse_unsigned,
    split_last, unsigned,
};
use crate::time::Timestamp;
use crate::utils::{accepted_json_response, json_response, ApiResponse, Reply};
use crate::worker::status::{extracted_dir, failed_state};
use vstd::prelude::*;

verus! {

// ---------------------------------------------------------------------------
// New builds
// ---------------------------------------------------------------------------
/// Where the project of a file may lie: extracted, or as it was uploaded.
pub fn source_paths(state: &AppState, file_id: &str) -> (r: Result<(String, String), ApiError>)
    ensures
        match r {
            Ok(p) => {
                &&& is_file_id(file_id@)
                &&& p.0@ == extraction_path(state@.upload_dir, file_id@)
                &&& p.1@ == stored_path(state@.upload_dir, file_id@)
            },
            Err(e) => !is_file_id(file_id@) && e@ == ApiErrorView::BadRequest(
                "Invalid File ID format"@,
            ),
        },
{
    if !has_file_id_form(file_id) {
        return Err(ApiError::bad_request("Invalid File ID format"));
    }
    Ok(
        (
            extraction_dir(state.upload_dir.as_str(), file_id),
            stored_file(state.upload_dir.as_str(), file_id),
        ),
    )
}

/// The states of a task that is not run again for the same file and user: it waits, runs, or
/// succeeded.
pub open spec fn is_reused(status: TaskStatus) -> bool {
    status is Queued || status is Processing || status is Success
}

/// The task that a new request is answered with, given the newest task of its file and user.
pub open spec fn reused_task(latest: Option<TaskView>) -> Option<(u128, TaskStatus)> {
    match latest {
        Some(t) => if is_reused(t.status) {
            Some((t.task_id, t.status))
        } else {
            None
        },
        None => None,
    }
}

pub open spec fn latest_view(latest: Option<&Task>) -> Option<TaskView> {
    match latest {
        Some(t) => Some(t@),
        None => None,
    }
}

pub fn find_reused(latest: Option<&Task>) -> (r: Option<(u128, TaskStatus)>)
    ensures
        r == reused_task(latest_view(latest)),
{
    match latest {
        Some(t) => match t.status {
            TaskStatus::UnknownError | TaskStatus::Cancelled | TaskStatus::Timeout
            | TaskStatus::CompilationFailed => None,
            _ => Some((t.task_id, t.status)),
        },
        None => None,
    }
}

/// A task as it is created.
pub open spec fn new_task(
    id: u128,
    file_id: Seq<char>,
    user_id: Seq<char>,
    file_path: Seq<char>,
    max_retries: u8,
    created_at: Timestamp,
    updated_at: Timestamp,
) -> TaskView {
    TaskView {
        task_id: id,
        status: TaskStatus::Queued,
        progress: 0,
        estimated_time_remaining: None,
        current_step: Some("Queued"@),
        error: None,
        created_at,
        updated_at,
        retry_count: 0,
        max_retries,
        build_duration: None,
        priority: 0,
        file_id,
        file_path,
        output_path: None,
        user_id,
    }
}

impl StateView {
    /// The state with one more task.
    pub open spec fn with_new(self, t: TaskView) -> StateView {
        StateView {
            tasks: self.tasks.insert(t.task_id, t),
            total_tasks: counted(self.total_tasks),
            ..self
        }
    }
}

/// Adds a task of a given identifier at given times. The statement saves it.
pub fn create_task(
    state: &mut AppState,
    id: u128,
    file_id: &str,
    user_id: &str,
    file_path: &str,
    created_at: Timestamp,
    updated_at: Timestamp,
) -> (r: Statement)
    requires
        created_at.valid(),
        updated_at.valid(),
    ensures
        ({
            let t = new_task(
                id,
                file_id@,
                user_id@,
                file_path@,
                old(state)@.max_retries,
                created_at,
                updated_at,
            );
            final(state)@ == old(state)@.with_new(t) && r@ == insert_task_statement(t)
        }),
{
    let task = Task {
        task_id: id,
        status: TaskStatus::Queued,
        progress: 0,
        estimated_time_remaining: None,
        current_step: Some("Queued".to_owned()),
        error: None,
        created_at,
        updated_at,
        retry_count: 0,
        max_retries: state.max_retries,
        build_duration: None,
        priority: 0,
        file_id: file_id.to_owned(),
        file_path: file_path.to_owned(),
        output_path: None,
        user_id: user_id.to_owned(),
    };
    let r = state.save_task_to_db(&task);
    put_task(&mut state.tasks, id, task);
    state.total_tasks = count_up(state.total_tasks);
    r
}

/// What a build request comes to.
#[derive(Debug)]
pub enum BuildStart {
    /// There is a task for it already.
    Reused(u128, TaskStatus),
    /// A task was added; the statement saves it.
    Created(u128, Statement),
}

/// What a build request is refused with, before the database is asked.
pub open spec fn build_error(file_id: Seq<char>, extracted: bool, stored: bool) -> Option<
    ApiErrorView,
> {
    if !is_file_id(file_id) {
        Some(ApiErrorView::BadRequest("Invalid File ID format"@))
    } else if !extracted && !stored {
        Some(ApiErrorView::NotFound("File not found or expired"@))
    } else {
        None
    }
}

/// Where the project of a build lies: the extracted project comes before the uploaded file.
pub open spec fn source_of(upload_dir: Seq<char>, file_id: Seq<char>, extracted: bool) -> Seq<
    char,
> {
    if extracted {
        extraction_path(upload_dir, file_id)
    } else {
        stored_path(upload_dir, file_id)
    }
}

/// An identifier as it is drawn for a new task: random, of version 4.
pub open spec fn is_drawn(id: u128) -> bool {
    id_digit(id, 12) == 4 && 8 <= id_digit(id, 16) < 12
}

/// Answers a build request of a user for a file, of which the extracted project or the uploaded
/// file may be there, and given the newest task of that file and user.
pub fn create_build_task_for_user(
    state: &mut AppState,
    file_id: &str,
    user_id: &str,
    extracted_exists: bool,
    stored_exists: bool,
    latest: Option<&Task>,
) -> (r: Result<BuildStart, ApiError>)
    ensures
        match r {
            Err(e) => {
                &&& build_error(file_id@, extracted_exists, stored_exists) == Some(e@)
                &&& final(state)@ == old(state)@
            },
            Ok(BuildStart::Reused(id, status)) => {
                &&& build_error(file_id@, extracted_exists, stored_exists) is None
                &&& reused_task(latest_view(latest)) == Some((id, status))
                &&& final(state)@ == old(state)@
            },
            Ok(BuildStart::Created(id, s)) => {
                &&& build_error(file_id@, extracted_exists, stored_exists) is None
                &&& reused_task(latest_view(latest)) is None
                &&& is_drawn(id)
                &&& exists|created: Timestamp, updated: Timestamp| #[trigger]
                    created.plain() && #[trigger] updated.plain() && ({
                        let t = new_task(
                            id,
                            file_id@,
                            user_id@,
                            source_of(old(state)@.upload_dir, file_id@, extracted_exists),
                            old(state)@.max_retries,
                            created,
                            updated,
                        );
                        final(state)@ == old(state)@.with_new(t) && s@ == insert_task_statement(t)
                    })
            },
        },
{
    let (extracted, stored) = match source_paths(state, file_id) {
        Ok(p) => p,
        Err(e) => {
            return Err(e);
        },
    };
    let file_path = if extracted_exists {
        extracted
    } else if stored_exists {
        stored
    } else {
        return Err(ApiError::not_found("File not found or expired"));
    };
    if let Some((id, status)) = find_reused(latest) {
        return Ok(BuildStart::Reused(id, status));
    }
    let id = fresh_id();
    let created = Timestamp::now();
    let updated = Timestamp::now();
    let s = create_task(state, id, file_id, user_id, file_path.as_str(), created, updated);
    Ok(BuildStart::Created(id, s))
}

/// What a request for a new task is answered with, once the task was saved, or not.
pub fn created_task(id: u128, saved: bool) -> (r: Result<(u128, TaskStatus), ApiError>)
    ensures
        match r {
            Ok(p) => saved && p == (id, TaskStatus::Queued),
            Err(e) => !saved && e@ == ApiErrorView::InternalServerError,
        },
{
    if saved {
        Ok((id, TaskStatus::Queued))
    } else {
        Err(ApiError::InternalServerError)
    }
}

/// The answer to a build request.
pub fn create_build(id: u128, status: TaskStatus) -> (r: Reply<ApiResponse<BuildResponse>>)
    ensures
        r.json(202),
        r.body.code == 202,
        r.body.data.task_id@ == id_text(id),
        r.body.data.status == status,
{
    accepted_json_response(BuildResponse { task_id: format_id(id), status })
}

// ---------------------------------------------------------------------------
// Questions
// ---------------------------------------------------------------------------
/// What is wrong with the identifier in a request about a task.
pub open spec fn task_error(s: StateView, id: Option<u128>) -> Option<ApiErrorView> {
    match id {
        None => Some(ApiErrorView::BadRequest("Invalid Task ID"@)),
        Some(id) => if s.tasks.contains_key(id) {
            None
        } else {
            Some(ApiErrorView::NotFound("Task not found"@))
        },
    }
}

/// The task of an identifier that was read from a request, or not.
pub fn known_task(state: &AppState, id: Option<u128>) -> (r: Result<Task, ApiError>)
    ensures
        match r {
            Ok(t) => task_error(state@, id) is None && t@ == state@.tasks[id->0],
            Err(e) => task_error(state@, id) == Some(e@),
        },
{
    match id {
        None => Err(ApiError::bad_request("Invalid Task ID")),
        Some(id) => match get_task(&state.tasks, id) {
            Some(t) => Ok(t),
            None => Err(ApiError::not_found("Task not found")),
        },
    }
}

/// The answer to a question about a task's state: the task.
pub fn get_build_status(state: &AppState, id_text: &str) -> (r: Result<
    Reply<ApiResponse<Task>>,
    ApiError,
>)
    ensures
        match r {
            Ok(reply) => {
                &&& task_error(state@, id_value(id_text@)) is None
                &&& reply.json(200)
                &&& reply.body.code == 200
                &&& reply.body.data@ == state@.tasks[id_value(id_text@)->0]
            },
            Err(e) => task_error(state@, id_value(id_text@)) == Some(e@),
        },
{
    match known_task(state, parse_id(id_text)) {
        Ok(t) => Ok(json_response(t)),
        Err(e) => Err(e),
    }
}

/// How many events a page has at most, from the query: 50 where it does not say, never more than
/// 200.
pub open spec fn page_limit(limit: Option<Seq<char>>) -> nat {
    let asked = match limit {
        Some(s) => match unsigned(s, u64::MAX as nat) {
            Some(n) => n,
            None => 50,
        },
        None => 50,
    };
    if asked > 200 {
        200
    } else {
        asked
    }
}

/// How many events come before a page, from the query: none where it does not say.
pub open spec fn page_offset(offset: Option<Seq<char>>) -> nat {
    match offset {
        Some(s) => match unsigned(s, u64::MAX as nat) {
            Some(n) => n,
            None => 0,
        },
        None => 0,
    }
}

pub fn event_page(limit: Option<&str>, offset: Option<&str>) -> (r: (u64, u64))
    ensures
        r.0 == page_limit(opt_str(limit)),
        r.1 == page_offset(opt_str(offset)),
{
    let asked: u64 = match limit {
        Some(s) => match parse_unsigned(s, u64::MAX) {
            Some(n) => n,
            None => 50,
        },
        None => 50,
    };
    let skipped: u64 = match offset {
        Some(s) => match parse_unsigned(s, u64::MAX) {
            Some(n) => n,
            None => 0,
        },
        None => 0,
    };
    (if asked > 200 {
        200
    } else {
        asked
    }, skipped)
}

/// The query for a page of a task's events.
pub open spec fn events_statement(id: u128, limit: nat, offset: nat) -> StatementView {
    plain_statement(
        SELECT_EVENTS@,
        seq![id_cell(id), SqlView::Integer(limit as int), SqlView::Integer(offset as int)],
    )
}

/// What a question about a task's events is refused with, before the database is asked.
pub open spec fn events_error(s: StateView, id: Option<u128>, offset: nat) -> Option<
    ApiErrorView,
> {
    match task_error(s, id) {
        Some(e) => Some(e),
        None => if offset > i64::MAX {
            Some(ApiErrorView::InternalServerError)
        } else {
            None
        },
    }
}

/// The query that answers a question about a task's events.
pub fn get_build_events(
    state: &AppState,
    id_text: &str,
    limit: Option<&str>,
    offset: Option<&str>,
) -> (r: Result<Statement, ApiError>)
    ensures
        match r {
            Ok(s) => {
                &&& events_error(
                    state@,
                    id_value(id_text@),
                    page_offset(opt_str(offset)),
                ) is None
                &&& s@ == events_statement(
                    id_value(id_text@)->0,
                    page_limit(opt_str(limit)),
                    page_offset(opt_str(offset)),
                )
            },
            Err(e) => events_error(state@, id_value(id_text@), page_offset(opt_str(offset)))
                == Some(e@),
        },
{
    let id = parse_id(id_text);
    if let Err(e) = known_task(state, id) {
        return Err(e);
    }
    let (count, skipped) = event_page(limit, offset);
    match id {
        Some(id) => match state.database.get_task_events(id, count, skipped) {
            Some(s) => Ok(s),
            None => Err(ApiError::InternalServerError),
        },
        None => Err(ApiError::bad_request("Invalid Task ID")),
    }
}

// ---------------------------------------------------------------------------
// Laws
// ---------------------------------------------------------------------------
/// A user who asks again for the build of the same file is given the task that is there, as long
/// as it has not failed, timed out or been cancelled. So it is with a task that was just created,
/// as it is read back from the database.
pub proof fn law_second_request_reuses_the_task(
    id: u128,
    file_id: Seq<char>,
    user_id: Seq<char>,
    file_path: Seq<char>,
    max_retries: u8,
    created: Timestamp,
    updated: Timestamp,
)
    ensures
        reused_task(
            Some(
                new_task(id, file_id, user_id, file_path, max_retries, created, updated).filled(),
            ),
        ) == Some((id, TaskStatus::Queued)),
{
}

/// A task that failed, timed out or was cancelled is not given again.
pub proof fn law_failed_task_is_not_reused(t: TaskView)
    ensures
        reused_task(Some(t)) is None <==> t.status is UnknownError || t.status
            is CompilationFailed || t.status is Timeout || t.status is Cancelled,
{
}

/// A task that is given again is given as it is: under its identifier and in its state.
pub proof fn law_reused_task_is_the_latest(t: TaskView, id: u128, status: TaskStatus)
    ensures
        reused_task(Some(t)) == Some((id, status)) ==> t.task_id == id && t.status == status,
        t.status is Queued || t.status is Processing || t.status is Success ==> reused_task(Some(t))
            == Some((t.task_id, t.status)),
        reused_task(None) is None,
{
}

/// A new task waits, has not come anywhere, has nothing to download and no error, and keeps the
/// file, the user and the number of retries that it was made with; one more task is counted.
pub proof fn law_new_task(
    s: StateView,
    id: u128,
    file_id: Seq<char>,
    user_id: Seq<char>,
    file_path: Seq<char>,
    max_retries: u8,
    created: Timestamp,
    updated: Timestamp,
)
    requires
        s.total_tasks < u64::MAX,
    ensures
        ({
            let t = new_task(id, file_id, user_id, file_path, max_retries, created, updated);
            let after = s.with_new(t);
            &&& t.status is Queued
            &&& t.progress == 0 && t.retry_count == 0 && t.priority == 0
            &&& t.output_path is None && t.error is None
            &&& t.file_id == file_id && t.user_id == user_id && t.file_path == file_path
            &&& t.max_retries == max_retries
            &&& t.created_at == created && t.updated_at == updated
            &&& after.tasks.contains_key(id) && after.tasks[id] == t
            &&& forall|other: u128|
                other != id ==> (#[trigger] after.tasks.contains_key(other)
                    <==> s.tasks.contains_key(other)) && after.tasks[other] == s.tasks[other]
            &&& after.total_tasks == s.total_tasks + 1
            &&& after.completed_tasks == s.completed_tasks
            &&& after.failed_tasks == s.failed_tasks
        }),
{
}

/// A build is refused exactly where the identifier has not the form of one, or neither the
/// extracted project nor the uploaded file is there.
pub proof fn law_build_is_refused(file_id: Seq<char>, extracted: bool, stored: bool)
    ensures
        build_error(file_id, extracted, stored) is None <==> {
            &&& file_id.len() == 40
            &&& forall|i: int|
                0 <= i < 40 ==> ('0' <= #[trigger] file_id[i] <= '9' || 'a' <= file_id[i] <= 'f'
                    || 'A' <= file_id[i] <= 'F')
            &&& extracted || stored
        },
        build_error(file_id, extracted, stored) is Some && (extracted || stored || file_id.len()
            != 40) ==> build_error(file_id, extracted, stored) == Some(
            ApiErrorView::BadRequest("Invalid File ID format"@),
        ),
        build_error(file_id, true, true) is None ==> build_error(file_id, false, false) == Some(
            ApiErrorView::NotFound("File not found or expired"@),
        ),
        build_error(file_id, true, true) is Some ==> build_error(file_id, extracted, stored)
            == build_error(file_id, true, true),
{
    law_file_id_form(file_id);
}

/// A task that is known is told of, whatever its state; one that is not known, or an identifier
/// that cannot be read, is answered with an error. Its events are told from any place that the
/// database can count to.
pub proof fn law_known_task_is_told_of(s: StateView, id: u128, offset: nat)
    ensures
        task_error(s, Some(id)) is None <==> s.tasks.contains_key(id),
        !s.tasks.contains_key(id) ==> task_error(s, Some(id)) == Some(
            ApiErrorView::NotFound("Task not found"@),
        ),
        task_error(s, None) == Some(ApiErrorView::BadRequest("Invalid Task ID"@)),
        events_error(s, Some(id), offset) is None <==> s.tasks.contains_key(id) && offset
            <= 0x7fff_ffff_ffff_ffff,
        s.tasks.contains_key(id) && offset > 0x7fff_ffff_ffff_ffff ==> events_error(
            s,
            Some(id),
            offset,
        ) == Some(ApiErrorView::InternalServerError),
        !s.tasks.contains_key(id) ==> events_error(s, Some(id), offset) == task_error(s, Some(id)),
        events_error(s, None, offset) == task_error(s, None),
{
}

/// A task that failed in its run is not given again: the user may ask for another build.
pub proof fn law_failed_build_may_be_asked_for_again(
    s: StateView,
    id: u128,
    error: Seq<char>,
    status: TaskStatus,
    now: Timestamp,
)
    requires
        s.tasks.contains_key(id),
        status is UnknownError || status is CompilationFailed || status is Timeout || status
            is Cancelled,
    ensures
        reused_task(Some(failed_state(s, id, error, status, now).tasks[id])) is None,
{
}

/// The project of an upload that was accepted is found by a build request for its identifier,
/// extracted or as it was uploaded.
pub proof fn law_uploaded_project_is_found(u: UploadView, extracted: bool)
    requires
        u.wf(),
        u.stage is Done,
    ensures
        build_error(u.file_id, extracted, true) is None,
        source_of(u.upload_dir, u.file_id, true) == u.dir(),
        source_of(u.upload_dir, u.file_id, false) == u.file,
{
}

/// A number of events up to 200 that the query writes is the length of the page, a greater one
/// stands for 200, and a query that says nothing, or no number, for 50. Events are passed over as
/// the query writes, or none.
pub proof fn law_page_as_asked(n: nat, text: Seq<char>)
    requires
        n <= u64::MAX,
        unsigned(text, u64::MAX as nat) is None,
    ensures
        n <= 200 ==> page_limit(Some(decimal(n))) == n,
        n > 200 ==> page_limit(Some(decimal(n))) == 200,
        page_limit(None) == 50,
        page_limit(Some(text)) == 50,
        page_offset(Some(decimal(n))) == n,
        page_offset(None) == 0,
        page_offset(Some(text)) == 0,
{
    law_decimal_read_back(n, u64::MAX as nat);
}

/// The pages of a task's events that a client asks for by one length, each from where the one
/// before it ends, hold the events without a gap and without a repetition.
pub proof fn law_asked_pages_join(
    pages: Seq<Seq<EventRow>>,
    rows: Seq<EventRow>,
    id: u128,
    n: nat,
    history: Seq<EventRow>,
)
    requires
        n <= 200,
        pages.len() * n <= u64::MAX,
        is_history(history, rows, id_cell(id)),
        at_different_moments(history),
        forall|k: int|
            0 <= k < pages.len() ==> answers_events(
                #[trigger] pages[k],
                rows,
                id_cell(id),
                page_limit(Some(decimal(n))) as int,
                page_offset(Some(decimal((k * n) as nat))) as int,
            ),
    ensures
        pages_joined(pages) == history.take(least((pages.len() * n) as int, history.len() as int)),
        pages.len() * n >= history.len() ==> pages_joined(pages) == history,
{
    assert forall|k: int| 0 <= k < pages.len() implies answers_events(
        #[trigger] pages[k],
        rows,
        id_cell(id),
        n as int,
        k * n,
    ) by {
        assert(0 <= k * n <= pages.len() * n) by (nonlinear_arith)
            requires
                0 <= k < pages.len(),
                0 <= n,
        ;
        law_decimal_read_back(n, u64::MAX as nat);
        law_decimal_read_back((k * n) as nat, u64::MAX as nat);
    }
    law_pages_join(pages, rows, id, n as int, history);
}

/// Of two pages that the query asks for by their lengths, the longer has no fewer events.
pub proof fn law_longer_page(m: nat, n: nat)
    requires
        m <= n <= u64::MAX,
    ensures
        page_limit(Some(decimal(m))) <= page_limit(Some(decimal(n))),
        m < n <= 200 ==> page_limit(Some(decimal(m))) < page_limit(Some(decimal(n))),
{
    law_decimal_read_back(m, u64::MAX as nat);
    law_decimal_read_back(n, u64::MAX as nat);
}

/// A page has at most 200 events.
pub proof fn law_pages_are_small(limit: Option<Seq<char>>)
    ensures
        page_limit(limit) <= 200,
{
}

proof fn lemma_last_dot(id: Seq<char>)
    requires
        is_file_id(id),
    ensures
        split_last(id + ".tsp"@, '.') == Some((id, "tsp"@)),
{
    reveal_strlit(".tsp");
    reveal_strlit("tsp");
    let name = id + ".tsp"@;
    reveal_with_fuel(last_index, 5);
    assert(name.len() == 44);
    assert(name.last() == 'p');
    assert(name.drop_last().last() == 's');
    assert(name.drop_last().drop_last().last() == 't');
    assert(name.drop_last().drop_last().drop_last().last() == '.');
    assert(last_index(name, '.') == Some(40int));
    assert(name.take(40) =~= id);
    assert(name.skip(41) =~= "tsp"@);
}

/// The uploaded file of an identifier is extracted to the directory of that name below the
/// upload directory. On Windows the upload directory has to be more than the name of a server, and
/// one in which a slash separates.
pub proof fn law_extraction_directory(
    system: System,
    upload_dir: Seq<char>,
    file_id: Seq<char>,
)
    requires
        is_file_id(file_id),
        prefix_len(system, stored_path(upload_dir, file_id)) <= upload_dir.len(),
        !is_verbatim(system, stored_path(upload_dir, file_id)),
    ensures
        extracted_dir(system, upload_dir, stored_path(upload_dir, file_id)) == Some(
            upload_dir + seq!['/'] + file_id,
        ),
{
    reveal_strlit("/");
    reveal_strlit(".tsp");
    let name = file_id + ".tsp"@;
    assert(stored_path(upload_dir, file_id) =~= upload_dir + seq!['/'] + name);
    assert forall|k: int| 0 <= k < name.len() implies !is_separator(system, #[trigger] name[k]) by {
        if k < 40 {
            assert(is_hex_digit(file_id[k]));
        }
    }
    assert(name.len() == 44);
    lemma_name_below(system, upload_dir, name);
    lemma_last_dot(file_id);
}

} // verus!
