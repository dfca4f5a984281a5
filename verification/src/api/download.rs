//! Downloads of finished packages.
use super::builds::{known_task, task_error};
use crate::error::{ApiError, ApiErrorView};
use crate::models::task::{TaskStatus, TaskView};
use crate::outside::{id_value, parse_id};
use crate::state::{AppState, StateView};
use crate::time::Timestamp;
use crate::worker::execute::{package_file_name, package_name};
use crate::worker::status::failed_state;
use vstd::prelude::*;

verus! {

/// A package to send as an attachment.
#[derive(Debug)]
pub struct Download {
    pub path: String,
    pub file_name: String,
}

/// What a download is refused with, before the file is opened.
pub open spec fn download_error(s: StateView, id: Option<u128>) -> Option<ApiErrorView> {
    match task_error(s, id) {
        Some(e) => Some(e),
        None => {
            let t = s.tasks[id->0];
            if !(t.status is Success) {
                Some(ApiErrorView::BadRequest("Build not successful yet"@))
            } else if t.output_path is None {
                Some(ApiErrorView::NotFound("Output path not set"@))
            } else {
                None
            }
        },
    }
}

/// The package of the task of an identifier that was read from a request, or not.
pub fn find_package(state: &AppState, id: Option<u128>) -> (r: Result<Download, ApiError>)
    ensures
        match r {
            Ok(d) => {
                &&& download_error(state@, id) is None
                &&& state@.tasks[id->0].output_path == Some(d.path@)
                &&& d.file_name@ == package_name(id->0)
            },
            Err(e) => download_error(state@, id) == Some(e@),
        },
{
    let task = match known_task(state, id) {
        Ok(t) => t,
        Err(e) => {
            return Err(e);
        },
    };
    match task.status {
        TaskStatus::Success => {},
        _ => {
            return Err(ApiError::bad_request("Build not successful yet"));
        },
    }
    match (task.output_path, id) {
        (Some(path), Some(id)) => Ok(Download { path, file_name: package_file_name(id) }),
        _ => Err(ApiError::not_found("Output path not set")),
    }
}

/// The package that a request asks for.
pub fn download_build(state: &AppState, id_text: &str) -> (r: Result<Download, ApiError>)
    ensures
        match r {
            Ok(d) => {
                &&& download_error(state@, id_value(id_text@)) is None
                &&& state@.tasks[id_value(id_text@)->0].output_path == Some(d.path@)
                &&& d.file_name@ == package_name(id_value(id_text@)->0)
            },
            Err(e) => download_error(state@, id_value(id_text@)) == Some(e@),
        },
{
    find_package(state, parse_id(id_text))
}

/// What a download is refused with where the file cannot be opened.
pub fn missing_file() -> (r: ApiError)
    ensures
        r@ == ApiErrorView::NotFound("File not found on disk"@),
{
    ApiError::not_found("File not found on disk")
}

/// A package is given out only for a task that succeeded.
pub proof fn law_only_finished_builds_are_given_out(s: StateView, id: u128)
    ensures
        download_error(s, Some(id)) is None <==> s.tasks.contains_key(id) && s.tasks[id].status
            is Success && s.tasks[id].output_path is Some,
{
}

/// The package of a run that succeeded can be downloaded: the path that was recorded is given out
/// once the task's state is changed.
pub proof fn law_built_package_can_be_downloaded(
    s: StateView,
    id: u128,
    dest_path: Seq<char>,
    now: Timestamp,
)
    requires
        s.tasks.contains_key(id),
    ensures
        ({
            let recorded = s.with_task(
                id,
                |t: TaskView| TaskView { output_path: Some(dest_path), ..t },
            );
            let built = recorded.with_change(
                id,
                TaskStatus::Success,
                100,
                Some("Build successful"@),
                None,
                now,
            );
            download_error(built, Some(id)) is None && built.tasks[id].output_path == Some(
                dest_path,
            )
        }),
{
}

/// The package of a task that failed cannot be downloaded.
pub proof fn law_failed_task_has_no_download(
    s: StateView,
    id: u128,
    error: Seq<char>,
    status: TaskStatus,
    now: Timestamp,
)
    requires
        s.tasks.contains_key(id),
        !(status is Success),
    ensures
        download_error(failed_state(s, id, error, status, now), Some(id)) == Some(
            ApiErrorView::BadRequest("Build not successful yet"@),
        ),
{
}

/// Of a task that succeeded but has no package, and of one that is not known, the download is
/// refused as of something that is not there.
pub proof fn law_missing_downloads(s: StateView, id: u128)
    ensures
        s.tasks.contains_key(id) && s.tasks[id].status is Success && s.tasks[id].output_path is None
            ==> download_error(s, Some(id)) == Some(
            ApiErrorView::NotFound("Output path not set"@),
        ),
        s.tasks.contains_key(id) && !(s.tasks[id].status is Success) ==> download_error(s, Some(id))
            == Some(ApiErrorView::BadRequest("Build not successful yet"@)),
        !s.tasks.contains_key(id) ==> download_error(s, Some(id)) == Some(
            ApiErrorView::NotFound("Task not found"@),
        ),
        download_error(s, None) == Some(ApiErrorView::BadRequest("Invalid Task ID"@)),
{
}

} // verus!
