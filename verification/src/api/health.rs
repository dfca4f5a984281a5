//! The health of the service.
use crate::error::{ApiError, ApiErrorView};
use crate::models::task::{TaskStatus, TaskView};
use crate::state::AppState;
use crate::table::{get_task, task_ids};
use crate::utils::{json_response, ApiResponse, Reply};
use vstd::prelude::*;

verus! {

#[derive(Debug)]
pub struct HealthResponse {
    pub status: String,
    pub queue_size: usize,
    pub active_tasks: usize,
    pub total_tasks: u64,
    pub completed_tasks: u64,
    pub failed_tasks: u64,
    pub uptime: u64,
    pub version: String,
    pub build_time: String,
    pub git_commit: String,
    pub git_branch: String,
}

/// What the service was built from.
#[derive(Debug)]
pub struct BuildInfo {
    pub version: String,
    pub build_time: String,
    pub git_commit: String,
    pub git_branch: String,
}

/// The tasks in a table that run.
pub open spec fn running(tasks: Map<u128, TaskView>) -> Set<u128> {
    tasks.dom().filter(|id: u128| tasks[id].status is Processing)
}

/// How many tasks run.
pub fn active_tasks(state: &AppState) -> (r: usize)
    ensures
        r == running(state@.tasks).len(),
{
    let ids = task_ids(&state.tasks);
    let ghost tasks = state@.tasks;
    let ghost runs = |id: u128| tasks[id].status is Processing;
    let mut n: usize = 0;
    let mut i: usize = 0;
    let ghost mut seen: Set<u128> = Set::empty();
    while i < ids.len()
        invariant
            tasks == state@.tasks,
            runs == (|id: u128| tasks[id].status is Processing),
            ids@.no_duplicates(),
            ids@.to_set() =~= tasks.dom(),
            i <= ids.len(),
            n <= i,
            seen.finite(),
            n == seen.len(),
            forall|id: u128| #[trigger]
                seen.contains(id) <==> tasks[id].status is Processing && exists|k: int|
                    0 <= k < i && ids@[k] == id,
        decreases ids.len() - i,
    {
        let id = ids[i];
        assert(ids@.to_set().contains(id));
        if let Some(task) = get_task(&state.tasks, id) {
            if let TaskStatus::Processing = task.status {
                assert(!seen.contains(id)) by {
                    if seen.contains(id) {
                        let k = choose|k: int| 0 <= k < i && ids@[k] == id;
                        assert(ids@[k] == ids@[i as int]);
                    }
                }
                n += 1;
                proof {
                    seen = seen.insert(id);
                }
            }
        }
        assert(ids@[i as int] == id);
        i += 1;
        assert forall|x: u128| #[trigger] seen.contains(x) <==> tasks[x].status is Processing
            && exists|k: int| 0 <= k < i && ids@[k] == x by {
            if tasks[x].status is Processing && exists|k: int| 0 <= k < i && ids@[k] == x {
                let k = choose|k: int| 0 <= k < i && ids@[k] == x;
                if k < i - 1 {
                    assert(ids@[k] == x);
                }
            }
        }
    }
    assert(seen =~= running(tasks)) by {
        assert forall|x: u128| #[trigger] running(tasks).contains(x) implies seen.contains(x) by {
            assert(ids@.to_set().contains(x));
            let k = ids@.index_of(x);
            assert(ids@[k] == x);
        }
        assert forall|x: u128| #[trigger] seen.contains(x) implies running(tasks).contains(x) by {
            let k = choose|k: int| 0 <= k < i && ids@[k] == x;
            assert(ids@.to_set().contains(ids@[k]));
        }
    }
    n
}

/// The answer to a question about the health of the service, given the four counts of the
/// database: all tasks, those that succeeded, those that failed, those that wait; none where they
/// cannot be had.
pub fn health_check(state: &AppState, stats: Option<(u64, u64, u64, u64)>, info: BuildInfo) -> (r:
    Result<Reply<ApiResponse<HealthResponse>>, ApiError>)
    requires
        stats matches Some(s) ==> s.3 <= usize::MAX,
    ensures
        match r {
            Ok(reply) => {
                &&& stats is Some
                &&& reply.json(200)
                &&& reply.body.code == 200
                &&& reply.body.data.status@ == "healthy"@
                &&& stats matches Some(s) && reply.body.data.total_tasks == s.0
                    && reply.body.data.completed_tasks == s.1 && reply.body.data.failed_tasks
                    == s.2 && reply.body.data.queue_size == s.3
                &&& reply.body.data.active_tasks == running(state@.tasks).len()
                &&& reply.body.data.uptime == 0
                &&& reply.body.data.version == info.version
                &&& reply.body.data.build_time == info.build_time
                &&& reply.body.data.git_commit == info.git_commit
                &&& reply.body.data.git_branch == info.git_branch
            },
            Err(e) => stats is None && e@ == ApiErrorView::InternalServerError,
        },
{
    match stats {
        Some((total, completed, failed, queued)) => Ok(
            json_response(
                HealthResponse {
                    status: "healthy".to_owned(),
                    queue_size: queued as usize,
                    active_tasks: active_tasks(state),
                    total_tasks: total,
                    completed_tasks: completed,
                    failed_tasks: failed,
                    uptime: 0,
                    version: info.version,
                    build_time: info.build_time,
                    git_commit: info.git_commit,
                    git_branch: info.git_branch,
                },
            ),
        ),
        None => Err(ApiError::InternalServerError),
    }
}

/// A task counts as active exactly while it runs: one that starts to run is counted once, and one
/// that stops is no longer counted.
pub proof fn law_running_tasks(tasks: Map<u128, TaskView>, id: u128, t: TaskView)
    requires
        tasks.dom().finite(),
    ensures
        running(tasks).contains(id) <==> tasks.contains_key(id) && tasks[id].status is Processing,
        running(tasks).len() <= tasks.dom().len(),
        t.status is Processing && !running(tasks).contains(id) ==> running(
            tasks.insert(id, t),
        ).len() == running(tasks).len() + 1,
        t.status is Processing && running(tasks).contains(id) ==> running(
            tasks.insert(id, t),
        ).len() == running(tasks).len(),
        !(t.status is Processing) && running(tasks).contains(id) ==> running(
            tasks.insert(id, t),
        ).len() == running(tasks).len() - 1,
{
    let all = running(tasks);
    let next = running(tasks.insert(id, t));
    vstd::set_lib::lemma_len_subset(all, tasks.dom());
    if t.status is Processing {
        assert(next =~= all.insert(id));
    } else {
        assert(next =~= all.remove(id));
    }
}

} // verus!
