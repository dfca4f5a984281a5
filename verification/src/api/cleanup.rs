//! The removal of old tasks on request.
use crate::error::{ApiError, ApiErrorView};
use crate::models::task::TaskView;
use crate::state::{AppState, StateView};
use crate::table::{drop_task, get_task, task_ids};
use crate::time::{law_seconds_are_added, Timestamp};
use crate::utils::{json_response, ApiResponse, Reply};
use vstd::prelude::*;

verus! {

/// The greatest ages of tasks that are kept, in hours.
#[derive(Debug)]
pub struct CleanupRequest {
    pub completed_max_age_hours: Option<i64>,
    pub failed_max_age_hours: Option<i64>,
    pub expired_max_age_hours: Option<i64>,
}

#[derive(Debug)]
pub struct CleanupResponse {
    pub completed_cleaned: usize,
    pub failed_cleaned: usize,
    pub expired_cleaned: usize,
    pub total_cleaned: usize,
}

/// An age that was asked for, or the default.
pub open spec fn age_or(asked: Option<i64>, default: i64) -> i64 {
    match asked {
        Some(h) => h,
        None => default,
    }
}

impl CleanupRequest {
    /// The greatest ages of tasks that succeeded, of those that failed, and of all.
    pub open spec fn ages(&self) -> (i64, i64, i64) {
        (
            age_or(self.completed_max_age_hours, 24),
            age_or(self.failed_max_age_hours, 168),
            age_or(self.expired_max_age_hours, 1),
        )
    }

    /// The greatest ages of tasks that succeeded, of those that failed, and of all.
    pub fn max_ages(&self) -> (r: (i64, i64, i64))
        ensures
            r.0 == age_or(self.completed_max_age_hours, 24),
            r.1 == age_or(self.failed_max_age_hours, 168),
            r.2 == age_or(self.expired_max_age_hours, 1),
            r == self.ages(),
    {
        (
            match self.completed_max_age_hours {
                Some(h) => h,
                None => 24,
            },
            match self.failed_max_age_hours {
                Some(h) => h,
                None => 168,
            },
            match self.expired_max_age_hours {
                Some(h) => h,
                None => 1,
            },
        )
    }
}

/// The end of a task's age can be told for every task.
pub open spec fn ages_tellable(tasks: Map<u128, TaskView>, hours: int) -> bool {
    forall|id: u128| #[trigger]
        tasks.contains_key(id) ==> tasks[id].created_at.can_shift(hours * 3600)
}

/// A task that is older than so many hours.
pub open spec fn is_expired(t: TaskView, hours: int, now: Timestamp) -> bool {
    t.created_at.shifted(hours * 3600).earlier(now)
}

/// The tasks that are older than so many hours.
pub open spec fn expired_tasks(tasks: Map<u128, TaskView>, hours: int, now: Timestamp) -> Set<u128> {
    tasks.dom().filter(|id: u128| is_expired(tasks[id], hours, now))
}

/// Whether the end of a task's age can be told for every task.
pub fn can_tell_ages(state: &AppState, hours: i64) -> (r: bool)
    ensures
        r == ages_tellable(state@.tasks, hours as int),
{
    let ids = task_ids(&state.tasks);
    let mut i: usize = 0;
    while i < ids.len()
        invariant
            ids@.to_set() =~= state@.tasks.dom(),
            i <= ids.len(),
            forall|k: int|
                0 <= k < i ==> state@.tasks[#[trigger] ids@[k]].created_at.can_shift(hours * 3600),
        decreases ids.len() - i,
    {
        let id = ids[i];
        assert(ids@.to_set().contains(id));
        if let Some(task) = get_task(&state.tasks, id) {
            if !task.created_at.can_move(hours) {
                assert(state@.tasks.contains_key(id));
                return false;
            }
        }
        i += 1;
    }
    assert forall|id: u128| #[trigger] state@.tasks.contains_key(id) implies state@.tasks[id].created_at.can_shift(
        hours * 3600,
    ) by {
        assert(ids@.to_set().contains(id));
        let k = ids@.index_of(id);
        assert(ids@[k] == id);
    }
    true
}

/// Forgets the tasks that are older than so many hours at a given time.
pub fn forget_expired(state: &mut AppState, hours: i64, now: &Timestamp)
    requires
        ages_tellable(old(state)@.tasks, hours as int),
    ensures
        final(state)@ == (StateView {
            tasks: old(state)@.tasks.remove_keys(
                expired_tasks(old(state)@.tasks, hours as int, *now),
            ),
            ..old(state)@
        }),
{
    let ids = task_ids(&state.tasks);
    let ghost all = state@.tasks;
    let ghost mut gone: Set<u128> = Set::empty();
    let mut i: usize = 0;
    assert(state@.tasks =~= all.remove_keys(gone));
    while i < ids.len()
        invariant
            all == old(state)@.tasks,
            ages_tellable(all, hours as int),
            ids@.no_duplicates(),
            ids@.to_set() =~= all.dom(),
            i <= ids.len(),
            state@ == (StateView { tasks: all.remove_keys(gone), ..old(state)@ }),
            forall|id: u128| #[trigger]
                gone.contains(id) <==> is_expired(all[id], hours as int, *now) && exists|k: int|
                    0 <= k < i && ids@[k] == id,
        decreases ids.len() - i,
    {
        let id = ids[i];
        assert(ids@.to_set().contains(id));
        assert(all.contains_key(id));
        assert(!gone.contains(id)) by {
            if gone.contains(id) {
                let k = choose|k: int| 0 <= k < i && ids@[k] == id;
                assert(ids@[k] == ids@[i as int]);
            }
        }
        if let Some(task) = get_task(&state.tasks, id) {
            assert(task@ == all[id]);
            if task.created_at.moved(hours).before(now) {
                drop_task(&mut state.tasks, id);
                proof {
                    gone = gone.insert(id);
                }
                assert(state@.tasks =~= all.remove_keys(gone));
            }
        }
        i += 1;
        assert forall|x: u128| #[trigger]
            gone.contains(x) <==> is_expired(all[x], hours as int, *now) && exists|k: int|
                0 <= k < i && ids@[k] == x by {
            if is_expired(all[x], hours as int, *now) && exists|k: int| 0 <= k < i && ids@[k] == x {
                let k = choose|k: int| 0 <= k < i && ids@[k] == x;
                if k < i - 1 {
                    assert(ids@[k] == x);
                }
            }
            assert(ids@[i - 1] == id);
        }
    }
    assert(gone =~= expired_tasks(all, hours as int, *now)) by {
        assert forall|x: u128| #[trigger]
            expired_tasks(all, hours as int, *now).contains(x) implies gone.contains(x) by {
            assert(ids@.to_set().contains(x));
            let k = ids@.index_of(x);
            assert(ids@[k] == x);
        }
        assert forall|x: u128| #[trigger] gone.contains(x) implies expired_tasks(
            all,
            hours as int,
            *now,
        ).contains(x) by {
            let k = choose|k: int| 0 <= k < i && ids@[k] == x;
            assert(ids@.to_set().contains(ids@[k]));
        }
    }
}

/// How many tasks the database removed: those that succeeded, those that failed, and others; none
/// where a removal failed.
#[derive(Clone, Copy, Debug)]
pub struct Removed {
    pub completed: usize,
    pub failed: usize,
    pub expired: usize,
}

/// Answers a request for the removal of old tasks, given what the database removed and its counts
/// afterwards: all tasks, those that succeeded and those that failed. Tasks older than `hours`
/// are forgotten unless the database failed to remove its own.
pub fn cleanup_tasks(
    state: &mut AppState,
    hours: i64,
    removed: Option<Removed>,
    stats: Option<(u64, u64, u64)>,
) -> (r: Result<Reply<ApiResponse<CleanupResponse>>, ApiError>)
    requires
        ages_tellable(old(state)@.tasks, hours as int),
        removed matches Some(n) ==> n.completed + n.failed + n.expired <= usize::MAX,
    ensures
        match r {
            Ok(reply) => {
                &&& removed is Some && stats is Some
                &&& reply.json(200)
                &&& reply.body.code == 200
                &&& reply.body.data.completed_cleaned == removed->0.completed
                &&& reply.body.data.failed_cleaned == removed->0.failed
                &&& reply.body.data.expired_cleaned == removed->0.expired
                &&& reply.body.data.total_cleaned == removed->0.completed + removed->0.failed
                    + removed->0.expired
            },
            Err(e) => (removed is None || stats is None) && e@
                == ApiErrorView::InternalServerError,
        },
        removed is None ==> final(state)@ == old(state)@,
        removed is Some ==> exists|now: Timestamp| #[trigger]
            now.plain() && final(state)@ == ({
                let kept = StateView {
                    tasks: old(state)@.tasks.remove_keys(
                        expired_tasks(old(state)@.tasks, hours as int, now),
                    ),
                    ..old(state)@
                };
                match stats {
                    Some(s) => StateView {
                        total_tasks: s.0,
                        completed_tasks: s.1,
                        failed_tasks: s.2,
                        ..kept
                    },
                    None => kept,
                }
            }),
{
    let n = match removed {
        Some(n) => n,
        None => {
            return Err(ApiError::InternalServerError);
        },
    };
    let now = Timestamp::now();
    forget_expired(state, hours, &now);
    match stats {
        Some((total, completed, failed)) => {
            state.store_stats(total, completed, failed);
            Ok(
                json_response(
                    CleanupResponse {
                        completed_cleaned: n.completed,
                        failed_cleaned: n.failed,
                        expired_cleaned: n.expired,
                        total_cleaned: n.completed + n.failed + n.expired,
                    },
                ),
            )
        },
        None => Err(ApiError::InternalServerError),
    }
}

/// An age that a request asks for counts as it stands, whatever it is.
pub proof fn law_asked_age_counts(hours: i64, default: i64)
    ensures
        age_or(Some(hours), default) == hours,
        age_or(None, default) == default,
{
}

/// A task is older than so many hours once more than that time, to the nanosecond, has passed
/// since it was created, whatever became of it since. The tasks that are forgotten are these, and
/// no others.
pub proof fn law_expired_tasks(
    tasks: Map<u128, TaskView>,
    id: u128,
    hours: int,
    now: Timestamp,
)
    requires
        tasks.contains_key(id),
        tasks[id].created_at.plain(),
        tasks[id].created_at.can_shift(hours * 3600),
    ensures
        expired_tasks(tasks, hours, now).contains(id) <==> now.secs - tasks[id].created_at.secs
            > hours * 3600 || (now.secs - tasks[id].created_at.secs == hours * 3600 && now.nanos
            > tasks[id].created_at.nanos),
        forall|other: u128|
            !tasks.contains_key(other) ==> !(#[trigger] expired_tasks(tasks, hours, now).contains(
                other,
            )),
{
    law_seconds_are_added(tasks[id].created_at, hours * 3600);
}

/// Each of the three ages is what the request asks for, whatever it asks for the others; without
/// being asked, tasks that succeeded are kept for a day, those that failed for a week, and others
/// for an hour.
pub proof fn law_ages_of_a_request(r: CleanupRequest, hours: i64)
    ensures
        r.completed_max_age_hours == Some(hours) ==> r.ages().0 == hours,
        r.failed_max_age_hours == Some(hours) ==> r.ages().1 == hours,
        r.expired_max_age_hours == Some(hours) ==> r.ages().2 == hours,
        r.completed_max_age_hours is None ==> r.ages().0 == 24,
        r.failed_max_age_hours is None ==> r.ages().1 == 7 * 24,
        r.expired_max_age_hours is None ==> r.ages().2 == 1,
{
}

} // verus!
