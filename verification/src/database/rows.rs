//! What the tables of tasks and events hold, and what the queries ask of them.
use super::lease::{lease_statement, LeaseTerms, LeaseView, ReplyView};
use super::sql::SqlView;
use super::{
    cancel_statements, enqueue_statements, id_cell, retry_statements, stats_statements,
    status_value, time_value,
};
use crate::models::task::{law_status_read_back, recorded_status, TaskStatus};
use crate::outside::id_text;
use crate::state::overflow;
use crate::text::{lemma_text_order, text_before};
use crate::time::Timestamp;
use vstd::prelude::*;

verus! {

/// A row of the table of tasks.
pub struct TaskRow {
    /// The sixteen columns that make up a task.
    pub cells: Seq<SqlView>,
    pub next_run_at: SqlView,
}

/// A row of the table of events, with its seven columns.
pub struct EventRow {
    pub cells: Seq<SqlView>,
}

/// The order of cells: nothing comes first, integers go by their value, texts by their characters.
pub open spec fn cell_before(a: SqlView, b: SqlView) -> bool {
    match (a, b) {
        (SqlView::Null, SqlView::Null) => false,
        (SqlView::Null, _) => true,
        (SqlView::Integer(m), SqlView::Integer(n)) => m < n,
        (SqlView::Text(s), SqlView::Text(t)) => text_before(s, t),
        _ => false,
    }
}

/// A task is recorded in a state.
pub open spec fn in_state(row: TaskRow, status: TaskStatus) -> bool {
    row.cells[1] == status_value(status)
}

/// Every row has an identifier of its own and is recorded in one of the states, as the insertion
/// and the changes of tasks leave them.
pub open spec fn well_kept(rows: Seq<TaskRow>) -> bool {
    &&& forall|i: int, j: int|
        0 <= i < rows.len() && 0 <= j < rows.len() && #[trigger] rows[i].cells[0]
            == #[trigger] rows[j].cells[0] ==> i == j
    &&& all_in_states(rows)
}

/// Every row is recorded in one of the states.
pub open spec fn all_in_states(rows: Seq<TaskRow>) -> bool {
    forall|i: int| 0 <= i < rows.len() ==> has_state(#[trigger] rows[i])
}

/// A row is recorded in one of the states.
pub open spec fn has_state(row: TaskRow) -> bool {
    exists|s: TaskStatus| in_state(row, s)
}

/// Two states are not recorded alike.
pub proof fn lemma_states_differ(s: TaskStatus, t: TaskStatus)
    ensures
        status_value(s) == status_value(t) <==> s == t,
{
    law_status_read_back(s);
    law_status_read_back(t);
}

// ---------------------------------------------------------------------------
// Leasing
// ---------------------------------------------------------------------------
/// The query for the next task may give a row: the task is in the state bound first, and has no
/// moment before which it may not run, or one that is not after the moment bound second.
pub open spec fn may_run(row: TaskRow, params: Seq<SqlView>) -> bool {
    row.cells[1] == params[0] && (row.next_run_at is Null || !cell_before(
        params[1],
        row.next_run_at,
    ))
}

/// A row that the query for the next task prefers: one of higher priority, or an older one of the
/// same priority.
pub open spec fn goes_before(a: TaskRow, b: TaskRow) -> bool {
    cell_before(b.cells[11], a.cells[11]) || (a.cells[11] == b.cells[11] && cell_before(
        a.cells[6],
        b.cells[6],
    ))
}

/// A reply that the query for the next task may have.
pub open spec fn answers_next(reply: ReplyView, rows: Seq<TaskRow>, params: Seq<SqlView>) -> bool {
    match reply {
        ReplyView::Found(Some(text)) => exists|i: int|
            0 <= i < rows.len() && may_run(#[trigger] rows[i], params) && rows[i].cells[0]
                == SqlView::Text(text) && forall|j: int|
                0 <= j < rows.len() && may_run(#[trigger] rows[j], params) ==> !goes_before(
                    rows[j],
                    rows[i],
                ),
        ReplyView::Found(None) => forall|i: int|
            0 <= i < rows.len() ==> !may_run(#[trigger] rows[i], params),
        _ => false,
    }
}

/// The table after a retry was scheduled.
pub open spec fn retried(rows: Seq<TaskRow>, params: Seq<SqlView>) -> Seq<TaskRow> {
    Seq::new(
        rows.len(),
        |i: int|
            if rows[i].cells[0] == params[4] {
                TaskRow {
                    cells: rows[i].cells.update(1, params[0]).update(7, params[3]),
                    next_run_at: params[1],
                }
            } else {
                rows[i]
            },
    )
}

/// The task is in the table, and no other task waits.
pub open spec fn waits_alone(rows: Seq<TaskRow>, id: u128) -> bool {
    &&& exists|i: int| 0 <= i < rows.len() && (#[trigger] rows[i]).cells[0] == id_cell(id)
    &&& forall|i: int|
        0 <= i < rows.len() ==> (#[trigger] rows[i]).cells.len() == 16 && (rows[i].cells[0]
            != id_cell(id) ==> !in_state(rows[i], TaskStatus::Queued))
}

/// The values of the query for the next task at a moment.
pub open spec fn next_params(now: Timestamp) -> Seq<SqlView> {
    seq![status_value(TaskStatus::Queued), time_value(now)]
}

/// What is found when the next task is looked up at a moment: `id` from a moment on, and nothing
/// before.
pub open spec fn found_from(id: u128, next_run_at: Timestamp, now: Timestamp) -> ReplyView {
    ReplyView::Found(
        if now.earlier(next_run_at) {
            None
        } else {
            Some(id_text(id))
        },
    )
}

/// A retry was scheduled so that the task is not leased before a moment, and is leased from then
/// on where no other task waits.
pub open spec fn waits_until(params: Seq<SqlView>, id: u128, next_run_at: Timestamp) -> bool {
    forall|rows: Seq<TaskRow>, reply: ReplyView, now: Timestamp|
        now.recordable() && waits_alone(rows, id) && #[trigger] answers_next(
            reply,
            retried(rows, params),
            next_params(now),
        ) ==> reply == found_from(id, next_run_at, now)
}

/// The reply to the query for the next task after a retry was scheduled, by the recorded moments.
pub proof fn lemma_retry_reply(
    rows: Seq<TaskRow>,
    id: u128,
    next_run_at: Timestamp,
    last_error: Seq<char>,
    noted_at: Timestamp,
    now: Timestamp,
    reply: ReplyView,
)
    requires
        waits_alone(rows, id),
        answers_next(
            reply,
            retried(rows, retry_statements(id, next_run_at, last_error, noted_at)[0].params),
            next_params(now),
        ),
    ensures
        reply == ReplyView::Found(
            if text_before(now.text(), next_run_at.text()) {
                None
            } else {
                Some(id_text(id))
            },
        ),
{
    let params = retry_statements(id, next_run_at, last_error, noted_at)[0].params;
    let after = retried(rows, params);
    let asked = next_params(now);
    let k = choose|i: int| 0 <= i < rows.len() && (#[trigger] rows[i]).cells[0] == id_cell(id);
    assert(after[k].cells[1] == status_value(TaskStatus::Queued));
    assert(after[k].next_run_at == time_value(next_run_at));
    assert(may_run(after[k], asked) <==> !text_before(now.text(), next_run_at.text()));
    assert forall|i: int| 0 <= i < after.len() && may_run(#[trigger] after[i], asked) implies after[i].cells[0]
        == id_cell(id) && !text_before(now.text(), next_run_at.text()) by {
        if rows[i].cells[0] == id_cell(id) {
            assert(after[i].cells[0] == rows[i].cells[0]);
            assert(after[i].next_run_at == time_value(next_run_at));
        } else {
            assert(after[i] == rows[i]);
            assert(!in_state(rows[i], TaskStatus::Queued));
        }
    }
}

/// The table after a task was claimed.
pub open spec fn claimed(rows: Seq<TaskRow>, params: Seq<SqlView>) -> Seq<TaskRow> {
    Seq::new(
        rows.len(),
        |i: int|
            if rows[i].cells[0] == params[5] && rows[i].cells[1] == params[6] {
                TaskRow {
                    cells: rows[i].cells.update(1, params[0]).update(7, params[3]).update(
                        4,
                        params[4],
                    ),
                    ..rows[i]
                }
            } else {
                rows[i]
            },
    )
}

/// All rows have the columns of a task.
pub open spec fn all_tasks(rows: Seq<TaskRow>) -> bool {
    forall|i: int| 0 <= i < rows.len() ==> (#[trigger] rows[i]).cells.len() == 16
}

/// A task that was claimed is not found by the leases that follow.
pub proof fn law_claimed_task_is_not_found(
    rows: Seq<TaskRow>,
    text: Seq<char>,
    terms: LeaseTerms,
    noted_at: Timestamp,
    now: Timestamp,
    reply: ReplyView,
)
    requires
        all_tasks(rows),
        answers_next(
            reply,
            claimed(rows, lease_statement(LeaseView::Claim(text), terms, noted_at).params),
            next_params(now),
        ),
    ensures
        reply != ReplyView::Found(Some(text)),
{
    let params = lease_statement(LeaseView::Claim(text), terms, noted_at).params;
    let after = claimed(rows, params);
    lemma_states_differ(TaskStatus::Processing, TaskStatus::Queued);
    assert forall|i: int|
        0 <= i < after.len() && (#[trigger] after[i]).cells[0] == SqlView::Text(text) implies !may_run(
        after[i],
        next_params(now),
    ) by {
        assert(rows[i].cells.len() == 16);
        assert(after[i].cells[0] == rows[i].cells[0]);
    }
}

// ---------------------------------------------------------------------------
// The queue
// ---------------------------------------------------------------------------
/// The table after a task was put into the queue.
pub open spec fn enqueued(rows: Seq<TaskRow>, params: Seq<SqlView>) -> Seq<TaskRow> {
    Seq::new(
        rows.len(),
        |i: int|
            if rows[i].cells[0] == params[3] {
                TaskRow {
                    cells: rows[i].cells.update(1, params[0]).update(7, params[2]),
                    next_run_at: params[1],
                }
            } else {
                rows[i]
            },
    )
}

/// The table after a task was cancelled.
pub open spec fn cancelled(rows: Seq<TaskRow>, params: Seq<SqlView>) -> Seq<TaskRow> {
    Seq::new(
        rows.len(),
        |i: int|
            if rows[i].cells[0] == params[4] {
                TaskRow {
                    cells: rows[i].cells.update(1, params[0]).update(5, params[1]).update(
                        4,
                        params[2],
                    ).update(7, params[3]),
                    ..rows[i]
                }
            } else {
                rows[i]
            },
    )
}

/// The table after tasks were cancelled, one after the other.
pub open spec fn all_cancelled(
    rows: Seq<TaskRow>,
    ids: Seq<u128>,
    reason: Seq<char>,
    now: Timestamp,
) -> Seq<TaskRow>
    decreases ids.len(),
{
    if ids.len() == 0 {
        rows
    } else {
        cancelled(
            all_cancelled(rows, ids.drop_last(), reason, now),
            cancel_statements(ids.last(), reason, now)[0].params,
        )
    }
}

/// How many tasks wait.
pub open spec fn waiting(rows: Seq<TaskRow>) -> nat {
    counted(rows, seq![status_value(TaskStatus::Queued)])
}

/// The rows that the query for the oldest waiting tasks gives, `limit` of them at most: the oldest
/// come first, and none that waits is older than one of them and left out.
pub open spec fn are_oldest(picked: Seq<TaskRow>, rows: Seq<TaskRow>, limit: int) -> bool {
    &&& picked.no_duplicates()
    &&& picked.len() == least(limit, waiting(rows) as int)
    &&& forall|x: TaskRow| #[trigger]
        picked.contains(x) ==> rows.contains(x) && in_state(x, TaskStatus::Queued)
    &&& forall|i: int, j: int|
        0 <= i < j < picked.len() ==> !cell_before(
            (#[trigger] picked[j]).cells[6],
            (#[trigger] picked[i]).cells[6],
        )
    &&& forall|x: TaskRow, y: TaskRow|
        picked.contains(x) && #[trigger] rows.contains(y) && in_state(y, TaskStatus::Queued)
            && !(#[trigger] picked.contains(y)) ==> !cell_before(
            y.cells[6],
            (#[trigger] x.cells)[6],
        )
}

/// The tasks of rows.
pub open spec fn are_ids_of(ids: Seq<u128>, picked: Seq<TaskRow>) -> bool {
    ids.len() == picked.len() && forall|i: int|
        0 <= i < ids.len() ==> (#[trigger] picked[i]).cells[0] == id_cell(ids[i])
}

/// A task is queued so that it may run from a moment on.
pub open spec fn runs_from(params: Seq<SqlView>, id: u128, from: Timestamp) -> bool {
    forall|rows: Seq<TaskRow>, i: int, now: Timestamp|
        0 <= i < rows.len() && rows[i].cells.len() == 16 && rows[i].cells[0] == id_cell(id)
            && now.recordable() && !now.earlier(from) ==> may_run(
            #[trigger] enqueued(rows, params)[i],
            #[trigger] next_params(now),
        )
}

/// A task that was queued may run, by the recorded moments.
pub proof fn lemma_queued_may_run(
    rows: Seq<TaskRow>,
    i: int,
    id: u128,
    from: Timestamp,
    now: Timestamp,
)
    requires
        0 <= i < rows.len(),
        rows[i].cells.len() == 16,
        rows[i].cells[0] == id_cell(id),
        !text_before(now.text(), from.text()),
    ensures
        may_run(enqueued(rows, enqueue_statements(id, from)[0].params)[i], next_params(now)),
{
    let after = enqueued(rows, enqueue_statements(id, from)[0].params);
    assert(after[i].cells[1] == status_value(TaskStatus::Queued));
    assert(after[i].next_run_at == time_value(from));
}

/// What one changed row means for a count.
proof fn lemma_counted_update(rows: Seq<TaskRow>, i: int, row: TaskRow, params: Seq<SqlView>)
    requires
        0 <= i < rows.len(),
    ensures
        counted(rows.update(i, row), params) + (if params.contains(rows[i].cells[1]) {
            1int
        } else {
            0
        }) == counted(rows, params) + (if params.contains(row.cells[1]) {
            1int
        } else {
            0
        }),
    decreases rows.len(),
{
    let after = rows.update(i, row);
    if i == rows.len() - 1 {
        assert(after.drop_last() =~= rows.drop_last());
    } else {
        lemma_counted_update(rows.drop_last(), i, row, params);
        assert(after.drop_last() =~= rows.drop_last().update(i, row));
    }
}

/// A cell that holds one of the identifiers.
pub open spec fn is_among(ids: Seq<u128>, cell: SqlView) -> bool {
    exists|k: int| 0 <= k < ids.len() && cell == id_cell(#[trigger] ids[k])
}

/// What the table holds after tasks were cancelled.
proof fn lemma_all_cancelled(
    rows: Seq<TaskRow>,
    ids: Seq<u128>,
    reason: Seq<char>,
    now: Timestamp,
)
    requires
        all_tasks(rows),
    ensures
        ({
            let after = all_cancelled(rows, ids, reason, now);
            &&& after.len() == rows.len()
            &&& all_tasks(after)
            &&& forall|i: int|
                0 <= i < rows.len() ==> (#[trigger] after[i]).cells[0] == rows[i].cells[0]
            &&& forall|i: int|
                0 <= i < rows.len() ==> if is_among(ids, rows[i].cells[0]) {
                    in_state(#[trigger] after[i], TaskStatus::Cancelled)
                } else {
                    after[i] == rows[i]
                }
        }),
    decreases ids.len(),
{
    if ids.len() > 0 {
        let init = ids.drop_last();
        lemma_all_cancelled(rows, init, reason, now);
        let before = all_cancelled(rows, init, reason, now);
        let after = all_cancelled(rows, ids, reason, now);
        assert forall|i: int| 0 <= i < rows.len() implies if is_among(ids, rows[i].cells[0]) {
            in_state(#[trigger] after[i], TaskStatus::Cancelled)
        } else {
            after[i] == rows[i]
        } by {
            let cell = rows[i].cells[0];
            assert(ids[ids.len() - 1] == ids.last());
            assert(before[i].cells[0] == cell && before[i].cells.len() == 16);
            if is_among(init, cell) {
                let k = choose|k: int| 0 <= k < init.len() && cell == id_cell(#[trigger] init[k]);
                assert(ids[k] == init[k]);
            } else if is_among(ids, cell) {
                let k = choose|k: int| 0 <= k < ids.len() && cell == id_cell(#[trigger] ids[k]);
                if k < init.len() {
                    assert(ids[k] == init[k]);
                }
            }
        }
        assert forall|i: int| 0 <= i < rows.len() implies (#[trigger] after[i]).cells[0]
            == rows[i].cells[0] && after[i].cells.len() == 16 by {
            assert(before[i].cells[0] == rows[i].cells[0]);
            assert(before[i].cells.len() == 16);
        }
    }
}

/// Each waiting task that is cancelled is one less that waits.
proof fn lemma_cancelled_count(
    rows: Seq<TaskRow>,
    picked: Seq<TaskRow>,
    ids: Seq<u128>,
    reason: Seq<char>,
    now: Timestamp,
)
    requires
        well_kept(rows),
        all_tasks(rows),
        picked.no_duplicates(),
        are_ids_of(ids, picked),
        forall|i: int|
            0 <= i < picked.len() ==> rows.contains(#[trigger] picked[i]) && in_state(
                picked[i],
                TaskStatus::Queued,
            ),
    ensures
        waiting(all_cancelled(rows, ids, reason, now)) + ids.len() == waiting(rows),
    decreases ids.len(),
{
    if ids.len() > 0 {
        let m = ids.len() - 1;
        let init = ids.drop_last();
        let first = picked.drop_last();
        assert forall|i: int| 0 <= i < first.len() implies rows.contains(#[trigger] first[i])
            && in_state(first[i], TaskStatus::Queued) && first[i].cells[0] == id_cell(init[i]) by {
            assert(first[i] == picked[i]);
            assert(init[i] == ids[i]);
        }
        lemma_cancelled_count(rows, first, init, reason, now);
        lemma_all_cancelled(rows, init, reason, now);
        let before = all_cancelled(rows, init, reason, now);
        let last = picked[m];
        let at = choose|at: int| 0 <= at < rows.len() && rows[at] == last;
        assert forall|k: int| 0 <= k < init.len() implies rows[at].cells[0] != id_cell(
            #[trigger] init[k],
        ) by {
            assert(init[k] == ids[k]);
            let other = picked[k];
            assert(other != last);
            assert(rows.contains(other));
            let o = choose|o: int| 0 <= o < rows.len() && rows[o] == other;
            assert(rows[o].cells[0] != rows[at].cells[0]);
        }
        assert(!is_among(init, rows[at].cells[0]));
        assert(before[at] == last);
        let params = cancel_statements(ids.last(), reason, now)[0].params;
        let after = cancelled(before, params);
        assert(ids.last() == ids[m]);
        assert forall|i: int| 0 <= i < before.len() && i != at implies #[trigger] after[i]
            == before[i] by {
            assert(before[i].cells[0] == rows[i].cells[0]);
            assert(rows[i].cells[0] != rows[at].cells[0]);
        }
        assert(after =~= before.update(at, after[at]));
        let asked = seq![status_value(TaskStatus::Queued)];
        lemma_counted_update(before, at, after[at], asked);
        assert(before[at].cells.len() == 16);
        assert(after[at].cells[1] == status_value(TaskStatus::Cancelled));
        lemma_bound(TaskStatus::Queued, TaskStatus::Cancelled);
        lemma_bound(TaskStatus::Queued, TaskStatus::Queued);
    }
}

/// A task that is queued is one more that waits, at most.
proof fn lemma_enqueued_count(rows: Seq<TaskRow>, params: Seq<SqlView>)
    requires
        forall|i: int, j: int|
            0 <= i < rows.len() && 0 <= j < rows.len() && #[trigger] rows[i].cells[0]
                == #[trigger] rows[j].cells[0] ==> i == j,
    ensures
        waiting(enqueued(rows, params)) <= waiting(rows) + 1,
{
    let after = enqueued(rows, params);
    let asked = seq![status_value(TaskStatus::Queued)];
    if exists|i: int| 0 <= i < rows.len() && (#[trigger] rows[i]).cells[0] == params[3] {
        let at = choose|i: int| 0 <= i < rows.len() && (#[trigger] rows[i]).cells[0] == params[3];
        assert forall|i: int| 0 <= i < rows.len() && i != at implies #[trigger] after[i]
            == rows[i] by {
            assert(rows[i].cells[0] != rows[at].cells[0]);
        }
        assert(after =~= rows.update(at, after[at]));
        lemma_counted_update(rows, at, after[at], asked);
    } else {
        assert(after =~= rows);
    }
}

/// The table after a task was put into a queue for `max` tasks: where there is no room, the tasks
/// `ids` were cancelled first.
pub open spec fn queued(
    rows: Seq<TaskRow>,
    ids: Seq<u128>,
    reason: Seq<char>,
    cancelled_at: Timestamp,
    id: u128,
    now: Timestamp,
) -> Seq<TaskRow> {
    enqueued(
        all_cancelled(rows, ids, reason, cancelled_at),
        enqueue_statements(id, now)[0].params,
    )
}

/// When a task was put into the queue, no more tasks wait than the queue holds, which is one at
/// least. The tasks that were cancelled for it are the oldest of those that waited, no other task
/// has changed, and the task may run at once.
pub proof fn law_queue_holds_its_capacity(
    rows: Seq<TaskRow>,
    picked: Seq<TaskRow>,
    ids: Seq<u128>,
    reason: Seq<char>,
    cancelled_at: Timestamp,
    id: u128,
    now: Timestamp,
    max: int,
)
    requires
        0 <= max,
        well_kept(rows),
        all_tasks(rows),
        are_ids_of(ids, picked),
        if waiting(rows) < max {
            picked.len() == 0
        } else {
            are_oldest(picked, rows, overflow(waiting(rows) as int, max))
        },
    ensures
        ({
            let after = queued(rows, ids, reason, cancelled_at, id, now);
            &&& waiting(after) <= if max < 1 {
                1
            } else {
                max
            }
            &&& forall|x: TaskRow, y: TaskRow|
                picked.contains(x) && #[trigger] rows.contains(y) && in_state(
                    y,
                    TaskStatus::Queued,
                ) && !(#[trigger] picked.contains(y)) ==> !cell_before(
                    y.cells[6],
                    (#[trigger] x.cells)[6],
                )
            &&& forall|i: int|
                0 <= i < rows.len() && rows[i].cells[0] != id_cell(id) && !picked.contains(rows[i])
                    ==> #[trigger] after[i] == rows[i]
            &&& forall|i: int|
                0 <= i < rows.len() && rows[i].cells[0] != id_cell(id) && picked.contains(rows[i])
                    ==> in_state(#[trigger] after[i], TaskStatus::Cancelled)
            &&& forall|i: int|
                0 <= i < rows.len() && rows[i].cells[0] == id_cell(id) ==> may_run(
                    #[trigger] after[i],
                    next_params(now),
                )
        }),
{
    let between = all_cancelled(rows, ids, reason, cancelled_at);
    let params = enqueue_statements(id, now)[0].params;
    let after = enqueued(between, params);
    assert forall|i: int| 0 <= i < picked.len() implies rows.contains(#[trigger] picked[i])
        && in_state(picked[i], TaskStatus::Queued) by {
        assert(picked.contains(picked[i]));
    }
    assert(picked.no_duplicates());
    lemma_cancelled_count(rows, picked, ids, reason, cancelled_at);
    lemma_all_cancelled(rows, ids, reason, cancelled_at);
    assert forall|i: int, j: int|
        0 <= i < between.len() && 0 <= j < between.len() && #[trigger] between[i].cells[0]
            == #[trigger] between[j].cells[0] implies i == j by {
        assert(between[i].cells[0] == rows[i].cells[0]);
        assert(between[j].cells[0] == rows[j].cells[0]);
    }
    lemma_enqueued_count(between, params);
    assert forall|i: int|
        0 <= i < rows.len() && rows[i].cells[0] != id_cell(id) && !picked.contains(
            rows[i],
        ) implies #[trigger] after[i] == rows[i] by {
        assert forall|k: int| 0 <= k < ids.len() implies rows[i].cells[0] != id_cell(
            #[trigger] ids[k],
        ) by {
            let p = picked[k];
            assert(p.cells[0] == id_cell(ids[k]));
            assert(rows.contains(p));
            let m = choose|m: int| 0 <= m < rows.len() && rows[m] == p;
            if rows[i].cells[0] == rows[m].cells[0] {
                assert(i == m);
                assert(picked.contains(rows[i]));
            }
        }
        assert(!is_among(ids, rows[i].cells[0]));
        assert(between[i] == rows[i]);
    }
    assert forall|i: int|
        0 <= i < rows.len() && rows[i].cells[0] != id_cell(id) && picked.contains(
            rows[i],
        ) implies in_state(#[trigger] after[i], TaskStatus::Cancelled) by {
        let k = choose|k: int| 0 <= k < picked.len() && picked[k] == rows[i];
        assert(rows[i].cells[0] == id_cell(ids[k]));
        assert(is_among(ids, rows[i].cells[0]));
        assert(between[i].cells[0] == rows[i].cells[0]);
        assert(in_state(between[i], TaskStatus::Cancelled));
    }
    assert forall|i: int| 0 <= i < rows.len() && rows[i].cells[0] == id_cell(id) implies may_run(
        #[trigger] after[i],
        next_params(now),
    ) by {
        lemma_text_order(now.text(), now.text(), now.text());
        assert(between[i].cells[0] == rows[i].cells[0]);
        assert(between[i].cells.len() == 16);
        lemma_queued_may_run(between, i, id, now, now);
    }
}

// ---------------------------------------------------------------------------
// Tasks by their state
// ---------------------------------------------------------------------------
/// The rows that a query gives which asks for those that are wanted, each once.
pub open spec fn is_selection(
    out: Seq<TaskRow>,
    rows: Seq<TaskRow>,
    wanted: spec_fn(TaskRow) -> bool,
) -> bool {
    &&& out.no_duplicates()
    &&& forall|x: TaskRow| #[trigger] out.contains(x) <==> rows.contains(x) && wanted(x)
}

/// The rows come in the order of their creation, the newest first.
pub open spec fn newest_first(out: Seq<TaskRow>) -> bool {
    forall|i: int, j: int|
        0 <= i < j < out.len() ==> !cell_before(
            (#[trigger] out[i]).cells[6],
            (#[trigger] out[j]).cells[6],
        )
}

/// The rows that the query for all tasks gives.
pub open spec fn answers_all(out: Seq<TaskRow>, rows: Seq<TaskRow>) -> bool {
    is_selection(out, rows, |r: TaskRow| true) && newest_first(out)
}

/// The rows that the query for the tasks in a state gives.
pub open spec fn answers_by_status(
    out: Seq<TaskRow>,
    rows: Seq<TaskRow>,
    params: Seq<SqlView>,
) -> bool {
    is_selection(out, rows, |r: TaskRow| r.cells[1] == params[0]) && newest_first(out)
}

/// The queries for the tasks in each of the states give every task once among them: each in its
/// own state, no task for two states, and together all tasks.
pub proof fn law_states_part_the_tasks(
    rows: Seq<TaskRow>,
    all: Seq<TaskRow>,
    by_status: spec_fn(TaskStatus) -> Seq<TaskRow>,
)
    requires
        well_kept(rows),
        answers_all(all, rows),
        forall|s: TaskStatus|
            answers_by_status(#[trigger] by_status(s), rows, seq![status_value(s)]),
    ensures
        forall|s: TaskStatus, i: int|
            0 <= i < by_status(s).len() ==> in_state(#[trigger] by_status(s)[i], s)
                && recorded_status(by_status(s)[i].cells[1]->Text_0) == s,
        forall|s: TaskStatus, t: TaskStatus, i: int, j: int|
            0 <= i < by_status(s).len() && 0 <= j < by_status(t).len()
                && #[trigger] by_status(s)[i].cells[0] == #[trigger] by_status(t)[j].cells[0]
                ==> s == t && i == j,
        forall|x: TaskRow| #[trigger]
            all.contains(x) <==> exists|s: TaskStatus| #[trigger] by_status(s).contains(x),
        forall|s: TaskStatus| newest_first(#[trigger] by_status(s)),
{
    assert forall|s: TaskStatus, i: int| 0 <= i < by_status(s).len() implies in_state(
        #[trigger] by_status(s)[i],
        s,
    ) && recorded_status(by_status(s)[i].cells[1]->Text_0) == s && rows.contains(
        by_status(s)[i],
    ) by {
        assert(answers_by_status(by_status(s), rows, seq![status_value(s)]));
        assert(by_status(s).contains(by_status(s)[i]));
        law_status_read_back(s);
    }
    assert forall|s: TaskStatus, t: TaskStatus, i: int, j: int|
        0 <= i < by_status(s).len() && 0 <= j < by_status(t).len()
            && #[trigger] by_status(s)[i].cells[0] == #[trigger] by_status(t)[j].cells[0] implies s
        == t && i == j by {
        assert(answers_by_status(by_status(s), rows, seq![status_value(s)]));
        let x = by_status(s)[i];
        let y = by_status(t)[j];
        assert(in_state(x, s) && in_state(y, t));
        assert(rows.contains(x) && rows.contains(y));
        let m = choose|m: int| 0 <= m < rows.len() && rows[m] == x;
        let n = choose|n: int| 0 <= n < rows.len() && rows[n] == y;
        assert(rows[m].cells[0] == rows[n].cells[0]);
        assert(x == y);
        lemma_states_differ(s, t);
    }
    assert forall|x: TaskRow| #[trigger] all.contains(x) <==> exists|s: TaskStatus| #[trigger]
        by_status(s).contains(x) by {
        if all.contains(x) {
            assert(rows.contains(x));
            let m = choose|m: int| 0 <= m < rows.len() && rows[m] == x;
            let s = choose|s: TaskStatus| in_state(rows[m], s);
            assert(answers_by_status(by_status(s), rows, seq![status_value(s)]));
            assert(by_status(s).contains(x));
        }
        if exists|s: TaskStatus| #[trigger] by_status(s).contains(x) {
            let s = choose|s: TaskStatus| #[trigger] by_status(s).contains(x);
            assert(answers_by_status(by_status(s), rows, seq![status_value(s)]));
            assert(rows.contains(x));
        }
    }
    assert forall|s: TaskStatus| newest_first(#[trigger] by_status(s)) by {
        assert(answers_by_status(by_status(s), rows, seq![status_value(s)]));
    }
}

/// How many tasks are in one of the states bound to a query.
pub open spec fn counted(rows: Seq<TaskRow>, params: Seq<SqlView>) -> nat
    decreases rows.len(),
{
    if rows.len() == 0 {
        0
    } else {
        counted(rows.drop_last(), params) + if params.contains(rows.last().cells[1]) {
            1nat
        } else {
            0nat
        }
    }
}

/// The counts of the statistics add up: all tasks are those that succeeded, those that failed,
/// those that wait, and those that run or were cancelled.
pub proof fn law_counts_add_up(rows: Seq<TaskRow>)
    requires
        all_in_states(rows),
    ensures
        rows.len() == counted(rows, stats_statements()[1].params) + counted(
            rows,
            stats_statements()[2].params,
        ) + counted(rows, stats_statements()[3].params) + counted(
            rows,
            seq![status_value(TaskStatus::Processing)],
        ) + counted(rows, seq![status_value(TaskStatus::Cancelled)]),
    decreases rows.len(),
{
    if rows.len() > 0 {
        let init = rows.drop_last();
        assert forall|i: int| 0 <= i < init.len() implies has_state(#[trigger] init[i]) by {
            assert(init[i] == rows[i]);
        }
        law_counts_add_up(init);
        let last = rows[rows.len() - 1];
        assert(has_state(last));
        let s = choose|s: TaskStatus| in_state(last, s);
        lemma_bound(TaskStatus::Success, s);
        lemma_bound(TaskStatus::Queued, s);
        lemma_bound(TaskStatus::Processing, s);
        lemma_bound(TaskStatus::Cancelled, s);
        let failed = stats_statements()[2].params;
        lemma_states_differ(TaskStatus::UnknownError, s);
        lemma_states_differ(TaskStatus::CompilationFailed, s);
        lemma_states_differ(TaskStatus::Timeout, s);
        assert(failed.contains(failed[0]) && failed.contains(failed[1]) && failed.contains(
            failed[2],
        ));
    }
}

/// A state is the one that is bound where its recorded form is.
proof fn lemma_bound(bound: TaskStatus, s: TaskStatus)
    ensures
        seq![status_value(bound)].contains(status_value(s)) <==> bound == s,
{
    lemma_states_differ(bound, s);
    assert(seq![status_value(bound)][0] == status_value(bound));
}

// ---------------------------------------------------------------------------
// Pages of events
// ---------------------------------------------------------------------------
/// All events of the task bound, each once, the oldest first.
pub open spec fn is_history(all: Seq<EventRow>, rows: Seq<EventRow>, task: SqlView) -> bool {
    &&& all.no_duplicates()
    &&& forall|x: EventRow| #[trigger]
        all.contains(x) <==> rows.contains(x) && x.cells[1] == task
    &&& forall|i: int, j: int|
        0 <= i < j < all.len() ==> !cell_before(
            (#[trigger] all[j]).cells[6],
            (#[trigger] all[i]).cells[6],
        )
}

pub open spec fn least(a: int, b: int) -> int {
    if a <= b {
        a
    } else {
        b
    }
}

/// The part of a history from an offset on, of so many events at most.
pub open spec fn page_of(all: Seq<EventRow>, limit: int, offset: int) -> Seq<EventRow> {
    all.subrange(
        least(offset, all.len() as int),
        least(offset + limit, all.len() as int),
    )
}

/// The rows that the query for a page of a task's events may give: a page of the task's events
/// in an order in which the oldest come first.
pub open spec fn answers_events(
    out: Seq<EventRow>,
    rows: Seq<EventRow>,
    task: SqlView,
    limit: int,
    offset: int,
) -> bool {
    exists|all: Seq<EventRow>| #[trigger]
        is_history(all, rows, task) && out == page_of(all, limit, offset)
}

/// The events were recorded at different moments.
pub open spec fn at_different_moments(all: Seq<EventRow>) -> bool {
    forall|i: int, j: int|
        0 <= i < j < all.len() ==> cell_before(
            (#[trigger] all[i]).cells[6],
            (#[trigger] all[j]).cells[6],
        )
}

/// Events of different moments have one order only.
proof fn lemma_one_history(a: Seq<EventRow>, b: Seq<EventRow>)
    requires
        at_different_moments(a),
        a.no_duplicates(),
        b.no_duplicates(),
        forall|x: EventRow| #[trigger] a.contains(x) <==> b.contains(x),
        forall|i: int, j: int|
            0 <= i < j < b.len() ==> !cell_before(
                (#[trigger] b[j]).cells[6],
                (#[trigger] b[i]).cells[6],
            ),
    ensures
        a == b,
    decreases a.len(),
{
    if a.len() == 0 {
        if b.len() > 0 {
            assert(b.contains(b[0]));
            assert(a.contains(b[0]));
        }
        assert(a =~= b);
    } else {
        let last = a[a.len() - 1];
        assert(a.contains(last));
        assert(b.contains(last));
        let p = choose|p: int| 0 <= p < b.len() && b[p] == last;
        let end = b[b.len() - 1];
        assert(b.contains(end));
        assert(a.contains(end));
        let q = choose|q: int| 0 <= q < a.len() && a[q] == end;
        if p < b.len() - 1 {
            assert(end != last);
            assert(cell_before(a[q].cells[6], a[a.len() - 1].cells[6]));
            assert(!cell_before(b[b.len() - 1].cells[6], b[p].cells[6]));
        }
        assert(end == last);
        let c = a.drop_last();
        let d = b.drop_last();
        assert forall|x: EventRow| #[trigger] c.contains(x) <==> d.contains(x) by {
            if c.contains(x) {
                let i = choose|i: int| 0 <= i < c.len() && c[i] == x;
                assert(a[i] == x && x != last);
                assert(a.contains(x));
                let j = choose|j: int| 0 <= j < b.len() && b[j] == x;
                assert(j < b.len() - 1);
                assert(d[j] == x);
            }
            if d.contains(x) {
                let j = choose|j: int| 0 <= j < d.len() && d[j] == x;
                assert(b[j] == x && x != last);
                assert(b.contains(x));
                assert(a.contains(x));
                let i = choose|i: int| 0 <= i < a.len() && a[i] == x;
                assert(i < a.len() - 1);
                assert(c[i] == x);
            }
        }
        assert forall|i: int, j: int| 0 <= i < j < d.len() implies !cell_before(
            (#[trigger] d[j]).cells[6],
            (#[trigger] d[i]).cells[6],
        ) by {
            assert(d[i] == b[i] && d[j] == b[j]);
        }
        assert forall|i: int, j: int| 0 <= i < j < c.len() implies cell_before(
            (#[trigger] c[i]).cells[6],
            (#[trigger] c[j]).cells[6],
        ) by {
            assert(c[i] == a[i] && c[j] == a[j]);
        }
        lemma_one_history(c, d);
        assert(a =~= c.push(last));
        assert(b =~= d.push(last));
    }
}

/// A page holds the events of the task from its offset on, as many as its limit allows and as
/// there are, and none of another task.
pub proof fn law_page_of_events(
    out: Seq<EventRow>,
    rows: Seq<EventRow>,
    id: u128,
    limit: int,
    offset: int,
    history: Seq<EventRow>,
)
    requires
        0 <= limit,
        0 <= offset,
        is_history(history, rows, id_cell(id)),
        at_different_moments(history),
        answers_events(out, rows, id_cell(id), limit, offset),
    ensures
        out == page_of(history, limit, offset),
        limit == 0 ==> out.len() == 0,
        forall|i: int| 0 <= i < out.len() ==> (#[trigger] out[i]).cells[1] == id_cell(id),
{
    let all = choose|all: Seq<EventRow>| #[trigger]
        is_history(all, rows, id_cell(id)) && out == page_of(all, limit, offset);
    assert forall|x: EventRow| #[trigger] history.contains(x) <==> all.contains(x) by {}
    lemma_one_history(history, all);
    assert forall|i: int| 0 <= i < out.len() implies (#[trigger] out[i]).cells[1] == id_cell(
        id,
    ) by {
        assert(history.contains(out[i]));
    }
}

/// The pages one after the other.
pub open spec fn joined(pages: Seq<Seq<EventRow>>) -> Seq<EventRow>
    decreases pages.len(),
{
    if pages.len() == 0 {
        seq![]
    } else {
        joined(pages.drop_last()) + pages.last()
    }
}

/// The pages of one size, each from where the one before it ends, hold the events of the task
/// without a gap and without a repetition, and all of them once the pages are enough.
pub proof fn law_pages_join(
    pages: Seq<Seq<EventRow>>,
    rows: Seq<EventRow>,
    id: u128,
    limit: int,
    history: Seq<EventRow>,
)
    requires
        0 <= limit,
        is_history(history, rows, id_cell(id)),
        at_different_moments(history),
        forall|k: int|
            0 <= k < pages.len() ==> answers_events(
                #[trigger] pages[k],
                rows,
                id_cell(id),
                limit,
                k * limit,
            ),
    ensures
        joined(pages) == history.take(least(pages.len() * limit, history.len() as int)),
        pages.len() * limit >= history.len() ==> joined(pages) == history,
    decreases pages.len(),
{
    let n = pages.len() as int;
    if n == 0 {
        assert(n * limit == 0) by (nonlinear_arith)
            requires
                n == 0,
        ;
        assert(joined(pages) =~= history.take(0));
    } else {
        let init = pages.drop_last();
        assert forall|k: int| 0 <= k < init.len() implies answers_events(
            #[trigger] init[k],
            rows,
            id_cell(id),
            limit,
            k * limit,
        ) by {
            assert(init[k] == pages[k]);
        }
        law_pages_join(init, rows, id, limit, history);
        let offset = (n - 1) * limit;
        assert(0 <= offset && n * limit == offset + limit) by (nonlinear_arith)
            requires
                n >= 1,
                0 <= limit,
                offset == (n - 1) * limit,
        ;
        assert(pages[n - 1] == pages.last());
        law_page_of_events(pages.last(), rows, id, limit, offset, history);
        assert(joined(pages) =~= history.take(least(n * limit, history.len() as int)));
    }
    if n * limit >= history.len() {
        assert(history.take(history.len() as int) =~= history);
    }
}

} // verus!
