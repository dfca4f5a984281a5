//! What the table of tasks keeps of the values that are bound to an insertion.
use super::{event_statement, insert_task_statement, update_task_statement};
use super::sql::{
    cell_instant, cell_text, event_column, event_fault, event_of_row, event_readable, task_fault,
    task_of_row, task_readable, SqlView,
};
use crate::models::task::{law_status_read_back, TaskEventView, TaskStatus, TaskView};
use crate::outside::{id_text, id_value, instant_value};
use crate::text::{all_digits, decimal, digits_value, lemma_decimal, signed_decimal, unsigned};
use crate::time::Timestamp;
use vstd::prelude::*;

verus! {

/// The whole number that a text writes: digits, after a minus sign or not.
pub open spec fn whole_number(s: Seq<char>) -> Option<int> {
    if s.len() > 1 && s[0] == '-' && all_digits(s.drop_first()) {
        Some(-(digits_value(s.drop_first()) as int))
    } else if s.len() > 0 && all_digits(s) {
        Some(digits_value(s) as int)
    } else {
        None
    }
}

/// The columns of tasks that are declared to hold integers.
pub open spec fn holds_integers(c: int) -> bool {
    c == 2 || c == 3 || c == 8 || c == 9 || c == 10 || c == 11
}

/// What a column keeps of a value: a column of integers keeps a text that writes a whole number
/// as that number.
pub open spec fn kept(value: SqlView, c: int) -> SqlView {
    match value {
        SqlView::Text(s) => match whole_number(s) {
            Some(n) => if holds_integers(c) {
                SqlView::Integer(n)
            } else {
                value
            },
            None => value,
        },
        _ => value,
    }
}

/// The row that is kept of the values bound to an insertion.
pub open spec fn kept_row(params: Seq<SqlView>) -> Seq<SqlView> {
    Seq::new(params.len(), |c: int| kept(params[c], c))
}

pub open spec fn filled_text(s: Option<Seq<char>>) -> Option<Seq<char>> {
    match s {
        Some(t) => Some(t),
        None => Some(Seq::empty()),
    }
}

impl TaskView {
    /// A task whose row can be read again: its times have dates with a year of four digits, and
    /// it has neither an estimate nor a duration.
    pub open spec fn keepable(self) -> bool {
        &&& self.created_at.recordable()
        &&& self.updated_at.recordable()
        &&& self.estimated_time_remaining is None
        &&& self.build_duration is None
    }

    /// The task with empty texts in place of those that it lacks.
    pub open spec fn filled(self) -> TaskView {
        TaskView {
            current_step: filled_text(self.current_step),
            error: filled_text(self.error),
            output_path: filled_text(self.output_path),
            ..self
        }
    }
}

proof fn lemma_whole_number(n: int)
    ensures
        whole_number(signed_decimal(n)) == Some(n),
{
    if n < 0 {
        lemma_decimal((-n) as nat);
        assert(signed_decimal(n).drop_first() =~= decimal((-n) as nat));
    } else {
        lemma_decimal(n as nat);
        assert(is_digit_at(decimal(n as nat)));
    }
}

spec fn is_digit_at(s: Seq<char>) -> bool {
    crate::text::is_digit(s[0])
}

/// A task that is inserted is read back from its row.
pub proof fn lemma_task_kept(t: TaskView)
    requires
        t.keepable(),
        id_value(id_text(t.task_id)) == Some(t.task_id),
        instant_value(t.created_at.text()) == Some((t.created_at.secs, t.created_at.nanos)),
        instant_value(t.updated_at.text()) == Some((t.updated_at.secs, t.updated_at.nanos)),
    ensures
        task_readable(kept_row(insert_task_statement(t).params)),
        task_of_row(kept_row(insert_task_statement(t).params)) == t.filled(),
{
    let row = kept_row(insert_task_statement(t).params);
    lemma_whole_number(t.progress as int);
    lemma_whole_number(t.retry_count as int);
    lemma_whole_number(t.max_retries as int);
    lemma_whole_number(t.priority as int);
    law_status_read_back(t.status);
    assert(row.len() == 16);
    assert(row[0] == SqlView::Text(id_text(t.task_id)));
    assert(row[2] == SqlView::Integer(t.progress as int));
    assert(row[3] == SqlView::Text(Seq::<char>::empty()));
    assert(row[8] == SqlView::Integer(t.retry_count as int));
    assert(row[9] == SqlView::Integer(t.max_retries as int));
    assert(row[10] == SqlView::Text(Seq::<char>::empty()));
    assert(row[11] == SqlView::Integer(t.priority as int));
    assert(unsigned(Seq::<char>::empty(), u64::MAX as nat) is None);
    assert forall|c: int| 0 <= c < 16 implies task_fault(row, c) is None by {
        assert(row[c] == kept(insert_task_statement(t).params[c], c));
        if c == 1 || c == 4 || c == 5 || c == 6 || c == 7 || c == 12 || c == 13 || c == 14 || c
            == 15 {
            assert(row[c] == insert_task_statement(t).params[c]);
        }
    }
    assert(cell_instant(row[6]) == t.created_at);
    assert(cell_instant(row[7]) == t.updated_at);
    assert(cell_text(row[4]) == filled_text(t.current_step));
    assert(cell_text(row[5]) == filled_text(t.error));
    assert(cell_text(row[14]) == filled_text(t.output_path));
}

/// The row of a task after the values bound to an update were put into it.
pub open spec fn updated_row(row: Seq<SqlView>, params: Seq<SqlView>) -> Seq<SqlView> {
    row.update(1, kept(params[0], 1)).update(2, kept(params[1], 2)).update(
        3,
        kept(params[2], 3),
    ).update(4, kept(params[3], 4)).update(5, kept(params[4], 5)).update(
        7,
        kept(params[5], 7),
    ).update(8, kept(params[6], 8)).update(14, kept(params[7], 14))
}

impl TaskView {
    /// The task after an update to `t`, with empty texts in place of those that `t` lacks.
    pub open spec fn updated_to(self, t: TaskView) -> TaskView {
        TaskView {
            status: t.status,
            progress: t.progress,
            estimated_time_remaining: None,
            current_step: filled_text(t.current_step),
            error: filled_text(t.error),
            updated_at: t.updated_at,
            retry_count: t.retry_count,
            output_path: filled_text(t.output_path),
            ..self
        }
    }
}

/// A task that is updated is read back from its row.
pub proof fn lemma_task_updated(row: Seq<SqlView>, t: TaskView)
    requires
        row.len() == 16,
        task_readable(row),
        t.estimated_time_remaining is None,
        instant_value(t.updated_at.text()) == Some((t.updated_at.secs, t.updated_at.nanos)),
    ensures
        ({
            let after = updated_row(row, update_task_statement(t).params);
            task_readable(after) && task_of_row(after) == task_of_row(row).updated_to(t)
        }),
{
    let params = update_task_statement(t).params;
    let after = updated_row(row, params);
    lemma_whole_number(t.progress as int);
    lemma_whole_number(t.retry_count as int);
    law_status_read_back(t.status);
    assert(after[2] == SqlView::Integer(t.progress as int));
    assert(after[3] == SqlView::Text(Seq::<char>::empty()));
    assert(after[8] == SqlView::Integer(t.retry_count as int));
    assert(after[1] == params[0] && after[4] == params[3] && after[5] == params[4]);
    assert(after[7] == params[5] && after[14] == params[7]);
    assert(unsigned(Seq::<char>::empty(), u64::MAX as nat) is None);
    assert forall|c: int| 0 <= c < 16 implies task_fault(after, c) is None by {
        assert(task_fault(row, c) is None);
        if c == 0 || c == 6 || (9 <= c <= 13) || c == 15 {
            assert(after[c] == row[c]);
        }
    }
    assert(cell_instant(after[7]) == t.updated_at);
    assert(cell_text(after[4]) == filled_text(t.current_step));
    assert(cell_text(after[5]) == filled_text(t.error));
    assert(cell_text(after[14]) == filled_text(t.output_path));
}

/// The row that the table of events keeps of the values bound to an insertion: the number of the
/// event comes first.
pub open spec fn event_row(number: i64, params: Seq<SqlView>) -> Seq<SqlView> {
    seq![SqlView::Integer(number as int)] + params
}

/// An event that is inserted is read back from its row.
pub proof fn lemma_event_kept(
    number: i64,
    id: u128,
    event_type: Seq<char>,
    status: Option<TaskStatus>,
    message: Option<Seq<char>>,
    worker: Option<Seq<char>>,
    now: Timestamp,
)
    requires
        id_value(id_text(id)) == Some(id),
        instant_value(now.text()) == Some((now.secs, now.nanos)),
    ensures
        ({
            let row = event_row(
                number,
                event_statement(id, event_type, status, message, worker, now).params,
            );
            event_readable(row) && event_of_row(row) == (TaskEventView {
                id: number,
                task_id: id,
                event_type,
                status,
                message,
                worker_id: worker,
                created_at: now,
            })
        }),
{
    let params = event_statement(id, event_type, status, message, worker, now).params;
    let row = event_row(number, params);
    if let Some(s) = status {
        law_status_read_back(s);
    }
    assert(row.len() == 7);
    assert forall|turn: int| 0 <= turn < 7 implies event_fault(row, turn) is None by {
        let c = event_column(turn);
        if c > 0 {
            assert(row[c] == params[c - 1]);
        }
    }
    assert(row[1] == params[0] && row[2] == params[1] && row[3] == params[2]);
    assert(row[4] == params[3] && row[5] == params[4] && row[6] == params[5]);
}

} // verus!
