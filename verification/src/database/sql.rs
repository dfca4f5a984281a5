//! Statements and rows as plain values, and how rows are read.
use crate::models::task::{recorded_status, Task, TaskEvent, TaskEventView, TaskStatus, TaskView};
use crate::outside::{id_value, instant_value, parse_id};
use crate::text::{opt_text, parse_unsigned, unsigned};
use crate::time::Timestamp;
use vstd::prelude::*;

verus! {

/// A value that is bound to a statement, or a cell of a row.
#[derive(Debug)]
pub enum SqlValue {
    Null,
    Integer(i64),
    Text(String),
    /// A value of a type that the service never binds and never reads.
    Other,
}

/// A value as the contracts speak of it.
pub enum SqlView {
    Null,
    Integer(int),
    Text(Seq<char>),
    Other,
}

impl View for SqlValue {
    type V = SqlView;

    open spec fn view(&self) -> SqlView {
        match self {
            SqlValue::Null => SqlView::Null,
            SqlValue::Integer(n) => SqlView::Integer(*n as int),
            SqlValue::Text(s) => SqlView::Text(s@),
            SqlValue::Other => SqlView::Other,
        }
    }
}

/// The values of a row or of a parameter list.
pub open spec fn cells(row: Seq<SqlValue>) -> Seq<SqlView> {
    Seq::new(row.len(), |i: int| row[i]@)
}

/// The rows of a reply.
pub open spec fn rows_view(rows: Seq<Vec<SqlValue>>) -> Seq<Seq<SqlView>> {
    Seq::new(rows.len(), |i: int| cells(rows[i]@))
}

/// A statement and the values bound to it.
#[derive(Debug)]
pub struct Statement {
    pub sql: &'static str,
    pub params: Vec<SqlValue>,
}

pub struct StatementView {
    pub sql: Seq<char>,
    pub params: Seq<SqlView>,
}

impl View for Statement {
    type V = StatementView;

    open spec fn view(&self) -> StatementView {
        StatementView { sql: self.sql@, params: cells(self.params@) }
    }
}

/// Statements that are run one after the other; a failure leaves out those that follow.
pub open spec fn statements_view(list: Seq<Statement>) -> Seq<StatementView> {
    Seq::new(list.len(), |i: int| list[i]@)
}

pub fn text_value(s: &str) -> (r: SqlValue)
    ensures
        r@ == SqlView::Text(s@),
{
    SqlValue::Text(s.to_owned())
}

/// The value of an optional text: null where there is none.
pub open spec fn opt_value(s: Option<Seq<char>>) -> SqlView {
    match s {
        Some(t) => SqlView::Text(t),
        None => SqlView::Null,
    }
}

pub fn opt_text_value(s: Option<&str>) -> (r: SqlValue)
    ensures
        r@ == opt_value(crate::text::opt_str(s)),
{
    match s {
        Some(t) => text_value(t),
        None => SqlValue::Null,
    }
}

/// An unsigned number as a value; none where the database has no integer for it.
pub fn unsigned_value(n: u64) -> (r: Option<SqlValue>)
    ensures
        r is Some <==> n <= i64::MAX,
        r is Some ==> r->0@ == SqlView::Integer(n as int),
{
    if n <= i64::MAX as u64 {
        Some(SqlValue::Integer(n as i64))
    } else {
        None
    }
}

// ---------------------------------------------------------------------------
// Reading cells
// ---------------------------------------------------------------------------
/// Why a row cannot be read; the number is the column.
#[derive(Clone, Copy, Debug, PartialEq, Eq, Structural)]
pub enum RowError {
    /// The row has no such column.
    Missing(usize),
    /// The cell holds a value of another type.
    WrongType(usize),
    /// The cell holds a number out of the range of the field.
    OutOfRange(usize),
    /// The cell holds a text that is no identifier, or no date.
    Malformed(usize),
}

/// What a column is read as.
pub enum CellKind {
    Text,
    OptText,
    Byte,
    Int32,
    Int64,
    Id,
    Instant,
}

/// What is wrong with column `c` of `row` when it is read as `kind`.
pub open spec fn cell_fault(row: Seq<SqlView>, c: int, kind: CellKind) -> Option<RowError> {
    if !(0 <= c < row.len()) {
        Some(RowError::Missing(c as usize))
    } else {
        match kind {
            CellKind::Text => if row[c] is Text {
                None
            } else {
                Some(RowError::WrongType(c as usize))
            },
            CellKind::OptText => if row[c] is Text || row[c] is Null {
                None
            } else {
                Some(RowError::WrongType(c as usize))
            },
            CellKind::Byte => integer_fault(row[c], c, 0, u8::MAX as int),
            CellKind::Int32 => integer_fault(row[c], c, i32::MIN as int, i32::MAX as int),
            CellKind::Int64 => integer_fault(row[c], c, i64::MIN as int, i64::MAX as int),
            CellKind::Id => if row[c] is Text {
                if id_value(row[c]->Text_0) is Some {
                    None
                } else {
                    Some(RowError::Malformed(c as usize))
                }
            } else {
                Some(RowError::WrongType(c as usize))
            },
            CellKind::Instant => if row[c] is Text {
                if instant_value(row[c]->Text_0) is Some {
                    None
                } else {
                    Some(RowError::Malformed(c as usize))
                }
            } else {
                Some(RowError::WrongType(c as usize))
            },
        }
    }
}

pub open spec fn integer_fault(cell: SqlView, c: int, min: int, max: int) -> Option<RowError> {
    if cell is Integer {
        if min <= cell->Integer_0 <= max {
            None
        } else {
            Some(RowError::OutOfRange(c as usize))
        }
    } else {
        Some(RowError::WrongType(c as usize))
    }
}

/// The text of a cell that may be null.
pub open spec fn cell_text(cell: SqlView) -> Option<Seq<char>> {
    match cell {
        SqlView::Text(s) => Some(s),
        _ => None,
    }
}

/// The number that a cell writes as text, where it does.
pub open spec fn cell_number(cell: SqlView) -> Option<u64> {
    match cell_text(cell) {
        Some(s) => match unsigned(s, u64::MAX as nat) {
            Some(n) => Some(n as u64),
            None => None,
        },
        None => None,
    }
}

pub open spec fn cell_instant(cell: SqlView) -> Timestamp {
    let v = instant_value(cell->Text_0)->Some_0;
    Timestamp { secs: v.0, nanos: v.1 }
}

fn read_text(row: &Vec<SqlValue>, c: usize) -> (r: Result<String, RowError>)
    ensures
        match r {
            Ok(s) => cell_fault(cells(row@), c as int, CellKind::Text) is None && cells(
                row@,
            )[c as int] == SqlView::Text(s@),
            Err(e) => cell_fault(cells(row@), c as int, CellKind::Text) == Some(e),
        },
{
    if c >= row.len() {
        return Err(RowError::Missing(c));
    }
    assert(cells(row@)[c as int] == row@[c as int]@);
    match &row[c] {
        SqlValue::Text(s) => Ok(s.clone()),
        _ => Err(RowError::WrongType(c)),
    }
}

fn read_opt_text(row: &Vec<SqlValue>, c: usize) -> (r: Result<Option<String>, RowError>)
    ensures
        match r {
            Ok(s) => cell_fault(cells(row@), c as int, CellKind::OptText) is None && cell_text(
                cells(row@)[c as int],
            ) == opt_text(s),
            Err(e) => cell_fault(cells(row@), c as int, CellKind::OptText) == Some(e),
        },
{
    if c >= row.len() {
        return Err(RowError::Missing(c));
    }
    assert(cells(row@)[c as int] == row@[c as int]@);
    match &row[c] {
        SqlValue::Text(s) => Ok(Some(s.clone())),
        SqlValue::Null => Ok(None),
        _ => Err(RowError::WrongType(c)),
    }
}

/// A text that may be null and may write a number.
fn read_number(row: &Vec<SqlValue>, c: usize) -> (r: Result<Option<u64>, RowError>)
    ensures
        match r {
            Ok(n) => cell_fault(cells(row@), c as int, CellKind::OptText) is None && n
                == cell_number(cells(row@)[c as int]),
            Err(e) => cell_fault(cells(row@), c as int, CellKind::OptText) == Some(e),
        },
{
    match read_opt_text(row, c) {
        Ok(Some(s)) => Ok(parse_unsigned(s.as_str(), u64::MAX)),
        Ok(None) => Ok(None),
        Err(e) => Err(e),
    }
}

fn read_integer(row: &Vec<SqlValue>, c: usize) -> (r: Result<i64, RowError>)
    ensures
        match r {
            Ok(n) => cell_fault(cells(row@), c as int, CellKind::Int64) is None && cells(
                row@,
            )[c as int] == SqlView::Integer(n as int),
            Err(e) => cell_fault(cells(row@), c as int, CellKind::Int64) == Some(e) && (e
                is Missing || e is WrongType),
        },
{
    if c >= row.len() {
        return Err(RowError::Missing(c));
    }
    assert(cells(row@)[c as int] == row@[c as int]@);
    match &row[c] {
        SqlValue::Integer(n) => Ok(*n),
        _ => Err(RowError::WrongType(c)),
    }
}

fn read_byte(row: &Vec<SqlValue>, c: usize) -> (r: Result<u8, RowError>)
    ensures
        match r {
            Ok(n) => cell_fault(cells(row@), c as int, CellKind::Byte) is None && cells(
                row@,
            )[c as int] == SqlView::Integer(n as int),
            Err(e) => cell_fault(cells(row@), c as int, CellKind::Byte) == Some(e),
        },
{
    match read_integer(row, c) {
        Ok(n) => if 0 <= n && n <= 255 {
            Ok(n as u8)
        } else {
            Err(RowError::OutOfRange(c))
        },
        Err(e) => Err(e),
    }
}

fn read_int32(row: &Vec<SqlValue>, c: usize) -> (r: Result<i32, RowError>)
    ensures
        match r {
            Ok(n) => cell_fault(cells(row@), c as int, CellKind::Int32) is None && cells(
                row@,
            )[c as int] == SqlView::Integer(n as int),
            Err(e) => cell_fault(cells(row@), c as int, CellKind::Int32) == Some(e),
        },
{
    match read_integer(row, c) {
        Ok(n) => if i32::MIN as i64 <= n && n <= i32::MAX as i64 {
            Ok(n as i32)
        } else {
            Err(RowError::OutOfRange(c))
        },
        Err(e) => Err(e),
    }
}

fn read_id(row: &Vec<SqlValue>, c: usize) -> (r: Result<u128, RowError>)
    ensures
        match r {
            Ok(id) => cell_fault(cells(row@), c as int, CellKind::Id) is None && id_value(
                cells(row@)[c as int]->Text_0,
            ) == Some(id),
            Err(e) => cell_fault(cells(row@), c as int, CellKind::Id) == Some(e),
        },
{
    match read_text(row, c) {
        Ok(s) => match parse_id(s.as_str()) {
            Some(id) => Ok(id),
            None => Err(RowError::Malformed(c)),
        },
        Err(e) => Err(e),
    }
}

fn read_instant(row: &Vec<SqlValue>, c: usize) -> (r: Result<Timestamp, RowError>)
    ensures
        match r {
            Ok(t) => cell_fault(cells(row@), c as int, CellKind::Instant) is None && t
                == cell_instant(cells(row@)[c as int]) && t.valid(),
            Err(e) => cell_fault(cells(row@), c as int, CellKind::Instant) == Some(e),
        },
{
    match read_text(row, c) {
        Ok(s) => match Timestamp::parse_from_rfc3339(s.as_str()) {
            Some(t) => Ok(t),
            None => Err(RowError::Malformed(c)),
        },
        Err(e) => Err(e),
    }
}

/// The first cell of a row as a count.
pub open spec fn count_fault(row: Seq<SqlView>) -> Option<RowError> {
    if row.len() == 0 {
        Some(RowError::Missing(0))
    } else {
        integer_fault(row[0], 0, 0, i64::MAX as int)
    }
}

pub fn read_count(row: &Vec<SqlValue>) -> (r: Result<u64, RowError>)
    ensures
        match r {
            Ok(n) => count_fault(cells(row@)) is None && cells(row@)[0] == SqlView::Integer(
                n as int,
            ),
            Err(e) => count_fault(cells(row@)) == Some(e),
        },
{
    match read_integer(row, 0) {
        Ok(n) => if n >= 0 {
            Ok(n as u64)
        } else {
            Err(RowError::OutOfRange(0))
        },
        Err(e) => Err(e),
    }
}

// ---------------------------------------------------------------------------
// Reading tasks
// ---------------------------------------------------------------------------
/// What column `c` of a task is read as.
pub open spec fn task_kind(c: int) -> CellKind {
    if c == 0 {
        CellKind::Id
    } else if c == 11 {
        CellKind::Int32
    } else if c == 6 || c == 7 {
        CellKind::Instant
    } else if c == 2 || c == 8 || c == 9 {
        CellKind::Byte
    } else if c == 1 || c == 12 || c == 13 || c == 15 {
        CellKind::Text
    } else {
        CellKind::OptText
    }
}

/// What is wrong with a column of a task.
pub open spec fn task_fault(row: Seq<SqlView>, c: int) -> Option<RowError> {
    cell_fault(row, c, task_kind(c))
}

/// The row can be read.
pub open spec fn task_readable(row: Seq<SqlView>) -> bool {
    forall|c: int| 0 <= c < 16 ==> task_fault(row, c) is None
}

/// The row cannot be read, and `e` is the first thing that is wrong with it.
pub open spec fn task_refused(row: Seq<SqlView>, e: RowError) -> bool {
    exists|c: int|
        0 <= c < 16 && #[trigger] task_fault(row, c) == Some(e) && forall|k: int|
            0 <= k < c ==> task_fault(row, k) is None
}

/// The task that a row holds.
pub open spec fn task_of_row(row: Seq<SqlView>) -> TaskView {
    TaskView {
        task_id: id_value(row[0]->Text_0)->Some_0,
        status: recorded_status(row[1]->Text_0),
        progress: row[2]->Integer_0 as u8,
        estimated_time_remaining: cell_number(row[3]),
        current_step: cell_text(row[4]),
        error: cell_text(row[5]),
        created_at: cell_instant(row[6]),
        updated_at: cell_instant(row[7]),
        retry_count: row[8]->Integer_0 as u8,
        max_retries: row[9]->Integer_0 as u8,
        build_duration: cell_number(row[10]),
        priority: row[11]->Integer_0 as i32,
        file_id: row[12]->Text_0,
        file_path: row[13]->Text_0,
        output_path: cell_text(row[14]),
        user_id: row[15]->Text_0,
    }
}

pub fn read_task(row: &Vec<SqlValue>) -> (r: Result<Task, RowError>)
    ensures
        match r {
            Ok(t) => task_readable(cells(row@)) && t@ == task_of_row(cells(row@)) && t@.dated(),
            Err(e) => task_refused(cells(row@), e),
        },
{
    let ghost v = cells(row@);
    let task_id = match read_id(row, 0) {
        Ok(x) => x,
        Err(e) => {
            assert(task_fault(v, 0) == Some(e));
            return Err(e);
        },
    };
    assert(task_fault(v, 0) is None);
    let status_text = match read_text(row, 1) {
        Ok(x) => x,
        Err(e) => {
            assert(task_fault(v, 1) == Some(e));
            return Err(e);
        },
    };
    assert(task_fault(v, 1) is None);
    let progress = match read_byte(row, 2) {
        Ok(x) => x,
        Err(e) => {
            assert(task_fault(v, 2) == Some(e));
            return Err(e);
        },
    };
    assert(task_fault(v, 2) is None);
    let estimated_time_remaining = match read_number(row, 3) {
        Ok(x) => x,
        Err(e) => {
            assert(task_fault(v, 3) == Some(e));
            return Err(e);
        },
    };
    assert(task_fault(v, 3) is None);
    let current_step = match read_opt_text(row, 4) {
        Ok(x) => x,
        Err(e) => {
            assert(task_fault(v, 4) == Some(e));
            return Err(e);
        },
    };
    assert(task_fault(v, 4) is None);
    let error = match read_opt_text(row, 5) {
        Ok(x) => x,
        Err(e) => {
            assert(task_fault(v, 5) == Some(e));
            return Err(e);
        },
    };
    assert(task_fault(v, 5) is None);
    let created_at = match read_instant(row, 6) {
        Ok(x) => x,
        Err(e) => {
            assert(task_fault(v, 6) == Some(e));
            return Err(e);
        },
    };
    assert(task_fault(v, 6) is None);
    let updated_at = match read_instant(row, 7) {
        Ok(x) => x,
        Err(e) => {
            assert(task_fault(v, 7) == Some(e));
            return Err(e);
        },
    };
    assert(task_fault(v, 7) is None);
    let retry_count = match read_byte(row, 8) {
        Ok(x) => x,
        Err(e) => {
            assert(task_fault(v, 8) == Some(e));
            return Err(e);
        },
    };
    assert(task_fault(v, 8) is None);
    let max_retries = match read_byte(row, 9) {
        Ok(x) => x,
        Err(e) => {
            assert(task_fault(v, 9) == Some(e));
            return Err(e);
        },
    };
    assert(task_fault(v, 9) is None);
    let build_duration = match read_number(row, 10) {
        Ok(x) => x,
        Err(e) => {
            assert(task_fault(v, 10) == Some(e));
            return Err(e);
        },
    };
    assert(task_fault(v, 10) is None);
    let priority = match read_int32(row, 11) {
        Ok(x) => x,
        Err(e) => {
            assert(task_fault(v, 11) == Some(e));
            return Err(e);
        },
    };
    assert(task_fault(v, 11) is None);
    let file_id = match read_text(row, 12) {
        Ok(x) => x,
        Err(e) => {
            assert(task_fault(v, 12) == Some(e));
            return Err(e);
        },
    };
    assert(task_fault(v, 12) is None);
    let file_path = match read_text(row, 13) {
        Ok(x) => x,
        Err(e) => {
            assert(task_fault(v, 13) == Some(e));
            return Err(e);
        },
    };
    assert(task_fault(v, 13) is None);
    let output_path = match read_opt_text(row, 14) {
        Ok(x) => x,
        Err(e) => {
            assert(task_fault(v, 14) == Some(e));
            return Err(e);
        },
    };
    assert(task_fault(v, 14) is None);
    let user_id = match read_text(row, 15) {
        Ok(x) => x,
        Err(e) => {
            assert(task_fault(v, 15) == Some(e));
            return Err(e);
        },
    };
    assert(task_fault(v, 15) is None);
    let status = TaskStatus::from_recorded(status_text.as_str());
    Ok(
        Task {
            task_id,
            status,
            progress,
            estimated_time_remaining,
            current_step,
            error,
            created_at,
            updated_at,
            retry_count,
            max_retries,
            build_duration,
            priority,
            file_id,
            file_path,
            output_path,
            user_id,
        },
    )
}

/// The tasks of a reply.
pub open spec fn tasks_view(tasks: Seq<Task>) -> Seq<TaskView> {
    Seq::new(tasks.len(), |i: int| tasks[i]@)
}

/// All rows can be read.
pub open spec fn tasks_readable(rows: Seq<Seq<SqlView>>) -> bool {
    forall|i: int| 0 <= i < rows.len() ==> task_readable(#[trigger] rows[i])
}

/// `e` is the first thing that is wrong with the rows.
pub open spec fn tasks_refused(rows: Seq<Seq<SqlView>>, e: RowError) -> bool {
    exists|i: int|
        0 <= i < rows.len() && task_refused(#[trigger] rows[i], e) && forall|k: int|
            0 <= k < i ==> task_readable(#[trigger] rows[k])
}

/// All tasks of a reply, in its order.
pub fn read_tasks(rows: &Vec<Vec<SqlValue>>) -> (r: Result<Vec<Task>, RowError>)
    ensures
        match r {
            Ok(tasks) => tasks_readable(rows_view(rows@)) && tasks_view(tasks@) == rows_view(
                rows@,
            ).map_values(|row: Seq<SqlView>| task_of_row(row)) && forall|i: int|
                0 <= i < tasks@.len() ==> (#[trigger] tasks@[i])@.dated(),
            Err(e) => tasks_refused(rows_view(rows@), e),
        },
{
    let ghost v = rows_view(rows@);
    let mut tasks: Vec<Task> = Vec::new();
    let mut i: usize = 0;
    while i < rows.len()
        invariant
            i <= rows.len(),
            v == rows_view(rows@),
            tasks@.len() == i,
            forall|k: int| 0 <= k < i ==> task_readable(#[trigger] v[k]),
            forall|k: int|
                0 <= k < i ==> (#[trigger] tasks@[k])@ == task_of_row(v[k]) && tasks@[k]@.dated(),
        decreases rows.len() - i,
    {
        assert(v[i as int] == cells(rows@[i as int]@));
        match read_task(&rows[i]) {
            Ok(t) => tasks.push(t),
            Err(e) => return Err(e),
        }
        i += 1;
    }
    assert(tasks_view(tasks@) =~= v.map_values(|row: Seq<SqlView>| task_of_row(row)));
    Ok(tasks)
}

/// The first task of a reply, where there is one.
pub fn read_first_task(rows: &Vec<Vec<SqlValue>>) -> (r: Result<Option<Task>, RowError>)
    ensures
        match r {
            Ok(None) => rows@.len() == 0,
            Ok(Some(t)) => rows@.len() > 0 && task_readable(cells(rows@[0]@)) && t@ == task_of_row(
                cells(rows@[0]@),
            ) && t@.dated(),
            Err(e) => rows@.len() > 0 && task_refused(cells(rows@[0]@), e),
        },
{
    if rows.len() == 0 {
        return Ok(None);
    }
    match read_task(&rows[0]) {
        Ok(t) => Ok(Some(t)),
        Err(e) => Err(e),
    }
}

/// The identifiers in the first column of a reply: the texts that are none are left out.
pub open spec fn ids_of_rows(rows: Seq<Seq<SqlView>>) -> Seq<u128>
    decreases rows.len(),
{
    if rows.len() == 0 {
        Seq::empty()
    } else {
        match id_value(rows.last()[0]->Text_0) {
            Some(id) => ids_of_rows(rows.drop_last()).push(id),
            None => ids_of_rows(rows.drop_last()),
        }
    }
}

pub fn read_ids(rows: &Vec<Vec<SqlValue>>) -> (r: Result<Vec<u128>, RowError>)
    ensures
        match r {
            Ok(ids) => (forall|i: int|
                0 <= i < rows@.len() ==> cell_fault(
                    #[trigger] rows_view(rows@)[i],
                    0,
                    CellKind::Text,
                ) is None) && ids@ == ids_of_rows(rows_view(rows@)),
            Err(e) => exists|i: int|
                0 <= i < rows@.len() && cell_fault(
                    #[trigger] rows_view(rows@)[i],
                    0,
                    CellKind::Text,
                ) == Some(e) && forall|k: int|
                    0 <= k < i ==> cell_fault(
                        #[trigger] rows_view(rows@)[k],
                        0,
                        CellKind::Text,
                    ) is None,
        },
{
    let ghost v = rows_view(rows@);
    let mut ids: Vec<u128> = Vec::new();
    let mut i: usize = 0;
    assert(v.take(0) =~= Seq::<Seq<SqlView>>::empty());
    while i < rows.len()
        invariant
            i <= rows.len(),
            v == rows_view(rows@),
            forall|k: int| 0 <= k < i ==> cell_fault(#[trigger] v[k], 0, CellKind::Text) is None,
            ids@ == ids_of_rows(v.take(i as int)),
        decreases rows.len() - i,
    {
        assert(v[i as int] == cells(rows@[i as int]@));
        assert(v.take(i + 1).drop_last() =~= v.take(i as int));
        assert(v.take(i + 1).last() == v[i as int]);
        match read_text(&rows[i], 0) {
            Ok(s) => {
                if let Some(id) = parse_id(s.as_str()) {
                    ids.push(id);
                }
            },
            Err(e) => {
                return Err(e);
            },
        }
        i += 1;
    }
    assert(v.take(v.len() as int) =~= v);
    Ok(ids)
}

// ---------------------------------------------------------------------------
// Reading events
// ---------------------------------------------------------------------------
/// The column that is read in the given turn of an event.
pub open spec fn event_column(turn: int) -> int {
    if turn == 0 {
        3
    } else if turn == 1 {
        0
    } else if turn == 2 {
        1
    } else if turn == 3 {
        2
    } else {
        turn
    }
}

/// What column `c` of an event is read as.
pub open spec fn event_kind(c: int) -> CellKind {
    if c == 0 {
        CellKind::Int64
    } else if c == 1 {
        CellKind::Id
    } else if c == 2 {
        CellKind::Text
    } else if c == 6 {
        CellKind::Instant
    } else {
        CellKind::OptText
    }
}

/// What is wrong with the column that is read in the given turn.
pub open spec fn event_fault(row: Seq<SqlView>, turn: int) -> Option<RowError> {
    cell_fault(row, event_column(turn), event_kind(event_column(turn)))
}

/// The row can be read.
pub open spec fn event_readable(row: Seq<SqlView>) -> bool {
    forall|turn: int| 0 <= turn < 7 ==> event_fault(row, turn) is None
}

/// The row cannot be read, and `e` is the first thing that is wrong with it.
pub open spec fn event_refused(row: Seq<SqlView>, e: RowError) -> bool {
    exists|turn: int|
        0 <= turn < 7 && #[trigger] event_fault(row, turn) == Some(e) && forall|k: int|
            0 <= k < turn ==> event_fault(row, k) is None
}

/// The event that a row holds.
pub open spec fn event_of_row(row: Seq<SqlView>) -> TaskEventView {
    TaskEventView {
        id: row[0]->Integer_0 as i64,
        task_id: id_value(row[1]->Text_0)->Some_0,
        event_type: row[2]->Text_0,
        status: match cell_text(row[3]) {
            Some(s) => Some(recorded_status(s)),
            None => None,
        },
        message: cell_text(row[4]),
        worker_id: cell_text(row[5]),
        created_at: cell_instant(row[6]),
    }
}

pub fn read_event(row: &Vec<SqlValue>) -> (r: Result<TaskEvent, RowError>)
    ensures
        match r {
            Ok(t) => event_readable(cells(row@)) && t@ == event_of_row(cells(row@))
                && t.created_at.valid(),
            Err(e) => event_refused(cells(row@), e),
        },
{
    let ghost v = cells(row@);
    let status_text = match read_opt_text(row, 3) {
        Ok(x) => x,
        Err(e) => {
            assert(event_fault(v, 0) == Some(e));
            return Err(e);
        },
    };
    assert(event_fault(v, 0) is None);
    let id = match read_integer(row, 0) {
        Ok(x) => x,
        Err(e) => {
            assert(event_fault(v, 1) == Some(e));
            return Err(e);
        },
    };
    assert(event_fault(v, 1) is None);
    let task_id = match read_id(row, 1) {
        Ok(x) => x,
        Err(e) => {
            assert(event_fault(v, 2) == Some(e));
            return Err(e);
        },
    };
    assert(event_fault(v, 2) is None);
    let event_type = match read_text(row, 2) {
        Ok(x) => x,
        Err(e) => {
            assert(event_fault(v, 3) == Some(e));
            return Err(e);
        },
    };
    assert(event_fault(v, 3) is None);
    let message = match read_opt_text(row, 4) {
        Ok(x) => x,
        Err(e) => {
            assert(event_fault(v, 4) == Some(e));
            return Err(e);
        },
    };
    assert(event_fault(v, 4) is None);
    let worker_id = match read_opt_text(row, 5) {
        Ok(x) => x,
        Err(e) => {
            assert(event_fault(v, 5) == Some(e));
            return Err(e);
        },
    };
    assert(event_fault(v, 5) is None);
    let created_at = match read_instant(row, 6) {
        Ok(x) => x,
        Err(e) => {
            assert(event_fault(v, 6) == Some(e));
            return Err(e);
        },
    };
    assert(event_fault(v, 6) is None);
    let status = match status_text {
        Some(s) => Some(TaskStatus::from_recorded(s.as_str())),
        None => None,
    };
    Ok(TaskEvent { id, task_id, event_type, status, message, worker_id, created_at })
}

pub open spec fn events_view(events: Seq<TaskEvent>) -> Seq<TaskEventView> {
    Seq::new(events.len(), |i: int| events[i]@)
}

/// All events of a reply, in its order.
pub fn read_events(rows: &Vec<Vec<SqlValue>>) -> (r: Result<Vec<TaskEvent>, RowError>)
    ensures
        match r {
            Ok(events) => (forall|i: int|
                0 <= i < rows@.len() ==> event_readable(#[trigger] rows_view(rows@)[i]))
                && events_view(events@) == rows_view(rows@).map_values(
                |row: Seq<SqlView>| event_of_row(row),
            ),
            Err(e) => exists|i: int|
                0 <= i < rows@.len() && event_refused(#[trigger] rows_view(rows@)[i], e)
                    && forall|k: int|
                    0 <= k < i ==> event_readable(#[trigger] rows_view(rows@)[k]),
        },
{
    let ghost v = rows_view(rows@);
    let mut events: Vec<TaskEvent> = Vec::new();
    let mut i: usize = 0;
    while i < rows.len()
        invariant
            i <= rows.len(),
            v == rows_view(rows@),
            events@.len() == i,
            forall|k: int| 0 <= k < i ==> event_readable(#[trigger] v[k]),
            forall|k: int| 0 <= k < i ==> (#[trigger] events@[k])@ == event_of_row(v[k]),
        decreases rows.len() - i,
    {
        assert(v[i as int] == cells(rows@[i as int]@));
        match read_event(&rows[i]) {
            Ok(t) => events.push(t),
            Err(e) => return Err(e),
        }
        i += 1;
    }
    assert(events_view(events@) =~= v.map_values(|row: Seq<SqlView>| event_of_row(row)));
    Ok(events)
}

/// A text in a column of a task is read as it stands, whatever it holds, and only into the field of
/// that column; a missing text of a column that may lack one is read as none.
pub proof fn law_texts_of_a_task(row: Seq<SqlView>, text: Seq<char>)
    requires
        row.len() == 16,
        task_readable(row),
    ensures
        ({
            let t = task_of_row(row);
            let some = SqlView::Text(text);
            let none = SqlView::Null;
            &&& task_readable(row.update(4, some)) && task_readable(row.update(5, some))
            &&& task_readable(row.update(12, some)) && task_readable(row.update(13, some))
            &&& task_readable(row.update(14, some)) && task_readable(row.update(15, some))
            &&& task_readable(row.update(4, none)) && task_readable(row.update(5, none))
            &&& task_readable(row.update(14, none))
            &&& task_of_row(row.update(4, some)) == (TaskView { current_step: Some(text), ..t })
            &&& task_of_row(row.update(5, some)) == (TaskView { error: Some(text), ..t })
            &&& task_of_row(row.update(12, some)) == (TaskView { file_id: text, ..t })
            &&& task_of_row(row.update(13, some)) == (TaskView { file_path: text, ..t })
            &&& task_of_row(row.update(14, some)) == (TaskView { output_path: Some(text), ..t })
            &&& task_of_row(row.update(15, some)) == (TaskView { user_id: text, ..t })
            &&& task_of_row(row.update(4, none)) == (TaskView { current_step: None, ..t })
            &&& task_of_row(row.update(5, none)) == (TaskView { error: None, ..t })
            &&& task_of_row(row.update(14, none)) == (TaskView { output_path: None, ..t })
        }),
{
    let some = SqlView::Text(text);
    lemma_task_cell(row, 4, some);
    lemma_task_cell(row, 5, some);
    lemma_task_cell(row, 12, some);
    lemma_task_cell(row, 13, some);
    lemma_task_cell(row, 14, some);
    lemma_task_cell(row, 15, some);
    lemma_task_cell(row, 4, SqlView::Null);
    lemma_task_cell(row, 5, SqlView::Null);
    lemma_task_cell(row, 14, SqlView::Null);
}

proof fn lemma_task_cell(row: Seq<SqlView>, c: int, cell: SqlView)
    requires
        row.len() == 16,
        task_readable(row),
        c == 4 || c == 5 || c == 12 || c == 13 || c == 14 || c == 15,
        cell is Text || (cell is Null && (c == 4 || c == 5 || c == 14)),
    ensures
        task_readable(row.update(c, cell)),
{
    let after = row.update(c, cell);
    assert forall|k: int| 0 <= k < 16 implies task_fault(after, k) is None by {
        assert(task_fault(row, k) is None);
    }
}

/// A row that lacks a column, or has a value of a type that is never recorded in one, is not read
/// as a task.
pub proof fn law_broken_rows(row: Seq<SqlView>, c: int)
    requires
        0 <= c < 16,
    ensures
        row.len() <= c ==> !task_readable(row),
        row.len() == 16 ==> !task_readable(row.update(c, SqlView::Other)),
        row.len() == 16 && (c == 0 || c == 1 || c == 6 || c == 7 || c == 12 || c == 13 || c == 15)
            ==> !task_readable(row.update(c, SqlView::Null)),
{
    if row.len() <= c {
        assert(task_fault(row, c) is Some);
    }
    if row.len() == 16 {
        assert(task_fault(row.update(c, SqlView::Other), c) is Some);
        if c == 0 || c == 1 || c == 6 || c == 7 || c == 12 || c == 13 || c == 15 {
            assert(task_fault(row.update(c, SqlView::Null), c) is Some);
        }
    }
}

/// The identifiers of rows are told in the order of the rows, each that can be read, whatever the
/// others are.
pub proof fn law_ids_in_order(a: Seq<Seq<SqlView>>, b: Seq<Seq<SqlView>>, text: Seq<char>)
    ensures
        ids_of_rows(a + b) == ids_of_rows(a) + ids_of_rows(b),
        id_value(text) matches Some(id) ==> ids_of_rows(seq![seq![SqlView::Text(text)]]) == seq![id],
        id_value(text) is None ==> ids_of_rows(seq![seq![SqlView::Text(text)]]).len() == 0,
    decreases b.len(),
{
    reveal_with_fuel(ids_of_rows, 2);
    let one = seq![seq![SqlView::Text(text)]];
    assert(one.drop_last() =~= Seq::<Seq<SqlView>>::empty());
    assert(one.last()[0] == SqlView::Text(text));
    if id_value(text) is Some {
        assert(ids_of_rows(one) =~= seq![id_value(text)->0]);
    }
    if b.len() == 0 {
        assert(a + b =~= a);
        assert(ids_of_rows(a) + ids_of_rows(b) =~= ids_of_rows(a));
    } else {
        law_ids_in_order(a, b.drop_last(), text);
        assert((a + b).drop_last() =~= a + b.drop_last());
        assert((a + b).last() == b.last());
        assert(ids_of_rows(a + b) =~= ids_of_rows(a) + ids_of_rows(b));
    }
}

/// The texts of an event are read as they stand, and only into their own fields; one that is missing
/// is read as none.
pub proof fn law_texts_of_an_event(row: Seq<SqlView>, text: Seq<char>)
    requires
        row.len() == 7,
        event_readable(row),
    ensures
        ({
            let e = event_of_row(row);
            &&& event_readable(row.update(2, SqlView::Text(text)))
            &&& event_readable(row.update(4, SqlView::Text(text)))
            &&& event_readable(row.update(5, SqlView::Text(text)))
            &&& event_readable(row.update(4, SqlView::Null))
            &&& event_of_row(row.update(2, SqlView::Text(text))) == (TaskEventView {
                event_type: text,
                ..e
            })
            &&& event_of_row(row.update(4, SqlView::Text(text))) == (TaskEventView {
                message: Some(text),
                ..e
            })
            &&& event_of_row(row.update(5, SqlView::Text(text))) == (TaskEventView {
                worker_id: Some(text),
                ..e
            })
            &&& event_of_row(row.update(4, SqlView::Null)) == (TaskEventView { message: None, ..e })
        }),
{
    lemma_event_cell(row, 2, SqlView::Text(text));
    lemma_event_cell(row, 4, SqlView::Text(text));
    lemma_event_cell(row, 5, SqlView::Text(text));
    lemma_event_cell(row, 4, SqlView::Null);
}

proof fn lemma_event_cell(row: Seq<SqlView>, c: int, cell: SqlView)
    requires
        row.len() == 7,
        event_readable(row),
        c == 2 || c == 4 || c == 5,
        cell is Text || (cell is Null && c != 2),
    ensures
        event_readable(row.update(c, cell)),
{
    let after = row.update(c, cell);
    assert forall|turn: int| 0 <= turn < 7 implies event_fault(after, turn) is None by {
        assert(event_fault(row, turn) is None);
    }
}

} // verus!
