//! How the database is brought to the present schema, step by step.
use super::sql::{text_value, SqlValue, SqlView, Statement, StatementView};
use super::{plain_statement, time_value, Database};
use crate::text::{copy_texts, same_text, texts, texts_push};
use crate::time::Timestamp;
use vstd::prelude::*;

verus! {

/// The version of the present schema.
pub const LATEST_VERSION: i64 = 6;

pub const CREATE_MIGRATIONS: &'static str =
    "CREATE TABLE IF NOT EXISTS schema_migrations (version INTEGER PRIMARY KEY, name TEXT NOT NULL, applied_at TEXT NOT NULL)";

pub const RECORD_MIGRATION: &'static str =
    "INSERT INTO schema_migrations (version, name, applied_at) VALUES (?, ?, ?)";

pub const TASK_COLUMNS: &'static str = "PRAGMA table_info(tasks)";

pub const CREATE_TASKS: &'static str =
    "CREATE TABLE IF NOT EXISTS tasks (task_id TEXT PRIMARY KEY, status TEXT NOT NULL, progress INTEGER NOT NULL DEFAULT 0, estimated_time_remaining INTEGER, current_step TEXT, error TEXT, created_at TEXT NOT NULL, updated_at TEXT NOT NULL, retry_count INTEGER NOT NULL DEFAULT 0, max_retries INTEGER NOT NULL DEFAULT 3, build_duration INTEGER, priority INTEGER NOT NULL DEFAULT 0, file_path TEXT NOT NULL, output_path TEXT, user_id TEXT NOT NULL)";

pub const ADD_BUILD_DURATION: &'static str = "ALTER TABLE tasks ADD COLUMN build_duration INTEGER";

pub const ADD_PRIORITY: &'static str =
    "ALTER TABLE tasks ADD COLUMN priority INTEGER NOT NULL DEFAULT 0";

pub const ADD_NEXT_RUN_AT: &'static str = "ALTER TABLE tasks ADD COLUMN next_run_at TEXT";

pub const ADD_LEASE_UNTIL: &'static str = "ALTER TABLE tasks ADD COLUMN lease_until TEXT";

pub const ADD_LOCKED_BY: &'static str = "ALTER TABLE tasks ADD COLUMN locked_by TEXT";

pub const ADD_LAST_ERROR: &'static str = "ALTER TABLE tasks ADD COLUMN last_error TEXT";

pub const INDEX_QUEUE: &'static str =
    "CREATE INDEX IF NOT EXISTS idx_tasks_queue ON tasks(status, next_run_at, priority, created_at)";

pub const CREATE_EVENTS: &'static str =
    "CREATE TABLE IF NOT EXISTS task_events (id INTEGER PRIMARY KEY AUTOINCREMENT, task_id TEXT NOT NULL, event_type TEXT NOT NULL, status TEXT, message TEXT, worker_id TEXT, created_at TEXT NOT NULL)";

pub const INDEX_EVENTS_TASK: &'static str =
    "CREATE INDEX IF NOT EXISTS idx_task_events_task_id ON task_events(task_id)";

pub const INDEX_EVENTS_TIME: &'static str =
    "CREATE INDEX IF NOT EXISTS idx_task_events_created_at ON task_events(created_at)";

pub const ADD_FILE_ID: &'static str =
    "ALTER TABLE tasks ADD COLUMN file_id TEXT NOT NULL DEFAULT ''";

pub const INDEX_FILE_USER: &'static str =
    "CREATE INDEX IF NOT EXISTS idx_tasks_file_user ON tasks(file_id, user_id)";

/// One step of a migration.
#[derive(Clone, Copy, Debug)]
pub enum MigrationStep {
    /// Runs a statement.
    Run(&'static str),
    /// Runs a statement unless the table of tasks already has the column.
    AddColumn(&'static str, &'static str),
    /// Records that a migration is done.
    Record(i64, &'static str),
}

pub enum StepView {
    Run(Seq<char>),
    AddColumn(Seq<char>, Seq<char>),
    Record(int, Seq<char>),
}

impl View for MigrationStep {
    type V = StepView;

    open spec fn view(&self) -> StepView {
        match self {
            MigrationStep::Run(sql) => StepView::Run(sql@),
            MigrationStep::AddColumn(column, sql) => StepView::AddColumn(column@, sql@),
            MigrationStep::Record(version, name) => StepView::Record(*version as int, name@),
        }
    }
}

pub open spec fn steps_view(steps: Seq<MigrationStep>) -> Seq<StepView> {
    Seq::new(steps.len(), |i: int| steps[i]@)
}

/// The steps of the migration to a version.
pub open spec fn migration(version: int) -> Seq<StepView> {
    if version == 1 {
        seq![StepView::Run(CREATE_TASKS@), StepView::Record(1, "create_tasks_table"@)]
    } else if version == 2 {
        seq![
            StepView::AddColumn("build_duration"@, ADD_BUILD_DURATION@),
            StepView::Record(2, "add_build_duration_column"@),
        ]
    } else if version == 3 {
        seq![
            StepView::AddColumn("priority"@, ADD_PRIORITY@),
            StepView::Record(3, "add_task_priority_column"@),
        ]
    } else if version == 4 {
        seq![
            StepView::AddColumn("next_run_at"@, ADD_NEXT_RUN_AT@),
            StepView::AddColumn("lease_until"@, ADD_LEASE_UNTIL@),
            StepView::AddColumn("locked_by"@, ADD_LOCKED_BY@),
            StepView::AddColumn("last_error"@, ADD_LAST_ERROR@),
            StepView::Run(INDEX_QUEUE@),
            StepView::Record(4, "add_queue_columns"@),
        ]
    } else if version == 5 {
        seq![
            StepView::Run(CREATE_EVENTS@),
            StepView::Run(INDEX_EVENTS_TASK@),
            StepView::Run(INDEX_EVENTS_TIME@),
            StepView::Record(5, "create_task_events_table"@),
        ]
    } else if version == 6 {
        seq![
            StepView::AddColumn("file_id"@, ADD_FILE_ID@),
            StepView::Run(INDEX_FILE_USER@),
            StepView::Record(6, "add_task_file_id_column"@),
        ]
    } else {
        seq![]
    }
}

/// The steps from version `first` on that a database of version `current` still needs.
pub open spec fn pending(first: int, current: int) -> Seq<StepView>
    decreases LATEST_VERSION + 1 - first,
{
    if first > LATEST_VERSION {
        seq![]
    } else if current < first {
        migration(first) + pending(first + 1, current)
    } else {
        pending(first + 1, current)
    }
}

/// The names of the migrations that the steps record, in order.
pub open spec fn recorded_names(steps: Seq<StepView>) -> Seq<Seq<char>>
    decreases steps.len(),
{
    if steps.len() == 0 {
        seq![]
    } else {
        match steps.last() {
            StepView::Record(_, name) => recorded_names(steps.drop_last()).push(name),
            _ => recorded_names(steps.drop_last()),
        }
    }
}

/// The versions that the steps record, in order.
pub open spec fn recorded_versions(steps: Seq<StepView>) -> Seq<int>
    decreases steps.len(),
{
    if steps.len() == 0 {
        seq![]
    } else {
        match steps.last() {
            StepView::Record(version, _) => recorded_versions(steps.drop_last()).push(version),
            _ => recorded_versions(steps.drop_last()),
        }
    }
}

fn migration_steps(version: i64) -> (r: Vec<MigrationStep>)
    ensures
        steps_view(r@) == migration(version as int),
{
    let r = if version == 1 {
        vec![MigrationStep::Run(CREATE_TASKS), MigrationStep::Record(1, "create_tasks_table")]
    } else if version == 2 {
        vec![
            MigrationStep::AddColumn("build_duration", ADD_BUILD_DURATION),
            MigrationStep::Record(2, "add_build_duration_column"),
        ]
    } else if version == 3 {
        vec![
            MigrationStep::AddColumn("priority", ADD_PRIORITY),
            MigrationStep::Record(3, "add_task_priority_column"),
        ]
    } else if version == 4 {
        vec![
            MigrationStep::AddColumn("next_run_at", ADD_NEXT_RUN_AT),
            MigrationStep::AddColumn("lease_until", ADD_LEASE_UNTIL),
            MigrationStep::AddColumn("locked_by", ADD_LOCKED_BY),
            MigrationStep::AddColumn("last_error", ADD_LAST_ERROR),
            MigrationStep::Run(INDEX_QUEUE),
            MigrationStep::Record(4, "add_queue_columns"),
        ]
    } else if version == 5 {
        vec![
            MigrationStep::Run(CREATE_EVENTS),
            MigrationStep::Run(INDEX_EVENTS_TASK),
            MigrationStep::Run(INDEX_EVENTS_TIME),
            MigrationStep::Record(5, "create_task_events_table"),
        ]
    } else if version == 6 {
        vec![
            MigrationStep::AddColumn("file_id", ADD_FILE_ID),
            MigrationStep::Run(INDEX_FILE_USER),
            MigrationStep::Record(6, "add_task_file_id_column"),
        ]
    } else {
        Vec::new()
    };
    assert(steps_view(r@) =~= migration(version as int));
    r
}

fn pending_steps(first: i64, current: i64) -> (r: Vec<MigrationStep>)
    requires
        1 <= first <= LATEST_VERSION,
    ensures
        steps_view(r@) == pending(first as int, current as int),
{
    let mut r: Vec<MigrationStep> = Vec::new();
    let mut v: i64 = first;
    let ghost whole = pending(first as int, current as int);
    assert(steps_view(r@) + pending(first as int, current as int) =~= whole);
    while v <= LATEST_VERSION
        invariant
            1 <= v <= LATEST_VERSION + 1,
            steps_view(r@) + pending(v as int, current as int) == whole,
        decreases LATEST_VERSION + 1 - v,
    {
        if current < v {
            let mut next = migration_steps(v);
            let ghost before = steps_view(r@);
            let ghost added = steps_view(next@);
            r.append(&mut next);
            assert(steps_view(r@) =~= before + added);
            assert(before + (added + pending(v + 1, current as int)) =~= (before + added)
                + pending(v + 1, current as int));
        }
        v += 1;
    }
    assert(steps_view(r@) + seq![] =~= steps_view(r@));
    r
}

/// What to do next to the database.
#[derive(Debug)]
pub enum MigrationAction {
    /// Run the statement, then call `executed`; a failure ends the migration.
    Execute(Statement),
    /// Run the query for the columns of the table of tasks, then call `inspected` with their names.
    Inspect(Statement),
    /// The schema is up to date.
    Done,
}

/// A migration that is under way.
#[derive(Debug)]
pub struct MigrationRun {
    steps: Vec<MigrationStep>,
    at: usize,
    /// The column of the step at hand is known to be missing.
    missing: bool,
    applied: Vec<String>,
}

pub struct MigrationRunView {
    pub steps: Seq<StepView>,
    pub at: int,
    pub missing: bool,
    /// The names of the migrations that were recorded.
    pub applied: Seq<Seq<char>>,
}

impl View for MigrationRun {
    type V = MigrationRunView;

    closed spec fn view(&self) -> MigrationRunView {
        MigrationRunView {
            steps: steps_view(self.steps@),
            at: self.at as int,
            missing: self.missing,
            applied: texts(self.applied@),
        }
    }
}

pub open spec fn record_statement(version: int, name: Seq<char>, now: Timestamp) -> StatementView {
    plain_statement(
        RECORD_MIGRATION@,
        seq![SqlView::Integer(version), SqlView::Text(name), time_value(now)],
    )
}

impl MigrationRunView {
    pub open spec fn finished(self) -> bool {
        self.at == self.steps.len()
    }

    /// The step at hand needs to know the columns first.
    pub open spec fn inspecting(self) -> bool {
        !self.finished() && self.steps[self.at] is AddColumn && !self.missing
    }

    /// The statement of the step at hand.
    pub open spec fn statement(self, now: Timestamp) -> StatementView {
        match self.steps[self.at] {
            StepView::Run(sql) => plain_statement(sql, seq![]),
            StepView::AddColumn(_, sql) => plain_statement(sql, seq![]),
            StepView::Record(version, name) => record_statement(version, name, now),
        }
    }

    pub open spec fn advanced(self) -> MigrationRunView {
        MigrationRunView {
            at: self.at + 1,
            missing: false,
            applied: match self.steps[self.at] {
                StepView::Record(_, name) => self.applied.push(name),
                _ => self.applied,
            },
            ..self
        }
    }
}

impl MigrationRun {
    pub closed spec fn wf(&self) -> bool {
        &&& self.at <= self.steps@.len()
        &&& texts(self.applied@) == recorded_names(steps_view(self.steps@).take(self.at as int))
        &&& self.missing ==> self.at < self.steps@.len()
    }

    fn start(steps: Vec<MigrationStep>) -> (r: MigrationRun)
        ensures
            r.wf(),
            r@ == (MigrationRunView {
                steps: steps_view(steps@),
                at: 0,
                missing: false,
                applied: seq![],
            }),
    {
        let r = MigrationRun { steps, at: 0, missing: false, applied: Vec::new() };
        assert(steps_view(r.steps@).take(0) =~= seq![]);
        assert(texts(r.applied@) =~= seq![]);
        r
    }

    /// What to do next, at a given time.
    pub fn next_at(&self, now: &Timestamp) -> (r: MigrationAction)
        requires
            self.wf(),
            now.valid(),
        ensures
            match r {
                MigrationAction::Done => self@.finished(),
                MigrationAction::Inspect(s) => self@.inspecting() && s@ == plain_statement(
                    TASK_COLUMNS@,
                    seq![],
                ),
                MigrationAction::Execute(s) => !self@.finished() && !self@.inspecting() && s@
                    == self@.statement(*now),
            },
    {
        if self.at == self.steps.len() {
            return MigrationAction::Done;
        }
        assert(self@.steps[self@.at] == self.steps@[self.at as int]@);
        match self.steps[self.at] {
            MigrationStep::Run(sql) => {
                let s = Statement { sql, params: Vec::new() };
                assert(s@.params =~= seq![]);
                MigrationAction::Execute(s)
            },
            MigrationStep::AddColumn(_, sql) => {
                if self.missing {
                    let s = Statement { sql, params: Vec::new() };
                    assert(s@.params =~= seq![]);
                    MigrationAction::Execute(s)
                } else {
                    let s = Statement { sql: TASK_COLUMNS, params: Vec::new() };
                    assert(s@.params =~= seq![]);
                    MigrationAction::Inspect(s)
                }
            },
            MigrationStep::Record(version, name) => {
                let params = vec![
                    SqlValue::Integer(version),
                    text_value(name),
                    SqlValue::Text(now.to_rfc3339()),
                ];
                let s = Statement { sql: RECORD_MIGRATION, params };
                assert(s@.params =~= record_statement(version as int, name@, *now).params);
                MigrationAction::Execute(s)
            },
        }
    }

    /// What to do next.
    pub fn next(&self) -> (r: MigrationAction)
        requires
            self.wf(),
        ensures
            match r {
                MigrationAction::Done => self@.finished(),
                MigrationAction::Inspect(s) => self@.inspecting() && s@ == plain_statement(
                    TASK_COLUMNS@,
                    seq![],
                ),
                MigrationAction::Execute(s) => !self@.finished() && !self@.inspecting() && exists|
                    now: Timestamp,
                | #[trigger]
                    now.plain() && s@ == self@.statement(now),
            },
    {
        let now = Timestamp::now();
        self.next_at(&now)
    }

    /// The statement that `next` gave was run.
    pub fn executed(&mut self)
        requires
            old(self).wf(),
            !old(self)@.finished(),
            !old(self)@.inspecting(),
        ensures
            final(self).wf(),
            final(self)@ == old(self)@.advanced(),
    {
        broadcast use texts_push;

        let ghost v = steps_view(self.steps@);
        assert(self.at < self.steps.len());
        proof {
            assert(v.take(self.at + 1).drop_last() =~= v.take(self.at as int));
            assert(v.take(self.at + 1).last() == self.steps@[self.at as int]@);
        }
        if let MigrationStep::Record(_, name) = self.steps[self.at] {
            self.applied.push(name.to_owned());
        }
        self.at = self.at + 1;
        self.missing = false;
    }

    /// The table of tasks has the given columns: a column that it has is not added again.
    pub fn inspected(&mut self, columns: &Vec<String>)
        requires
            old(self).wf(),
            old(self)@.inspecting(),
        ensures
            final(self).wf(),
            final(self)@ == if texts(columns@).contains(
                old(self)@.steps[old(self)@.at]->AddColumn_0,
            ) {
                old(self)@.advanced()
            } else {
                MigrationRunView { missing: true, ..old(self)@ }
            },
    {
        let ghost v = steps_view(self.steps@);
        assert(self.at < self.steps.len());
        assert(v[self.at as int] == self.steps@[self.at as int]@);
        if let MigrationStep::AddColumn(column, _) = self.steps[self.at] {
            if column_exists(columns, column) {
                proof {
                    assert(v.take(self.at + 1).drop_last() =~= v.take(self.at as int));
                    assert(v.take(self.at + 1).last() == v[self.at as int]);
                }
                self.at = self.at + 1;
            } else {
                self.missing = true;
            }
        }
    }

    /// The names of the migrations that were recorded so far.
    pub fn applied(&self) -> (r: Vec<String>)
        requires
            self.wf(),
        ensures
            texts(r@) == self@.applied,
            texts(r@) == recorded_names(self@.steps.take(self@.at)),
    {
        copy_texts(&self.applied)
    }
}

/// Whether a column is among the columns of a table.
pub fn column_exists(columns: &Vec<String>, column: &str) -> (r: bool)
    ensures
        r == texts(columns@).contains(column@),
{
    let mut i: usize = 0;
    while i < columns.len()
        invariant
            i <= columns.len(),
            forall|k: int| 0 <= k < i ==> columns@[k]@ != column@,
        decreases columns.len() - i,
    {
        if same_text(columns[i].as_str(), column) {
            assert(texts(columns@)[i as int] == column@);
            return true;
        }
        i += 1;
    }
    assert forall|k: int| 0 <= k < texts(columns@).len() implies texts(columns@)[k] != column@ by {
        assert(texts(columns@)[k] == columns@[k]@);
    }
    false
}

/// The version of a database, zero where it cannot be told.
pub open spec fn known_version(version: Option<i64>) -> int {
    match version {
        Some(v) => v as int,
        None => 0,
    }
}

impl Database {
    /// The statement that is run before all others: it makes the table of migrations.
    pub fn init_tables(&self) -> (r: Statement)
        ensures
            r@ == plain_statement(CREATE_MIGRATIONS@, seq![]),
    {
        let r = Statement { sql: CREATE_MIGRATIONS, params: Vec::new() };
        assert(r@.params =~= seq![]);
        r
    }

    /// Brings a database of the given version up to date.
    pub fn run_migrations(&self, version: Option<i64>) -> (r: MigrationRun)
        ensures
            r.wf(),
            r@ == (MigrationRunView {
                steps: pending(1, known_version(version)),
                at: 0,
                missing: false,
                applied: seq![],
            }),
    {
        let current = match version {
            Some(v) => v,
            None => 0,
        };
        MigrationRun::start(pending_steps(1, current))
    }

    /// Brings a database that has its first tables up to date.
    pub fn run_pending_migrations(&self, version: Option<i64>) -> (r: MigrationRun)
        ensures
            r.wf(),
            r@ == (MigrationRunView {
                steps: pending(2, known_version(version)),
                at: 0,
                missing: false,
                applied: seq![],
            }),
    {
        let current = match version {
            Some(v) => v,
            None => 0,
        };
        MigrationRun::start(pending_steps(2, current))
    }
}

// ---------------------------------------------------------------------------
// Laws
// ---------------------------------------------------------------------------
/// A database of the latest version needs no step.
pub proof fn law_up_to_date(first: int, current: int)
    requires
        current >= LATEST_VERSION,
    ensures
        pending(first, current) == Seq::<StepView>::empty(),
    decreases LATEST_VERSION + 1 - first,
{
    if first <= LATEST_VERSION {
        law_up_to_date(first + 1, current);
    }
}

proof fn lemma_versions_add(a: Seq<StepView>, b: Seq<StepView>)
    ensures
        recorded_versions(a + b) == recorded_versions(a) + recorded_versions(b),
    decreases b.len(),
{
    if b.len() == 0 {
        assert(a + b =~= a);
        assert(recorded_versions(a) + seq![] =~= recorded_versions(a));
    } else {
        lemma_versions_add(a, b.drop_last());
        assert((a + b).drop_last() =~= a + b.drop_last());
        assert((a + b).last() == b.last());
        assert(recorded_versions(a + b) =~= recorded_versions(a) + recorded_versions(b));
    }
}

proof fn lemma_one_version(version: int)
    requires
        1 <= version <= LATEST_VERSION,
    ensures
        recorded_versions(migration(version)) == seq![version],
{
    reveal_with_fuel(recorded_versions, 8);
    let m = migration(version);
    assert(recorded_versions(m.drop_last()) =~= seq![]) by {
        assert(m.drop_last().len() <= 5);
        assert(forall|i: int| 0 <= i < m.drop_last().len() ==> !(#[trigger] m.drop_last()[i] is Record));
        lemma_no_versions(m.drop_last());
    }
    assert(recorded_versions(m) =~= seq![version]);
}

proof fn lemma_no_versions(steps: Seq<StepView>)
    requires
        forall|i: int| 0 <= i < steps.len() ==> !(#[trigger] steps[i] is Record),
    ensures
        recorded_versions(steps) == Seq::<int>::empty(),
    decreases steps.len(),
{
    if steps.len() > 0 {
        assert forall|i: int| 0 <= i < steps.drop_last().len() implies !(#[trigger] steps.drop_last()[i] is Record) by {
            assert(steps.drop_last()[i] == steps[i]);
        }
        lemma_no_versions(steps.drop_last());
        assert(steps.last() == steps[steps.len() - 1]);
    }
}

/// A database of any version from `first - 1` on is brought up to date: every later version is
/// recorded, once and in order, and the last one recorded is the latest.
pub proof fn law_every_version_is_recorded(first: int, current: int)
    requires
        1 <= first <= LATEST_VERSION + 1,
        first - 1 <= current <= LATEST_VERSION,
    ensures
        recorded_versions(pending(first, current)) == Seq::new(
            (LATEST_VERSION - current) as nat,
            |i: int| current + 1 + i,
        ),
    decreases LATEST_VERSION + 1 - first,
{
    let want = Seq::new((LATEST_VERSION - current) as nat, |i: int| current + 1 + i);
    if first > LATEST_VERSION {
        assert(recorded_versions(pending(first, current)) =~= want);
    } else if current < first {
        lemma_rest(first, current);
        assert(recorded_versions(pending(first, current)) =~= want);
    } else {
        law_every_version_is_recorded(first + 1, current);
    }
}

proof fn lemma_rest(first: int, current: int)
    requires
        1 <= first <= LATEST_VERSION + 1,
        current < first,
    ensures
        recorded_versions(pending(first, current)) == Seq::new(
            (LATEST_VERSION + 1 - first) as nat,
            |i: int| first + i,
        ),
    decreases LATEST_VERSION + 1 - first,
{
    let want = Seq::new((LATEST_VERSION + 1 - first) as nat, |i: int| first + i);
    if first <= LATEST_VERSION {
        lemma_rest(first + 1, current);
        lemma_versions_add(migration(first), pending(first + 1, current));
        lemma_one_version(first);
        assert(recorded_versions(pending(first, current)) =~= want);
    } else {
        assert(recorded_versions(pending(first, current)) =~= want);
    }
}

/// Once the first tables are there, both ways of migrating need the same steps.
pub proof fn law_same_steps_once_created(current: int)
    requires
        current >= 1,
    ensures
        pending(1, current) == pending(2, current),
{
}

/// A migration goes through its steps one after the other. A statement is run as it is written, a
/// migration is recorded under its version and name, and a column is looked for before it is added.
pub proof fn law_steps_in_order(r: MigrationRunView, now: Timestamp)
    requires
        0 <= r.at < r.steps.len(),
    ensures
        r.advanced().at == r.at + 1,
        r.advanced().steps == r.steps,
        !r.advanced().missing,
        r.inspecting() <==> r.steps[r.at] is AddColumn && !r.missing,
        r.steps[r.at] matches StepView::Run(sql) ==> r.statement(now).sql == sql && r.statement(
            now,
        ).params.len() == 0 && r.advanced().applied == r.applied,
        r.steps[r.at] matches StepView::AddColumn(_, sql) ==> r.statement(now).sql == sql
            && r.statement(now).params.len() == 0 && r.advanced().applied == r.applied,
        r.steps[r.at] matches StepView::Record(version, name) ==> r.statement(now).params == seq![
            SqlView::Integer(version),
            SqlView::Text(name),
            time_value(now),
        ] && r.advanced().applied == r.applied.push(name),
{
}

/// All steps of all versions that a database lacks are pending, and they are the steps of these
/// versions one after the other.
pub proof fn law_missing_versions_are_pending(first: int, current: int, version: int, i: int)
    requires
        1 <= first <= version <= 6,
        current < version,
        0 <= i < migration(version).len(),
    ensures
        pending(first, current).contains(migration(version)[i]),
    decreases version - first,
{
    let all = pending(first, current);
    let rest = pending(first + 1, current);
    if first == version {
        assert(all[i] == migration(version)[i]);
    } else {
        law_missing_versions_are_pending(first + 1, current, version, i);
        let k = choose|k: int| 0 <= k < rest.len() && rest[k] == migration(version)[i];
        if current < first {
            assert(all[migration(first).len() + k] == rest[k]);
        } else {
            assert(all[k] == rest[k]);
        }
    }
}

/// A database that tells its version has it, whatever it is, and one that does not has none.
pub proof fn law_version_as_told(version: i64)
    ensures
        known_version(Some(version)) == version,
        known_version(None) == 0,
{
}

} // verus!
