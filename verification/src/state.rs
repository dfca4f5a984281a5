//! What the service keeps in memory: the tasks, the counters and the queue's limit.
use crate::assets::{
    android_library, asset_root_of, unpack_assets, AssetPlan, EmbeddedAsset,
};
use crate::database::sql::{statements_view, SqlView, Statement};
use crate::database::{
    cancel_statements, count_statement, enqueue_statements, insert_task_statement,
    plain_statement, status_value, Database, OLDEST_QUEUED,
};
use crate::models::task::{Task, TaskStatus, TaskView};
use crate::path::{path_joined, System};
use crate::table::{drop_task, get_task, new_table, put_task, table_items};
use crate::time::Timestamp;
use dashmap::DashMap;
use vstd::prelude::*;

verus! {

/// Why a task is cancelled that waited too long.
pub const OVERFLOW_REASON: &'static str = "Cancelled due to queue overflow";

pub struct AppState {
    /// Whose paths the directories are.
    pub system: System,
    pub tasks: DashMap<u128, Task>,
    pub upload_dir: String,
    pub tiecc_dir: String,
    pub stdlib_dir: String,
    /// How many tasks may wait.
    pub queue_capacity: usize,
    pub database: Database,
    pub total_tasks: u64,
    pub completed_tasks: u64,
    pub failed_tasks: u64,
    pub active_workers: u64,
    pub max_retries: u8,
}

/// The state as the contracts speak of it.
pub struct StateView {
    pub system: System,
    pub tasks: Map<u128, TaskView>,
    pub upload_dir: Seq<char>,
    pub tiecc_dir: Seq<char>,
    pub stdlib_dir: Seq<char>,
    pub queue_capacity: usize,
    pub database_path: Seq<char>,
    pub total_tasks: u64,
    pub completed_tasks: u64,
    pub failed_tasks: u64,
    pub active_workers: u64,
    pub max_retries: u8,
}

impl View for AppState {
    type V = StateView;

    open spec fn view(&self) -> StateView {
        StateView {
            system: self.system,
            tasks: table_items(self.tasks),
            upload_dir: self.upload_dir@,
            tiecc_dir: self.tiecc_dir@,
            stdlib_dir: self.stdlib_dir@,
            queue_capacity: self.queue_capacity,
            database_path: self.database.path@,
            total_tasks: self.total_tasks,
            completed_tasks: self.completed_tasks,
            failed_tasks: self.failed_tasks,
            active_workers: self.active_workers,
            max_retries: self.max_retries,
        }
    }
}

/// One more on a counter, which starts again at zero after its greatest value.
pub open spec fn counted(n: u64) -> u64 {
    if n == u64::MAX {
        0
    } else {
        (n + 1) as u64
    }
}

pub fn count_up(n: u64) -> (r: u64)
    ensures
        r == counted(n),
{
    if n == u64::MAX {
        0
    } else {
        n + 1
    }
}

/// A table with the tasks of a list put into it, one after the other.
pub open spec fn with_tasks(table: Map<u128, TaskView>, tasks: Seq<TaskView>) -> Map<
    u128,
    TaskView,
>
    decreases tasks.len(),
{
    if tasks.len() == 0 {
        table
    } else {
        with_tasks(table, tasks.drop_last()).insert(tasks.last().task_id, tasks.last())
    }
}

pub open spec fn views(tasks: Seq<Task>) -> Seq<TaskView> {
    Seq::new(tasks.len(), |i: int| tasks[i]@)
}

/// A task that waits again.
pub open spec fn queued_task(t: TaskView, now: Timestamp) -> TaskView {
    TaskView {
        status: TaskStatus::Queued,
        current_step: Some("Queued"@),
        updated_at: now,
        ..t
    }
}

/// A task that is cancelled because too many wait.
pub open spec fn overflowed_task(t: TaskView, now: Timestamp) -> TaskView {
    TaskView {
        status: TaskStatus::Cancelled,
        error: Some(OVERFLOW_REASON@),
        updated_at: now,
        ..t
    }
}

impl StateView {
    /// The state in which task `id`, where it is there, is `f` of what it was.
    pub open spec fn with_task(self, id: u128, f: spec_fn(TaskView) -> TaskView) -> StateView {
        if self.tasks.contains_key(id) {
            StateView { tasks: self.tasks.insert(id, f(self.tasks[id])), ..self }
        } else {
            self
        }
    }

    /// The state in which the tasks of a list are cancelled because too many wait.
    pub open spec fn with_overflowed(self, ids: Seq<u128>, now: Timestamp) -> StateView
        decreases ids.len(),
    {
        if ids.len() == 0 {
            self
        } else {
            self.with_overflowed(ids.drop_last(), now).with_task(
                ids.last(),
                |t: TaskView| overflowed_task(t, now),
            )
        }
    }
}

/// How many of the oldest waiting tasks are cancelled when one more is to wait.
pub open spec fn overflow(queued: int, max: int) -> int {
    if queued < max {
        0
    } else {
        queued + 1 - max
    }
}

/// How many of the oldest waiting tasks are cancelled when one more is to wait.
pub fn queue_overflow(queued: u64, max_queue_size: usize) -> (r: u64)
    requires
        queued <= i64::MAX,
    ensures
        r == overflow(queued as int, max_queue_size as int),
{
    let max = max_queue_size as u64;
    if queued >= max {
        let over = (queued + 1).saturating_sub(max);
        if over > 1 {
            over
        } else {
            1
        }
    } else {
        0
    }
}

/// A queue that holds any task at all holds no more tasks than it may, once the overflow was
/// cancelled and one task was added.
pub proof fn law_queue_keeps_its_capacity(queued: int, max: int)
    requires
        0 <= queued,
        1 <= max,
    ensures
        0 <= overflow(queued, max) <= queued,
        queued - overflow(queued, max) + 1 <= max,
{
}

/// No more tasks are cancelled than have to be: none where there is room, and else so many that
/// the queue is full with the new task.
pub proof fn law_no_more_than_needed(queued: int, max: int)
    requires
        0 <= queued,
        1 <= max,
    ensures
        queued < max ==> overflow(queued, max) == 0,
        queued >= max ==> queued - overflow(queued, max) + 1 == max,
{
}

/// A counter goes up by one.
pub proof fn law_counters_go_up(n: u64)
    requires
        n < u64::MAX,
    ensures
        counted(n) == n + 1,
{
}

// ---------------------------------------------------------------------------
// Queueing a task
// ---------------------------------------------------------------------------
/// How far a task has come on its way into the queue.
#[derive(Debug)]
pub enum QueueStage {
    /// The waiting tasks are to be counted.
    Count,
    /// So many of the oldest ones are to be looked up.
    Fetch(u64),
    /// These are to be cancelled.
    Cancel(Vec<u128>),
    /// The task is to be put into the queue.
    Put,
    /// The task waits.
    Done,
}

pub enum QueueView {
    Count,
    Fetch(u64),
    Cancel(Seq<u128>),
    Put,
    Done,
}

impl View for QueueStage {
    type V = QueueView;

    open spec fn view(&self) -> QueueView {
        match self {
            QueueStage::Count => QueueView::Count,
            QueueStage::Fetch(n) => QueueView::Fetch(*n),
            QueueStage::Cancel(ids) => QueueView::Cancel(ids@),
            QueueStage::Put => QueueView::Put,
            QueueStage::Done => QueueView::Done,
        }
    }
}

/// What the database answered.
#[derive(Debug)]
pub enum QueueReply {
    /// The statements were run, or failed.
    Over,
    /// So many tasks wait.
    Counted(u64),
    /// The tasks that were looked up.
    Found(Vec<u128>),
}

pub enum QueueReplyView {
    Over,
    Counted(u64),
    Found(Seq<u128>),
}

impl View for QueueReply {
    type V = QueueReplyView;

    open spec fn view(&self) -> QueueReplyView {
        match self {
            QueueReply::Over => QueueReplyView::Over,
            QueueReply::Counted(n) => QueueReplyView::Counted(*n),
            QueueReply::Found(ids) => QueueReplyView::Found(ids@),
        }
    }
}

impl QueueView {
    /// The stage that a reply leads to, in a queue for `max` tasks. A query that fails leaves the
    /// queue as it is: the task is put into it all the same.
    pub open spec fn after(self, reply: QueueReplyView, max: int) -> QueueView {
        match self {
            QueueView::Count => match reply {
                QueueReplyView::Counted(n) => if n < max {
                    QueueView::Put
                } else {
                    QueueView::Fetch(overflow(n as int, max) as u64)
                },
                _ => QueueView::Put,
            },
            QueueView::Fetch(_) => match reply {
                QueueReplyView::Found(ids) => QueueView::Cancel(ids),
                _ => QueueView::Put,
            },
            QueueView::Cancel(_) => QueueView::Put,
            QueueView::Put => QueueView::Done,
            QueueView::Done => QueueView::Done,
        }
    }
}

impl QueueStage {
    /// The stage that a reply leads to.
    pub fn receive(self, reply: QueueReply, max_queue_size: usize) -> (r: QueueStage)
        requires
            reply matches QueueReply::Counted(n) ==> n < i64::MAX,
        ensures
            r@ == self@.after(reply@, max_queue_size as int),
    {
        match self {
            QueueStage::Count => match reply {
                QueueReply::Counted(n) => {
                    let over = queue_overflow(n, max_queue_size);
                    if over == 0 {
                        QueueStage::Put
                    } else {
                        QueueStage::Fetch(over)
                    }
                },
                _ => QueueStage::Put,
            },
            QueueStage::Fetch(_) => match reply {
                QueueReply::Found(ids) => QueueStage::Cancel(ids),
                _ => QueueStage::Put,
            },
            QueueStage::Cancel(_) => QueueStage::Put,
            QueueStage::Put => QueueStage::Done,
            QueueStage::Done => QueueStage::Done,
        }
    }
}

/// What has to be done at a stage.
#[derive(Debug)]
pub enum QueueAction {
    /// Run the query for a count.
    Count(Statement),
    /// Run the query for identifiers of tasks.
    Fetch(Statement),
    /// Run groups of statements; a failure leaves out those that follow in its group.
    Run(Vec<Vec<Statement>>),
    Done,
}

/// Whatever the database answers, the task is put into the queue, within four replies; nothing is
/// cancelled where there was room.
pub proof fn law_task_is_queued_in_the_end(
    a: QueueReplyView,
    b: QueueReplyView,
    c: QueueReplyView,
    d: QueueReplyView,
    max: int,
)
    ensures
        ({
            let s1 = QueueView::Count.after(a, max);
            let s2 = s1.after(b, max);
            let s3 = s2.after(c, max);
            &&& s3.after(d, max) is Done
            &&& s1 is Put || s2 is Put || s3 is Put
            &&& (a matches QueueReplyView::Counted(n) ==> n < max ==> s1 is Put)
            &&& s2 is Cancel ==> (a matches QueueReplyView::Counted(n) && n >= max)
        }),
{
}

/// Where too many tasks wait, so many of the oldest are looked up that the queue is full with the
/// new task, and all that were found are cancelled.
pub proof fn law_overflow_is_cancelled(queued: u64, max: int, ids: Seq<u128>)
    requires
        1 <= max,
        max <= queued < i64::MAX,
    ensures
        QueueView::Count.after(QueueReplyView::Counted(queued), max) matches QueueView::Fetch(n)
            && queued - n + 1 == max,
        QueueView::Count.after(QueueReplyView::Counted(queued), max).after(
            QueueReplyView::Found(ids),
            max,
        ) == QueueView::Cancel(ids),
        QueueView::Cancel(ids).after(QueueReplyView::Over, max) is Put,
        QueueView::Put.after(QueueReplyView::Over, max) is Done,
{
}

/// A task that waits again or is cancelled keeps what it was made with.
pub proof fn law_queueing_keeps_the_rest(t: TaskView, now: Timestamp)
    ensures
        ({
            let q = queued_task(t, now);
            let c = overflowed_task(t, now);
            &&& q.status is Queued && c.status is Cancelled
            &&& q.updated_at == now && c.updated_at == now
            &&& c.error is Some && q.error == t.error
            &&& q.task_id == t.task_id && c.task_id == t.task_id
            &&& q.file_id == t.file_id && c.file_id == t.file_id
            &&& q.file_path == t.file_path && c.file_path == t.file_path
            &&& q.user_id == t.user_id && c.user_id == t.user_id
            &&& q.created_at == t.created_at && c.created_at == t.created_at
            &&& q.priority == t.priority && c.priority == t.priority
            &&& q.output_path == t.output_path && c.output_path == t.output_path
            &&& q.progress == t.progress && c.progress == t.progress
        }),
{
}

/// Tasks that are loaded are found under their identifiers, and other tasks stay as they were.
pub proof fn law_loaded_tasks_are_found(table: Map<u128, TaskView>, tasks: Seq<TaskView>)
    requires
        forall|i: int, j: int|
            0 <= i < tasks.len() && 0 <= j < tasks.len() && #[trigger] tasks[i].task_id
                == #[trigger] tasks[j].task_id ==> i == j,
    ensures
        forall|i: int|
            0 <= i < tasks.len() ==> with_tasks(table, tasks).contains_key(
                #[trigger] tasks[i].task_id,
            ) && with_tasks(table, tasks)[tasks[i].task_id] == tasks[i],
        forall|id: u128|
            (forall|i: int| 0 <= i < tasks.len() ==> #[trigger] tasks[i].task_id != id)
                ==> #[trigger] with_tasks(table, tasks).contains_key(id) == table.contains_key(id)
                && with_tasks(table, tasks)[id] == table[id],
    decreases tasks.len(),
{
    if tasks.len() > 0 {
        let init = tasks.drop_last();
        let last = tasks.last();
        assert forall|i: int, j: int|
            0 <= i < init.len() && 0 <= j < init.len() && #[trigger] init[i].task_id
                == #[trigger] init[j].task_id implies i == j by {
            assert(tasks[i].task_id == tasks[j].task_id);
        }
        law_loaded_tasks_are_found(table, init);
        assert forall|i: int| 0 <= i < tasks.len() implies with_tasks(table, tasks).contains_key(
            #[trigger] tasks[i].task_id,
        ) && with_tasks(table, tasks)[tasks[i].task_id] == tasks[i] by {
            if i < init.len() {
                assert(init[i].task_id == tasks[i].task_id);
                assert(tasks[tasks.len() - 1].task_id != tasks[i].task_id);
            }
        }
        assert forall|id: u128|
            (forall|i: int| 0 <= i < tasks.len() ==> #[trigger] tasks[i].task_id != id) implies #[trigger] with_tasks(
            table,
            tasks,
        ).contains_key(id) == table.contains_key(id) && with_tasks(table, tasks)[id]
            == table[id] by {
            assert(tasks[tasks.len() - 1].task_id != id);
            assert forall|i: int| 0 <= i < init.len() implies #[trigger] init[i].task_id != id by {
                assert(tasks[i].task_id != id);
            }
            assert(with_tasks(table, init).contains_key(id) == table.contains_key(id));
        }
    }
}

/// Where too many tasks wait, those that were found to be too many are cancelled, and no others.
pub proof fn law_only_overflowing_tasks_are_cancelled(
    s: StateView,
    ids: Seq<u128>,
    id: u128,
    now: Timestamp,
)
    ensures
        s.with_overflowed(ids, now).tasks.contains_key(id) == s.tasks.contains_key(id),
        s.tasks.contains_key(id) && ids.contains(id) ==> s.with_overflowed(
            ids,
            now,
        ).tasks[id] == overflowed_task(s.tasks[id], now),
        s.tasks.contains_key(id) && !ids.contains(id) ==> s.with_overflowed(
            ids,
            now,
        ).tasks[id] == s.tasks[id],
    decreases ids.len(),
{
    if ids.len() > 0 {
        let init = ids.drop_last();
        law_only_overflowing_tasks_are_cancelled(s, init, id, now);
        law_only_overflowing_tasks_are_cancelled(s, init, ids.last(), now);
        if ids.contains(id) && id != ids.last() {
            let k = choose|k: int| 0 <= k < ids.len() && ids[k] == id;
            assert(init[k] == id);
        }
        if init.contains(id) {
            let k = choose|k: int| 0 <= k < init.len() && init[k] == id;
            assert(ids[k] == id);
        }
        assert(ids[ids.len() - 1] == ids.last());
    }
}

impl AppState {
    pub fn new(
        system: System,
        upload_dir: String,
        tiecc_dir: String,
        stdlib_dir: String,
        queue_capacity: usize,
        database: Database,
        max_retries: u8,
    ) -> (r: AppState)
        ensures
            r@ == (StateView {
                system,
                tasks: Map::empty(),
                upload_dir: upload_dir@,
                tiecc_dir: tiecc_dir@,
                stdlib_dir: stdlib_dir@,
                queue_capacity,
                database_path: database.path@,
                total_tasks: 0,
                completed_tasks: 0,
                failed_tasks: 0,
                active_workers: 0,
                max_retries,
            }),
    {
        AppState {
            system,
            tasks: new_table(),
            upload_dir,
            tiecc_dir,
            stdlib_dir,
            queue_capacity,
            database,
            total_tasks: 0,
            completed_tasks: 0,
            failed_tasks: 0,
            active_workers: 0,
            max_retries,
        }
    }

    /// Takes over the counts of all tasks, those that succeeded and those that failed.
    pub fn store_stats(&mut self, total: u64, completed: u64, failed: u64)
        ensures
            final(self)@ == (StateView {
                total_tasks: total,
                completed_tasks: completed,
                failed_tasks: failed,
                ..old(self)@
            }),
    {
        self.total_tasks = total;
        self.completed_tasks = completed;
        self.failed_tasks = failed;
    }

    /// Takes over the tasks and the counts that the database holds.
    pub fn load_tasks_from_db(
        &mut self,
        db_tasks: Vec<Task>,
        total: u64,
        completed: u64,
        failed: u64,
    )
        ensures
            final(self)@ == (StateView {
                tasks: with_tasks(old(self)@.tasks, views(db_tasks@)),
                total_tasks: total,
                completed_tasks: completed,
                failed_tasks: failed,
                ..old(self)@
            }),
    {
        let ghost all = views(db_tasks@);
        let mut i: usize = 0;
        assert(all.take(0) =~= seq![]);
        while i < db_tasks.len()
            invariant
                i <= db_tasks.len(),
                all == views(db_tasks@),
                self@ == (StateView {
                    tasks: with_tasks(old(self)@.tasks, all.take(i as int)),
                    ..old(self)@
                }),
            decreases db_tasks.len() - i,
        {
            assert(all.take(i + 1).drop_last() =~= all.take(i as int));
            assert(all.take(i + 1).last() == db_tasks@[i as int]@);
            put_task(&mut self.tasks, db_tasks[i].task_id, db_tasks[i].duplicate());
            i += 1;
        }
        assert(all.take(all.len() as int) =~= all);
        self.store_stats(total, completed, failed);
    }

    /// The statement that saves a new task.
    pub fn save_task_to_db(&self, task: &Task) -> (r: Statement)
        requires
            task@.dated(),
        ensures
            r@ == insert_task_statement(task@),
    {
        self.database.insert_task(task)
    }

    /// Marks a task as waiting, at a given time.
    pub fn mark_queued(&mut self, id: u128, now: &Timestamp)
        ensures
            final(self)@ == old(self)@.with_task(id, |t: TaskView| queued_task(t, *now)),
    {
        if let Some(task) = get_task(&self.tasks, id) {
            let mut task = task;
            task.status = TaskStatus::Queued;
            task.current_step = Some("Queued".to_owned());
            task.updated_at = *now;
            put_task(&mut self.tasks, id, task);
        }
    }

    /// Starts to queue a task: it is marked as waiting.
    pub fn enqueue_task(&mut self, id: u128) -> (r: QueueStage)
        ensures
            r@ is Count,
            exists|now: Timestamp| #[trigger]
                now.plain() && final(self)@ == old(self)@.with_task(
                    id,
                    |t: TaskView| queued_task(t, now),
                ),
    {
        let now = Timestamp::now();
        self.mark_queued(id, &now);
        QueueStage::Count
    }

    /// What has to be done at a stage of queueing a task. Tasks that are cancelled are marked so.
    pub fn queue_action(&mut self, id: u128, stage: &QueueStage) -> (r: QueueAction)
        requires
            stage@ matches QueueView::Fetch(n) ==> n <= i64::MAX,
        ensures
            !(stage@ is Cancel) ==> final(self)@ == old(self)@,
            match stage@ {
                QueueView::Count => r matches QueueAction::Count(s) && s@ == count_statement(
                    TaskStatus::Queued,
                ),
                QueueView::Fetch(n) => r matches QueueAction::Fetch(s) && s@ == plain_statement(
                    OLDEST_QUEUED@,
                    seq![status_value(TaskStatus::Queued), SqlView::Integer(n as int)],
                ),
                QueueView::Cancel(ids) => r matches QueueAction::Run(groups) && groups@.len()
                    == ids.len() && exists|now: Timestamp| #[trigger]
                    now.plain() && final(self)@ == old(self)@.with_overflowed(ids, now) && forall|
                        i: int,
                    |
                        0 <= i < ids.len() ==> statements_view((#[trigger] groups@[i])@)
                            == cancel_statements(ids[i], OVERFLOW_REASON@, now),
                QueueView::Put => r matches QueueAction::Run(groups) && groups@.len() == 1
                    && exists|now: Timestamp| #[trigger]
                    now.plain() && statements_view(groups@[0]@) == enqueue_statements(id, now),
                QueueView::Done => r is Done,
            },
    {
        match stage {
            QueueStage::Count => QueueAction::Count(self.database.count_queued_tasks()),
            QueueStage::Fetch(n) => match self.database.get_oldest_queued_tasks(*n) {
                Some(s) => QueueAction::Fetch(s),
                None => QueueAction::Done,
            },
            QueueStage::Cancel(ids) => QueueAction::Run(self.enforce_queue_capacity(ids)),
            QueueStage::Put => {
                let group = self.database.enqueue_task(id);
                QueueAction::Run(vec![group])
            },
            QueueStage::Done => QueueAction::Done,
        }
    }

    /// Cancels waiting tasks at a given time, one after the other. The statements of a task are
    /// run whatever became of those of another.
    pub fn cancel_overflow(&mut self, ids: &Vec<u128>, now: &Timestamp) -> (r: Vec<Vec<Statement>>)
        requires
            now.valid(),
        ensures
            final(self)@ == old(self)@.with_overflowed(ids@, *now),
            r@.len() == ids@.len(),
            forall|i: int|
                0 <= i < ids@.len() ==> statements_view((#[trigger] r@[i])@) == cancel_statements(
                    ids@[i],
                    OVERFLOW_REASON@,
                    *now,
                ),
    {
        let mut r: Vec<Vec<Statement>> = Vec::new();
        let mut i: usize = 0;
        assert(ids@.take(0) =~= seq![]);
        while i < ids.len()
            invariant
                i <= ids.len(),
                now.valid(),
                self@ == old(self)@.with_overflowed(ids@.take(i as int), *now),
                r@.len() == i,
                forall|k: int|
                    0 <= k < i ==> statements_view((#[trigger] r@[k])@) == cancel_statements(
                        ids@[k],
                        OVERFLOW_REASON@,
                        *now,
                    ),
            decreases ids.len() - i,
        {
            assert(ids@.take(i + 1).drop_last() =~= ids@.take(i as int));
            let id = ids[i];
            if let Some(task) = get_task(&self.tasks, id) {
                let mut task = task;
                task.status = TaskStatus::Cancelled;
                task.error = Some(OVERFLOW_REASON.to_owned());
                task.updated_at = *now;
                put_task(&mut self.tasks, id, task);
            }
            r.push(self.database.cancel_at(id, OVERFLOW_REASON, now));
            i += 1;
        }
        assert(ids@.take(ids@.len() as int) =~= ids@);
        r
    }

    /// Cancels the waiting tasks that a query found to be too many.
    pub fn enforce_queue_capacity(&mut self, ids: &Vec<u128>) -> (r: Vec<Vec<Statement>>)
        ensures
            r@.len() == ids@.len(),
            exists|now: Timestamp| #[trigger]
                now.plain() && final(self)@ == old(self)@.with_overflowed(ids@, now) && forall|
                    i: int,
                |
                    0 <= i < ids@.len() ==> statements_view((#[trigger] r@[i])@)
                        == cancel_statements(ids@[i], OVERFLOW_REASON@, now),
    {
        let now = Timestamp::now();
        self.cancel_overflow(ids, &now)
    }

    /// Where the resources are unpacked, where they are not in place.
    pub fn ensure_assets_extracted(
        &self,
        tiecc_exists: bool,
        stdlib_exists: bool,
        assets: &[EmbeddedAsset],
    ) -> (r: Option<AssetPlan>)
        ensures
            r is None <==> tiecc_exists && stdlib_exists,
            r matches Some(plan) ==> {
                &&& plan.root@ == asset_root_of(self@.system, self@.tiecc_dir)
                &&& plan.targets@.len() == assets@.len()
                &&& forall|i: int|
                    0 <= i < assets@.len() ==> (#[trigger] plan.targets@[i]).is_for(
                        self@.system,
                        plan.root@,
                        assets@[i],
                    )
            },
    {
        unpack_assets(self.system, self.tiecc_dir.as_str(), tiecc_exists, stdlib_exists, assets)
    }

    /// The Android library among the libraries, and where it is kept for projects.
    pub fn android_library(&self) -> (r: (String, String))
        ensures
            r.0@ == path_joined(self@.system, self@.stdlib_dir, "android"@),
            r.1@ == path_joined(self@.system, asset_root_of(self@.system, self@.tiecc_dir), "安卓基本库"@),
    {
        android_library(self.system, self.tiecc_dir.as_str(), self.stdlib_dir.as_str())
    }

    /// A copy of a task.
    pub fn task(&self, id: u128) -> (r: Option<Task>)
        ensures
            match r {
                Some(t) => self@.tasks.contains_key(id) && t@ == self@.tasks[id],
                None => !self@.tasks.contains_key(id),
            },
    {
        get_task(&self.tasks, id)
    }

    /// Forgets a task.
    pub fn forget(&mut self, id: u128)
        ensures
            final(self)@ == (StateView { tasks: old(self)@.tasks.remove(id), ..old(self)@ }),
    {
        drop_task(&mut self.tasks, id);
    }
}

} // verus!
