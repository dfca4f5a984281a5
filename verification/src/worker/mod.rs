//! Running tasks: their states on the way, the build itself, and what is cleaned up later.
pub mod cleanup;
pub mod compiler;
pub mod execute;
pub mod package;
pub mod status;

use crate::database::lease::LeaseAction;
use crate::models::task::TaskStatus;
use crate::text::{decimal, decimal_text, lemma_decimal};
use execute::{plus, BuildAction, BuildActionView};
use vstd::prelude::*;

verus! {

/// The name of a worker.
pub open spec fn worker_name(worker_id: nat) -> Seq<char> {
    "worker-"@ + decimal(worker_id)
}

/// The lease of a task that may run for `task_timeout` seconds.
pub open spec fn lease_length(task_timeout: int) -> int {
    task_timeout + 60
}

/// The time between two extensions of the lease.
pub open spec fn refresh_interval(task_timeout: int) -> int {
    if task_timeout / 2 < 5 {
        5
    } else {
        task_timeout / 2
    }
}

/// What a worker is at.
#[derive(Debug)]
pub enum WorkerStage {
    /// Leasing a task.
    Lease,
    /// Running the task.
    Run(u128),
    /// Leaving the task in a state, because its run failed with an error.
    Fail(u128, String, TaskStatus),
    /// Giving the task's lease back.
    Release(u128),
    /// Waiting for so many milliseconds.
    Wait(u64),
}

pub enum StageView {
    Lease,
    Run(u128),
    Fail(u128, Seq<char>, TaskStatus),
    Release(u128),
    Wait(u64),
}

impl View for WorkerStage {
    type V = StageView;

    open spec fn view(&self) -> StageView {
        match self {
            WorkerStage::Lease => StageView::Lease,
            WorkerStage::Run(id) => StageView::Run(*id),
            WorkerStage::Fail(id, error, status) => StageView::Fail(*id, error@, *status),
            WorkerStage::Release(id) => StageView::Release(*id),
            WorkerStage::Wait(ms) => StageView::Wait(*ms),
        }
    }
}

/// What became of what a worker was at.
#[derive(Debug)]
pub enum WorkerEvent {
    /// The lease is over, with a task or without.
    Leased(Option<u128>),
    /// The lease failed.
    NotLeased,
    /// The run succeeded.
    Built,
    /// The run failed, with an error and the state to leave the task in.
    NotBuilt(String, TaskStatus),
    /// Anything else is over, whatever became of it.
    Over,
}

pub enum WorkerEventView {
    Leased(Option<u128>),
    NotLeased,
    Built,
    NotBuilt(Seq<char>, TaskStatus),
    Over,
}

impl View for WorkerEvent {
    type V = WorkerEventView;

    open spec fn view(&self) -> WorkerEventView {
        match self {
            WorkerEvent::Leased(id) => WorkerEventView::Leased(*id),
            WorkerEvent::NotLeased => WorkerEventView::NotLeased,
            WorkerEvent::Built => WorkerEventView::Built,
            WorkerEvent::NotBuilt(error, status) => WorkerEventView::NotBuilt(error@, *status),
            WorkerEvent::Over => WorkerEventView::Over,
        }
    }
}

/// What the end of a lease means for the worker; nothing where the lease is still under way.
pub fn lease_event(lease: &LeaseAction) -> (r: Option<WorkerEvent>)
    ensures
        match lease {
            LeaseAction::Done(id) => r matches Some(e) && e@ == WorkerEventView::Leased(*id),
            LeaseAction::Fail => r matches Some(e) && e@ == WorkerEventView::NotLeased,
            _ => r is None,
        },
{
    match lease {
        LeaseAction::Done(id) => Some(WorkerEvent::Leased(*id)),
        LeaseAction::Fail => Some(WorkerEvent::NotLeased),
        _ => None,
    }
}

/// What the end of a run means for the worker; nothing where the run is still under way.
pub fn run_event(action: &BuildAction) -> (r: Option<WorkerEvent>)
    ensures
        match action@ {
            BuildActionView::Done(_, _) => r matches Some(e) && e@ == WorkerEventView::Built,
            BuildActionView::Fail(error, status) => r matches Some(e) && e@
                == WorkerEventView::NotBuilt(error, status),
            _ => r is None,
        },
{
    match action {
        BuildAction::Done(_, _) => Some(WorkerEvent::Built),
        BuildAction::Fail(error, status) => Some(WorkerEvent::NotBuilt(error.clone(), *status)),
        _ => None,
    }
}

/// What a worker has to do.
#[derive(Debug)]
pub enum WorkerAction {
    /// Lease a task for the worker of that name, for so many seconds.
    Lease(String, u64),
    /// Run the task, and meanwhile lease it again for so many seconds each time that the second
    /// number of seconds is over.
    Run(u128, String, u64, u64),
    /// Leave the task in a state, because its run failed with an error.
    Fail(u128, String, TaskStatus),
    /// Give the task's lease back.
    ClearLease(u128),
    /// Wait for so many milliseconds.
    Wait(u64),
}

pub enum WorkerActionView {
    Lease(Seq<char>, int),
    Run(u128, Seq<char>, int, int),
    Fail(u128, Seq<char>, TaskStatus),
    ClearLease(u128),
    Wait(u64),
}

impl View for WorkerAction {
    type V = WorkerActionView;

    open spec fn view(&self) -> WorkerActionView {
        match self {
            WorkerAction::Lease(name, secs) => WorkerActionView::Lease(name@, *secs as int),
            WorkerAction::Run(id, name, secs, every) => WorkerActionView::Run(
                *id,
                name@,
                *secs as int,
                *every as int,
            ),
            WorkerAction::Fail(id, error, status) => WorkerActionView::Fail(*id, error@, *status),
            WorkerAction::ClearLease(id) => WorkerActionView::ClearLease(*id),
            WorkerAction::Wait(ms) => WorkerActionView::Wait(*ms),
        }
    }
}

/// A worker, which leases one task after the other and runs it.
#[derive(Debug)]
pub struct Worker {
    name: String,
    task_timeout: u64,
    stage: WorkerStage,
}

pub struct WorkerView {
    pub name: Seq<char>,
    /// For how many seconds a task may run.
    pub task_timeout: int,
    pub stage: StageView,
}

impl View for Worker {
    type V = WorkerView;

    closed spec fn view(&self) -> WorkerView {
        WorkerView {
            name: self.name@,
            task_timeout: self.task_timeout as int,
            stage: self.stage@,
        }
    }
}

impl WorkerView {
    /// The worker's times can be told.
    pub open spec fn wf(self) -> bool {
        0 <= self.task_timeout <= u64::MAX - 60
    }

    pub open spec fn at(self, stage: StageView) -> WorkerView {
        WorkerView { stage, ..self }
    }

    /// The worker after something became of what it was at. Nothing ends its work.
    pub open spec fn after(self, e: WorkerEventView) -> WorkerView {
        match self.stage {
            StageView::Lease => match e {
                WorkerEventView::Leased(Some(id)) => self.at(StageView::Run(id)),
                WorkerEventView::Leased(None) => self.at(StageView::Wait(200)),
                WorkerEventView::NotLeased => self.at(StageView::Wait(500)),
                _ => self,
            },
            StageView::Run(id) => match e {
                WorkerEventView::Built => self.at(StageView::Release(id)),
                WorkerEventView::NotBuilt(error, status) => self.at(
                    StageView::Fail(id, error, status),
                ),
                _ => self,
            },
            StageView::Fail(id, _, _) => self.at(StageView::Release(id)),
            StageView::Release(_) => self.at(StageView::Lease),
            StageView::Wait(_) => self.at(StageView::Lease),
        }
    }

    /// The worker after all the events of a list.
    pub open spec fn after_all(self, events: Seq<WorkerEventView>) -> WorkerView
        decreases events.len(),
    {
        if events.len() == 0 {
            self
        } else {
            self.after_all(events.drop_last()).after(events.last())
        }
    }

    /// What the worker has to do.
    pub open spec fn action(self) -> WorkerActionView {
        match self.stage {
            StageView::Lease => WorkerActionView::Lease(
                self.name,
                lease_length(self.task_timeout),
            ),
            StageView::Run(id) => WorkerActionView::Run(
                id,
                self.name,
                lease_length(self.task_timeout),
                refresh_interval(self.task_timeout),
            ),
            StageView::Fail(id, error, status) => WorkerActionView::Fail(id, error, status),
            StageView::Release(id) => WorkerActionView::ClearLease(id),
            StageView::Wait(ms) => WorkerActionView::Wait(ms),
        }
    }
}

/// A worker for tasks that may run for `task_timeout` seconds, which is about to lease the first.
pub fn run_worker(worker_id: usize, task_timeout: u64) -> (r: Worker)
    requires
        task_timeout <= u64::MAX - 60,
    ensures
        r@ == (WorkerView {
            name: worker_name(worker_id as nat),
            task_timeout: task_timeout as int,
            stage: StageView::Lease,
        }),
        r@.wf(),
{
    Worker {
        name: plus("worker-", decimal_text(worker_id as u64).as_str()),
        task_timeout,
        stage: WorkerStage::Lease,
    }
}

impl Worker {
    /// What the worker has to do.
    pub fn next(&self) -> (r: WorkerAction)
        requires
            self@.wf(),
        ensures
            r@ == self@.action(),
    {
        let lease_secs = self.task_timeout + 60;
        let half = self.task_timeout / 2;
        let refresh_secs: u64 = if half < 5 {
            5
        } else {
            half
        };
        match &self.stage {
            WorkerStage::Lease => WorkerAction::Lease(self.name.clone(), lease_secs),
            WorkerStage::Run(id) => WorkerAction::Run(
                *id,
                self.name.clone(),
                lease_secs,
                refresh_secs,
            ),
            WorkerStage::Fail(id, error, status) => WorkerAction::Fail(*id, error.clone(), *status),
            WorkerStage::Release(id) => WorkerAction::ClearLease(*id),
            WorkerStage::Wait(ms) => WorkerAction::Wait(*ms),
        }
    }

    /// Something became of what the worker was at.
    pub fn receive(&mut self, event: WorkerEvent)
        ensures
            final(self)@ == old(self)@.after(event@),
    {
        match &self.stage {
            WorkerStage::Lease => match event {
                WorkerEvent::Leased(Some(id)) => {
                    self.stage = WorkerStage::Run(id);
                },
                WorkerEvent::Leased(None) => {
                    self.stage = WorkerStage::Wait(200);
                },
                WorkerEvent::NotLeased => {
                    self.stage = WorkerStage::Wait(500);
                },
                _ => {},
            },
            WorkerStage::Run(id) => match event {
                WorkerEvent::Built => {
                    self.stage = WorkerStage::Release(*id);
                },
                WorkerEvent::NotBuilt(error, status) => {
                    self.stage = WorkerStage::Fail(*id, error, status);
                },
                _ => {},
            },
            WorkerStage::Fail(id, _, _) => {
                self.stage = WorkerStage::Release(*id);
            },
            WorkerStage::Release(_) => {
                self.stage = WorkerStage::Lease;
            },
            WorkerStage::Wait(_) => {
                self.stage = WorkerStage::Lease;
            },
        }
    }
}

/// A task is failed exactly where its run failed, with the run's error and state.
pub proof fn law_failures_are_handed_on(
    w: WorkerView,
    e: WorkerEventView,
    id: u128,
    error: Seq<char>,
    status: TaskStatus,
)
    ensures
        w.after(e).action() == WorkerActionView::Fail(id, error, status) <==> w.stage
            == StageView::Run(id) && e == WorkerEventView::NotBuilt(error, status),
{
}

/// The worker gives the lease of a task back in the course of events.
pub open spec fn releases(w: WorkerView, events: Seq<WorkerEventView>, id: u128) -> bool {
    exists|i: int|
        0 <= i < events.len() && w.after_all(#[trigger] events.take(i)).action()
            == WorkerActionView::ClearLease(id)
}

/// Before a worker that ran a task leases the next, it gives the lease of that task back, whether
/// the run succeeded or failed.
pub proof fn law_lease_is_cleared(w: WorkerView, events: Seq<WorkerEventView>, id: u128)
    requires
        w.stage == StageView::Run(id),
        w.after_all(events).action() is Lease,
    ensures
        releases(w, events, id),
{
    lemma_before_release(w, events, id);
}

proof fn lemma_before_release(w: WorkerView, events: Seq<WorkerEventView>, id: u128)
    requires
        w.stage == StageView::Run(id),
    ensures
        releases(w, events, id) || match w.after_all(events).stage {
            StageView::Run(i) => i == id,
            StageView::Fail(i, _, _) => i == id,
            StageView::Release(i) => i == id,
            _ => false,
        },
    decreases events.len(),
{
    if events.len() > 0 {
        let init = events.drop_last();
        lemma_before_release(w, init, id);
        assert(events.take(init.len() as int) =~= init);
        if releases(w, init, id) {
            let i = choose|i: int|
                0 <= i < init.len() && w.after_all(#[trigger] init.take(i)).action()
                    == WorkerActionView::ClearLease(id);
            assert(init.take(i) =~= events.take(i));
        }
    }
}

/// A lease is extended before it ends, and outlasts the time allowed for the task.
pub proof fn law_lease_outlasts_its_refresh(task_timeout: int)
    requires
        0 <= task_timeout,
    ensures
        0 < refresh_interval(task_timeout) < lease_length(task_timeout),
        task_timeout < lease_length(task_timeout),
{
}

/// Every task that is leased is run, whichever it is, and its lease is given back afterwards; a
/// worker that finds nothing to do, or cannot lease, waits a moment and leases again.
pub proof fn law_worker_goes_round(w: WorkerView, id: u128, e: WorkerEventView)
    requires
        w.stage is Lease,
    ensures
        ({
            let running = w.after(WorkerEventView::Leased(Some(id)));
            let done = running.after(WorkerEventView::Built);
            &&& running.action() matches WorkerActionView::Run(task, name, _, _) && task == id
                && name == w.name
            &&& done.action() == WorkerActionView::ClearLease(id)
            &&& done.after(e) == w
        }),
        ({
            let idle = w.after(WorkerEventView::Leased(None));
            let stuck = w.after(WorkerEventView::NotLeased);
            &&& idle.action() matches WorkerActionView::Wait(short) && stuck.action() matches
                WorkerActionView::Wait(long) && 0 < short < long <= 500
            &&& idle.after(e) == w
            &&& stuck.after(e) == w
        }),
{
}

/// A lease lasts a minute longer than the task may run. It is extended twice in the time allowed,
/// but never more often than every five seconds.
pub proof fn law_lease_times(task_timeout: int)
    requires
        0 <= task_timeout,
    ensures
        lease_length(task_timeout) - task_timeout == 60,
        refresh_interval(task_timeout) >= 5,
        task_timeout >= 10 ==> task_timeout - 1 <= 2 * refresh_interval(task_timeout)
            <= task_timeout,
        task_timeout < 10 ==> refresh_interval(task_timeout) == 5,
{
}

/// Two workers have different names.
pub proof fn law_workers_have_names_of_their_own(a: nat, b: nat)
    ensures
        worker_name(a) == worker_name(b) ==> a == b,
{
    let head = "worker-"@;
    if worker_name(a) == worker_name(b) {
        assert(worker_name(a).skip(head.len() as int) =~= decimal(a));
        assert(worker_name(b).skip(head.len() as int) =~= decimal(b));
        lemma_decimal(a);
        lemma_decimal(b);
    }
}

} // verus!
