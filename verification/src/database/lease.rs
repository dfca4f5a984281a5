//! The operations that run inside one transaction: leasing the next task and deleting a task.
use super::sql::{text_value, SqlValue, SqlView, Statement, StatementView};
use super::{
    id_cell, plain_statement, status_param, status_value, time_param, time_value, Database,
    INSERT_EVENT,
};
use crate::models::task::TaskStatus;
use crate::outside::{format_id, id_value, parse_id};
use crate::text::opt_text;
use crate::time::Timestamp;
use vstd::prelude::*;

verus! {

pub const BEGIN: &'static str = "BEGIN IMMEDIATE";

pub const COMMIT: &'static str = "COMMIT";

pub const ROLLBACK: &'static str = "ROLLBACK";

pub const NEXT_QUEUED: &'static str =
    "SELECT task_id FROM tasks WHERE status = ? AND (next_run_at IS NULL OR next_run_at <= ?) ORDER BY priority DESC, created_at ASC LIMIT 1";

pub const CLAIM_TASK: &'static str =
    "UPDATE tasks SET status = ?, lease_until = ?, locked_by = ?, updated_at = ?, current_step = ? WHERE task_id = ? AND status = ?";

pub const DELETE_EVENTS: &'static str = "DELETE FROM task_events WHERE task_id = ?";

pub const DELETE_TASK: &'static str = "DELETE FROM tasks WHERE task_id = ?";

/// What the database answered to a statement.
#[derive(Debug)]
pub enum Reply {
    /// The statement failed.
    Failed,
    /// The statement was run and changed this many rows.
    Changed(usize),
    /// The query gave this text, or no row.
    Found(Option<String>),
}

pub enum ReplyView {
    Failed,
    Changed(int),
    Found(Option<Seq<char>>),
}

impl View for Reply {
    type V = ReplyView;

    open spec fn view(&self) -> ReplyView {
        match self {
            Reply::Failed => ReplyView::Failed,
            Reply::Changed(n) => ReplyView::Changed(*n as int),
            Reply::Found(t) => ReplyView::Found(opt_text(*t)),
        }
    }
}

// ---------------------------------------------------------------------------
// Leasing
// ---------------------------------------------------------------------------
/// How far the lease of the next task has come.
#[derive(Debug)]
pub enum LeaseStage {
    /// The transaction is to be opened.
    Open,
    /// The next task is to be looked up.
    Find,
    /// The task found is to be claimed.
    Claim(String),
    /// The claim is to be committed.
    Commit(String),
    /// The event of the lease is to be written.
    Note(String),
    /// There is no task: the transaction is to be closed.
    Close,
    /// The task was gone: the transaction is to be rolled back.
    Undo,
    /// The lease is over, with the identifier of the leased task.
    Over(Option<u128>),
    /// A statement failed.
    Broken,
}

pub enum LeaseView {
    Open,
    Find,
    Claim(Seq<char>),
    Commit(Seq<char>),
    Note(Seq<char>),
    Close,
    Undo,
    Over(Option<u128>),
    Broken,
}

impl View for LeaseStage {
    type V = LeaseView;

    open spec fn view(&self) -> LeaseView {
        match self {
            LeaseStage::Open => LeaseView::Open,
            LeaseStage::Find => LeaseView::Find,
            LeaseStage::Claim(id) => LeaseView::Claim(id@),
            LeaseStage::Commit(id) => LeaseView::Commit(id@),
            LeaseStage::Note(id) => LeaseView::Note(id@),
            LeaseStage::Close => LeaseView::Close,
            LeaseStage::Undo => LeaseView::Undo,
            LeaseStage::Over(id) => LeaseView::Over(*id),
            LeaseStage::Broken => LeaseView::Broken,
        }
    }
}

impl LeaseView {
    pub open spec fn ended(self) -> bool {
        self is Over || self is Broken
    }

    /// The stage that a reply leads to.
    pub open spec fn after(self, reply: ReplyView) -> LeaseView {
        if self.ended() {
            self
        } else if reply is Failed {
            LeaseView::Broken
        } else {
            match (self, reply) {
                (LeaseView::Open, ReplyView::Changed(_)) => LeaseView::Find,
                (LeaseView::Find, ReplyView::Found(Some(id))) => LeaseView::Claim(id),
                (LeaseView::Find, ReplyView::Found(None)) => LeaseView::Close,
                (LeaseView::Claim(id), ReplyView::Changed(n)) => if n == 0 {
                    LeaseView::Undo
                } else {
                    LeaseView::Commit(id)
                },
                (LeaseView::Commit(id), ReplyView::Changed(_)) => LeaseView::Note(id),
                (LeaseView::Note(id), ReplyView::Changed(_)) => LeaseView::Over(id_value(id)),
                (LeaseView::Close, ReplyView::Changed(_)) => LeaseView::Over(None),
                (LeaseView::Undo, ReplyView::Changed(_)) => LeaseView::Over(None),
                _ => LeaseView::Broken,
            }
        }
    }

    /// The stage after all the replies of a list.
    pub open spec fn after_all(self, replies: Seq<ReplyView>) -> LeaseView
        decreases replies.len(),
    {
        if replies.len() == 0 {
            self
        } else {
            self.after_all(replies.drop_last()).after(replies.last())
        }
    }
}

/// Who leases, when, and until when.
#[derive(Debug)]
pub struct LeaseTerms {
    pub worker_id: String,
    pub now: Timestamp,
    pub until: Timestamp,
}

/// The statement of a stage. The event is dated `noted_at`.
pub open spec fn lease_statement(
    stage: LeaseView,
    terms: LeaseTerms,
    noted_at: Timestamp,
) -> StatementView {
    match stage {
        LeaseView::Open => plain_statement(BEGIN@, seq![]),
        LeaseView::Find => plain_statement(
            NEXT_QUEUED@,
            seq![status_value(TaskStatus::Queued), time_value(terms.now)],
        ),
        LeaseView::Claim(id) => plain_statement(
            CLAIM_TASK@,
            seq![
                status_value(TaskStatus::Processing),
                time_value(terms.until),
                SqlView::Text(terms.worker_id@),
                time_value(terms.now),
                SqlView::Text("Leased"@),
                SqlView::Text(id),
                status_value(TaskStatus::Queued),
            ],
        ),
        LeaseView::Note(id) => plain_statement(
            INSERT_EVENT@,
            seq![
                SqlView::Text(id),
                SqlView::Text("leased"@),
                status_value(TaskStatus::Processing),
                SqlView::Text("Task leased"@),
                SqlView::Text(terms.worker_id@),
                time_value(noted_at),
            ],
        ),
        LeaseView::Undo => plain_statement(ROLLBACK@, seq![]),
        _ => plain_statement(COMMIT@, seq![]),
    }
}

fn bare(sql: &'static str) -> (r: Statement)
    ensures
        r@ == plain_statement(sql@, seq![]),
{
    let r = Statement { sql, params: Vec::new() };
    assert(r@.params =~= seq![]);
    r
}

impl LeaseTerms {
    /// The terms of a lease of `lease_secs` seconds from `now` on.
    pub fn from(worker_id: &str, lease_secs: u64, now: Timestamp) -> (r: LeaseTerms)
        requires
            now.can_shift(lease_secs as int),
        ensures
            r.worker_id@ == worker_id@,
            r.now == now,
            r.until == now.shifted(lease_secs as int),
            r.dated(),
    {
        LeaseTerms { worker_id: worker_id.to_owned(), now, until: now.plus_seconds(lease_secs) }
    }

    pub open spec fn dated(&self) -> bool {
        self.now.valid() && self.until.valid()
    }

    /// The statement of a stage.
    pub fn statement(&self, stage: &LeaseStage, noted_at: &Timestamp) -> (r: Statement)
        requires
            self.dated(),
            noted_at.valid(),
            !stage@.ended(),
        ensures
            r@ == lease_statement(stage@, *self, *noted_at),
    {
        let r = match stage {
            LeaseStage::Open => bare(BEGIN),
            LeaseStage::Find => Statement {
                sql: NEXT_QUEUED,
                params: vec![status_param(TaskStatus::Queued), time_param(&self.now)],
            },
            LeaseStage::Claim(id) => Statement {
                sql: CLAIM_TASK,
                params: vec![
                    status_param(TaskStatus::Processing),
                    time_param(&self.until),
                    text_value(self.worker_id.as_str()),
                    time_param(&self.now),
                    text_value("Leased"),
                    text_value(id.as_str()),
                    status_param(TaskStatus::Queued),
                ],
            },
            LeaseStage::Note(id) => Statement {
                sql: INSERT_EVENT,
                params: vec![
                    text_value(id.as_str()),
                    text_value("leased"),
                    status_param(TaskStatus::Processing),
                    text_value("Task leased"),
                    text_value(self.worker_id.as_str()),
                    time_param(noted_at),
                ],
            },
            LeaseStage::Undo => bare(ROLLBACK),
            _ => bare(COMMIT),
        };
        assert(r@.params =~= lease_statement(stage@, *self, *noted_at).params);
        r
    }
}

/// What to do next for a lease.
#[derive(Debug)]
pub enum LeaseAction {
    /// Run the statement and hand back how many rows it changed.
    Execute(Statement),
    /// Run the query and hand back the text of its first row.
    Query(Statement),
    /// The lease is over.
    Done(Option<u128>),
    /// The lease failed.
    Fail,
}

impl LeaseStage {
    /// The stage that a reply leads to.
    pub fn receive(self, reply: Reply) -> (r: LeaseStage)
        ensures
            r@ == self@.after(reply@),
    {
        match self {
            LeaseStage::Over(id) => LeaseStage::Over(id),
            LeaseStage::Open => match reply {
                Reply::Changed(_) => LeaseStage::Find,
                _ => LeaseStage::Broken,
            },
            LeaseStage::Find => match reply {
                Reply::Found(Some(id)) => LeaseStage::Claim(id),
                Reply::Found(None) => LeaseStage::Close,
                _ => LeaseStage::Broken,
            },
            LeaseStage::Claim(id) => match reply {
                Reply::Changed(n) => if n == 0 {
                    LeaseStage::Undo
                } else {
                    LeaseStage::Commit(id)
                },
                _ => LeaseStage::Broken,
            },
            LeaseStage::Commit(id) => match reply {
                Reply::Changed(_) => LeaseStage::Note(id),
                _ => LeaseStage::Broken,
            },
            LeaseStage::Note(id) => match reply {
                Reply::Changed(_) => LeaseStage::Over(parse_id(id.as_str())),
                _ => LeaseStage::Broken,
            },
            LeaseStage::Close | LeaseStage::Undo => match reply {
                Reply::Changed(_) => LeaseStage::Over(None),
                _ => LeaseStage::Broken,
            },
            LeaseStage::Broken => LeaseStage::Broken,
        }
    }
}

impl Database {
    /// The first stage of the lease of the next task: the task of the highest priority that
    /// waits and may run, the oldest of these.
    pub fn lease_next_task(&self) -> (r: LeaseStage)
        ensures
            r@ == LeaseView::Open,
    {
        LeaseStage::Open
    }

    /// The terms of a lease that starts now; none where its end would have no date.
    pub fn lease_terms(&self, worker_id: &str, lease_secs: u64) -> (r: Option<LeaseTerms>)
        ensures
            exists|now: Timestamp| #[trigger]
                now.plain() && match r {
                    Some(t) => {
                        &&& now.can_shift(lease_secs as int)
                        &&& t.worker_id@ == worker_id@
                        &&& t.now == now
                        &&& t.until == now.shifted(lease_secs as int)
                        &&& t.dated()
                    },
                    None => !now.can_shift(lease_secs as int),
                },
    {
        let now = Timestamp::now();
        if now.reaches(lease_secs) {
            Some(LeaseTerms::from(worker_id, lease_secs, now))
        } else {
            None
        }
    }

    /// What to do at a stage of a lease.
    pub fn next_lease_action(&self, stage: &LeaseStage, terms: &LeaseTerms) -> (r: LeaseAction)
        requires
            terms.dated(),
        ensures
            exists|now: Timestamp| #[trigger]
                now.plain() && match r {
                    LeaseAction::Query(s) => stage@ is Find && s@ == lease_statement(
                        stage@,
                        *terms,
                        now,
                    ),
                    LeaseAction::Execute(s) => !(stage@ is Find) && !stage@.ended() && s@
                        == lease_statement(stage@, *terms, now),
                    LeaseAction::Done(id) => stage@ == LeaseView::Over(id),
                    LeaseAction::Fail => stage@ is Broken,
                },
    {
        let now = Timestamp::now();
        self.lease_action(stage, terms, &now)
    }

    /// What to do at a stage of a lease, when the clock shows `noted_at`.
    pub fn lease_action(
        &self,
        stage: &LeaseStage,
        terms: &LeaseTerms,
        noted_at: &Timestamp,
    ) -> (r: LeaseAction)
        requires
            terms.dated(),
            noted_at.valid(),
        ensures
            match r {
                LeaseAction::Query(s) => stage@ is Find && s@ == lease_statement(
                    stage@,
                    *terms,
                    *noted_at,
                ),
                LeaseAction::Execute(s) => !(stage@ is Find) && !stage@.ended() && s@
                    == lease_statement(stage@, *terms, *noted_at),
                LeaseAction::Done(id) => stage@ == LeaseView::Over(id),
                LeaseAction::Fail => stage@ is Broken,
            },
    {
        match stage {
            LeaseStage::Over(id) => LeaseAction::Done(*id),
            LeaseStage::Broken => LeaseAction::Fail,
            LeaseStage::Find => LeaseAction::Query(terms.statement(stage, noted_at)),
            _ => LeaseAction::Execute(terms.statement(stage, noted_at)),
        }
    }
}

// ---------------------------------------------------------------------------
// Deleting
// ---------------------------------------------------------------------------
/// How far the deletion of a task has come.
#[derive(Clone, Copy, Debug, PartialEq, Eq, Structural)]
pub enum DeleteStage {
    Open,
    Events,
    Task,
    Commit,
    Undo,
    Done,
    Failed,
}

impl DeleteStage {
    pub open spec fn ended(self) -> bool {
        self is Done || self is Failed
    }

    /// The stage after the statement was run, or failed.
    pub open spec fn after(self, ran: bool) -> DeleteStage {
        match self {
            DeleteStage::Open => if ran {
                DeleteStage::Events
            } else {
                DeleteStage::Failed
            },
            DeleteStage::Events => if ran {
                DeleteStage::Task
            } else {
                DeleteStage::Undo
            },
            DeleteStage::Task => if ran {
                DeleteStage::Commit
            } else {
                DeleteStage::Undo
            },
            DeleteStage::Commit => if ran {
                DeleteStage::Done
            } else {
                DeleteStage::Failed
            },
            DeleteStage::Undo => DeleteStage::Failed,
            DeleteStage::Done => DeleteStage::Done,
            DeleteStage::Failed => DeleteStage::Failed,
        }
    }

    pub open spec fn after_all(self, ran: Seq<bool>) -> DeleteStage
        decreases ran.len(),
    {
        if ran.len() == 0 {
            self
        } else {
            self.after_all(ran.drop_last()).after(ran.last())
        }
    }

    pub open spec fn statement(self, id: u128) -> StatementView {
        match self {
            DeleteStage::Open => plain_statement(BEGIN@, seq![]),
            DeleteStage::Events => plain_statement(DELETE_EVENTS@, seq![id_cell(id)]),
            DeleteStage::Task => plain_statement(DELETE_TASK@, seq![id_cell(id)]),
            DeleteStage::Undo => plain_statement(ROLLBACK@, seq![]),
            _ => plain_statement(COMMIT@, seq![]),
        }
    }

    /// The stage after the statement was run, or failed.
    pub fn receive(self, ran: bool) -> (r: DeleteStage)
        ensures
            r == self.after(ran),
    {
        match self {
            DeleteStage::Open => if ran {
                DeleteStage::Events
            } else {
                DeleteStage::Failed
            },
            DeleteStage::Events => if ran {
                DeleteStage::Task
            } else {
                DeleteStage::Undo
            },
            DeleteStage::Task => if ran {
                DeleteStage::Commit
            } else {
                DeleteStage::Undo
            },
            DeleteStage::Commit => if ran {
                DeleteStage::Done
            } else {
                DeleteStage::Failed
            },
            DeleteStage::Undo => DeleteStage::Failed,
            DeleteStage::Done => DeleteStage::Done,
            DeleteStage::Failed => DeleteStage::Failed,
        }
    }
}

impl Database {
    /// The statement that deletes a task with its events, at a stage; none at an end.
    pub fn delete_task(&self, id: u128, stage: DeleteStage) -> (r: Option<Statement>)
        ensures
            r is None <==> stage.ended(),
            r is Some ==> r->0@ == stage.statement(id),
    {
        let r = match stage {
            DeleteStage::Open => bare(BEGIN),
            DeleteStage::Events => Statement {
                sql: DELETE_EVENTS,
                params: vec![SqlValue::Text(format_id(id))],
            },
            DeleteStage::Task => Statement {
                sql: DELETE_TASK,
                params: vec![SqlValue::Text(format_id(id))],
            },
            DeleteStage::Undo => bare(ROLLBACK),
            DeleteStage::Commit => bare(COMMIT),
            DeleteStage::Done | DeleteStage::Failed => {
                return None;
            },
        };
        assert(r@.params =~= stage.statement(id).params);
        Some(r)
    }
}

// ---------------------------------------------------------------------------
// Laws
// ---------------------------------------------------------------------------
/// A task is leased only by a lease that found it, claimed it by a statement that changed a row,
/// and committed the claim; a lease that ends so reports the identifier found.
pub proof fn law_leased_task_was_claimed(replies: Seq<ReplyView>, id: u128)
    requires
        LeaseView::Open.after_all(replies) == LeaseView::Over(Some(id)),
    ensures
        replies.len() >= 5,
        replies[0] is Changed,
        exists|text: Seq<char>|
            replies[1] == ReplyView::Found(Some(text)) && id_value(text) == Some(id),
        replies[2] matches ReplyView::Changed(n) && n != 0,
        replies[3] is Changed,
        replies[4] is Changed,
{
    let n = replies.len() as int;
    lemma_lease_prefix(replies, 0);
    if n >= 1 {
        lemma_lease_prefix(replies, 1);
    }
    if n >= 2 {
        lemma_lease_prefix(replies, 2);
    }
    if n >= 3 {
        lemma_lease_prefix(replies, 3);
    }
    if n >= 4 {
        lemma_lease_prefix(replies, 4);
    }
    if n >= 5 {
        lemma_lease_prefix(replies, 5);
    }
    assert(replies.take(n) =~= replies);
    assert(LeaseView::Open.after_all(replies.take(0)) == LeaseView::Open);
    if n >= 1 {
        let s1 = LeaseView::Open.after_all(replies.take(1));
        if n >= 2 && s1 is Find {
            let s2 = LeaseView::Open.after_all(replies.take(2));
            if n >= 3 && s2 is Claim {
                let s3 = LeaseView::Open.after_all(replies.take(3));
                if n >= 4 && s3 is Commit {
                    let s4 = LeaseView::Open.after_all(replies.take(4));
                    if n >= 5 && s4 is Note {
                        let s5 = LeaseView::Open.after_all(replies.take(5));
                        lemma_lease_ended(replies, 5);
                        assert(s5 == LeaseView::Over(Some(id)));
                    } else if s4.ended() {
                        lemma_lease_ended(replies, 4);
                    }
                } else if s3.ended() {
                    lemma_lease_ended(replies, 3);
                } else if s3 is Undo && n >= 4 {
                    lemma_lease_ended(replies, 4);
                }
            } else if s2.ended() {
                lemma_lease_ended(replies, 2);
            } else if s2 is Close && n >= 3 {
                lemma_lease_ended(replies, 3);
            }
        } else if s1.ended() {
            lemma_lease_ended(replies, 1);
        }
    }
}

proof fn lemma_lease_prefix(replies: Seq<ReplyView>, k: int)
    requires
        0 <= k <= replies.len(),
    ensures
        k > 0 ==> LeaseView::Open.after_all(replies.take(k)) == LeaseView::Open.after_all(
            replies.take(k - 1),
        ).after(replies[k - 1]),
        k == 0 ==> LeaseView::Open.after_all(replies.take(k)) == LeaseView::Open,
{
    if k > 0 {
        assert(replies.take(k).drop_last() =~= replies.take(k - 1));
        assert(replies.take(k).last() == replies[k - 1]);
    }
}

proof fn lemma_lease_ended(replies: Seq<ReplyView>, k: int)
    requires
        0 <= k <= replies.len(),
        LeaseView::Open.after_all(replies.take(k)).ended(),
    ensures
        LeaseView::Open.after_all(replies) == LeaseView::Open.after_all(replies.take(k)),
    decreases replies.len() - k,
{
    if k < replies.len() {
        lemma_lease_prefix(replies, k + 1);
        lemma_lease_ended(replies, k + 1);
    } else {
        assert(replies.take(k) =~= replies);
    }
}

/// What a lease comes to follows from what its query found: nothing is claimed where it found
/// nothing, and the task that it found is leased where the claim goes through.
pub proof fn law_lease_follows_its_query(text: Seq<char>, claimed: int)
    requires
        claimed != 0,
    ensures
        ({
            let ran = ReplyView::Changed(0);
            let asked = LeaseView::Open.after(ran);
            let none = asked.after(ReplyView::Found(None));
            let some = asked.after(ReplyView::Found(Some(text)));
            &&& asked is Find
            &&& none is Close
            &&& none.after(ran) == LeaseView::Over(None)
            &&& some == LeaseView::Claim(text)
            &&& some.after(ReplyView::Changed(claimed)).after(ran).after(ran) == LeaseView::Over(
                id_value(text),
            )
            &&& some.after(ReplyView::Changed(0)).after(ran) == LeaseView::Over(None)
        }),
{
}

/// Every lease ends within five replies.
pub proof fn law_lease_ends(replies: Seq<ReplyView>)
    requires
        replies.len() >= 5,
    ensures
        LeaseView::Open.after_all(replies).ended(),
{
    lemma_lease_prefix(replies, 0);
    lemma_lease_prefix(replies, 1);
    lemma_lease_prefix(replies, 2);
    lemma_lease_prefix(replies, 3);
    lemma_lease_prefix(replies, 4);
    lemma_lease_prefix(replies, 5);
    lemma_lease_ended(replies, 5);
}

/// A deletion is done only where both deletions and the commit were run; where one of the
/// deletions fails the transaction is rolled back and the deletion has failed.
pub proof fn law_deleted_whole(ran: Seq<bool>)
    requires
        ran.len() == 4,
    ensures
        DeleteStage::Open.after_all(ran) is Done <==> ran == seq![true, true, true, true],
        (DeleteStage::Open.after_all(ran.take(2)) is Undo || DeleteStage::Open.after_all(
            ran.take(3),
        ) is Undo) <==> ran[0] && (!ran[1] || !ran[2]),
        DeleteStage::Open.after_all(ran).ended(),
{
    reveal_with_fuel(DeleteStage::after_all, 5);
    assert(ran.take(3) =~= ran.drop_last());
    assert(ran.take(2) =~= ran.drop_last().drop_last());
    assert(ran.drop_last().drop_last().drop_last().drop_last() =~= seq![]);
    assert(ran.drop_last().last() == ran[2]);
    assert(ran.drop_last().drop_last().last() == ran[1]);
    assert(ran.drop_last().drop_last().drop_last().last() == ran[0]);
    if DeleteStage::Open.after_all(ran) is Done {
        assert(ran =~= seq![true, true, true, true]);
    }
}

} // verus!
