//! Build tasks, their states and their events.
use crate::outside::{is_plain, json_string, quoted};
use crate::text::{copy_opt, opt_text, same_text, to_chars, to_text};
use crate::time::Timestamp;
use vstd::prelude::*;
use vstd::string::*;

verus! {

#[derive(Clone, Copy, Debug, PartialEq, Eq, Structural)]
pub enum TaskStatus {
    Queued,
    Processing,
    Success,
    UnknownError,
    CompilationFailed,
    Timeout,
    Cancelled,
}

/// The name under which a state is shown and recorded.
pub open spec fn status_name(status: TaskStatus) -> Seq<char> {
    match status {
        TaskStatus::Queued => "排队中"@,
        TaskStatus::Processing => "处理中"@,
        TaskStatus::Success => "编译成功"@,
        TaskStatus::UnknownError => "未知错误"@,
        TaskStatus::CompilationFailed => "编译失败"@,
        TaskStatus::Timeout => "编译超时"@,
        TaskStatus::Cancelled => "已取消"@,
    }
}

/// The state of a given name. Three states have a second, shorter name; a name that is not known
/// stands for an unknown error.
pub open spec fn status_of_name(name: Seq<char>) -> TaskStatus {
    if name == "排队中"@ {
        TaskStatus::Queued
    } else if name == "处理中"@ {
        TaskStatus::Processing
    } else if name == "成功"@ || name == "编译成功"@ {
        TaskStatus::Success
    } else if name == "编译失败"@ {
        TaskStatus::CompilationFailed
    } else if name == "超时"@ || name == "编译超时"@ {
        TaskStatus::Timeout
    } else if name == "已取消"@ {
        TaskStatus::Cancelled
    } else {
        TaskStatus::UnknownError
    }
}

/// A text without the quotes that stand at its two ends.
pub open spec fn unquoted(text: Seq<char>) -> Seq<char> {
    if text.len() >= 2 && text[0] == '"' && text.last() == '"' {
        text.subrange(1, text.len() - 1)
    } else {
        text
    }
}

/// The state that a recorded text stands for: a name, between quotes or not.
pub open spec fn recorded_status(text: Seq<char>) -> TaskStatus {
    status_of_name(unquoted(text))
}

impl TaskStatus {
    pub fn name(&self) -> (r: &'static str)
        ensures
            r@ == status_name(*self),
    {
        match self {
            TaskStatus::Queued => "排队中",
            TaskStatus::Processing => "处理中",
            TaskStatus::Success => "编译成功",
            TaskStatus::UnknownError => "未知错误",
            TaskStatus::CompilationFailed => "编译失败",
            TaskStatus::Timeout => "编译超时",
            TaskStatus::Cancelled => "已取消",
        }
    }

    /// The text that is recorded for the state: its name as a JSON string.
    pub fn to_json(&self) -> (r: String)
        ensures
            r@ == quoted(status_name(*self)),
    {
        proof {
            lemma_names(*self);
        }
        json_string(self.name())
    }

    /// The state that a recorded text stands for.
    pub fn from_recorded(text: &str) -> (r: TaskStatus)
        ensures
            r == recorded_status(text@),
    {
        let chars = to_chars(text);
        let n = chars.len();
        let name = if n >= 2 && chars[0] == '"' && chars[n - 1] == '"' {
            to_text(&chars, 1, n - 1)
        } else {
            to_text(&chars, 0, n)
        };
        assert(name@ =~= unquoted(text@));
        let s = name.as_str();
        if same_text(s, "排队中") {
            TaskStatus::Queued
        } else if same_text(s, "处理中") {
            TaskStatus::Processing
        } else if same_text(s, "成功") || same_text(s, "编译成功") {
            TaskStatus::Success
        } else if same_text(s, "编译失败") {
            TaskStatus::CompilationFailed
        } else if same_text(s, "超时") || same_text(s, "编译超时") {
            TaskStatus::Timeout
        } else if same_text(s, "已取消") {
            TaskStatus::Cancelled
        } else {
            TaskStatus::UnknownError
        }
    }
}

/// The names hold nothing that JSON would escape, and each stands for its own state only.
pub proof fn lemma_names(status: TaskStatus)
    ensures
        is_plain(status_name(status)),
        status_of_name(status_name(status)) == status,
{
    reveal_strlit("排队中");
    reveal_strlit("处理中");
    reveal_strlit("编译成功");
    reveal_strlit("未知错误");
    reveal_strlit("编译失败");
    reveal_strlit("编译超时");
    reveal_strlit("已取消");
    reveal_strlit("成功");
    reveal_strlit("超时");
    let n = status_name(status);
    assert("排队中"@[0] == '排' && "处理中"@[0] == '处' && "未知错误"@[0] == '未' && "已取消"@[0] == '已');
    assert("编译成功"@[2] == '成' && "编译失败"@[2] == '失' && "编译超时"@[2] == '超');
    assert("编译成功"@[0] == '编' && "编译失败"@[0] == '编' && "编译超时"@[0] == '编');
    assert("成功"@.len() == 2 && "超时"@.len() == 2);
}

/// A recorded state is read back as the same state.
pub proof fn law_status_read_back(status: TaskStatus)
    ensures
        recorded_status(quoted(status_name(status))) == status,
        recorded_status(status_name(status)) == status,
{
    let n = status_name(status);
    lemma_names(status);
    assert(quoted(n).subrange(1, quoted(n).len() - 1) =~= n);
    if n.len() >= 2 && n[0] == '"' {
        assert(n[0] != '"');
    }
}

#[derive(Debug)]
pub struct Task {
    pub task_id: u128,
    pub status: TaskStatus,
    /// From 0 to 100.
    pub progress: u8,
    /// In seconds.
    pub estimated_time_remaining: Option<u64>,
    pub current_step: Option<String>,
    pub error: Option<String>,
    pub created_at: Timestamp,
    pub updated_at: Timestamp,
    pub retry_count: u8,
    pub max_retries: u8,
    /// In seconds.
    pub build_duration: Option<u64>,
    /// A task of higher priority runs first.
    pub priority: i32,
    /// The SHA-1 digest of the uploaded file.
    pub file_id: String,
    /// The uploaded project.
    pub file_path: String,
    /// The finished package.
    pub output_path: Option<String>,
    pub user_id: String,
}

/// A task as the contracts speak of it.
pub struct TaskView {
    pub task_id: u128,
    pub status: TaskStatus,
    pub progress: u8,
    pub estimated_time_remaining: Option<u64>,
    pub current_step: Option<Seq<char>>,
    pub error: Option<Seq<char>>,
    pub created_at: Timestamp,
    pub updated_at: Timestamp,
    pub retry_count: u8,
    pub max_retries: u8,
    pub build_duration: Option<u64>,
    pub priority: i32,
    pub file_id: Seq<char>,
    pub file_path: Seq<char>,
    pub output_path: Option<Seq<char>>,
    pub user_id: Seq<char>,
}

impl View for Task {
    type V = TaskView;

    open spec fn view(&self) -> TaskView {
        TaskView {
            task_id: self.task_id,
            status: self.status,
            progress: self.progress,
            estimated_time_remaining: self.estimated_time_remaining,
            current_step: opt_text(self.current_step),
            error: opt_text(self.error),
            created_at: self.created_at,
            updated_at: self.updated_at,
            retry_count: self.retry_count,
            max_retries: self.max_retries,
            build_duration: self.build_duration,
            priority: self.priority,
            file_id: self.file_id@,
            file_path: self.file_path@,
            output_path: opt_text(self.output_path),
            user_id: self.user_id@,
        }
    }
}

impl TaskView {
    /// The two times have dates.
    pub open spec fn dated(self) -> bool {
        self.created_at.valid() && self.updated_at.valid()
    }
}

impl Task {
    pub fn duplicate(&self) -> (r: Task)
        ensures
            r@ == self@,
    {
        Task {
            task_id: self.task_id,
            status: self.status,
            progress: self.progress,
            estimated_time_remaining: self.estimated_time_remaining,
            current_step: copy_opt(&self.current_step),
            error: copy_opt(&self.error),
            created_at: self.created_at,
            updated_at: self.updated_at,
            retry_count: self.retry_count,
            max_retries: self.max_retries,
            build_duration: self.build_duration,
            priority: self.priority,
            file_id: self.file_id.clone(),
            file_path: self.file_path.clone(),
            output_path: copy_opt(&self.output_path),
            user_id: self.user_id.clone(),
        }
    }
}

#[derive(Debug)]
pub struct TaskEvent {
    pub id: i64,
    pub task_id: u128,
    pub event_type: String,
    pub status: Option<TaskStatus>,
    pub message: Option<String>,
    pub worker_id: Option<String>,
    pub created_at: Timestamp,
}

/// An event as the contracts speak of it.
pub struct TaskEventView {
    pub id: i64,
    pub task_id: u128,
    pub event_type: Seq<char>,
    pub status: Option<TaskStatus>,
    pub message: Option<Seq<char>>,
    pub worker_id: Option<Seq<char>>,
    pub created_at: Timestamp,
}

impl View for TaskEvent {
    type V = TaskEventView;

    open spec fn view(&self) -> TaskEventView {
        TaskEventView {
            id: self.id,
            task_id: self.task_id,
            event_type: self.event_type@,
            status: self.status,
            message: opt_text(self.message),
            worker_id: opt_text(self.worker_id),
            created_at: self.created_at,
        }
    }
}

#[derive(Debug)]
pub struct UploadResponse {
    pub file_id: String,
}

#[derive(Debug)]
pub struct BuildRequest {
    pub file_id: String,
}

#[derive(Debug)]
pub struct BuildResponse {
    pub task_id: String,
    pub status: TaskStatus,
}

/// The quotes at the ends of a recorded name are taken off, whatever stands between them.
pub proof fn law_quotes_are_taken_off(text: Seq<char>)
    ensures
        unquoted(quoted(text)) == text,
        recorded_status(quoted(text)) == status_of_name(text),
        text.len() > 0 && text[0] != '"' ==> unquoted(text) == text,
{
    assert(quoted(text).subrange(1, quoted(text).len() - 1) =~= text);
}

/// A name that no state has stands for an unknown error; success and timeout may be recorded by
/// their short names too.
pub proof fn law_other_names(name: Seq<char>)
    ensures
        status_of_name("成功"@) is Success,
        status_of_name("超时"@) is Timeout,
        name != "成功"@ && name != "超时"@ && (forall|s: TaskStatus| #[trigger] status_name(s) != name)
            ==> status_of_name(name) is UnknownError,
        status_of_name(name) is Queued ==> name == status_name(TaskStatus::Queued),
        status_of_name(name) is Processing ==> name == status_name(TaskStatus::Processing),
        status_of_name(name) is Cancelled ==> name == status_name(TaskStatus::Cancelled),
        status_of_name(name) is CompilationFailed ==> name == status_name(
            TaskStatus::CompilationFailed,
        ),
{
    reveal_strlit("排队中");
    reveal_strlit("处理中");
    reveal_strlit("编译成功");
    reveal_strlit("编译失败");
    reveal_strlit("编译超时");
    reveal_strlit("已取消");
    reveal_strlit("成功");
    reveal_strlit("超时");
    assert("成功"@.len() == 2 && "超时"@.len() == 2);
    assert("成功"@[0] == '成' && "超时"@[0] == '超');
    assert("排队中"@.len() == 3 && "处理中"@.len() == 3 && "已取消"@.len() == 3);
    assert("编译成功"@.len() == 4 && "编译失败"@.len() == 4 && "编译超时"@.len() == 4);
    assert(status_name(TaskStatus::Queued) != name || name == "排队中"@);
    if status_of_name(name) !is UnknownError && name != "成功"@ && name != "超时"@ {
        assert(status_name(status_of_name(name)) == name);
    }
}

} // verus!
