//! What is made of the output and the end of the compiler and of the packaging.
use super::execute::{plus, BuildEvent, BuildEventView, TIMED_OUT};
use crate::path::{join_path, path_joined, System};
use crate::text::{contains, joined, law_occurs, occurs, opt_text, texts};
use vstd::prelude::*;

verus! {

// ---------------------------------------------------------------------------
// The compiler
// ---------------------------------------------------------------------------
/// What was seen in the output of the compiler.
#[derive(Debug)]
pub struct CompilerWatch {
    pub success_seen: bool,
    /// The last line that reports an error.
    pub last_error: Option<String>,
}

pub struct WatchView {
    pub success_seen: bool,
    pub last_error: Option<Seq<char>>,
}

impl View for CompilerWatch {
    type V = WatchView;

    open spec fn view(&self) -> WatchView {
        WatchView { success_seen: self.success_seen, last_error: opt_text(self.last_error) }
    }
}

/// A line that reports success.
pub open spec fn reports_success(line: Seq<char>) -> bool {
    occurs("编译成功"@, line)
}

/// A line of the error output that reports an error.
pub open spec fn reports_error(line: Seq<char>) -> bool {
    occurs("ERROR"@, line) || occurs("错误"@, line)
}

/// How the compiler ended.
#[derive(Debug)]
pub enum CompilerEnd {
    /// It could not be started, for the reason given.
    NotStarted(String),
    /// It exited, with success or not; the text tells the status.
    Exited(bool, String),
    /// Its end could not be awaited, for the reason given.
    WaitFailed(String),
    /// It was stopped after the time allowed.
    TimedOut,
}

/// The error that the run of the compiler ends in; none where it succeeded. A reported error
/// counts more than the exit status, and reported success as much as a good one.
pub open spec fn compiler_error(w: WatchView, end: CompilerEnd) -> Option<Seq<char>> {
    match end {
        CompilerEnd::NotStarted(e) => Some("Failed to spawn builder: "@ + e@),
        CompilerEnd::Exited(success, status) => if w.last_error is Some {
            w.last_error
        } else if success || w.success_seen {
            None
        } else {
            Some("Build failed with exit code: "@ + status@)
        },
        CompilerEnd::WaitFailed(e) => Some("Wait error: "@ + e@),
        CompilerEnd::TimedOut => Some(TIMED_OUT@),
    }
}

impl WatchView {
    pub open spec fn after_stdout(self, line: Seq<char>) -> WatchView {
        WatchView { success_seen: self.success_seen || reports_success(line), ..self }
    }

    pub open spec fn after_stderr(self, line: Seq<char>) -> WatchView {
        WatchView {
            success_seen: self.success_seen || reports_success(line),
            last_error: if reports_error(line) {
                Some(line)
            } else {
                self.last_error
            },
        }
    }
}

impl CompilerWatch {
    pub fn start() -> (r: CompilerWatch)
        ensures
            r@ == (WatchView { success_seen: false, last_error: None }),
    {
        CompilerWatch { success_seen: false, last_error: None }
    }

    /// Takes note of a line of the output.
    pub fn stdout_line(&mut self, line: &str)
        ensures
            final(self)@ == old(self)@.after_stdout(line@),
    {
        if contains(line, "编译成功") {
            self.success_seen = true;
        }
    }

    /// Takes note of a line of the error output.
    pub fn stderr_line(&mut self, line: &str)
        ensures
            final(self)@ == old(self)@.after_stderr(line@),
    {
        if contains(line, "编译成功") {
            self.success_seen = true;
        }
        if contains(line, "ERROR") || contains(line, "错误") {
            self.last_error = Some(line.to_owned());
        }
    }

    /// What the run of the compiler comes to.
    pub fn run_compiler_process(&self, end: &CompilerEnd) -> (r: Result<(), String>)
        ensures
            match r {
                Ok(_) => compiler_error(self@, *end) is None,
                Err(e) => compiler_error(self@, *end) == Some(e@),
            },
    {
        match end {
            CompilerEnd::NotStarted(e) => Err(plus("Failed to spawn builder: ", e.as_str())),
            CompilerEnd::Exited(success, status) => {
                if let Some(line) = &self.last_error {
                    return Err(line.clone());
                }
                if *success || self.success_seen {
                    Ok(())
                } else {
                    Err(plus("Build failed with exit code: ", status.as_str()))
                }
            },
            CompilerEnd::WaitFailed(e) => Err(plus("Wait error: ", e.as_str())),
            CompilerEnd::TimedOut => Err(TIMED_OUT.to_owned()),
        }
    }
}

/// What the run of the compiler means for the run of the task.
pub open spec fn compiler_event(w: WatchView, end: CompilerEnd) -> BuildEventView {
    match compiler_error(w, end) {
        None => BuildEventView::Yes(Seq::empty()),
        Some(e) => if end is TimedOut {
            BuildEventView::TimedOut
        } else {
            BuildEventView::No(e)
        },
    }
}

impl CompilerWatch {
    /// What the run of the compiler means for the run of the task.
    pub fn outcome(&self, end: &CompilerEnd) -> (r: BuildEvent)
        ensures
            r@ == compiler_event(self@, *end),
    {
        match (self.run_compiler_process(end), end) {
            (Ok(_), _) => BuildEvent::Yes(String::new()),
            (Err(_), CompilerEnd::TimedOut) => BuildEvent::TimedOut,
            (Err(e), _) => BuildEvent::No(e),
        }
    }
}

/// An error that was reported once makes the compilation fail, whatever is written later and
/// however the compiler exits.
pub proof fn law_reported_error_is_fatal(
    w: WatchView,
    line: Seq<char>,
    later: Seq<char>,
    success: bool,
    status: String,
)
    requires
        reports_error(line),
    ensures
        compiler_error(w.after_stderr(line), CompilerEnd::Exited(success, status)) is Some,
        compiler_error(
            w.after_stderr(line).after_stderr(later),
            CompilerEnd::Exited(success, status),
        ) is Some,
        compiler_error(
            w.after_stderr(line).after_stdout(later),
            CompilerEnd::Exited(success, status),
        ) is Some,
{
}

/// A line of the error output with one of the two words for an error anywhere in it is the error
/// that the compilation ends in, whatever was seen before and however the compiler exits.
pub proof fn law_error_word_anywhere(
    w: WatchView,
    before: Seq<char>,
    after: Seq<char>,
    success: bool,
    status: String,
)
    ensures
        compiler_error(
            w.after_stderr(before + "ERROR"@ + after),
            CompilerEnd::Exited(success, status),
        ) == Some(before + "ERROR"@ + after),
        compiler_error(
            w.after_stderr(before + "错误"@ + after),
            CompilerEnd::Exited(success, status),
        ) == Some(before + "错误"@ + after),
        compiler_event(
            w.after_stderr(before + "ERROR"@ + after),
            CompilerEnd::Exited(success, status),
        ) == BuildEventView::No(before + "ERROR"@ + after),
        compiler_event(
            w.after_stderr(before + "错误"@ + after),
            CompilerEnd::Exited(success, status),
        ) == BuildEventView::No(before + "错误"@ + after),
{
    law_occurs("ERROR"@, before + "ERROR"@ + after);
    law_occurs("错误"@, before + "错误"@ + after);
    assert(before + "ERROR"@ + after == joined(before, "ERROR"@, after));
    assert(before + "错误"@ + after == joined(before, "错误"@, after));
}

/// A line of the error output without either word for an error, and any line of the output,
/// leaves the error that was reported last as it is.
pub proof fn law_other_lines_report_no_error(w: WatchView, line: Seq<char>)
    ensures
        w.after_stdout(line).last_error == w.last_error,
        (forall|before: Seq<char>, after: Seq<char>|
            #![trigger joined(before, "ERROR"@, after)]
            line != joined(before, "ERROR"@, after)) && (forall|before: Seq<char>, after: Seq<char>|
            #![trigger joined(before, "错误"@, after)]
            line != joined(before, "错误"@, after)) ==> w.after_stderr(line).last_error
            == w.last_error,
{
    law_occurs("ERROR"@, line);
    law_occurs("错误"@, line);
}

/// The words for success anywhere in a line of either output make up for a bad exit status, as
/// long as no error was reported.
pub proof fn law_success_words_anywhere(
    w: WatchView,
    before: Seq<char>,
    after: Seq<char>,
    success: bool,
    status: String,
)
    requires
        w.last_error is None,
    ensures
        compiler_error(
            w.after_stdout(before + "编译成功"@ + after),
            CompilerEnd::Exited(success, status),
        ) is None,
        compiler_event(
            w.after_stdout(before + "编译成功"@ + after),
            CompilerEnd::Exited(success, status),
        ) == BuildEventView::Yes(Seq::empty()),
        w.after_stderr(before + "编译成功"@ + after).last_error is None ==> compiler_error(
            w.after_stderr(before + "编译成功"@ + after),
            CompilerEnd::Exited(success, status),
        ) is None,
{
    law_occurs("编译成功"@, before + "编译成功"@ + after);
    assert(before + "编译成功"@ + after == joined(before, "编译成功"@, after));
}

/// Where no line held the words for success and no error was reported, the exit status decides;
/// lines without these words leave that so.
pub proof fn law_exit_status_decides(
    w: WatchView,
    line: Seq<char>,
    success: bool,
    status: String,
)
    requires
        !w.success_seen,
        w.last_error is None,
        forall|before: Seq<char>, after: Seq<char>|
            #![trigger joined(before, "编译成功"@, after)]
            line != joined(before, "编译成功"@, after),
    ensures
        ({
            let seen = w.after_stdout(line);
            &&& !seen.success_seen && seen.last_error is None
            &&& compiler_error(seen, CompilerEnd::Exited(true, status)) is None
            &&& compiler_error(seen, CompilerEnd::Exited(false, status)) == Some(
                "Build failed with exit code: "@ + status@,
            )
        }),
        !w.after_stderr(line).success_seen,
{
    law_occurs("编译成功"@, line);
}

/// A compiler that could not be started or awaited, or that was stopped, has failed, whatever was
/// seen in its output.
pub proof fn law_output_of_a_broken_run_does_not_count(v: WatchView, w: WatchView, end: CompilerEnd)
    requires
        !(end is Exited),
    ensures
        compiler_error(v, end) is Some,
        compiler_error(v, end) == compiler_error(w, end),
        compiler_event(v, end) is TimedOut <==> end is TimedOut,
{
}

// ---------------------------------------------------------------------------
// Packaging
// ---------------------------------------------------------------------------
/// The name of the script that packages a project.
pub open spec fn gradlew_name(system: System) -> Seq<char> {
    if system is Windows {
        "gradlew.bat"@
    } else {
        "gradlew"@
    }
}

/// How a project is packaged.
#[derive(Debug)]
pub struct GradlePlan {
    pub dir: String,
    /// The script, which has to be there.
    pub script: String,
    /// What is told where the script is missing.
    pub missing: String,
    pub command: String,
    pub args: Vec<String>,
}

/// How packaging ended.
#[derive(Debug)]
pub enum GradleEnd {
    /// The script is missing.
    Missing,
    /// It could not be run, for the reason given.
    NotRun(String),
    /// It exited, with success or not; the text is its error output.
    Exited(bool, String),
}

/// The plan for packaging the project in a directory.
pub fn gradle_plan(system: System, project_dir: &str) -> (r: GradlePlan)
    ensures
        r.dir@ == project_dir@ + "/build"@,
        r.script@ == path_joined(system, project_dir@ + "/build"@, gradlew_name(system)),
        r.missing@ == "未在构建目录检测到 "@ + gradlew_name(system)
            + "，请确保项目生成了 Gradle Wrapper"@,
        r.command@ == if system is Windows {
            gradlew_name(system)
        } else {
            "./"@ + gradlew_name(system)
        },
        texts(r.args@) == seq!["assembleRelease"@, "--no-daemon"@],
{
    let windows = match system {
        System::Windows => true,
        System::Unix => false,
    };
    let name: &'static str = if windows {
        "gradlew.bat"
    } else {
        "gradlew"
    };
    let dir = plus(project_dir, "/build");
    let script = join_path(system, dir.as_str(), name);
    let mut missing = plus("未在构建目录检测到 ", name);
    missing.append("，请确保项目生成了 Gradle Wrapper");
    let command = if windows {
        name.to_owned()
    } else {
        plus("./", name)
    };
    let args = vec!["assembleRelease".to_owned(), "--no-daemon".to_owned()];
    assert(texts(args@) =~= seq!["assembleRelease"@, "--no-daemon"@]);
    GradlePlan { dir, script, missing, command, args }
}

/// The error that packaging ends in; none where it succeeded.
pub open spec fn gradle_error(missing: Seq<char>, end: GradleEnd) -> Option<Seq<char>> {
    match end {
        GradleEnd::Missing => Some(missing),
        GradleEnd::NotRun(e) => Some("Failed to execute gradle: "@ + e@),
        GradleEnd::Exited(success, output) => if success {
            None
        } else {
            Some("Gradle build failed: "@ + output@)
        },
    }
}

/// Packaging succeeds exactly where the script exits well, whatever it writes; what it writes, or
/// why it could not be run, is told where it fails.
pub proof fn law_packaging_goes_by_its_exit(missing: Seq<char>, output: String)
    ensures
        gradle_error(missing, GradleEnd::Exited(true, output)) is None,
        gradle_error(missing, GradleEnd::Exited(false, output)) matches Some(e)
            && output@.is_suffix_of(e),
        gradle_error(missing, GradleEnd::NotRun(output)) matches Some(e) && output@.is_suffix_of(e),
        gradle_error(missing, GradleEnd::Missing) == Some(missing),
{
    let a = "Gradle build failed: "@ + output@;
    let b = "Failed to execute gradle: "@ + output@;
    assert(a.subrange(a.len() - output@.len(), a.len() as int) =~= output@);
    assert(b.subrange(b.len() - output@.len(), b.len() as int) =~= output@);
}

/// What packaging comes to.
pub fn run_gradle_build(plan: &GradlePlan, end: &GradleEnd) -> (r: Result<(), String>)
    ensures
        match end {
            GradleEnd::Missing => r is Err && r->Err_0@ == plan.missing@,
            GradleEnd::NotRun(e) => r is Err && r->Err_0@ == "Failed to execute gradle: "@ + e@,
            GradleEnd::Exited(success, output) => if *success {
                r is Ok
            } else {
                r is Err && r->Err_0@ == "Gradle build failed: "@ + output@
            },
        },
        match r {
            Ok(_) => gradle_error(plan.missing@, *end) is None,
            Err(e) => gradle_error(plan.missing@, *end) == Some(e@),
        },
{
    match end {
        GradleEnd::Missing => Err(plan.missing.clone()),
        GradleEnd::NotRun(e) => Err(plus("Failed to execute gradle: ", e.as_str())),
        GradleEnd::Exited(success, output) => if *success {
            Ok(())
        } else {
            Err(plus("Gradle build failed: ", output.as_str()))
        },
    }
}

} // verus!
