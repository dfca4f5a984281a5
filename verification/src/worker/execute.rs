//! The run of one task, from the uploaded project to the finished package.
use super::status::{
    advanced_task, below, change_statements, extracted_dir, update_progress, update_task_status,
};
use crate::database::sql::{statements_view, Statement};
use crate::database::update_task_statement;
use crate::models::task::{TaskStatus, TaskView};
use crate::outside::{format_id, id_text};
use crate::path::{
    file_stem, is_separator, join_path, law_extension, law_joined_on_unix, lemma_unix, path_joined,
    system_named, system_of, System,
};
use crate::state::{AppState, StateView};
use crate::table::{get_task, put_task};
use crate::text::{opt_text, same_text, texts};
use crate::time::Timestamp;
use vstd::prelude::*;

verus! {

// ---------------------------------------------------------------------------
// The compiler
// ---------------------------------------------------------------------------
/// Where the compiler for a system and a processor lies below the directory of the compilers.
pub open spec fn compiler_place(os: Seq<char>, arch: Seq<char>) -> Option<Seq<char>> {
    if os == "macos"@ {
        Some("macos/tiec"@)
    } else if os == "linux"@ && arch == "x86_64"@ {
        Some("linux_x86_64/tiec"@)
    } else if os == "linux"@ && arch == "aarch64"@ {
        Some("linux_arm64-v8a/tiec"@)
    } else if os == "windows"@ && arch == "x86_64"@ {
        Some("win_x86_64/tiec.exe"@)
    } else {
        None
    }
}

/// The compiler for a system and a processor.
pub open spec fn compiler_path(tiecc_dir: Seq<char>, os: Seq<char>, arch: Seq<char>) -> Option<
    Seq<char>,
> {
    match compiler_place(os, arch) {
        Some(place) => Some(path_joined(system_named(os), tiecc_dir, place)),
        None => None,
    }
}

/// The compiler for a system and a processor; none where they are not supported.
pub fn get_compiler_binary_path(tiecc_dir: &str, os: &str, arch: &str) -> (r: Option<String>)
    ensures
        opt_text(r) == compiler_path(tiecc_dir@, os@, arch@),
{
    let place: &'static str = if same_text(os, "macos") {
        "macos/tiec"
    } else if same_text(os, "linux") && same_text(arch, "x86_64") {
        "linux_x86_64/tiec"
    } else if same_text(os, "linux") && same_text(arch, "aarch64") {
        "linux_arm64-v8a/tiec"
    } else if same_text(os, "windows") && same_text(arch, "x86_64") {
        "win_x86_64/tiec.exe"
    } else {
        return None;
    };
    Some(join_path(system_of(os), tiecc_dir, place))
}

/// The arguments that the compiler is run with in the project's directory.
pub open spec fn compile_arguments(project_dir: Seq<char>) -> Seq<Seq<char>> {
    seq![
        "-o"@,
        project_dir + "/build"@,
        "--platform"@,
        "android"@,
        "--android.gradle"@,
        "--android.app.config"@,
        project_dir + "/project.json"@,
        "--release"@,
        "--log-level"@,
        "error"@,
        "--dir"@,
        project_dir,
    ]
}

pub(crate) fn plus(a: &str, b: &str) -> (r: String)
    ensures
        r@ == a@ + b@,
{
    let mut r = a.to_owned();
    r.append(b);
    r
}

pub fn compile_args(project_dir: &str) -> (r: Vec<String>)
    ensures
        texts(r@) == compile_arguments(project_dir@),
{
    let r = vec![
        "-o".to_owned(),
        plus(project_dir, "/build"),
        "--platform".to_owned(),
        "android".to_owned(),
        "--android.gradle".to_owned(),
        "--android.app.config".to_owned(),
        plus(project_dir, "/project.json"),
        "--release".to_owned(),
        "--log-level".to_owned(),
        "error".to_owned(),
        "--dir".to_owned(),
        project_dir.to_owned(),
    ];
    assert(texts(r@) =~= compile_arguments(project_dir@));
    r
}

// ---------------------------------------------------------------------------
// Steps
// ---------------------------------------------------------------------------
/// The steps of a run, in the order in which they come.
#[derive(Clone, Copy, Debug, PartialEq, Eq, Structural)]
pub enum Step {
    Announce,
    LookUp,
    Inspect,
    MakeDir,
    NoteExtracting,
    Extract,
    NoteOrganizing,
    Assets,
    Binary,
    NoteStarting,
    ConfigAtRoot,
    ConfigInBuild,
    CopyConfig,
    Compile,
    NotePackaging,
    Gradle,
    NoteFinalizing,
    FindInOutputs,
    FindInBuild,
    Rename,
    CopyPackage,
    RemoveCopied,
    RecordOutput,
    NoteSuccess,
    Done,
    Failed,
}

/// What became of the action of a step.
#[derive(Debug)]
pub enum BuildEvent {
    /// It was carried out, the answer is yes, or the text given was found.
    Yes(String),
    /// It failed with the error given, the answer is no, or nothing was found.
    No(String),
    /// It was stopped after the time allowed.
    TimedOut,
}

pub enum BuildEventView {
    Yes(Seq<char>),
    No(Seq<char>),
    TimedOut,
}

impl View for BuildEvent {
    type V = BuildEventView;

    open spec fn view(&self) -> BuildEventView {
        match self {
            BuildEvent::Yes(t) => BuildEventView::Yes(t@),
            BuildEvent::No(t) => BuildEventView::No(t@),
            BuildEvent::TimedOut => BuildEventView::TimedOut,
        }
    }
}

/// What has to be done at a step.
#[derive(Debug)]
pub enum BuildAction {
    /// Change the task's state.
    SetStatus(TaskStatus, u8, &'static str),
    /// Note how far the task has come.
    Progress(u8, &'static str),
    /// Look up the path of the task's file in memory.
    LookUp,
    /// Tell whether there is a directory.
    IsDir(String),
    /// Make a directory with those above it.
    MakeDir(String),
    /// Extract an archive into a directory.
    Extract(String, String),
    /// Put the resources in place.
    Assets,
    /// Tell whether there is a file.
    Exists(String),
    /// Copy the first file to the second place.
    CopyFile(String, String),
    /// Run the compiler in a directory with arguments.
    Compile(String, String, Vec<String>),
    /// Package the project in a directory.
    Gradle(String),
    /// Look for a package below a directory.
    FindPackage(String),
    /// Move the first file to the second place.
    Rename(String, String),
    RemoveFile(String),
    /// Set the path of the task's package in memory.
    RecordOutput(String),
    /// The run succeeded: remove the project's directory, and the uploaded file where it is one.
    Done(String, String),
    /// The run failed, with an error and the state to leave the task in.
    Fail(String, TaskStatus),
}

pub enum BuildActionView {
    SetStatus(TaskStatus, u8, Seq<char>),
    Progress(u8, Seq<char>),
    LookUp,
    IsDir(Seq<char>),
    MakeDir(Seq<char>),
    Extract(Seq<char>, Seq<char>),
    Assets,
    Exists(Seq<char>),
    CopyFile(Seq<char>, Seq<char>),
    Compile(Seq<char>, Seq<char>, Seq<Seq<char>>),
    Gradle(Seq<char>),
    FindPackage(Seq<char>),
    Rename(Seq<char>, Seq<char>),
    RemoveFile(Seq<char>),
    RecordOutput(Seq<char>),
    Done(Seq<char>, Seq<char>),
    Fail(Seq<char>, TaskStatus),
}

impl View for BuildAction {
    type V = BuildActionView;

    open spec fn view(&self) -> BuildActionView {
        match self {
            BuildAction::SetStatus(s, p, t) => BuildActionView::SetStatus(*s, *p, t@),
            BuildAction::Progress(p, t) => BuildActionView::Progress(*p, t@),
            BuildAction::LookUp => BuildActionView::LookUp,
            BuildAction::IsDir(a) => BuildActionView::IsDir(a@),
            BuildAction::MakeDir(a) => BuildActionView::MakeDir(a@),
            BuildAction::Extract(a, b) => BuildActionView::Extract(a@, b@),
            BuildAction::Assets => BuildActionView::Assets,
            BuildAction::Exists(a) => BuildActionView::Exists(a@),
            BuildAction::CopyFile(a, b) => BuildActionView::CopyFile(a@, b@),
            BuildAction::Compile(a, b, args) => BuildActionView::Compile(a@, b@, texts(args@)),
            BuildAction::Gradle(a) => BuildActionView::Gradle(a@),
            BuildAction::FindPackage(a) => BuildActionView::FindPackage(a@),
            BuildAction::Rename(a, b) => BuildActionView::Rename(a@, b@),
            BuildAction::RemoveFile(a) => BuildActionView::RemoveFile(a@),
            BuildAction::RecordOutput(a) => BuildActionView::RecordOutput(a@),
            BuildAction::Done(a, b) => BuildActionView::Done(a@, b@),
            BuildAction::Fail(e, s) => BuildActionView::Fail(e@, *s),
        }
    }
}

/// The run of one task.
#[derive(Debug)]
pub struct BuildRun {
    /// Whose paths the files have.
    pub system: System,
    pub task_id: u128,
    pub upload_dir: String,
    /// The compiler for this machine.
    pub compiler: Option<String>,
    pub step: Step,
    /// The uploaded file, or the directory of an extracted project.
    pub file_path: String,
    pub project_dir: String,
    /// The package that was found.
    pub package: String,
    pub error: String,
    pub error_status: TaskStatus,
}

pub struct RunView {
    pub system: System,
    pub task_id: u128,
    pub upload_dir: Seq<char>,
    pub compiler: Option<Seq<char>>,
    pub step: Step,
    pub file_path: Seq<char>,
    pub project_dir: Seq<char>,
    pub package: Seq<char>,
    pub error: Seq<char>,
    pub error_status: TaskStatus,
}

impl View for BuildRun {
    type V = RunView;

    open spec fn view(&self) -> RunView {
        RunView {
            system: self.system,
            task_id: self.task_id,
            upload_dir: self.upload_dir@,
            compiler: opt_text(self.compiler),
            step: self.step,
            file_path: self.file_path@,
            project_dir: self.project_dir@,
            package: self.package@,
            error: self.error@,
            error_status: self.error_status,
        }
    }
}

pub const NO_COMPILER: &'static str = "Compiler binary not found or unsupported OS";

/// The error of a compilation that was stopped after the time allowed.
pub const TIMED_OUT: &'static str = "Build timed out";

/// The name of a task's package.
pub open spec fn package_name(id: u128) -> Seq<char> {
    "app-"@ + id_text(id) + ".apk"@
}

pub fn package_file_name(id: u128) -> (r: String)
    ensures
        r@ == package_name(id),
{
    let mut r = plus("app-", format_id(id).as_str());
    r.append(".apk");
    r
}

/// Where a project is extracted: a directory named like the file without its extension.
pub open spec fn project_dir_for(
    system: System,
    upload_dir: Seq<char>,
    file_path: Seq<char>,
) -> Seq<char> {
    match extracted_dir(system, upload_dir, file_path) {
        Some(dir) => dir,
        None => upload_dir + seq!['/'] + "unknown"@,
    }
}

impl RunView {
    pub open spec fn ended(self) -> bool {
        self.step is Done || self.step is Failed
    }

    pub open spec fn at(self, step: Step) -> RunView {
        RunView { step, ..self }
    }

    pub open spec fn failing(self, error: Seq<char>, status: TaskStatus) -> RunView {
        RunView { step: Step::Failed, error, error_status: status, ..self }
    }

    /// Where the finished package goes.
    pub open spec fn destination(self) -> Seq<char> {
        path_joined(self.system, self.upload_dir, package_name(self.task_id))
    }

    /// The run after the action of its step had an outcome.
    pub open spec fn after(self, e: BuildEventView) -> RunView {
        let yes = e is Yes;
        let text = match e {
            BuildEventView::Yes(t) => t,
            BuildEventView::No(t) => t,
            BuildEventView::TimedOut => TIMED_OUT@,
        };
        match self.step {
            Step::Announce => self.at(Step::LookUp),
            Step::LookUp => if yes {
                RunView { step: Step::Inspect, file_path: text, ..self }
            } else {
                self.failing("Task not found in memory"@, TaskStatus::UnknownError)
            },
            Step::Inspect => if yes {
                RunView { step: Step::Assets, project_dir: self.file_path, ..self }
            } else {
                RunView {
                    step: Step::MakeDir,
                    project_dir: project_dir_for(self.system, self.upload_dir, self.file_path),
                    ..self
                }
            },
            Step::MakeDir => if yes {
                self.at(Step::NoteExtracting)
            } else {
                self.failing("Failed to create source dir: "@ + text, TaskStatus::CompilationFailed)
            },
            Step::NoteExtracting => self.at(Step::Extract),
            Step::Extract => if yes {
                self.at(Step::NoteOrganizing)
            } else {
                self.failing("Failed to extract project"@, TaskStatus::CompilationFailed)
            },
            Step::NoteOrganizing => self.at(Step::Assets),
            Step::Assets => if !yes {
                self.failing("Failed to prepare assets: "@ + text, TaskStatus::CompilationFailed)
            } else if self.compiler is None {
                self.failing(NO_COMPILER@, TaskStatus::CompilationFailed)
            } else {
                self.at(Step::Binary)
            },
            Step::Binary => if yes {
                self.at(Step::NoteStarting)
            } else {
                self.failing(NO_COMPILER@, TaskStatus::CompilationFailed)
            },
            Step::NoteStarting => self.at(Step::ConfigAtRoot),
            Step::ConfigAtRoot => if yes {
                self.at(Step::Compile)
            } else {
                self.at(Step::ConfigInBuild)
            },
            Step::ConfigInBuild => if yes {
                self.at(Step::CopyConfig)
            } else {
                self.at(Step::Compile)
            },
            Step::CopyConfig => self.at(Step::Compile),
            Step::Compile => if yes {
                self.at(Step::NotePackaging)
            } else if e is TimedOut {
                self.failing(TIMED_OUT@, TaskStatus::Timeout)
            } else {
                self.failing(text, TaskStatus::CompilationFailed)
            },
            Step::NotePackaging => self.at(Step::Gradle),
            Step::Gradle => self.at(Step::NoteFinalizing),
            Step::NoteFinalizing => self.at(Step::FindInOutputs),
            Step::FindInOutputs => if yes {
                RunView { step: Step::Rename, package: text, ..self }
            } else {
                self.at(Step::FindInBuild)
            },
            Step::FindInBuild => if yes {
                RunView { step: Step::Rename, package: text, ..self }
            } else {
                self.failing(
                    "Build command succeeded but APK file not found in "@ + self.project_dir
                        + "/build"@,
                    TaskStatus::CompilationFailed,
                )
            },
            Step::Rename => if yes {
                self.at(Step::RecordOutput)
            } else {
                self.at(Step::CopyPackage)
            },
            Step::CopyPackage => if yes {
                self.at(Step::RemoveCopied)
            } else {
                self.failing("Failed to save final APK file"@, TaskStatus::UnknownError)
            },
            Step::RemoveCopied => self.at(Step::RecordOutput),
            Step::RecordOutput => self.at(Step::NoteSuccess),
            Step::NoteSuccess => self.at(Step::Done),
            Step::Done => self,
            Step::Failed => self,
        }
    }

    /// The run after all the outcomes of a list.
    pub open spec fn after_all(self, events: Seq<BuildEventView>) -> RunView
        decreases events.len(),
    {
        if events.len() == 0 {
            self
        } else {
            self.after_all(events.drop_last()).after(events.last())
        }
    }

    /// What has to be done at the run's step.
    pub open spec fn action(self) -> BuildActionView {
        match self.step {
            Step::Announce => BuildActionView::SetStatus(
                TaskStatus::Processing,
                5,
                "Initializing environment"@,
            ),
            Step::LookUp => BuildActionView::LookUp,
            Step::Inspect => BuildActionView::IsDir(self.file_path),
            Step::MakeDir => BuildActionView::MakeDir(self.project_dir),
            Step::NoteExtracting => BuildActionView::Progress(10, "Extracting project..."@),
            Step::Extract => BuildActionView::Extract(self.file_path, self.project_dir),
            Step::NoteOrganizing => BuildActionView::Progress(15, "Organizing project files..."@),
            Step::Assets => BuildActionView::Assets,
            Step::Binary => BuildActionView::Exists(self.compiler->Some_0),
            Step::NoteStarting => BuildActionView::Progress(20, "Starting build process..."@),
            Step::ConfigAtRoot => BuildActionView::Exists(self.project_dir + "/project.json"@),
            Step::ConfigInBuild => BuildActionView::Exists(
                self.project_dir + "/build/project.json"@,
            ),
            Step::CopyConfig => BuildActionView::CopyFile(
                self.project_dir + "/build/project.json"@,
                self.project_dir + "/project.json"@,
            ),
            Step::Compile => BuildActionView::Compile(
                self.compiler->Some_0,
                self.project_dir,
                compile_arguments(self.project_dir),
            ),
            Step::NotePackaging => BuildActionView::Progress(80, "Packaging APK (release)..."@),
            Step::Gradle => BuildActionView::Gradle(self.project_dir),
            Step::NoteFinalizing => BuildActionView::Progress(99, "Finalizing package..."@),
            Step::FindInOutputs => BuildActionView::FindPackage(
                self.project_dir + "/build/outputs/apk"@,
            ),
            Step::FindInBuild => BuildActionView::FindPackage(self.project_dir + "/build"@),
            Step::Rename => BuildActionView::Rename(self.package, self.destination()),
            Step::CopyPackage => BuildActionView::CopyFile(self.package, self.destination()),
            Step::RemoveCopied => BuildActionView::RemoveFile(self.package),
            Step::RecordOutput => BuildActionView::RecordOutput(self.destination()),
            Step::NoteSuccess => BuildActionView::SetStatus(
                TaskStatus::Success,
                100,
                "Build successful"@,
            ),
            Step::Done => BuildActionView::Done(self.project_dir, self.file_path),
            Step::Failed => BuildActionView::Fail(self.error, self.error_status),
        }
    }

    /// The compiler is known where it is run.
    pub open spec fn wf(self) -> bool {
        self.step is Binary || (rank(Step::Binary) < rank(self.step) <= rank(Step::Compile))
            ==> self.compiler is Some
    }
}

/// The place of a step in the order of steps.
pub open spec fn rank(step: Step) -> int {
    match step {
        Step::Announce => 0,
        Step::LookUp => 1,
        Step::Inspect => 2,
        Step::MakeDir => 3,
        Step::NoteExtracting => 4,
        Step::Extract => 5,
        Step::NoteOrganizing => 6,
        Step::Assets => 7,
        Step::Binary => 8,
        Step::NoteStarting => 9,
        Step::ConfigAtRoot => 10,
        Step::ConfigInBuild => 11,
        Step::CopyConfig => 12,
        Step::Compile => 13,
        Step::NotePackaging => 14,
        Step::Gradle => 15,
        Step::NoteFinalizing => 16,
        Step::FindInOutputs => 17,
        Step::FindInBuild => 18,
        Step::Rename => 19,
        Step::CopyPackage => 20,
        Step::RemoveCopied => 21,
        Step::RecordOutput => 22,
        Step::NoteSuccess => 23,
        Step::Done => 24,
        Step::Failed => 24,
    }
}

impl BuildRun {
    fn fail(&mut self, error: String, status: TaskStatus)
        ensures
            final(self)@ == old(self)@.failing(error@, status),
    {
        self.step = Step::Failed;
        self.error = error;
        self.error_status = status;
    }

    fn destination(&self) -> (r: String)
        ensures
            r@ == self@.destination(),
    {
        let name = package_file_name(self.task_id);
        join_path(self.system, self.upload_dir.as_str(), name.as_str())
    }

    fn compiler_text(&self) -> (r: String)
        requires
            self.compiler is Some,
        ensures
            r@ == self@.compiler->Some_0,
    {
        match &self.compiler {
            Some(c) => c.clone(),
            None => String::new(),
        }
    }

    /// What has to be done next.
    pub fn next(&self) -> (r: BuildAction)
        requires
            self@.wf(),
        ensures
            r@ == self@.action(),
    {
        match self.step {
            Step::Announce => BuildAction::SetStatus(
                TaskStatus::Processing,
                5,
                "Initializing environment",
            ),
            Step::LookUp => BuildAction::LookUp,
            Step::Inspect => BuildAction::IsDir(self.file_path.clone()),
            Step::MakeDir => BuildAction::MakeDir(self.project_dir.clone()),
            Step::NoteExtracting => BuildAction::Progress(10, "Extracting project..."),
            Step::Extract => BuildAction::Extract(
                self.file_path.clone(),
                self.project_dir.clone(),
            ),
            Step::NoteOrganizing => BuildAction::Progress(15, "Organizing project files..."),
            Step::Assets => BuildAction::Assets,
            Step::Binary => BuildAction::Exists(self.compiler_text()),
            Step::NoteStarting => BuildAction::Progress(20, "Starting build process..."),
            Step::ConfigAtRoot => BuildAction::Exists(
                plus(self.project_dir.as_str(), "/project.json"),
            ),
            Step::ConfigInBuild => BuildAction::Exists(
                plus(self.project_dir.as_str(), "/build/project.json"),
            ),
            Step::CopyConfig => BuildAction::CopyFile(
                plus(self.project_dir.as_str(), "/build/project.json"),
                plus(self.project_dir.as_str(), "/project.json"),
            ),
            Step::Compile => BuildAction::Compile(
                self.compiler_text(),
                self.project_dir.clone(),
                compile_args(self.project_dir.as_str()),
            ),
            Step::NotePackaging => BuildAction::Progress(80, "Packaging APK (release)..."),
            Step::Gradle => BuildAction::Gradle(self.project_dir.clone()),
            Step::NoteFinalizing => BuildAction::Progress(99, "Finalizing package..."),
            Step::FindInOutputs => BuildAction::FindPackage(
                plus(self.project_dir.as_str(), "/build/outputs/apk"),
            ),
            Step::FindInBuild => BuildAction::FindPackage(
                plus(self.project_dir.as_str(), "/build"),
            ),
            Step::Rename => BuildAction::Rename(self.package.clone(), self.destination()),
            Step::CopyPackage => BuildAction::CopyFile(self.package.clone(), self.destination()),
            Step::RemoveCopied => BuildAction::RemoveFile(self.package.clone()),
            Step::RecordOutput => BuildAction::RecordOutput(self.destination()),
            Step::NoteSuccess => BuildAction::SetStatus(
                TaskStatus::Success,
                100,
                "Build successful",
            ),
            Step::Done => BuildAction::Done(self.project_dir.clone(), self.file_path.clone()),
            Step::Failed => BuildAction::Fail(self.error.clone(), self.error_status),
        }
    }

    /// The action of the step had an outcome.
    pub fn receive(&mut self, event: BuildEvent)
        requires
            old(self)@.wf(),
        ensures
            final(self)@ == old(self)@.after(event@),
            final(self)@.wf(),
    {
        let (yes, late, text) = match event {
            BuildEvent::Yes(t) => (true, false, t),
            BuildEvent::No(t) => (false, false, t),
            BuildEvent::TimedOut => (false, true, TIMED_OUT.to_owned()),
        };
        match self.step {
            Step::Announce => {
                self.step = Step::LookUp;
            },
            Step::LookUp => {
                if yes {
                    self.file_path = text;
                    self.step = Step::Inspect;
                } else {
                    self.fail("Task not found in memory".to_owned(), TaskStatus::UnknownError);
                }
            },
            Step::Inspect => {
                if yes {
                    self.project_dir = self.file_path.clone();
                    self.step = Step::Assets;
                } else {
                    self.project_dir = match file_stem(self.system, self.file_path.as_str()) {
                        Some(stem) => below(self.upload_dir.as_str(), stem.as_str()),
                        None => below(self.upload_dir.as_str(), "unknown"),
                    };
                    self.step = Step::MakeDir;
                }
            },
            Step::MakeDir => {
                if yes {
                    self.step = Step::NoteExtracting;
                } else {
                    let error = plus("Failed to create source dir: ", text.as_str());
                    self.fail(error, TaskStatus::CompilationFailed);
                }
            },
            Step::NoteExtracting => {
                self.step = Step::Extract;
            },
            Step::Extract => {
                if yes {
                    self.step = Step::NoteOrganizing;
                } else {
                    self.fail(
                        "Failed to extract project".to_owned(),
                        TaskStatus::CompilationFailed,
                    );
                }
            },
            Step::NoteOrganizing => {
                self.step = Step::Assets;
            },
            Step::Assets => {
                if !yes {
                    let error = plus("Failed to prepare assets: ", text.as_str());
                    self.fail(error, TaskStatus::CompilationFailed);
                } else if self.compiler.is_none() {
                    self.fail(NO_COMPILER.to_owned(), TaskStatus::CompilationFailed);
                } else {
                    self.step = Step::Binary;
                }
            },
            Step::Binary => {
                if yes {
                    self.step = Step::NoteStarting;
                } else {
                    self.fail(NO_COMPILER.to_owned(), TaskStatus::CompilationFailed);
                }
            },
            Step::NoteStarting => {
                self.step = Step::ConfigAtRoot;
            },
            Step::ConfigAtRoot => {
                self.step = if yes {
                    Step::Compile
                } else {
                    Step::ConfigInBuild
                };
            },
            Step::ConfigInBuild => {
                self.step = if yes {
                    Step::CopyConfig
                } else {
                    Step::Compile
                };
            },
            Step::CopyConfig => {
                self.step = Step::Compile;
            },
            Step::Compile => {
                if yes {
                    self.step = Step::NotePackaging;
                } else if late {
                    self.fail(text, TaskStatus::Timeout);
                } else {
                    self.fail(text, TaskStatus::CompilationFailed);
                }
            },
            Step::NotePackaging => {
                self.step = Step::Gradle;
            },
            Step::Gradle => {
                self.step = Step::NoteFinalizing;
            },
            Step::NoteFinalizing => {
                self.step = Step::FindInOutputs;
            },
            Step::FindInOutputs => {
                if yes {
                    self.package = text;
                    self.step = Step::Rename;
                } else {
                    self.step = Step::FindInBuild;
                }
            },
            Step::FindInBuild => {
                if yes {
                    self.package = text;
                    self.step = Step::Rename;
                } else {
                    let mut error = plus(
                        "Build command succeeded but APK file not found in ",
                        self.project_dir.as_str(),
                    );
                    error.append("/build");
                    self.fail(error, TaskStatus::CompilationFailed);
                }
            },
            Step::Rename => {
                self.step = if yes {
                    Step::RecordOutput
                } else {
                    Step::CopyPackage
                };
            },
            Step::CopyPackage => {
                if yes {
                    self.step = Step::RemoveCopied;
                } else {
                    self.fail(
                        "Failed to save final APK file".to_owned(),
                        TaskStatus::UnknownError,
                    );
                }
            },
            Step::RemoveCopied => {
                self.step = Step::RecordOutput;
            },
            Step::RecordOutput => {
                self.step = Step::NoteSuccess;
            },
            Step::NoteSuccess => {
                self.step = Step::Done;
            },
            Step::Done => {},
            Step::Failed => {},
        }
    }
}

/// A run that is about to start.
pub open spec fn fresh_run(s: StateView, id: u128, os: Seq<char>, arch: Seq<char>) -> RunView {
    RunView {
        system: s.system,
        task_id: id,
        upload_dir: s.upload_dir,
        compiler: compiler_path(s.tiecc_dir, os, arch),
        step: Step::Announce,
        file_path: Seq::empty(),
        project_dir: Seq::empty(),
        package: Seq::empty(),
        error: Seq::empty(),
        error_status: TaskStatus::UnknownError,
    }
}

/// Starts the run of a task on a machine of the given system and processor.
pub fn execute_task(state: &AppState, id: u128, os: &str, arch: &str) -> (r: BuildRun)
    ensures
        r@ == fresh_run(state@, id, os@, arch@),
        r@.wf(),
{
    BuildRun {
        system: state.system,
        task_id: id,
        upload_dir: state.upload_dir.clone(),
        compiler: get_compiler_binary_path(state.tiecc_dir.as_str(), os, arch),
        step: Step::Announce,
        file_path: String::new(),
        project_dir: String::new(),
        package: String::new(),
        error: String::new(),
        error_status: TaskStatus::UnknownError,
    }
}

/// The path of the task's file, which the run looks up.
pub fn prepare_project_source(state: &AppState, id: u128) -> (r: BuildEvent)
    ensures
        match r {
            BuildEvent::Yes(path) => state@.tasks.contains_key(id) && path@
                == state@.tasks[id].file_path,
            BuildEvent::No(_) => !state@.tasks.contains_key(id),
            BuildEvent::TimedOut => false,
        },
{
    match get_task(&state.tasks, id) {
        Some(task) => BuildEvent::Yes(task.file_path),
        None => BuildEvent::No(String::new()),
    }
}

/// Sets the path of the task's package, which the run has moved into place.
pub fn finalize_build_artifact(state: &mut AppState, id: u128, dest_path: &str)
    ensures
        final(state)@ == old(state)@.with_task(
            id,
            |t: TaskView| TaskView { output_path: Some(dest_path@), ..t },
        ),
{
    if let Some(task) = get_task(&state.tasks, id) {
        let mut task = task;
        task.output_path = Some(dest_path.to_owned());
        put_task(&mut state.tasks, id, task);
    }
}

/// Carries out an action that concerns the task in memory: a change of its state, its progress, or
/// the path of its package. Each statement is run whatever became of those before it. Other
/// actions change nothing here.
pub fn note_action(state: &mut AppState, id: u128, action: &BuildAction) -> (r: Vec<Statement>)
    ensures
        match action@ {
            BuildActionView::SetStatus(status, progress, step) => exists|
                now: Timestamp,
                noted_at: Timestamp,
            | #[trigger]
                now.plain() && #[trigger] noted_at.plain() && final(state)@
                    == old(state)@.with_change(id, status, progress, Some(step), None, now)
                    && statements_view(r@) == if old(state)@.tasks.contains_key(id) {
                    change_statements(id, final(state)@.tasks[id], noted_at)
                } else {
                    seq![]
                },
            BuildActionView::Progress(progress, step) => {
                &&& exists|now: Timestamp| #[trigger]
                    now.plain() && final(state)@ == old(state)@.with_task(
                        id,
                        |t: TaskView| advanced_task(t, progress, step, now),
                    )
                &&& statements_view(r@) == if old(state)@.tasks.contains_key(id) {
                    seq![update_task_statement(final(state)@.tasks[id])]
                } else {
                    seq![]
                }
            },
            BuildActionView::RecordOutput(path) => {
                &&& final(state)@ == old(state)@.with_task(
                    id,
                    |t: TaskView| TaskView { output_path: Some(path), ..t },
                )
                &&& r@.len() == 0
            },
            _ => final(state)@ == old(state)@ && r@.len() == 0,
        },
{
    match action {
        BuildAction::SetStatus(status, progress, step) => {
            let text: &'static str = step;
            update_task_status(state, id, *status, *progress, Some(text.to_owned()), None)
        },
        BuildAction::Progress(progress, step) => {
            let mut r: Vec<Statement> = Vec::new();
            if let Some(s) = update_progress(state, id, *progress, step) {
                r.push(s);
            }
            assert(statements_view(r@) =~= if old(state)@.tasks.contains_key(id) {
                seq![update_task_statement(state@.tasks[id])]
            } else {
                seq![]
            });
            r
        },
        BuildAction::RecordOutput(path) => {
            finalize_build_artifact(state, id, path.as_str());
            Vec::new()
        },
        _ => Vec::new(),
    }
}

// ---------------------------------------------------------------------------
// Laws
// ---------------------------------------------------------------------------
proof fn lemma_rank_grows(r: RunView, e: BuildEventView)
    requires
        !r.ended(),
    ensures
        rank(r.after(e).step) > rank(r.step),
{
}

/// A run ends, whatever becomes of its actions: each outcome leads to a later step.
pub proof fn law_run_ends(r: RunView, events: Seq<BuildEventView>)
    requires
        r.step is Announce,
        events.len() >= 24,
    ensures
        r.after_all(events).ended(),
{
    lemma_rank_bound(r, events);
}

proof fn lemma_rank_bound(r: RunView, events: Seq<BuildEventView>)
    ensures
        r.after_all(events).ended() || rank(r.after_all(events).step) >= rank(r.step)
            + events.len(),
    decreases events.len(),
{
    if events.len() > 0 {
        lemma_rank_bound(r, events.drop_last());
        let before = r.after_all(events.drop_last());
        if !before.ended() {
            lemma_rank_grows(before, events.last());
        }
    }
}

/// The progress that an action notes.
pub open spec fn noted_progress(a: BuildActionView) -> Option<u8> {
    match a {
        BuildActionView::SetStatus(_, p, _) => Some(p),
        BuildActionView::Progress(p, _) => Some(p),
        _ => None,
    }
}

/// The progress of a task only grows in the course of a run, up to 100.
pub proof fn law_progress_grows(r: RunView, events: Seq<BuildEventView>)
    requires
        events.len() > 0,
        noted_progress(r.action()) is Some,
        noted_progress(r.after_all(events).action()) is Some,
    ensures
        noted_progress(r.action())->0 < noted_progress(r.after_all(events).action())->0 <= 100,
{
    lemma_rank_order(r, events);
}

proof fn lemma_rank_order(r: RunView, events: Seq<BuildEventView>)
    ensures
        events.len() == 0 ==> r.after_all(events) == r,
        events.len() > 0 ==> r.after_all(events).step == r.step && r.ended() || rank(
            r.after_all(events).step,
        ) > rank(r.step),
    decreases events.len(),
{
    if events.len() > 0 {
        lemma_rank_order(r, events.drop_last());
        let before = r.after_all(events.drop_last());
        if !before.ended() {
            lemma_rank_grows(before, events.last());
        }
    }
}

/// A run ends well only where the compiler succeeded and a package was found; the package that is
/// recorded is named after the task and lies in the upload directory.
pub proof fn law_done_means_built(r: RunView, events: Seq<BuildEventView>)
    requires
        r.step is Announce,
        r.after_all(events).step is Done,
    ensures
        exists|i: int|
            0 <= i < events.len() && r.after_all(#[trigger] events.take(i)).step is Compile
                && events[i] is Yes,
        exists|i: int|
            0 <= i < events.len() && (r.after_all(#[trigger] events.take(i)).step is FindInOutputs
                || r.after_all(events.take(i)).step is FindInBuild) && events[i] is Yes,
        r.after_all(events).destination() == path_joined(
            r.system,
            r.upload_dir,
            package_name(r.task_id),
        ),
{
    lemma_passed_compile(r, events);
    lemma_passed_find(r, events);
    lemma_same_task(r, events);
}

proof fn lemma_same_task(r: RunView, events: Seq<BuildEventView>)
    ensures
        r.after_all(events).task_id == r.task_id,
        r.after_all(events).upload_dir == r.upload_dir,
        r.after_all(events).system == r.system,
    decreases events.len(),
{
    if events.len() > 0 {
        lemma_same_task(r, events.drop_last());
    }
}

proof fn lemma_passed_compile(r: RunView, events: Seq<BuildEventView>)
    requires
        r.step is Announce,
        !(r.after_all(events).step is Failed),
        rank(r.after_all(events).step) > rank(Step::Compile),
    ensures
        exists|i: int|
            0 <= i < events.len() && r.after_all(#[trigger] events.take(i)).step is Compile
                && events[i] is Yes,
    decreases events.len(),
{
    let n = events.len() as int;
    let before = r.after_all(events.drop_last());
    assert(events.take(n - 1) =~= events.drop_last());
    if before.step is Compile {
        assert(r.after_all(events.take(n - 1)).step is Compile && events[n - 1] is Yes);
    } else {
        lemma_passed_compile(r, events.drop_last());
        let i = choose|i: int|
            0 <= i < n - 1 && r.after_all(#[trigger] events.drop_last().take(i)).step is Compile
                && events.drop_last()[i] is Yes;
        assert(events.drop_last().take(i) =~= events.take(i));
        assert(events.drop_last()[i] == events[i]);
    }
}

proof fn lemma_passed_find(r: RunView, events: Seq<BuildEventView>)
    requires
        r.step is Announce,
        !(r.after_all(events).step is Failed),
        rank(r.after_all(events).step) > rank(Step::FindInBuild),
    ensures
        exists|i: int|
            0 <= i < events.len() && (r.after_all(#[trigger] events.take(i)).step is FindInOutputs
                || r.after_all(events.take(i)).step is FindInBuild) && events[i] is Yes,
    decreases events.len(),
{
    let n = events.len() as int;
    let before = r.after_all(events.drop_last());
    assert(events.take(n - 1) =~= events.drop_last());
    if before.step is FindInOutputs || before.step is FindInBuild {
        assert((r.after_all(events.take(n - 1)).step is FindInOutputs || r.after_all(
            events.take(n - 1),
        ).step is FindInBuild) && events[n - 1] is Yes);
    } else {
        lemma_passed_find(r, events.drop_last());
        let i = choose|i: int|
            0 <= i < n - 1 && (r.after_all(#[trigger] events.drop_last().take(i)).step
                is FindInOutputs || r.after_all(events.drop_last().take(i)).step is FindInBuild)
                && events.drop_last()[i] is Yes;
        assert(events.drop_last().take(i) =~= events.take(i));
        assert(events.drop_last()[i] == events[i]);
    }
}

/// The compiler was stopped in the course of a run, after the time allowed.
pub open spec fn timed_out(r: RunView, events: Seq<BuildEventView>) -> bool {
    exists|i: int|
        0 <= i < events.len() && r.after_all(#[trigger] events.take(i)).step is Compile
            && events[i] is TimedOut
}

/// A task whose compilation takes too long is left in the state of a timeout, and its run ends
/// there. A task whose run fails for any other reason is left in the state of a failed compilation
/// or of an unknown error.
pub proof fn law_failure_states(r: RunView, events: Seq<BuildEventView>)
    requires
        r.step is Announce,
    ensures
        timed_out(r, events) ==> r.after_all(events) == r.after_all(events).failing(
            "Build timed out"@,
            TaskStatus::Timeout,
        ),
        r.after_all(events).step is Failed && !timed_out(r, events) ==> r.after_all(
            events,
        ).error_status is CompilationFailed || r.after_all(events).error_status is UnknownError,
    decreases events.len(),
{
    if events.len() > 0 {
        let n = events.len() as int;
        let init = events.drop_last();
        let before = r.after_all(init);
        law_failure_states(r, init);
        assert(events.take(n - 1) =~= init);
        if timed_out(r, init) {
            let i = choose|i: int|
                0 <= i < init.len() && r.after_all(#[trigger] init.take(i)).step is Compile
                    && init[i] is TimedOut;
            assert(init.take(i) =~= events.take(i));
            assert(events[i] == init[i]);
        } else if timed_out(r, events) {
            let i = choose|i: int|
                0 <= i < n && r.after_all(#[trigger] events.take(i)).step is Compile
                    && events[i] is TimedOut;
            if i < n - 1 {
                assert(init.take(i) =~= events.take(i));
                assert(events[i] == init[i]);
            }
            assert(before.step is Compile);
        } else if before.step is Compile && events.last() is TimedOut {
            assert(r.after_all(events.take(n - 1)).step is Compile && events[n - 1] is TimedOut);
        }
    }
}

/// A run looks up the task's file and takes the project where it lies, or extracts it first; either
/// way the resources come next.
pub proof fn law_project_is_taken(r: RunView, file: Seq<char>, t: Seq<char>, e: BuildEventView)
    requires
        r.step is Announce,
    ensures
        ({
            let seen = r.after(e).after(BuildEventView::Yes(file));
            let there = seen.after(BuildEventView::Yes(t));
            let made = seen.after(BuildEventView::No(t)).after(BuildEventView::Yes(t)).after(e);
            let extracted = made.after(BuildEventView::Yes(t)).after(e);
            &&& seen.action() == BuildActionView::IsDir(file)
            &&& there == (RunView { step: Step::Assets, file_path: file, project_dir: file, ..r })
            &&& made.action() == BuildActionView::Extract(file, made.project_dir)
            &&& made.project_dir == project_dir_for(r.system, r.upload_dir, file)
            &&& extracted == made.at(Step::Assets)
        }),
{
    let s1 = r.after(e);
    assert(s1 == r.at(Step::LookUp));
    let seen = s1.after(BuildEventView::Yes(file));
    assert(seen == (RunView { step: Step::Inspect, file_path: file, ..r }));
    let s2 = seen.after(BuildEventView::No(t));
    assert(s2.step is MakeDir);
    let s3 = s2.after(BuildEventView::Yes(t));
    assert(s3 == s2.at(Step::NoteExtracting));
    let made = s3.after(e);
    assert(made == s2.at(Step::Extract));
    let s4 = made.after(BuildEventView::Yes(t));
    assert(s4 == made.at(Step::NoteOrganizing));
    assert(s4.after(e) == made.at(Step::Assets));
}

/// With the resources and the compiler in place, the project is compiled where it lies, whether its
/// configuration lies at its root or nowhere, and a project that was compiled is packaged and then
/// searched for its package.
pub proof fn law_project_is_compiled(r: RunView, t: Seq<char>, e: BuildEventView)
    requires
        r.step is Assets,
        r.compiler is Some,
    ensures
        ({
            let yes = BuildEventView::Yes(t);
            let no = BuildEventView::No(t);
            let ready = r.after(yes).after(yes).after(e);
            let built = r.at(Step::Compile).after(yes).after(e).after(e).after(e);
            &&& ready.after(yes) == r.at(Step::Compile)
            &&& ready.after(no).after(no) == r.at(Step::Compile)
            &&& ready.after(no).after(yes).after(e) == r.at(Step::Compile)
            &&& built == r.at(Step::FindInOutputs)
        }),
{
    let yes = BuildEventView::Yes(t);
    let no = BuildEventView::No(t);
    let s1 = r.after(yes);
    assert(s1 == r.at(Step::Binary));
    let s2 = s1.after(yes);
    assert(s2 == r.at(Step::NoteStarting));
    let s3 = s2.after(e);
    assert(s3 == r.at(Step::ConfigAtRoot));
    assert(s3.after(yes) == r.at(Step::Compile));
    let s4 = s3.after(no);
    assert(s4 == r.at(Step::ConfigInBuild));
    assert(s4.after(no) == r.at(Step::Compile));
    let s5 = s4.after(yes);
    assert(s5 == r.at(Step::CopyConfig));
    assert(s5.after(e) == r.at(Step::Compile));
    let c1 = r.at(Step::Compile).after(yes);
    assert(c1 == r.at(Step::NotePackaging));
    let c2 = c1.after(e);
    assert(c2 == r.at(Step::Gradle));
    let c3 = c2.after(e);
    assert(c3 == r.at(Step::NoteFinalizing));
    assert(c3.after(e) == r.at(Step::FindInOutputs));
}

/// The package that was found, whatever its path, is moved into place under the task's name, or
/// copied there where it cannot be moved; the task is told of that place, and the run is done.
pub proof fn law_package_is_put_in_place(
    r: RunView,
    package: Seq<char>,
    t: Seq<char>,
    e: BuildEventView,
)
    requires
        r.step is FindInOutputs,
    ensures
        ({
            let yes = BuildEventView::Yes(t);
            let no = BuildEventView::No(t);
            let found = r.after(BuildEventView::Yes(package));
            let moved = found.after(yes);
            let copied = found.after(no).after(yes).after(e);
            let done = moved.after(e).after(e);
            &&& r.after(no).after(BuildEventView::Yes(package)) == found
            &&& found.action() == BuildActionView::Rename(package, r.destination())
            &&& copied == moved
            &&& moved.action() == BuildActionView::RecordOutput(r.destination())
            &&& done.action() == BuildActionView::Done(r.project_dir, r.file_path)
            &&& done.step is Done
        }),
{
    let yes = BuildEventView::Yes(t);
    let no = BuildEventView::No(t);
    let found = r.after(BuildEventView::Yes(package));
    assert(found == (RunView { step: Step::Rename, package, ..r }));
    assert(r.after(no) == r.at(Step::FindInBuild));
    let moved = found.after(yes);
    assert(moved == found.at(Step::RecordOutput));
    let s1 = found.after(no);
    assert(s1 == found.at(Step::CopyPackage));
    let s2 = s1.after(yes);
    assert(s2 == found.at(Step::RemoveCopied));
    assert(s2.after(e) == moved);
    let s3 = moved.after(e);
    assert(s3 == found.at(Step::NoteSuccess));
    assert(s3.after(e) == found.at(Step::Done));
}

/// Notes, the copy of the configuration, the packaging and the removal of what was copied do not
/// decide about the run: it goes on in the same way whatever becomes of them.
pub proof fn law_notes_do_not_decide(r: RunView, d: BuildEventView, e: BuildEventView)
    requires
        r.step is Announce || r.step is NoteExtracting || r.step is NoteOrganizing || r.step
            is NoteStarting || r.step is CopyConfig || r.step is NotePackaging || r.step is Gradle
            || r.step is NoteFinalizing || r.step is RemoveCopied || r.step is RecordOutput
            || r.step is NoteSuccess,
    ensures
        r.after(d) == r.after(e),
        !(r.after(d).step is Failed),
        r.after(d).project_dir == r.project_dir && r.after(d).package == r.package,
{
}

/// Whatever the compiler reports is the error of the run, and so is what an action that fails
/// reports, after words that tell which action it was. A failed move is made up for by a copy.
pub proof fn law_failures_are_told(r: RunView, t: Seq<char>)
    ensures
        ({
            let after = r.after(BuildEventView::No(t));
            &&& r.step is Compile ==> after == r.failing(t, TaskStatus::CompilationFailed)
            &&& r.step is LookUp || r.step is MakeDir || r.step is Extract || r.step is Assets
                || r.step is Binary || r.step is Compile || r.step is FindInBuild || r.step
                is CopyPackage <==> after.step is Failed && !(r.step is Failed)
            &&& r.step is MakeDir || r.step is Assets ==> t.is_suffix_of(after.error) && after.error
                != t
            &&& r.step is Rename ==> after.action() == BuildActionView::CopyFile(
                r.package,
                r.destination(),
            )
            &&& r.step is CopyPackage || r.step is LookUp ==> after.error_status is UnknownError
            &&& r.step is MakeDir || r.step is Extract || r.step is Assets || r.step is Binary
                || r.step is FindInBuild ==> after.error_status is CompilationFailed
        }),
{
    reveal_strlit("Failed to create source dir: ");
    reveal_strlit("Failed to prepare assets: ");
    let a = "Failed to create source dir: "@ + t;
    let b = "Failed to prepare assets: "@ + t;
    assert(a.subrange(a.len() - t.len(), a.len() as int) =~= t);
    assert(b.subrange(b.len() - t.len(), b.len() as int) =~= t);
    assert(a.len() > t.len() && b.len() > t.len());
}

/// The compiler is told to build the project in its own directory for a release on Android, from
/// the configuration there.
pub proof fn law_compiler_is_told_the_project(dir: Seq<char>, other: Seq<char>)
    ensures
        compile_arguments(dir).contains("--release"@),
        compile_arguments(dir).contains("android"@),
        compile_arguments(dir).last() == dir,
        compile_arguments(dir).contains(dir + "/build"@),
        compile_arguments(dir).contains(dir + "/project.json"@),
        compile_arguments(dir) == compile_arguments(other) ==> dir == other,
{
    let args = compile_arguments(dir);
    assert(args[7] == "--release"@);
    assert(args[3] == "android"@);
    assert(args[11] == dir);
    assert(args[1] == dir + "/build"@);
    assert(args[6] == dir + "/project.json"@);
    assert(compile_arguments(other)[11] == other);
}

/// Every Mac has a compiler, whatever its processor, and a machine whose system is not known has
/// none.
pub proof fn law_supported_machines(tiecc_dir: Seq<char>, os: Seq<char>, arch: Seq<char>)
    ensures
        compiler_path(tiecc_dir, "macos"@, arch) is Some,
        os != "macos"@ && os != "linux"@ && os != "windows"@ ==> compiler_path(
            tiecc_dir,
            os,
            arch,
        ) is None,
        compiler_path(tiecc_dir, "linux"@, "x86_64"@) is Some,
        compiler_path(tiecc_dir, "linux"@, "aarch64"@) is Some,
        compiler_path(tiecc_dir, "windows"@, "x86_64"@) is Some,
        arch != "x86_64"@ ==> compiler_path(tiecc_dir, "windows"@, arch) is None,
        arch != "x86_64"@ && arch != "aarch64"@ ==> compiler_path(tiecc_dir, "linux"@, arch)
            is None,
{
    reveal_strlit("macos");
    reveal_strlit("linux");
    reveal_strlit("windows");
    reveal_strlit("x86_64");
    reveal_strlit("aarch64");
    assert("macos"@[0] == 'm' && "linux"@[0] == 'l' && "windows"@[0] == 'w');
    assert("x86_64"@[0] == 'x' && "aarch64"@[0] == 'a');
}

/// The package of a task is named after the task, and lies in the upload directory.
pub proof fn law_package_is_named_after_its_task(r: RunView)
    requires
        r.system is Unix,
        r.upload_dir.len() > 0,
        r.upload_dir.last() != '/',
    ensures
        r.destination() == r.upload_dir + seq!['/'] + ("app-"@ + id_text(r.task_id) + ".apk"@),
{
    reveal_strlit("app-");
    let name = package_name(r.task_id);
    assert(name[0] == 'a');
    law_joined_on_unix(r.upload_dir, name);
}

/// On Unix a project is extracted to the directory in the upload directory that is named like its
/// file without the ending.
pub proof fn law_project_directory(
    r: RunView,
    dir: Seq<char>,
    stem: Seq<char>,
    ending: Seq<char>,
    e: BuildEventView,
)
    requires
        r.step is Inspect,
        r.system is Unix,
        stem.len() > 0,
        !stem.contains('/'),
        ending.len() > 0,
        !ending.contains('/'),
        !ending.contains('.'),
        r.file_path == dir.push('/') + (stem.push('.') + ending),
        !(e is Yes),
    ensures
        r.after(e).project_dir == r.upload_dir + seq!['/'] + stem,
        r.after(e).action() == BuildActionView::MakeDir(r.upload_dir + seq!['/'] + stem),
{
    assert forall|i: int| 0 <= i < stem.len() implies !is_separator(
        System::Unix,
        #[trigger] stem[i],
    ) by {
        if stem[i] == '/' {
            assert(stem.contains('/'));
        }
    }
    assert forall|i: int| 0 <= i < ending.len() implies !is_separator(
        System::Unix,
        #[trigger] ending[i],
    ) by {
        if ending[i] == '/' {
            assert(ending.contains('/'));
        }
    }
    lemma_unix(r.file_path);
    law_extension(System::Unix, dir, '/', stem, ending);
}

} // verus!
