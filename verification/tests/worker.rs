use tie_api_server::api::builds::create_task;
use tie_api_server::database::lease::LeaseAction;
use tie_api_server::database::sql::{SqlValue, Statement};
use tie_api_server::database::Database;
use tie_api_server::models::task::{Task, TaskStatus};
use tie_api_server::path::System;
use tie_api_server::state::AppState;
use tie_api_server::time::Timestamp;
use tie_api_server::worker::cleanup::{
    cleanup_at, cleanup_task, cleanup_task_files, purge_task, refreshes_stats, removes_files,
    Cleanup,
};
use tie_api_server::worker::compiler::{
    gradle_plan, run_gradle_build, CompilerEnd, CompilerWatch, GradleEnd,
};
use tie_api_server::worker::execute::{
    compile_args, execute_task, finalize_build_artifact, get_compiler_binary_path,
    package_file_name, prepare_project_source, BuildAction, BuildEvent, BuildRun, Step,
};
use tie_api_server::worker::package::{find_apk_file, DirEntry};
use tie_api_server::worker::status::{
    change_status, fail_at, fail_task, progress_at, stop_lease, update_progress,
    update_task_status,
};
use tie_api_server::worker::{lease_event, run_event, run_worker, WorkerAction, WorkerEvent};

const FILE: &str = "a9993e364706816aba3e25717850c26c9cd0d89d";

fn at(secs: i64) -> Timestamp {
    Timestamp { secs, nanos: 0 }
}

fn state() -> AppState {
    let mut s = AppState::new(
        System::Unix,
        "/srv/up".to_string(),
        "/srv/.tiec/tiecc".to_string(),
        "/srv/.tiec/stdlib".to_string(),
        15,
        Database::new(System::Unix, "/srv/tasks.db").0,
        3,
    );
    let path = format!("/srv/up/{}.tsp", FILE);
    create_task(&mut s, 7, FILE, "10.0.0.1", &path, at(10), at(10));
    s
}

fn text(s: &Statement, i: usize) -> &str {
    match &s.params[i] {
        SqlValue::Text(t) => t,
        other => panic!("{:?}", other),
    }
}

// States

#[test]
fn a_change_of_state_is_kept_and_recorded() {
    let mut s = state();
    let out = change_status(
        &mut s,
        7,
        TaskStatus::Success,
        100,
        Some("Build successful".to_string()),
        None,
        &at(60),
        &at(61),
    );
    let t = s.task(7).unwrap();
    assert_eq!((t.status, t.progress), (TaskStatus::Success, 100));
    assert_eq!(t.current_step.as_deref(), Some("Build successful"));
    assert_eq!(t.updated_at, at(60));
    assert_eq!((s.completed_tasks, s.failed_tasks), (1, 0));
    assert_eq!(out.len(), 3);
    assert!(out[0].sql.starts_with("UPDATE tasks SET status"));
    assert_eq!(text(&out[1], 1), "status_change");
    assert_eq!(text(&out[1], 2), "\"编译成功\"");
    assert_eq!(text(&out[1], 3), "Build successful");
    assert_eq!(text(&out[1], 5), "1970-01-01T00:01:01+00:00");
    assert!(out[2].sql.contains("lease_until = NULL"));
}

#[test]
fn a_running_task_keeps_its_lease() {
    let mut s = state();
    let step = Some("Initializing environment".to_string());
    let out = update_task_status(&mut s, 7, TaskStatus::Processing, 5, step, None);
    assert_eq!(out.len(), 2);
    assert_eq!((s.completed_tasks, s.failed_tasks), (0, 0));
    assert!(update_task_status(&mut s, 8, TaskStatus::Success, 5, None, None).is_empty());
    let e = Some("why".to_string());
    let out = update_task_status(&mut s, 7, TaskStatus::Timeout, 5, Some("s".to_string()), e);
    assert_eq!(text(&out[1], 3), "why");
    assert_eq!(s.failed_tasks, 1);
    assert!(stop_lease(&s, 7).sql.contains("locked_by = NULL"));
}

#[test]
fn progress_is_noted() {
    let mut s = state();
    let out = progress_at(&mut s, 7, 20, "Starting build process...", &at(70)).unwrap();
    assert_eq!(text(&out, 1), "20");
    let t = s.task(7).unwrap();
    assert_eq!((t.progress, t.updated_at), (20, at(70)));
    assert_eq!(t.current_step.as_deref(), Some("Starting build process..."));
    assert!(update_progress(&mut s, 7, 80, "x").is_some());
    assert!(update_progress(&mut s, 8, 80, "x").is_none());
}

#[test]
fn a_failure_is_final_and_told() {
    let mut s = state();
    let f = fail_at(&mut s, 7, "no main", TaskStatus::CompilationFailed, &at(60), &at(61)).unwrap();
    let t = s.task(7).unwrap();
    assert_eq!(t.status, TaskStatus::CompilationFailed);
    assert_eq!(t.current_step.as_deref(), Some("编译失败，请检查代码"));
    assert_eq!(t.error.as_deref(), Some("编译失败，请检查代码: no main"));
    assert_eq!(s.failed_tasks, 1);
    assert_eq!(f.statements.len(), 3);
    assert_eq!(text(&f.statements[1], 1), "failed");
    assert_eq!(text(&f.statements[1], 3), "编译失败，请检查代码: no main");
    assert_eq!(f.files.source, format!("/srv/up/{}.tsp", FILE));
    assert_eq!(f.files.extracted.unwrap(), format!("/srv/up/{}", FILE));
    let told = |status: TaskStatus, error: &str| {
        let mut s = state();
        fail_task(&mut s, 7, error, status).unwrap();
        s.task(7).unwrap().error.unwrap()
    };
    assert_eq!(told(TaskStatus::Timeout, ""), "任务超时，请重新上传打包");
    assert_eq!(told(TaskStatus::Cancelled, "任务已取消"), "任务已取消");
    assert_eq!(told(TaskStatus::UnknownError, "x"), "任务失败: x");
    assert!(fail_task(&mut state(), 8, "x", TaskStatus::Timeout).is_none());
}

// The run

fn yes(t: &str) -> BuildEvent {
    BuildEvent::Yes(t.to_string())
}

fn no(t: &str) -> BuildEvent {
    BuildEvent::No(t.to_string())
}

fn run() -> BuildRun {
    execute_task(&state(), 7, "linux", "x86_64")
}

#[test]
fn a_run_goes_from_the_file_to_the_package() {
    let dir = format!("/srv/up/{}", FILE);
    let mut r = run();
    let mut progress = Vec::new();
    let mut log = Vec::new();
    loop {
        let action = r.next();
        match &action {
            BuildAction::SetStatus(_, p, _) | BuildAction::Progress(p, _) => progress.push(*p),
            _ => {}
        }
        let event = match &action {
            BuildAction::LookUp => prepare_project_source(&state(), 7),
            BuildAction::IsDir(_) => no(""),
            BuildAction::FindPackage(d) if d.ends_with("/apk") => no(""),
            BuildAction::FindPackage(_) => yes("/x/out.apk"),
            BuildAction::Exists(p) if p.ends_with("project.json") => no(""),
            BuildAction::Done(a, b) => {
                assert_eq!(a, &dir);
                assert_eq!(b, &format!("/srv/up/{}.tsp", FILE));
                break;
            }
            BuildAction::Fail(e, _) => panic!("{}", e),
            _ => yes(""),
        };
        log.push(format!("{:?}", action));
        r.receive(event);
    }
    assert_eq!(progress, vec![5, 10, 15, 20, 80, 99, 100]);
    let package = "/srv/up/app-00000000-0000-0000-0000-000000000007.apk";
    assert!(log.contains(&format!("Rename(\"/x/out.apk\", \"{}\")", package)));
    assert!(log.contains(&format!("RecordOutput(\"{}\")", package)));
    assert!(log.contains(&format!("MakeDir(\"{}\")", dir)));
    assert!(log.contains(&"Exists(\"/srv/.tiec/tiecc/linux_x86_64/tiec\")".to_string()));
    assert!(log.contains(&format!("FindPackage(\"{}/build/outputs/apk\")", dir)));
}

fn failure(events: Vec<BuildEvent>) -> (String, TaskStatus) {
    let mut r = run();
    for e in events {
        r.receive(e);
    }
    match r.next() {
        BuildAction::Fail(e, s) => (e, s),
        other => panic!("{:?}", other),
    }
}

fn upto(steps: usize) -> Vec<BuildEvent> {
    let mut list = vec![yes(""), yes("/srv/up/demo.tsp"), no("")];
    while list.len() < steps {
        list.push(yes("/x.apk"));
    }
    list.truncate(steps);
    list
}

#[test]
fn every_failure_of_a_run_has_its_message() {
    let fail = |steps: usize, error: &str| {
        let mut list = upto(steps);
        list.push(no(error));
        failure(list)
    };
    let compile = TaskStatus::CompilationFailed;
    assert_eq!(
        fail(1, ""),
        ("Task not found in memory".to_string(), TaskStatus::UnknownError)
    );
    assert_eq!(fail(3, "full"), ("Failed to create source dir: full".to_string(), compile));
    assert_eq!(fail(5, "bad"), ("Failed to extract project".to_string(), compile));
    assert_eq!(fail(7, "gone"), ("Failed to prepare assets: gone".to_string(), compile));
    assert_eq!(
        fail(8, ""),
        ("Compiler binary not found or unsupported OS".to_string(), compile)
    );
    assert_eq!(fail(11, "syntax"), ("syntax".to_string(), compile));
    let mut list = upto(15);
    list.push(no(""));
    list.push(no(""));
    assert_eq!(
        failure(list),
        (
            "Build command succeeded but APK file not found in /srv/up/demo/build".to_string(),
            compile
        )
    );
    let mut list = upto(16);
    list.push(no(""));
    list.push(no(""));
    assert_eq!(
        failure(list),
        ("Failed to save final APK file".to_string(), TaskStatus::UnknownError)
    );
}

#[test]
fn an_extracted_project_is_built_in_place() {
    let mut r = run();
    r.receive(yes(""));
    r.receive(yes("/srv/up/p_extracted"));
    match r.next() {
        BuildAction::IsDir(p) => assert_eq!(p, "/srv/up/p_extracted"),
        other => panic!("{:?}", other),
    }
    r.receive(yes(""));
    assert_eq!(r.step, Step::Assets);
    assert_eq!(r.project_dir, "/srv/up/p_extracted");
}

#[test]
fn a_configuration_in_the_build_directory_is_copied() {
    let mut r = run();
    for e in [yes(""), yes("/p"), yes(""), yes(""), yes(""), yes("")] {
        r.receive(e);
    }
    assert_eq!(r.step, Step::ConfigAtRoot);
    r.receive(no(""));
    r.receive(yes(""));
    match r.next() {
        BuildAction::CopyFile(a, b) => {
            assert_eq!(a, "/p/build/project.json");
            assert_eq!(b, "/p/project.json");
        }
        other => panic!("{:?}", other),
    }
    r.receive(no("ignored"));
    match r.next() {
        BuildAction::Compile(binary, dir, args) => {
            assert_eq!(binary, "/srv/.tiec/tiecc/linux_x86_64/tiec");
            assert_eq!(dir, "/p");
            assert_eq!(args, compile_args("/p"));
        }
        other => panic!("{:?}", other),
    }
}

#[test]
fn a_package_that_cannot_be_moved_is_copied() {
    let mut r = run();
    for e in upto(16) {
        r.receive(e);
    }
    assert_eq!(r.step, Step::Rename);
    r.receive(no("other disk"));
    assert!(matches!(r.next(), BuildAction::CopyFile(_, _)));
    r.receive(yes(""));
    match r.next() {
        BuildAction::RemoveFile(p) => assert_eq!(p, "/x.apk"),
        other => panic!("{:?}", other),
    }
    r.receive(no(""));
    assert_eq!(r.step, Step::RecordOutput);
}

#[test]
fn compilers_are_known_by_system_and_processor() {
    let find = |os: &str, arch: &str| get_compiler_binary_path("/c", os, arch);
    assert_eq!(find("macos", "aarch64").unwrap(), "/c/macos/tiec");
    assert_eq!(find("linux", "x86_64").unwrap(), "/c/linux_x86_64/tiec");
    assert_eq!(find("linux", "aarch64").unwrap(), "/c/linux_arm64-v8a/tiec");
    assert_eq!(find("windows", "x86_64").unwrap(), "/c\\win_x86_64/tiec.exe");
    assert_eq!(find("windows", "aarch64"), None);
    assert_eq!(find("plan9", "x86_64"), None);
    let mut r = execute_task(&state(), 7, "plan9", "x86_64");
    for e in [yes(""), yes("/p"), yes(""), yes("")] {
        r.receive(e);
    }
    assert!(matches!(r.next(), BuildAction::Fail(_, TaskStatus::CompilationFailed)));
}

#[test]
fn the_compiler_is_given_its_arguments() {
    assert_eq!(
        compile_args("/p"),
        vec![
            "-o",
            "/p/build",
            "--platform",
            "android",
            "--android.gradle",
            "--android.app.config",
            "/p/project.json",
            "--release",
            "--log-level",
            "error",
            "--dir",
            "/p",
        ]
    );
}

#[test]
fn the_package_of_a_task_is_recorded() {
    let mut s = state();
    finalize_build_artifact(&mut s, 7, "/srv/up/app.apk");
    assert_eq!(s.task(7).unwrap().output_path.as_deref(), Some("/srv/up/app.apk"));
    finalize_build_artifact(&mut s, 8, "/srv/up/app.apk");
    assert!(s.task(8).is_none());
    assert_eq!(package_file_name(255), "app-00000000-0000-0000-0000-0000000000ff.apk");
    assert!(matches!(prepare_project_source(&s, 8), BuildEvent::No(_)));
}

// The compiler and packaging

#[test]
fn the_compiler_is_judged_by_output_and_status() {
    let good = CompilerEnd::Exited(true, "exit status: 0".to_string());
    let bad = CompilerEnd::Exited(false, "exit status: 1".to_string());
    let mut w = CompilerWatch::start();
    assert!(w.run_compiler_process(&good).is_ok());
    assert_eq!(
        w.run_compiler_process(&bad).unwrap_err(),
        "Build failed with exit code: exit status: 1"
    );
    w.stdout_line("项目编译成功！");
    assert!(w.run_compiler_process(&bad).is_ok());
    w.stdout_line("ERROR in the output is not one");
    assert!(w.run_compiler_process(&bad).is_ok());
    w.stderr_line("ERROR: first");
    w.stderr_line("a warning");
    assert_eq!(w.run_compiler_process(&good).unwrap_err(), "ERROR: first");
    w.stderr_line("语法错误");
    w.stdout_line("编译成功");
    assert_eq!(w.run_compiler_process(&good).unwrap_err(), "语法错误");
    let w = CompilerWatch::start();
    assert_eq!(w.run_compiler_process(&CompilerEnd::TimedOut).unwrap_err(), "Build timed out");
    assert_eq!(
        w.run_compiler_process(&CompilerEnd::WaitFailed("x".to_string())).unwrap_err(),
        "Wait error: x"
    );
    assert_eq!(
        w.run_compiler_process(&CompilerEnd::NotStarted("x".to_string())).unwrap_err(),
        "Failed to spawn builder: x"
    );
}

#[test]
fn projects_are_packaged_by_their_own_script() {
    let p = gradle_plan(System::Unix, "/p");
    assert_eq!((p.dir.as_str(), p.script.as_str()), ("/p/build", "/p/build/gradlew"));
    assert_eq!(p.command, "./gradlew");
    assert_eq!(p.args, vec!["assembleRelease", "--no-daemon"]);
    let w = gradle_plan(System::Windows, "/p");
    assert_eq!((w.script.as_str(), w.command.as_str()), ("/p/build\\gradlew.bat", "gradlew.bat"));
    assert_eq!(
        run_gradle_build(&p, &GradleEnd::Missing).unwrap_err(),
        "未在构建目录检测到 gradlew，请确保项目生成了 Gradle Wrapper"
    );
    assert_eq!(
        run_gradle_build(&p, &GradleEnd::NotRun("x".to_string())).unwrap_err(),
        "Failed to execute gradle: x"
    );
    assert_eq!(
        run_gradle_build(&p, &GradleEnd::Exited(false, "y".to_string())).unwrap_err(),
        "Gradle build failed: y"
    );
    assert!(run_gradle_build(&p, &GradleEnd::Exited(true, "y".to_string())).is_ok());
}

fn entry(path: &str, is_dir: bool) -> DirEntry {
    DirEntry { path: path.to_string(), is_dir }
}

#[test]
fn the_package_is_searched_breadth_first() {
    let mut s = find_apk_file(System::Unix, "/b", true);
    assert_eq!(s.next_dir().as_deref(), Some("/b"));
    s.listed(&vec![entry("/b/x", true), entry("/b/log.txt", false), entry("/b/y.apk", true)]);
    assert_eq!(s.next_dir().as_deref(), Some("/b/x"));
    s.listed(&vec![entry("/b/x/deep", true)]);
    assert_eq!(s.next_dir().as_deref(), Some("/b/y.apk"));
    s.listed(&vec![entry("/b/y.apk/one.apk", false), entry("/b/y.apk/two.apk", false)]);
    assert_eq!(s.next_dir(), None);
    assert_eq!(s.found.as_deref(), Some("/b/y.apk/one.apk"));
    let s = find_apk_file(System::Unix, "/b", false);
    assert_eq!(s.next_dir(), None);
    assert_eq!(s.found, None);
}

// Cleanup and leases

fn aged(status: TaskStatus, updated: i64) -> Task {
    let mut t = state().task(7).unwrap();
    t.status = status;
    t.updated_at = at(updated);
    t
}

#[test]
fn old_files_go_before_old_records() {
    let now = at(100_000);
    let what = |status, updated| cleanup_at(&aged(status, updated), &now, 1000);
    assert_eq!(what(TaskStatus::Processing, 0), Cleanup::Keep);
    assert_eq!(what(TaskStatus::Success, 99_000), Cleanup::Keep);
    assert_eq!(what(TaskStatus::Success, 98_999), Cleanup::RemoveFiles);
    assert_eq!(what(TaskStatus::Queued, 97_000), Cleanup::RemoveFiles);
    assert_eq!(what(TaskStatus::Cancelled, 96_999), Cleanup::Purge);
    let list = vec![aged(TaskStatus::Success, 0), aged(TaskStatus::Processing, 0)];
    assert_eq!(cleanup_task(&list, 3600).unwrap(), vec![Cleanup::Purge, Cleanup::Keep]);
    assert!(cleanup_task(&list, u64::MAX).is_none());
    assert!(removes_files(false, true));
    assert!(!removes_files(false, false));
    assert!(refreshes_stats(1));
    assert!(!refreshes_stats(0));
}

#[test]
fn a_purged_task_is_forgotten_with_its_files() {
    let mut s = state();
    let mut t = s.task(7).unwrap();
    t.output_path = Some("/srv/up/app.apk".to_string());
    let files = purge_task(&mut s, &t);
    assert!(s.task(7).is_none());
    assert_eq!(files.source, format!("/srv/up/{}.tsp", FILE));
    assert_eq!(files.output.as_deref(), Some("/srv/up/app.apk"));
    assert_eq!(files.extracted.unwrap(), format!("/srv/up/{}", FILE));
    t.file_path = "..".to_string();
    assert_eq!(cleanup_task_files(System::Unix, "/srv/up", &t).extracted, None);
}

#[test]
fn a_worker_goes_from_lease_to_lease() {
    let mut w = run_worker(3, 900);
    match w.next() {
        WorkerAction::Lease(name, secs) => assert_eq!((name.as_str(), secs), ("worker-3", 960)),
        other => panic!("{:?}", other),
    }
    w.receive(lease_event(&LeaseAction::Fail).unwrap());
    assert!(matches!(w.next(), WorkerAction::Wait(500)));
    w.receive(WorkerEvent::Over);
    w.receive(lease_event(&LeaseAction::Done(None)).unwrap());
    assert!(matches!(w.next(), WorkerAction::Wait(200)));
    w.receive(WorkerEvent::Over);
    w.receive(lease_event(&LeaseAction::Done(Some(7))).unwrap());
    match w.next() {
        WorkerAction::Run(id, name, lease, every) => {
            assert_eq!((id, name.as_str(), lease, every), (7, "worker-3", 960, 450))
        }
        other => panic!("{:?}", other),
    }
    let failed = BuildAction::Fail("bad".to_string(), TaskStatus::Timeout);
    w.receive(run_event(&failed).unwrap());
    match w.next() {
        WorkerAction::Fail(id, error, status) => {
            assert_eq!((id, error.as_str(), status), (7, "bad", TaskStatus::Timeout))
        }
        other => panic!("{:?}", other),
    }
    w.receive(WorkerEvent::Over);
    assert!(matches!(w.next(), WorkerAction::ClearLease(7)));
    w.receive(WorkerEvent::Over);
    assert!(matches!(w.next(), WorkerAction::Lease(..)));
    w.receive(WorkerEvent::Leased(Some(8)));
    w.receive(run_event(&BuildAction::Done(String::new(), String::new())).unwrap());
    assert!(matches!(w.next(), WorkerAction::ClearLease(8)));
    assert!(run_event(&BuildAction::Assets).is_none());
    let mut quick = run_worker(0, 4);
    quick.receive(WorkerEvent::Leased(Some(1)));
    assert!(matches!(quick.next(), WorkerAction::Run(1, _, 64, 5)));
}

#[test]
fn a_compilation_that_takes_too_long_ends_in_a_timeout() {
    let w = CompilerWatch::start();
    assert!(matches!(w.outcome(&CompilerEnd::TimedOut), BuildEvent::TimedOut));
    let mut list = upto(11);
    list.push(w.outcome(&CompilerEnd::TimedOut));
    assert_eq!(failure(list), ("Build timed out".to_string(), TaskStatus::Timeout));
    let end = CompilerEnd::Exited(false, "exit status: 1".to_string());
    match w.outcome(&end) {
        BuildEvent::No(e) => assert_eq!(e, "Build failed with exit code: exit status: 1"),
        other => panic!("{:?}", other),
    }
    let end = CompilerEnd::Exited(true, "exit status: 0".to_string());
    assert!(matches!(w.outcome(&end), BuildEvent::Yes(_)));
}
