use std::io::Write;
use tie_api_server::api::builds::{
    create_build_task_for_user, find_reused, source_paths, BuildStart,
};
use tie_api_server::api::download::download_build;
use tie_api_server::api::upload::{upload_file, UploadAction};
use tie_api_server::database::Database;
use tie_api_server::models::task::TaskStatus;
use tie_api_server::path::System;
use tie_api_server::state::AppState;
use tie_api_server::worker::execute::{
    execute_task, note_action, prepare_project_source, BuildAction, BuildEvent,
};
use tie_api_server::worker::status::fail_task;

fn state() -> AppState {
    AppState::new(
        System::Unix,
        "/srv/up".to_string(),
        "/srv/.tiec/tiecc".to_string(),
        "/srv/.tiec/stdlib".to_string(),
        15,
        Database::new(System::Unix, "/srv/tasks.db").0,
        3,
    )
}

fn uploaded(s: &AppState) -> (String, String, String) {
    let mut w = zip::ZipWriter::new(std::io::Cursor::new(Vec::new()));
    w.start_file("main.t", zip::write::SimpleFileOptions::default()).unwrap();
    w.write_all(b"code").unwrap();
    let data = w.finish().unwrap().into_inner();
    let mut u = upload_file(s);
    u.field(true, Some("demo.tsp"), None);
    u.receive(true);
    u.chunk(&data);
    u.receive(true);
    u.end_of_data();
    let (mut file, mut dir) = (String::new(), String::new());
    loop {
        match u.next() {
            UploadAction::Save(_, p) => file = p,
            UploadAction::MakeDir(p) => dir = p,
            UploadAction::Done => break,
            UploadAction::Refuse(_, _) => panic!("refused"),
            _ => {}
        }
        u.receive(true);
    }
    (u.answer().unwrap().body.data.file_id, file, dir)
}

fn built(s: &mut AppState, id: u128, compiles: bool) -> Option<String> {
    let mut run = execute_task(s, id, "linux", "x86_64");
    loop {
        let action = run.next();
        note_action(s, id, &action);
        let event = match action {
            BuildAction::LookUp => prepare_project_source(s, id),
            BuildAction::Compile(_, _, _) if !compiles => BuildEvent::No("syntax".to_string()),
            BuildAction::FindPackage(d) => BuildEvent::Yes(format!("{}/out.apk", d)),
            BuildAction::Done(_, _) => return None,
            BuildAction::Fail(error, status) => {
                fail_task(s, id, &error, status);
                return Some(error);
            }
            _ => BuildEvent::Yes(String::new()),
        };
        run.receive(event);
    }
}

fn created(s: &mut AppState, file_id: &str) -> u128 {
    match create_build_task_for_user(s, file_id, "10.0.0.1", true, true, None).unwrap() {
        BuildStart::Created(id, _) => id,
        other => panic!("{:?}", other),
    }
}

#[test]
fn an_uploaded_project_is_built_and_downloaded() {
    let mut s = state();
    let (file_id, file, dir) = uploaded(&s);
    assert_eq!(source_paths(&s, &file_id).unwrap(), (dir.clone(), file));
    let id = created(&mut s, &file_id);
    let other = created(&mut s, &file_id);
    assert_ne!(id, other);
    assert_eq!(s.task(id).unwrap().file_path, dir);
    assert_eq!(built(&mut s, id, true), None);
    let t = s.task(id).unwrap();
    assert_eq!((t.status, t.progress), (TaskStatus::Success, 100));
    assert_eq!(s.completed_tasks, 1);
    assert_eq!(s.task(other).unwrap().status, TaskStatus::Queued);
    let name = t.output_path.clone().unwrap();
    let text = &name["/srv/up/app-".len()..name.len() - ".apk".len()];
    let d = download_build(&s, text).unwrap();
    assert_eq!(d.path, name);
    assert_eq!(format!("/srv/up/{}", d.file_name), name);
    assert_eq!(find_reused(Some(&t)), Some((id, TaskStatus::Success)));
}

#[test]
fn a_build_that_fails_may_be_asked_for_again() {
    let mut s = state();
    let (file_id, _, _) = uploaded(&s);
    let id = created(&mut s, &file_id);
    let other = created(&mut s, &file_id);
    assert_eq!(built(&mut s, id, false).as_deref(), Some("syntax"));
    let t = s.task(id).unwrap();
    assert_eq!(t.status, TaskStatus::CompilationFailed);
    assert_eq!(s.failed_tasks, 1);
    assert_eq!(find_reused(Some(&t)), None);
    assert_eq!(s.task(other).unwrap().status, TaskStatus::Queued);
    let again = create_build_task_for_user(&mut s, &file_id, "10.0.0.1", true, true, Some(&t));
    assert!(matches!(again.unwrap(), BuildStart::Created(_, _)));
    assert!(download_build(&s, &format!("{:032x}", id)).is_err());
}
