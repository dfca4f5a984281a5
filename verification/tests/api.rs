use std::io::Write;
use tie_api_server::api::builds::{
    create_build, create_build_task_for_user, create_task, created_task, event_page, find_reused,
    get_build_events, get_build_status, source_paths, BuildStart,
};
use tie_api_server::api::cleanup::{
    can_tell_ages, cleanup_tasks, forget_expired, CleanupRequest, Removed,
};
use tie_api_server::api::download::{download_build, find_package, missing_file};
use tie_api_server::api::health::{active_tasks, health_check, BuildInfo};
use tie_api_server::api::upload::{
    accepts_archive, accepts_media, check_field, compute_file_id, digest_text, has_file_id_form,
    upload_file, upload_to, Upload, UploadAction, MAX_UPLOAD,
};
use tie_api_server::database::sql::SqlValue;
use tie_api_server::database::Database;
use tie_api_server::error::ApiError;
use tie_api_server::models::task::{Task, TaskStatus};
use tie_api_server::path::System;
use tie_api_server::state::{
    count_up, queue_overflow, AppState, QueueAction, QueueReply, QueueStage,
};
use tie_api_server::time::Timestamp;
use tie_api_server::utils::{
    accepted_json_response, extract_entry, extract_zip_from_archive, get_client_ip, json_response,
    EntryAction,
};

const FILE: &str = "a9993e364706816aba3e25717850c26c9cd0d89d";

fn state() -> AppState {
    AppState::new(
        System::Unix,
        "/srv/up".to_string(),
        "/srv/.tiec/tiecc".to_string(),
        "/srv/.tiec/stdlib".to_string(),
        15,
        Database::new(System::Unix, "/srv/tasks.db").0,
        3,
    )
}

fn at(secs: i64) -> Timestamp {
    Timestamp { secs, nanos: 0 }
}

fn add(state: &mut AppState, id: u128, status: TaskStatus, secs: i64) {
    create_task(state, id, FILE, "10.0.0.1", "/srv/up/p", at(secs), at(secs));
    let mut t = state.task(id).unwrap();
    t.status = status;
    let (total, completed, failed) = (state.total_tasks, state.completed_tasks, state.failed_tasks);
    state.load_tasks_from_db(vec![t], total, completed, failed);
}

fn project(entries: usize) -> Vec<u8> {
    let mut w = zip::ZipWriter::new(std::io::Cursor::new(Vec::new()));
    for i in 0..entries {
        let options = zip::write::SimpleFileOptions::default();
        w.start_file(format!("file{}.txt", i), options).unwrap();
        w.write_all(b"hello").unwrap();
    }
    w.finish().unwrap().into_inner()
}

fn message(e: &ApiError) -> (u16, String) {
    let r = e.error_response();
    assert_eq!(r.content_type, "application/json; charset=utf-8");
    assert_eq!(r.api_version, "v1");
    assert_eq!(r.body.code, r.status as i32);
    (r.status, r.body.message)
}

// Uploads

fn receive_all(u: &mut Upload, data: &[u8]) {
    u.field(true, Some("demo.TSP"), Some("application/zip"));
    u.receive(true);
    for part in data.chunks(7) {
        u.chunk(&part.to_vec());
        u.receive(true);
    }
    u.end_of_data();
}

#[test]
fn an_upload_is_stored_extracted_and_answered() {
    let mut u = upload_to(&state(), 7);
    assert!(matches!(u.next(), UploadAction::NextField));
    let data = project(1);
    receive_all(&mut u, &data);
    let id = compute_file_id(&data);
    match u.next() {
        UploadAction::Save(part, p) => {
            assert_eq!(part, "/srv/up/00000000-0000-0000-0000-000000000007.tsp");
            assert_eq!(p, format!("/srv/up/{}.tsp", id));
        }
        other => panic!("{:?}", other),
    }
    u.receive(true);
    assert!(matches!(u.next(), UploadAction::Assets));
    u.receive(true);
    match u.next() {
        UploadAction::MakeDir(p) => assert_eq!(p, format!("/srv/up/{}_extracted", id)),
        other => panic!("{:?}", other),
    }
    u.receive(true);
    match u.next() {
        UploadAction::Extract(a, b) => {
            assert_eq!(a, format!("/srv/up/{}.tsp", id));
            assert_eq!(b, format!("/srv/up/{}_extracted", id));
        }
        other => panic!("{:?}", other),
    }
    u.receive(true);
    match u.next() {
        UploadAction::Exists(p) => assert_eq!(p, "/srv/.tiec/安卓基本库"),
        other => panic!("{:?}", other),
    }
    u.receive(true);
    match u.next() {
        UploadAction::CopyDir(a, b) => {
            assert_eq!(a, "/srv/.tiec/安卓基本库");
            assert_eq!(b, format!("/srv/up/{}_extracted/绳包/安卓基本库", id));
        }
        other => panic!("{:?}", other),
    }
    u.receive(false);
    assert!(matches!(u.next(), UploadAction::Done));
    let reply = u.answer().unwrap();
    assert_eq!(reply.status, 200);
    assert_eq!(reply.body.code, 200);
    assert_eq!(reply.body.data.file_id, id);
    assert!(has_file_id_form(&id));
}

#[test]
fn the_same_bytes_have_the_same_identifier() {
    assert_eq!(compute_file_id(&b"abc".to_vec()), FILE);
    assert_eq!(compute_file_id(&Vec::new()), "da39a3ee5e6b4b0d3255bfef95601890afd80709");
    assert_eq!(digest_text(&vec![0, 0x0f, 0xa0, 255]), "000fa0ff");
    assert!(has_file_id_form("A9993E364706816ABA3E25717850C26C9CD0D89D"));
    assert!(!has_file_id_form("a9993e364706816aba3e25717850c26c9cd0d89"));
    assert!(!has_file_id_form("g9993e364706816aba3e25717850c26c9cd0d89d"));
}

#[test]
fn upload_heads_are_checked() {
    assert!(check_field(true, Some("a.tsp"), None).is_ok());
    assert!(check_field(true, Some("a.tsp"), Some("Application/Octet-Stream")).is_ok());
    assert!(check_field(true, Some("a.tsp"), Some("application/x-zip-compressed")).is_ok());
    assert!(check_field(true, Some("a.tsp"), Some("not a type")).is_ok());
    let e = check_field(false, Some("a.tsp"), None).unwrap_err();
    assert_eq!(message(&e), (400, "Missing Content-Disposition".to_string()));
    let wrong_name = "Invalid file extension. Only .tsp files are allowed.".to_string();
    let e = check_field(true, Some("a.zip"), None).unwrap_err();
    assert_eq!(message(&e), (400, wrong_name.clone()));
    assert_eq!(e.display(), format!("Upload Error: {}", wrong_name));
    let e = check_field(true, None, None).unwrap_err();
    assert_eq!(message(&e), (400, wrong_name));
    let e = check_field(true, Some("a.tsp"), Some("text/plain")).unwrap_err();
    assert_eq!(
        message(&e),
        (400, "Invalid file type. Only .tsp (zip) files are allowed.".to_string())
    );
    assert!(accepts_media("APPLICATION", "zip"));
    assert!(!accepts_media("text", "zip"));
    assert!(!accepts_media("application", "json"));
}

#[test]
fn an_upload_without_a_file_is_refused() {
    let mut u = upload_file(&state());
    u.no_field();
    assert!(matches!(u.next(), UploadAction::Refuse(None, None)));
    let e = u.answer().unwrap_err();
    assert_eq!(message(&e), (400, "No file uploaded".to_string()));
    assert_eq!(e.display(), "Bad Request: No file uploaded");
}

#[test]
fn an_upload_that_is_too_large_is_refused() {
    assert_eq!(MAX_UPLOAD, 100 * 1024 * 1024);
    let mut u = upload_to(&state(), 7);
    u.field(true, Some("a.tsp"), None);
    u.receive(true);
    u.chunk(&vec![0u8; MAX_UPLOAD]);
    u.receive(true);
    assert!(matches!(u.next(), UploadAction::NextChunk));
    u.chunk(&vec![0u8; 1]);
    match u.next() {
        UploadAction::Refuse(Some(p), None) => {
            assert_eq!(p, "/srv/up/00000000-0000-0000-0000-000000000007.tsp")
        }
        other => panic!("{:?}", other),
    }
    assert_eq!(
        message(&u.answer().unwrap_err()),
        (400, "File too large. Max 100MB.".to_string())
    );
}

#[test]
fn an_upload_that_cannot_be_stored_is_refused_before_it_is_received() {
    let mut u = upload_file(&state());
    u.field(true, Some("a.tsp"), None);
    match u.next() {
        UploadAction::Open(p) => assert!(p.starts_with("/srv/up/") && p.ends_with(".tsp")),
        other => panic!("{:?}", other),
    }
    u.receive(false);
    assert!(matches!(u.next(), UploadAction::Refuse(None, None)));
    assert_eq!(
        message(&u.answer().unwrap_err()),
        (500, "Internal Server Error".to_string())
    );
}

#[test]
fn the_bytes_of_an_upload_are_written_as_they_come() {
    let mut u = upload_to(&state(), 7);
    u.field(true, Some("a.tsp"), None);
    u.receive(true);
    for part in [b"ab".to_vec(), b"".to_vec(), b"cde".to_vec()] {
        u.chunk(&part);
        match u.next() {
            UploadAction::Write(p, bytes) => {
                assert_eq!(p, "/srv/up/00000000-0000-0000-0000-000000000007.tsp");
                assert_eq!(bytes, part);
            }
            other => panic!("{:?}", other),
        }
        u.receive(true);
        assert!(matches!(u.next(), UploadAction::NextChunk));
    }
    assert_eq!(u.data, b"abcde");
    u.chunk(&b"f".to_vec());
    u.receive(false);
    assert!(matches!(u.next(), UploadAction::Refuse(None, None)));
    assert_eq!(
        message(&u.answer().unwrap_err()),
        (500, "Internal Server Error".to_string())
    );
}

#[test]
fn an_interrupted_upload_is_refused() {
    let mut u = upload_file(&state());
    u.field(true, Some("a.tsp"), None);
    u.receive(true);
    u.transfer_failed();
    assert_eq!(message(&u.answer().unwrap_err()), (400, "Transfer error".to_string()));
}

#[test]
fn an_upload_that_is_no_archive_is_removed_and_refused() {
    for data in [b"no archive".to_vec(), project(0)] {
        let id = compute_file_id(&data);
        let mut u = upload_file(&state());
        receive_all(&mut u, &data);
        u.receive(true);
        match u.next() {
            UploadAction::Refuse(Some(p), None) => assert_eq!(p, format!("/srv/up/{}.tsp", id)),
            other => panic!("{:?}", other),
        }
        assert_eq!(
            message(&u.answer().unwrap_err()),
            (400, "Corrupted or invalid ZIP file.".to_string())
        );
    }
    assert!(accepts_archive(Some(1)));
    assert!(!accepts_archive(Some(0)));
    assert!(!accepts_archive(None));
}

#[test]
fn failures_while_an_upload_is_stored_clean_up() {
    let data = project(2);
    let fail_at = |steps: usize| {
        let mut u = upload_file(&state());
        receive_all(&mut u, &data);
        for _ in 0..steps {
            u.receive(true);
        }
        u.receive(false);
        let removed = match u.next() {
            UploadAction::Refuse(a, b) => (a.is_some(), b.is_some()),
            other => panic!("{:?}", other),
        };
        (removed, message(&u.answer().unwrap_err()))
    };
    let internal = (500, "Internal Server Error".to_string());
    assert_eq!(fail_at(0), ((false, false), internal.clone()));
    assert_eq!(fail_at(1), ((false, false), internal.clone()));
    assert_eq!(fail_at(2), ((true, false), internal));
    assert_eq!(
        fail_at(3),
        ((true, true), (400, "Failed to extract ZIP file.".to_string()))
    );
}

// Builds

#[test]
fn a_build_request_creates_a_task() {
    let mut s = state();
    match create_build_task_for_user(&mut s, FILE, "10.0.0.1", true, true, None).unwrap() {
        BuildStart::Created(id, statement) => {
            let t = s.task(id).unwrap();
            assert_eq!(t.status, TaskStatus::Queued);
            assert_eq!(t.current_step.as_deref(), Some("Queued"));
            assert_eq!(t.file_path, format!("/srv/up/{}_extracted", FILE));
            assert_eq!(t.user_id, "10.0.0.1");
            assert_eq!(t.max_retries, 3);
            assert_eq!(s.total_tasks, 1);
            assert!(statement.sql.starts_with("INSERT INTO tasks"));
            let reply = create_build(id, TaskStatus::Queued);
            assert_eq!(reply.status, 202);
            assert_eq!(reply.body.code, 202);
            assert_eq!(reply.body.data.task_id.len(), 36);
            assert_eq!(reply.body.data.task_id.as_bytes()[14], b'4');
            assert_eq!(created_task(id, true).unwrap(), (id, TaskStatus::Queued));
            assert_eq!(message(&created_task(id, false).unwrap_err()).0, 500);
        }
        other => panic!("{:?}", other),
    }
    match create_build_task_for_user(&mut s, FILE, "u", false, true, None).unwrap() {
        BuildStart::Created(id, _) => {
            assert_eq!(s.task(id).unwrap().file_path, format!("/srv/up/{}.tsp", FILE));
        }
        other => panic!("{:?}", other),
    }
    assert_eq!(s.total_tasks, 2);
}

#[test]
fn a_second_request_is_given_the_same_task() {
    let mut s = state();
    for status in [TaskStatus::Queued, TaskStatus::Processing, TaskStatus::Success] {
        add(&mut s, 7, status, 10);
        let latest = s.task(7).unwrap();
        let total = s.total_tasks;
        match create_build_task_for_user(&mut s, FILE, "u", true, false, Some(&latest)).unwrap() {
            BuildStart::Reused(id, found) => assert_eq!((id, found), (7, status)),
            other => panic!("{:?}", other),
        }
        assert_eq!(s.total_tasks, total);
    }
}

#[test]
fn a_failed_task_is_built_again() {
    let mut s = state();
    for status in [
        TaskStatus::UnknownError,
        TaskStatus::CompilationFailed,
        TaskStatus::Timeout,
        TaskStatus::Cancelled,
    ] {
        add(&mut s, 7, status, 10);
        let latest = s.task(7).unwrap();
        assert_eq!(find_reused(Some(&latest)), None);
        let r = create_build_task_for_user(&mut s, FILE, "u", true, false, Some(&latest)).unwrap();
        assert!(matches!(r, BuildStart::Created(_, _)));
    }
}

#[test]
fn build_requests_are_refused() {
    let mut s = state();
    let e = create_build_task_for_user(&mut s, "x", "u", true, true, None).unwrap_err();
    assert_eq!(message(&e), (400, "Invalid File ID format".to_string()));
    assert!(source_paths(&s, "x").is_err());
    let e = create_build_task_for_user(&mut s, FILE, "u", false, false, None).unwrap_err();
    assert_eq!(message(&e), (404, "File not found or expired".to_string()));
    assert_eq!(e.display(), "Not Found: File not found or expired");
    assert_eq!(s.total_tasks, 0);
}

const ID_TEXT: &str = "00000000-0000-0000-0000-000000000007";

#[test]
fn the_state_of_a_task_is_told() {
    let mut s = state();
    add(&mut s, 7, TaskStatus::Processing, 10);
    let reply = get_build_status(&s, ID_TEXT).unwrap();
    assert_eq!(reply.body.code, 200);
    assert_eq!(reply.body.data.task_id, 7);
    assert_eq!(reply.body.data.status, TaskStatus::Processing);
    let e = get_build_status(&s, "seven").unwrap_err();
    assert_eq!(message(&e), (400, "Invalid Task ID".to_string()));
    let e = get_build_status(&s, "00000000-0000-0000-0000-000000000008").unwrap_err();
    assert_eq!(message(&e), (404, "Task not found".to_string()));
}

#[test]
fn event_pages_are_limited() {
    assert_eq!(event_page(None, None), (50, 0));
    assert_eq!(event_page(Some("7"), Some("3")), (7, 3));
    assert_eq!(event_page(Some("201"), Some("-3")), (200, 0));
    assert_eq!(event_page(Some("many"), Some("+4")), (50, 4));
    assert_eq!(event_page(Some("99999999999999999999"), None), (50, 0));
    let mut s = state();
    add(&mut s, 7, TaskStatus::Queued, 10);
    let q = get_build_events(&s, ID_TEXT, Some("500"), Some("5")).unwrap();
    assert!(matches!(q.params[1], SqlValue::Integer(200)));
    assert!(matches!(q.params[2], SqlValue::Integer(5)));
    let e = get_build_events(&s, ID_TEXT, None, Some("18446744073709551615")).unwrap_err();
    assert_eq!(message(&e).0, 500);
    assert_eq!(message(&get_build_events(&s, "x", None, None).unwrap_err()).0, 400);
    let other = "00000000-0000-0000-0000-000000000008";
    assert_eq!(message(&get_build_events(&s, other, None, None).unwrap_err()).0, 404);
}

// Downloads, health, cleanup

#[test]
fn only_finished_packages_are_given_out() {
    let mut s = state();
    add(&mut s, 7, TaskStatus::Processing, 10);
    let e = download_build(&s, ID_TEXT).unwrap_err();
    assert_eq!(message(&e), (400, "Build not successful yet".to_string()));
    add(&mut s, 7, TaskStatus::Success, 10);
    let e = download_build(&s, ID_TEXT).unwrap_err();
    assert_eq!(message(&e), (404, "Output path not set".to_string()));
    let mut t = s.task(7).unwrap();
    t.output_path = Some("/srv/up/app.apk".to_string());
    s.load_tasks_from_db(vec![t], 1, 1, 0);
    let d = download_build(&s, ID_TEXT).unwrap();
    assert_eq!(d.path, "/srv/up/app.apk");
    assert_eq!(d.file_name, "app-00000000-0000-0000-0000-000000000007.apk");
    assert_eq!(message(&find_package(&s, None).unwrap_err()).1, "Invalid Task ID");
    assert_eq!(message(&find_package(&s, Some(9)).unwrap_err()).1, "Task not found");
    assert_eq!(message(&missing_file()), (404, "File not found on disk".to_string()));
}

fn info() -> BuildInfo {
    BuildInfo {
        version: "1.2".to_string(),
        build_time: "t".to_string(),
        git_commit: "c".to_string(),
        git_branch: "b".to_string(),
    }
}

#[test]
fn health_counts_the_running_tasks() {
    let mut s = state();
    assert_eq!(active_tasks(&s), 0);
    add(&mut s, 1, TaskStatus::Processing, 10);
    add(&mut s, 2, TaskStatus::Queued, 10);
    add(&mut s, 3, TaskStatus::Processing, 10);
    let h = health_check(&s, Some((9, 4, 2, 1)), info()).unwrap().body.data;
    assert_eq!(h.status, "healthy");
    assert_eq!((h.total_tasks, h.completed_tasks, h.failed_tasks, h.queue_size), (9, 4, 2, 1));
    assert_eq!(h.active_tasks, 2);
    assert_eq!(h.uptime, 0);
    assert_eq!(h.version, "1.2");
    assert_eq!(message(&health_check(&s, None, info()).unwrap_err()).0, 500);
}

#[test]
fn old_tasks_are_forgotten_on_request() {
    let request = CleanupRequest {
        completed_max_age_hours: None,
        failed_max_age_hours: None,
        expired_max_age_hours: None,
    };
    assert_eq!(request.max_ages(), (24, 168, 1));
    let mut s = state();
    add(&mut s, 1, TaskStatus::Queued, 0);
    add(&mut s, 2, TaskStatus::Success, 3600);
    add(&mut s, 3, TaskStatus::Success, 7200);
    assert!(can_tell_ages(&s, 1));
    assert!(!can_tell_ages(&s, i64::MAX));
    forget_expired(&mut s, 1, &at(7200));
    assert!(s.task(1).is_none());
    assert!(s.task(2).is_some());
    assert!(s.task(3).is_some());
    let removed = Removed { completed: 1, failed: 2, expired: 3 };
    let r = cleanup_tasks(&mut s, 1, Some(removed), Some((5, 4, 1))).unwrap().body.data;
    assert_eq!(
        (r.completed_cleaned, r.failed_cleaned, r.expired_cleaned, r.total_cleaned),
        (1, 2, 3, 6)
    );
    assert!(s.task(3).is_none());
    assert_eq!((s.total_tasks, s.completed_tasks, s.failed_tasks), (5, 4, 1));
    assert_eq!(message(&cleanup_tasks(&mut s, 1, None, None).unwrap_err()).0, 500);
    assert_eq!(message(&cleanup_tasks(&mut s, 1, Some(removed), None).unwrap_err()).0, 500);
}

// The state

#[test]
fn the_queue_keeps_its_capacity() {
    assert_eq!(queue_overflow(14, 15), 0);
    assert_eq!(queue_overflow(15, 15), 1);
    assert_eq!(queue_overflow(20, 15), 6);
    assert_eq!(queue_overflow(0, 0), 1);
    let mut s = state();
    let room = QueueStage::Count.receive(QueueReply::Counted(14), 15);
    assert!(matches!(room, QueueStage::Put));
    let full = QueueStage::Count.receive(QueueReply::Counted(20), 15);
    match s.queue_action(7, &full) {
        QueueAction::Fetch(q) => assert!(matches!(q.params[1], SqlValue::Integer(6))),
        other => panic!("{:?}", other),
    }
}

#[test]
fn a_task_is_queued_whatever_the_database_answers() {
    let mut s = state();
    add(&mut s, 1, TaskStatus::Queued, 10);
    let mut stage = s.enqueue_task(7);
    let mut log = Vec::new();
    let replies = vec![
        QueueReply::Counted(15),
        QueueReply::Found(vec![1]),
        QueueReply::Over,
        QueueReply::Over,
    ];
    for reply in replies {
        log.push(match s.queue_action(7, &stage) {
            QueueAction::Count(q) => q.sql.to_string(),
            QueueAction::Fetch(q) => q.sql.to_string(),
            QueueAction::Run(groups) => groups[0][0].sql.to_string(),
            QueueAction::Done => "done".to_string(),
        });
        stage = stage.receive(reply, 15);
    }
    assert!(matches!(s.queue_action(7, &stage), QueueAction::Done));
    assert_eq!(log[0], "SELECT COUNT(*) FROM tasks WHERE status = ?");
    assert!(log[1].ends_with("ORDER BY created_at ASC LIMIT ?"));
    assert!(log[2].contains("error = ?"));
    assert!(log[3].contains("next_run_at = ?"));
    assert_eq!(s.task(1).unwrap().status, TaskStatus::Cancelled);
    let failed = QueueStage::Count.receive(QueueReply::Over, 15);
    assert!(matches!(failed, QueueStage::Put));
    assert!(matches!(QueueStage::Fetch(1).receive(QueueReply::Over, 15), QueueStage::Put));
}

#[test]
fn overflowing_tasks_are_cancelled() {
    let mut s = state();
    add(&mut s, 1, TaskStatus::Queued, 10);
    add(&mut s, 2, TaskStatus::Queued, 20);
    let groups = s.cancel_overflow(&vec![1, 9], &at(50));
    assert_eq!(groups.len(), 2);
    assert_eq!(groups[0].len(), 2);
    let t = s.task(1).unwrap();
    assert_eq!(t.status, TaskStatus::Cancelled);
    assert_eq!(t.error.as_deref(), Some("Cancelled due to queue overflow"));
    assert_eq!(t.current_step.as_deref(), Some("Queued"));
    assert_eq!(t.updated_at, at(50));
    assert_eq!(s.task(2).unwrap().status, TaskStatus::Queued);
    assert!(s.task(9).is_none());
    s.enforce_queue_capacity(&vec![2]);
    assert_eq!(s.task(2).unwrap().status, TaskStatus::Cancelled);
}

#[test]
fn a_queued_task_waits() {
    let mut s = state();
    add(&mut s, 1, TaskStatus::Processing, 10);
    assert!(matches!(s.enqueue_task(1), QueueStage::Count));
    let t = s.task(1).unwrap();
    assert_eq!(t.status, TaskStatus::Queued);
    assert!(t.updated_at.secs > 1_600_000_000);
    s.mark_queued(5, &at(1));
    assert!(s.task(5).is_none());
    s.forget(1);
    assert!(s.task(1).is_none());
    assert_eq!(count_up(u64::MAX), 0);
    assert_eq!(count_up(3), 4);
}

#[test]
fn tasks_and_counts_are_loaded() {
    let mut s = state();
    let tasks: Vec<Task> = (1..4u128)
        .map(|id| {
            let mut other = state();
            add(&mut other, id, TaskStatus::Success, id as i64);
            other.task(id).unwrap()
        })
        .collect();
    s.load_tasks_from_db(tasks, 3, 2, 1);
    assert_eq!(s.task(2).unwrap().created_at, at(2));
    assert_eq!((s.total_tasks, s.completed_tasks, s.failed_tasks), (3, 2, 1));
}

// Answers, clients and archives

#[test]
fn answers_carry_code_and_data() {
    let r = json_response(5);
    assert_eq!((r.status, r.body.code, r.body.data), (200, 200, 5));
    let r = accepted_json_response("x");
    assert_eq!((r.status, r.body.code, r.body.data), (202, 202, "x"));
    assert_eq!(ApiError::InternalServerError.display(), "Internal Server Error");
}

#[test]
fn clients_are_known_by_their_address() {
    assert_eq!(get_client_ip(Some("10.1.2.3"), Some("9.9.9.9")), "10.1.2.3");
    assert_eq!(get_client_ip(None, Some("9.9.9.9:443")), "9.9.9.9");
    assert_eq!(get_client_ip(None, Some("9.9.9.9")), "9.9.9.9");
    assert_eq!(get_client_ip(None, Some("::1")), "::1");
    assert_eq!(get_client_ip(None, None), "unknown");
}

#[test]
fn archive_entries_stay_under_the_destination() {
    match extract_entry(System::Unix, "/srv/up/p", "src/main.t").unwrap() {
        EntryAction::WriteFile { path, parent } => {
            assert_eq!(path, "/srv/up/p/src/main.t");
            assert_eq!(parent.as_deref(), Some("/srv/up/p/src"));
        }
        other => panic!("{:?}", other),
    }
    match extract_entry(System::Unix, "/srv/up/p", "src/").unwrap() {
        EntryAction::MakeDir(p) => assert_eq!(p, "/srv/up/p/src/"),
        other => panic!("{:?}", other),
    }
    assert_eq!(extract_entry(System::Unix, "/srv/up/p", "/etc/x").unwrap_err().path, "/etc/x");
    assert_eq!(extract_entry(System::Unix, "/tmp/d", "../evil.txt").unwrap_err().path, "/tmp/d/../evil.txt");
    for name in ["a/../../x", "..", "../d/x", "./../x", "a/./../.././d/x", "/tmp/d/../x"] {
        assert!(extract_entry(System::Unix, "/tmp/d", name).is_err(), "{}", name);
        assert!(extract_entry(System::Unix, "d", name).is_err(), "{}", name);
    }
    assert!(extract_entry(System::Unix, "", "./../x").is_err());
    assert!(extract_entry(System::Unix, "", "/etc/x").is_err());
    for name in ["a/../b", "a/b/../../c", "a/..", "..a/b", "a/.../b"] {
        assert!(extract_entry(System::Unix, "/tmp/d", name).is_ok(), "{}", name);
        assert!(extract_entry(System::Unix, "../d", name).is_ok(), "{}", name);
    }
    assert!(extract_entry(System::Unix, "/tmp/d", "/tmp/d/x").is_ok());
    for name in ["..\\x", "a\\..\\../x", "\\x", "/x", "D:x", "C:x", "C:\\x", "\\\\s\\t\\x"] {
        assert!(extract_entry(System::Windows, "C:\\d", name).is_err(), "{}", name);
        assert!(extract_entry(System::Windows, "", name).is_err(), "{}", name);
    }
    for name in ["a\\b", "a/b", "a\\..\\b", "c:\\D\\..\\x"] {
        assert_eq!(
            extract_entry(System::Windows, "C:\\d", name).is_ok(),
            !name.starts_with("c:"),
            "{}",
            name
        );
    }
    let names: Vec<String> = ["a", "b/", "/etc/x", "c"].iter().map(|s| s.to_string()).collect();
    let (actions, outside) = extract_zip_from_archive(System::Unix, &names, "/srv/up/p");
    assert_eq!(actions.len(), 2);
    assert_eq!(outside.unwrap().path, "/etc/x");
    let (actions, outside) = extract_zip_from_archive(System::Unix, &names[..2].to_vec(), "/srv/up/p");
    assert_eq!(actions.len(), 2);
    assert!(outside.is_none());
}
