use tie_api_server::assets::{
    android_library, asset_root, copies_android_library, unpack_assets, EmbeddedAsset,
};
use tie_api_server::build_test::{
    base_url, build_test_file_paths_with_config, config_candidates, config_name,
    configure_build_test_environment, exceeds_hourly_limit, interval_ms,
    load_build_test_config, monitor_build_task, run_build_test_via_api, task_urls, upload_counts,
    wait_for_health, BuildTestConfig, TestAction, TestEvent, WaitStep,
};
use tie_api_server::config::{Config, EnvValues};
use tie_api_server::models::task::TaskStatus;
use tie_api_server::path::{
    components, extension, file_name, file_stem, is_absolute, join_path, parent, stays_below,
    system_of, System,
};
use tie_api_server::startup::{
    get_local_ips, read_arguments, resolve, resource_dirs, Interface,
};
use tie_api_server::text::{
    contains, decimal_text, ends_with_ignoring_case, lines, parse_unsigned, rsplit_once,
    signed_text, split, trim, trim_end_of,
};
use tie_api_server::time::Timestamp;

fn strings(list: &[&str]) -> Vec<String> {
    list.iter().map(|s| s.to_string()).collect()
}

#[test]
fn texts_are_cut_and_joined() {
    assert_eq!(split("a,,b", ','), strings(&["a", "", "b"]));
    assert_eq!(split("", ','), strings(&[""]));
    assert_eq!(lines("a\r\nb\n\nc\r"), strings(&["a", "b", "", "c\r"]));
    assert_eq!(lines(""), Vec::<String>::new());
    assert_eq!(trim(" \u{3000}x y\t\n"), "x y");
    assert_eq!(trim_end_of("http://h//", '/'), "http://h");
    assert_eq!(rsplit_once("a:b:c", ':').unwrap(), ("a:b".to_string(), "c".to_string()));
    assert!(contains("编译成功了", "编译成功"));
    assert!(!contains("编译", "编译成功"));
    assert!(ends_with_ignoring_case("X.TsP", ".tsp"));
    assert!(!ends_with_ignoring_case("tsp", ".tsp"));
}

#[test]
fn numbers_are_written_and_read() {
    for n in [0u64, 9, 10, 1234567890, u64::MAX] {
        assert_eq!(decimal_text(n), n.to_string());
        assert_eq!(parse_unsigned(&decimal_text(n), u64::MAX), Some(n));
    }
    assert_eq!(signed_text(i32::MIN), i32::MIN.to_string());
    assert_eq!(signed_text(42), "42");
    assert_eq!(parse_unsigned("+7", 10), Some(7));
    assert_eq!(parse_unsigned("11", 10), None);
    for bad in ["", "+", "-1", "1 ", "1a", "18446744073709551616"] {
        assert_eq!(parse_unsigned(bad, u64::MAX), None);
    }
}

#[test]
fn paths_are_taken_apart() {
    for p in ["a/b.c", "/", "", "./x", "a//b/", "a/./b", "/a", "..", "a/..", ".hid", "x.tar.gz"] {
        let std = std::path::Path::new(p);
        let above = std.parent().map(|q| q.to_str().unwrap().to_string());
        let name = std.file_name().map(|q| q.to_str().unwrap().to_string());
        let stem = std.file_stem().map(|q| q.to_str().unwrap().to_string());
        let ext = std.extension().map(|q| q.to_str().unwrap().to_string());
        assert_eq!(parent(System::Unix, p), above, "parent of {}", p);
        assert_eq!(file_name(System::Unix, p), name, "name of {}", p);
        assert_eq!(file_stem(System::Unix, p), stem, "stem of {}", p);
        assert_eq!(extension(System::Unix, p), ext, "extension of {}", p);
        assert_eq!(components(System::Unix, p).len(), std.components().count(), "components of {}", p);
    }
    for (a, b) in [("a", "b"), ("a/", "b"), ("", "b"), ("a", "/b"), ("a", "")] {
        let std = std::path::Path::new(a).join(b);
        assert_eq!(join_path(System::Unix, a, b), std.to_str().unwrap());
        assert!(!stays_below(System::Unix, &join_path(System::Unix, a, b), a) || std.starts_with(a));
    }
    assert!(!stays_below(System::Unix, "/abc", "/ab"));
    assert!(stays_below(System::Unix, "/ab/c", "/ab"));
    assert!(!stays_below(System::Unix, "/ab/../c", "/ab"));
}

#[test]
fn paths_of_windows_have_volumes_and_two_separators() {
    let w = System::Windows;
    assert_eq!(system_of("windows"), w);
    assert_eq!(system_of("linux"), System::Unix);
    for (p, absolute) in [
        ("C:\\a", true),
        ("c:/a", true),
        ("C:a", false),
        ("C:", false),
        ("\\a", false),
        ("a\\b", false),
        ("\\\\s\\t", true),
        ("\\\\s", false),
        ("//s/t/a", true),
    ] {
        assert_eq!(is_absolute(w, p), absolute, "{}", p);
    }
    for (p, above) in [
        ("C:\\a\\b", Some("C:\\a")),
        ("C:\\a", Some("C:\\")),
        ("C:\\", None),
        ("C:a", Some("C:")),
        ("C:", None),
        ("\\\\s\\t\\x", Some("\\\\s\\t\\")),
        ("\\\\s\\t", None),
        ("a/b\\c", Some("a/b")),
    ] {
        assert_eq!(parent(w, p).as_deref(), above, "{}", p);
    }
    for (a, b, c) in [
        ("C:\\a", "b", "C:\\a\\b"),
        ("C:\\a\\", "b", "C:\\a\\b"),
        ("C:/a/", "b", "C:/a/b"),
        ("C:", "b", "C:b"),
        ("C:\\a", "\\b", "C:\\b"),
        ("C:\\a", "D:b", "D:b"),
        ("C:\\a", "D:\\b", "D:\\b"),
        ("\\\\s\\t", "b", "\\\\s\\t\\b"),
        ("\\\\s\\t\\x", "\\b", "\\\\s\\t\\b"),
        ("", "b", "b"),
    ] {
        assert_eq!(join_path(w, a, b), c);
    }
    let verbatim = "\\\\?\\C:\\a";
    assert!(is_absolute(w, verbatim));
    assert_eq!(join_path(w, verbatim, "b/.\\..\\c/d"), "\\\\?\\C:\\a\\c\\d");
    assert_eq!(join_path(w, verbatim, "../../.."), "\\\\?\\C:\\");
    assert_eq!(join_path(w, verbatim, "\\x"), "\\\\?\\C:\\x");
    assert_eq!(parent(w, verbatim).as_deref(), Some("\\\\?\\C:\\"));
    assert_eq!(file_name(w, "\\\\?\\C:\\a/b").as_deref(), Some("a/b"));
    assert_eq!(
        join_path(w, "\\\\?\\UNC\\s\\t", "x"),
        "\\\\?\\UNC\\s\\t\\x"
    );
    assert_eq!(parent(w, "\\\\?\\UNC\\s\\t"), None);
    assert_eq!(parent(w, "\\\\.\\COM42"), None);
    assert_eq!(join_path(w, "\\\\?\\pic", "x"), "\\\\?\\pic\\x");
    assert_eq!(file_name(w, "C:\\a.d\\b.tsp").as_deref(), Some("b.tsp"));
    assert_eq!(file_stem(w, "C:\\a.d\\b.tsp").as_deref(), Some("b"));
    assert_eq!(extension(w, "C:\\a.d\\.apk"), None);
    assert_eq!(file_name(w, "C:"), None);
    assert_eq!(components(w, "c:\\a/./b"), strings(&["C:", "/", "a", "b"]));
    assert!(stays_below(w, "C:\\a\\b", "c:/a"));
    assert!(!stays_below(w, "C:\\a\\..\\b", "C:\\a"));
    assert_eq!(resolve(w, "C:\\opt", "D:\\up"), "D:\\up");
    assert_eq!(resolve(w, "C:\\opt", "up"), "C:\\opt\\up");
}

#[test]
fn times_are_written_and_read() {
    let t = Timestamp { secs: 1_714_972_089, nanos: 250_000_000 };
    assert_eq!(t.to_rfc3339(), "2024-05-06T05:08:09.250+00:00");
    assert_eq!(Timestamp::parse_from_rfc3339(&t.to_rfc3339()), Some(t));
    assert_eq!(Timestamp::parse_from_rfc3339("no date"), None);
    let now = Timestamp::now();
    assert_eq!(Timestamp::parse_from_rfc3339(&now.to_rfc3339()), Some(now));
    assert!(t.before(&now));
    assert!(!now.before(&now));
    assert_eq!(t.plus_seconds(60).minus_seconds(60), t);
    assert_eq!(t.moved(-1), t.minus_seconds(3600));
    let leap = Timestamp { secs: 1_483_228_799, nanos: 1_500_000_000 };
    assert_eq!(leap.to_rfc3339(), "2016-12-31T23:59:60.500+00:00");
    assert_eq!(Timestamp::parse_from_rfc3339(&leap.to_rfc3339()), Some(leap));
    let chrono_leap = chrono::DateTime::from_timestamp(leap.secs, leap.nanos).unwrap();
    for secs in [-7200i64, -1, 0, 1, 7200] {
        let moved = chrono_leap + chrono::Duration::seconds(secs);
        let ours = if secs < 0 {
            leap.minus_seconds(secs.unsigned_abs())
        } else {
            leap.plus_seconds(secs as u64)
        };
        assert_eq!((ours.secs, ours.nanos), (moved.timestamp(), moved.timestamp_subsec_nanos()));
    }
    assert!(leap.can_move(1));
    assert!(!Timestamp { secs: 58, nanos: 1_500_000_000 }.can_move(1));
    assert!(Timestamp { secs: -1, nanos: 1_500_000_000 }.can_move(1));
    assert!(t.reaches(1000));
    assert!(!t.reaches(u64::MAX));
    assert!(!t.reaches_back(u64::MAX));
    assert!(!t.can_move(i64::MIN));
}

#[test]
fn states_are_recorded_by_name() {
    for (s, name) in [
        (TaskStatus::Queued, "排队中"),
        (TaskStatus::Processing, "处理中"),
        (TaskStatus::Success, "编译成功"),
        (TaskStatus::UnknownError, "未知错误"),
        (TaskStatus::CompilationFailed, "编译失败"),
        (TaskStatus::Timeout, "编译超时"),
        (TaskStatus::Cancelled, "已取消"),
    ] {
        assert_eq!(s.name(), name);
        assert_eq!(s.to_json(), format!("\"{}\"", name));
        assert_eq!(TaskStatus::from_recorded(&s.to_json()), s);
        assert_eq!(TaskStatus::from_recorded(name), s);
    }
    assert_eq!(TaskStatus::from_recorded("成功"), TaskStatus::Success);
    assert_eq!(TaskStatus::from_recorded("超时"), TaskStatus::Timeout);
    assert_eq!(TaskStatus::from_recorded("?"), TaskStatus::UnknownError);
    assert_eq!(TaskStatus::from_recorded("\""), TaskStatus::UnknownError);
}

fn unset() -> EnvValues {
    EnvValues {
        host: None,
        port: None,
        upload_dir: None,
        database_path: None,
        queue_capacity: None,
        worker_count: None,
        task_timeout: None,
        cleanup_interval: None,
        cleanup_retention_secs: None,
        hourly_ip_limit: None,
        max_retries: None,
    }
}

#[test]
fn settings_have_defaults() {
    let c = Config::from_env(&unset());
    assert_eq!((c.host.as_str(), c.port), ("0.0.0.0", 8080));
    assert_eq!(c.upload_dir, "./.tiec/uploads");
    assert_eq!(c.database_path, "./.tiec/tasks.db");
    assert_eq!((c.queue_capacity, c.worker_count), (15, 1));
    assert_eq!((c.task_timeout, c.cleanup_interval), (900, 3600));
    assert_eq!((c.cleanup_retention_secs, c.hourly_ip_limit, c.max_retries), (3600, 20, 3));
}

#[test]
fn settings_come_from_the_environment() {
    let set = |s: &str| Some(s.to_string());
    let mut e = unset();
    e.host = set("127.0.0.1");
    e.port = set("8081");
    e.queue_capacity = set("many");
    e.worker_count = set("4");
    e.max_retries = set("256");
    e.hourly_ip_limit = set("60");
    let c = Config::from_env(&e);
    assert_eq!((c.host.as_str(), c.port), ("127.0.0.1", 8081));
    assert_eq!((c.queue_capacity, c.worker_count), (15, 4));
    assert_eq!((c.max_retries, c.hourly_ip_limit), (3, 60));
    e.port = set("65536");
    assert_eq!(Config::from_env(&e).port, 8080);
}

#[test]
fn resources_are_unpacked_where_they_are_missing() {
    let assets = [
        EmbeddedAsset { path: "tiecc/linux/tiec", data: b"x", unix_mode: Some(0o755) },
        EmbeddedAsset { path: "stdlib/a.t", data: b"y", unix_mode: None },
    ];
    assert!(unpack_assets(System::Unix, "/srv/.tiec/tiecc", true, true, &assets).is_none());
    let plan = unpack_assets(System::Unix, "/srv/.tiec/tiecc", true, false, &assets).unwrap();
    assert_eq!(plan.root, "/srv/.tiec");
    assert_eq!(plan.targets.len(), 2);
    assert_eq!(plan.targets[0].path, "/srv/.tiec/tiecc/linux/tiec");
    assert_eq!(plan.targets[0].parent.as_deref(), Some("/srv/.tiec/tiecc/linux"));
    assert_eq!(plan.targets[0].unix_mode, Some(0o755));
    assert_eq!(asset_root(System::Unix, "/"), "./.tiec");
    let (from, to) = android_library(System::Unix, "/srv/.tiec/tiecc", "/srv/.tiec/stdlib");
    assert_eq!((from.as_str(), to.as_str()), ("/srv/.tiec/stdlib/android", "/srv/.tiec/安卓基本库"));
    assert!(copies_android_library(false, true));
    assert!(!copies_android_library(true, true));
    assert!(!copies_android_library(false, false));
}

#[test]
fn arguments_are_read() {
    let a = read_arguments(&strings(&["srv", "--port", "81", "--port", "82"]));
    assert!(!a.build_test);
    assert_eq!(a.port.as_deref(), Some("81"));
    let a = read_arguments(&strings(&["srv", "build-test", "--port"]));
    assert!(a.build_test);
    assert_eq!(a.port, None);
    assert!(read_arguments(&strings(&["srv", "--build-test"])).build_test);
    assert_eq!(resolve(System::Unix, "/opt", "./up"), "/opt/./up");
    assert_eq!(resolve(System::Unix, "/opt", "/up"), "/up");
    let dirs = resource_dirs(System::Unix, "/opt");
    assert_eq!(dirs.tiecc_dir, "/opt/.tiec/tiecc");
    assert_eq!(dirs.stdlib_dir, "/opt/.tiec/stdlib");
}

#[test]
fn addresses_are_shown_in_order() {
    let v4 = |loopback: bool, s: &str| Interface { loopback, v4: Some(s.to_string()) };
    let list = vec![
        v4(false, "192.168.0.2"),
        v4(true, "127.0.0.1"),
        Interface { loopback: false, v4: None },
        v4(false, "10.0.0.9"),
        v4(false, "192.168.0.2"),
        v4(false, "10.0.0.10"),
    ];
    assert_eq!(get_local_ips(&list), strings(&["10.0.0.10", "10.0.0.9", "192.168.0.2"]));
}

fn config() -> BuildTestConfig {
    BuildTestConfig {
        base_url: None,
        file_path: None,
        file_paths: None,
        interval_ms: None,
        task_timeout: None,
        queue_capacity: None,
        cleanup_interval: None,
        cleanup_retention_secs: None,
        hourly_ip_limit: None,
        max_retries: None,
    }
}

#[test]
fn test_files_are_collected() {
    let mut c = config();
    c.file_path = Some(" a.tsp ".to_string());
    c.file_paths = Some(strings(&["b.tsp", "  ", "c.tsp"]));
    assert_eq!(
        build_test_file_paths_with_config(Some(&c), Some("d.tsp"), Some("e.tsp,, f.tsp")),
        strings(&["a.tsp", "b.tsp", "c.tsp", "d.tsp", "e.tsp", "f.tsp"])
    );
    assert!(build_test_file_paths_with_config(None, Some(" "), None).is_empty());
}

#[test]
fn the_test_configuration_is_looked_for() {
    assert_eq!(config_name(None), "test.json");
    assert_eq!(config_name(Some("x.json")), "x.json");
    assert_eq!(config_candidates(System::Unix, "/x.json", Some("/w"), Some("/a/b/c/d")), strings(&["/x.json"]));
    let places = config_candidates(System::Unix, "x.json", Some("/w"), Some("/a/b/c/d"));
    assert_eq!(places, strings(&["/w/x.json", "/a/b/c/x.json", "/a/b/x.json", "/a/x.json"]));
    assert_eq!(config_candidates(System::Unix, "x", None, Some("/d")), strings(&["/x"]));
    let found = load_build_test_config(&places, &vec![false, true, false, true]);
    assert_eq!(found.as_deref(), Some("/a/b/c/x.json"));
    assert_eq!(load_build_test_config(&places, &vec![false; 4]), None);
}

#[test]
fn test_settings_are_made_in_order() {
    let pairs = |c: Option<&BuildTestConfig>, t: Option<&str>, q: Option<&str>| {
        configure_build_test_environment(c, t, q)
            .into_iter()
            .map(|s| (s.name, s.value))
            .collect::<Vec<_>>()
    };
    let pair = |a: &'static str, b: &str| (a, b.to_string());
    assert_eq!(
        pairs(None, Some("5"), None),
        vec![
            pair("RUST_LOG", "info"),
            pair("TASK_TIMEOUT", "5"),
            pair("TASK_TIMEOUT", "1800"),
            pair("CLEANUP_INTERVAL", "86400"),
            pair("CLEANUP_RETENTION_SECS", "86400"),
        ]
    );
    let mut c = config();
    c.task_timeout = Some(900);
    c.queue_capacity = Some(30);
    c.cleanup_interval = Some(30);
    c.cleanup_retention_secs = Some(15);
    c.hourly_ip_limit = Some(60);
    c.max_retries = Some(3);
    assert_eq!(
        pairs(Some(&c), None, Some("8")),
        vec![
            pair("RUST_LOG", "info"),
            pair("TASK_TIMEOUT", "900"),
            pair("QUEUE_CAPACITY", "30"),
            pair("CLEANUP_INTERVAL", "30"),
            pair("CLEANUP_RETENTION_SECS", "15"),
            pair("HOURLY_IP_LIMIT", "60"),
            pair("MAX_RETRIES", "3"),
            pair("QUEUE_CAPACITY", "8"),
        ]
    );
}

#[test]
fn the_self_test_finds_the_service() {
    let mut c = config();
    assert_eq!(base_url(None, None, 8081), "http://127.0.0.1:8081");
    assert_eq!(base_url(Some(&c), Some("http://e"), 1), "http://e");
    c.base_url = Some("http://c".to_string());
    assert_eq!(base_url(Some(&c), Some("http://e"), 1), "http://c");
    assert_eq!(interval_ms(Some(&c), None), 200);
    assert_eq!(interval_ms(Some(&c), Some("x")), 200);
    assert_eq!(interval_ms(None, Some("50")), 50);
    c.interval_ms = Some(7);
    assert_eq!(interval_ms(Some(&c), Some("50")), 7);
    assert!(!exceeds_hourly_limit(10, 20));
    assert!(exceeds_hourly_limit(11, 20));
    assert!(!exceeds_hourly_limit(10, 21));
    assert!(exceeds_hourly_limit(usize::MAX, u32::MAX));
    let u = task_urls("http://h/", "t");
    assert_eq!(u.status, "http://h/api/v1/build/t/status");
    assert_eq!(u.events, "http://h/api/v1/build/t/events");
    assert_eq!(u.download, "http://h/api/v1/build/t/download");
}

#[test]
fn the_self_test_uploads_then_builds() {
    let files = strings(&["a.tsp", "b.tsp", "c.tsp"]);
    let mut r = run_build_test_via_api("http://h/".to_string(), files, 50);
    let shown = |a: TestAction| format!("{:?}", a);
    assert_eq!(shown(r.next_action()), "AskHealth(\"http://h/health\")");
    assert_eq!(r.receive(TestEvent::Failed).pause_ms, 300);
    assert_eq!(shown(r.next_action()), "AskHealth(\"http://h/health\")");
    r.receive(TestEvent::Answered(200, String::new()));
    assert_eq!(shown(r.next_action()), "Upload(\"http://h/api/v1/upload\", \"a.tsp\")");
    r.receive(TestEvent::Answered(200, "ida".to_string()));
    r.receive(TestEvent::Answered(500, "no".to_string()));
    assert_eq!(shown(r.next_action()), "Upload(\"http://h/api/v1/upload\", \"c.tsp\")");
    r.receive(TestEvent::Answered(200, "idc".to_string()));
    assert_eq!(shown(r.next_action()), "Build(\"http://h/api/v1/build\", \"ida\")");
    let e = r.receive(TestEvent::Answered(202, "task".to_string()));
    assert_eq!((e.pause_ms, e.watch.as_deref()), (50, Some("task")));
    assert_eq!(shown(r.next_action()), "Build(\"http://h/api/v1/build\", \"idc\")");
    let e = r.receive(TestEvent::Failed);
    assert_eq!((e.pause_ms, e.watch), (0, None));
    assert!(matches!(r.next_action(), TestAction::Done));
}

#[test]
fn the_self_test_gives_up() {
    let mut r = run_build_test_via_api("http://h".to_string(), strings(&["a"]), 50);
    for _ in 0..29 {
        r.receive(TestEvent::Failed);
        assert!(matches!(r.next_action(), TestAction::AskHealth(_)));
    }
    r.receive(TestEvent::Failed);
    assert!(matches!(r.next_action(), TestAction::Unready));
    let mut r = run_build_test_via_api("http://h".to_string(), strings(&["a"]), 50);
    r.receive(TestEvent::Unreadable);
    r.receive(TestEvent::Unreadable);
    assert!(matches!(r.next_action(), TestAction::Done));
    assert_eq!(wait_for_health(30, false), WaitStep::GiveUp(300));
    assert_eq!(wait_for_health(30, true), WaitStep::Ready);
    assert!(upload_counts(true, Some(200)));
    assert!(!upload_counts(true, Some(202)));
    assert!(!upload_counts(false, Some(200)));
}

#[test]
fn a_task_is_watched_until_it_ends() {
    let mut m = monitor_build_task();
    for k in 0..600 {
        assert!(!m.over());
        assert_eq!(m.receive(if k % 2 == 0 { None } else { Some(TaskStatus::Processing) }), 3);
    }
    assert!(m.over());
    assert!(!m.downloads());
    for s in [
        TaskStatus::Success,
        TaskStatus::CompilationFailed,
        TaskStatus::Timeout,
        TaskStatus::Cancelled,
        TaskStatus::UnknownError,
    ] {
        let mut m = monitor_build_task();
        assert_eq!(m.receive(Some(TaskStatus::Queued)), 3);
        assert_eq!(m.receive(Some(s)), 0);
        assert!(m.over());
        assert_eq!(m.downloads(), s == TaskStatus::Success);
    }
}
