use adb_compass::adb::AdbExecutor;
use adb_compass::agent::{AgentManager, ensure_agent_next, EnsureAgentStep};
use adb_compass::devices::{DeviceInfo, DeviceStatus};
use adb_compass::error::{AdbError, AppError};
use adb_compass::json::JsonScalar;
use adb_compass::logcat::{logcat_event_name, sanitize_device_id, LogcatBatcher, LogcatState};
use adb_compass::nal::ParamSetCache;
use adb_compass::requirements::{DeviceRequirements, RequirementCheck, RequirementChecker};
use adb_compass::runner::{
    decide_after_attempt, AttemptOutcome, CommandResult, ExecutionConfig, RunnerStep,
};
use adb_compass::scrcpy::{
    read_video_frame, ScrcpyRegistry, ScrcpySession, ScrcpyStartup, StartupAction, StartupPhase,
};
use adb_compass::shell::{clear_logcat, execute_shell};
use adb_compass::tracker::{heartbeat_interval_secs, respawn_delay_secs, DeviceTrackerState};

fn device(id: &str, status: DeviceStatus) -> DeviceInfo {
    DeviceInfo { id: id.into(), status, model: None, product: None }
}

#[test]
fn tracker_emits_only_on_change() {
    let mut tracker = DeviceTrackerState::new();
    let list = vec![device("a", DeviceStatus::Device)];
    let first = tracker.observe(Some(list.clone()));
    assert!(first.is_some());
    assert_eq!(first.unwrap().devices.len(), 1);
    // re-observing the very same snapshot emits nothing
    assert!(tracker.observe(Some(list.clone())).is_none());
    // a failed listing emits nothing and keeps the snapshot
    assert!(tracker.observe(None).is_none());
    assert!(tracker.observe(Some(list.clone())).is_none());
    let changed = vec![device("a", DeviceStatus::Offline)];
    assert!(tracker.observe(Some(changed)).is_some());
}

#[test]
fn heartbeat_polls_faster_with_transitional_devices() {
    let quiet = vec![device("a", DeviceStatus::Device)];
    assert_eq!(heartbeat_interval_secs(&quiet), 10);
    let pending = vec![device("a", DeviceStatus::Unauthorized)];
    assert_eq!(heartbeat_interval_secs(&pending), 2);
    assert_eq!(respawn_delay_secs(true), 5);
    assert_eq!(respawn_delay_secs(false), 1);
}

#[test]
fn logcat_single_session_per_device() {
    let mut state = LogcatState::new();
    assert_eq!(state.prepare_start("emulator-5554"), None);
    state.register_stream("emulator-5554", 11);
    // the second start first hands back the live child to kill
    let stale = state.prepare_start("emulator-5554");
    assert_eq!(stale, Some(11));
    state.register_stream("emulator-5554", 22);
    assert_eq!(state.stop_logcat_stream("emulator-5554"), Some(22));
    assert_eq!(state.stop_logcat_stream("emulator-5554"), None);
}

#[test]
fn logcat_drain_returns_all_children() {
    let mut state = LogcatState::new();
    state.register_stream("a", 1);
    state.register_stream("b", 2);
    let children = state.drain_all();
    assert_eq!(children, vec![1, 2]);
    assert_eq!(state.stop_logcat_stream("a"), None);
}

#[test]
fn logcat_batches_by_count_and_delay() {
    let mut batcher = LogcatBatcher::new("emulator-5554", 0);
    // skipped lines change nothing
    assert!(batcher.push_line("   ".into(), 10).is_none());
    assert!(batcher
        .push_line("--------- beginning of main".into(), 10)
        .is_none());
    // a kept line within the delay stays buffered
    assert!(batcher.push_line("01-01 first".into(), 50).is_none());
    // the delay forces a flush carrying both lines in order
    let flushed = batcher.push_line("01-01 second".into(), 200).unwrap();
    assert_eq!(flushed.device_id, "emulator-5554");
    assert_eq!(flushed.lines, vec!["01-01 first", "01-01 second"]);
    // fifty buffered lines force a flush regardless of time
    for i in 0..49 {
        assert!(batcher.push_line(format!("line {}", i), 201).is_none());
    }
    let full = batcher.push_line("line 49".into(), 201).unwrap();
    assert_eq!(full.lines.len(), 50);
    assert!(batcher.final_flush().is_none());
}

#[test]
fn event_names_are_sanitized() {
    assert_eq!(sanitize_device_id("192.168.1.5:5555"), "192_168_1_5_5555");
    assert_eq!(logcat_event_name("emulator-5554"), "logcat-line-emulator_5554");
}

#[test]
fn runner_retries_only_spawn_and_timeout() {
    let done = CommandResult::new(false, "out", "err");
    match decide_after_attempt(AttemptOutcome::Completed(done), 0, 3) {
        RunnerStep::Finish(r) => {
            // a completed non-zero exit is final, never retried
            assert!(!r.success);
            assert_eq!(r.stdout, "out");
        }
        _ => panic!("completed run must finish"),
    }
    match decide_after_attempt(AttemptOutcome::TimedOut, 0, 2) {
        RunnerStep::RetryAfterDelay(ms) => assert_eq!(ms, 1000),
        _ => panic!("timeout with retries left must retry"),
    }
    // a child blocked past the deadline surfaces the timeout error
    match decide_after_attempt(AttemptOutcome::TimedOut, 2, 2) {
        RunnerStep::Fail(e) => assert_eq!(e.code, "ADB_TIMEOUT"),
        _ => panic!("exhausted timeout must fail"),
    }
    match decide_after_attempt(AttemptOutcome::SpawnFailed("no such file".into()), 1, 1) {
        RunnerStep::Fail(e) => {
            assert_eq!(e.code, "ADB_EXECUTION_FAILED");
            assert_eq!(e.details, Some(String::from("no such file")));
        }
        _ => panic!("exhausted spawn failure must fail"),
    }
    let config = ExecutionConfig::default();
    assert_eq!(config.timeout_ms, 5000);
    assert_eq!(config.retries, 1);
}

#[test]
fn errors_surface_with_stable_codes() {
    let e = AppError::from(AdbError::NotFound);
    assert_eq!(e.code, "ADB_NOT_FOUND");
    let e = AppError::from(AdbError::Timeout);
    assert_eq!(e.code, "ADB_TIMEOUT");
    let e = AppError::from(AdbError::DeviceNotFound("x".into()));
    assert_eq!(e.code, "DEVICE_NOT_FOUND");
    assert_eq!(e.details, Some(String::from("x")));
    let e = AppError::from(AdbError::Unauthorized("y".into()));
    assert_eq!(e.code, "DEVICE_UNAUTHORIZED");
    let e = AppError::from(AdbError::ParseError("bad".into()));
    assert_eq!(e.code, "ADB_PARSE_ERROR");
    let shown = AppError::new("ADB_TIMEOUT", "ADB command timed out").display_string();
    assert_eq!(shown, "[ADB_TIMEOUT] ADB command timed out");
}

#[test]
fn requirement_checks_cascade() {
    let executor = AdbExecutor::new();
    let checker = RequirementChecker::new(&executor);
    let devices = vec![device("serial", DeviceStatus::Device)];
    let checks = checker.check_device_requirements(
        "serial",
        Some(&devices),
        Some("1".into()),
        Some("1".into()),
    );
    assert_eq!(checks.len(), 3);
    assert!(checks.iter().all(|c| c.passed));
    let bundle = DeviceRequirements::new("serial", checks);
    assert!(bundle.all_passed);

    // an unauthorized device stops at the first check
    let pending = vec![device("serial", DeviceStatus::Unauthorized)];
    let checks = checker.check_device_requirements("serial", Some(&pending), None, None);
    assert_eq!(checks.len(), 1);
    assert!(!checks[0].passed);
    assert!(checks[0].hint.is_some());

    // blocked install permission fails the third check
    let checks = checker.check_device_requirements(
        "serial",
        Some(&devices),
        Some("1".into()),
        Some("0".into()),
    );
    assert_eq!(checks.len(), 3);
    assert!(!checks[2].passed);

    let probe = CommandResult::new(true, "java.lang.SecurityException: INJECT_EVENTS", "");
    let action = checker.check_action_requirements(Some(&probe));
    assert!(!action[0].passed);
    let clean = CommandResult::new(true, "", "");
    let action = checker.check_action_requirements(Some(&clean));
    assert!(action[0].passed);
    let unrunnable = checker.check_action_requirements(None);
    assert_eq!(
        unrunnable[0].hint,
        Some(String::from("Unable to test input capability"))
    );
    let blank = RequirementCheck::new("id", "name", "desc");
    assert!(!blank.passed);
}

#[test]
fn scrcpy_startup_is_ordered_with_bounded_retries() {
    let mut startup = ScrcpyStartup::new();
    assert_eq!(startup.next_action(), StartupAction::RunKillPrior);
    assert!(startup.advance(true).is_none());
    assert_eq!(startup.next_action(), StartupAction::RunPush);
    assert!(startup.advance(true).is_none());
    assert_eq!(startup.next_action(), StartupAction::RunForward);
    assert!(startup.advance(true).is_none());
    assert_eq!(startup.next_action(), StartupAction::RunSpawn);
    assert!(startup.advance(true).is_none());
    assert_eq!(startup.next_action(), StartupAction::SleepMs(1000));
    assert!(startup.advance(true).is_none());
    // nine failed connects keep retrying, the tenth is fatal
    for _ in 0..9 {
        assert_eq!(startup.next_action(), StartupAction::TryConnectVideo(500));
        assert!(startup.advance(false).is_none());
    }
    let err = startup.advance(false).unwrap();
    assert_eq!(err.code, "SOCKET_ERROR");
    assert_eq!(startup.phase, StartupPhase::Failed);

    // the happy path reaches streaming after both reads
    let mut ok = ScrcpyStartup::new();
    for _ in 0..5 {
        ok.advance(true);
    }
    assert!(ok.advance(true).is_none()); // video connected
    assert_eq!(ok.next_action(), StartupAction::TryConnectControl);
    assert!(ok.advance(true).is_none());
    assert_eq!(ok.next_action(), StartupAction::ReadBytes(64));
    assert!(ok.advance(true).is_none());
    assert_eq!(ok.next_action(), StartupAction::ReadBytes(12));
    assert!(ok.advance(true).is_none());
    assert_eq!(ok.phase, StartupPhase::Streaming);
}

fn session(child: u64) -> ScrcpySession {
    ScrcpySession {
        server_child: child,
        streaming: true,
        video_port: 27183,
        control_port: 27183,
        cache: ParamSetCache::new(),
    }
}

#[test]
fn scrcpy_registry_tracks_single_sessions() {
    let mut registry = ScrcpyRegistry::new();
    assert!(!registry.has_session("a"));
    registry.insert_session("a", session(7));
    assert!(registry.has_session("a"));
    let status = registry.get_status("a");
    assert!(status.running);
    assert_eq!(status.port, Some(27183));
    let missing = registry.get_status("b");
    assert!(!missing.running);
    assert_eq!(missing.port, None);

    // teardown lowers the streaming flag and removes the session
    let stopped = registry.stop_server("a").unwrap();
    assert!(!stopped.streaming);
    assert_eq!(stopped.server_child, 7);
    assert!(!registry.has_session("a"));
    assert!(registry.stop_server("a").is_none());
}

#[test]
fn scrcpy_sync_replays_cached_sets_in_order() {
    let mut registry = ScrcpyRegistry::new();
    let mut s = session(1);
    s.cache.update(&vec![0x00, 0x00, 0x01, 0x67, 0x01, 0x02]);
    s.cache.update(&vec![0x00, 0x00, 0x01, 0x68, 0x03, 0x04]);
    registry.insert_session("192.168.1.5:5555", s);
    let (event, frames) = registry.sync_session("192.168.1.5:5555", "viewer1").unwrap();
    assert_eq!(event, "scrcpy-sync-viewer1-192_168_1_5_5555");
    // only the cached sets, SPS then PPS, nothing else
    assert_eq!(frames.len(), 2);
    assert!(registry.sync_session("other", "viewer1").is_none());

    let msg = registry.send_control_event("192.168.1.5:5555", 2, &[0xAA, 0xBB]);
    assert_eq!(msg, Some(vec![0x02, 0xAA, 0xBB]));
    assert_eq!(registry.send_control_event("other", 2, &[0xAA]), None);

    let gone = read_video_frame("192.168.1.5:5555").unwrap_err();
    assert_eq!(gone.code, "DEPRECATED");
}

#[test]
fn scrcpy_registry_drains_all_sessions() {
    let mut registry = ScrcpyRegistry::new();
    registry.insert_session("a", session(1));
    registry.insert_session("b", session(2));
    let drained = registry.drain_all();
    assert_eq!(drained.len(), 2);
    assert!(drained.iter().all(|s| !s.streaming));
    assert!(!registry.has_session("a"));
    assert!(!registry.has_session("b"));
}

#[test]
fn agent_round_trip() {
    let executor = AdbExecutor::new();
    let manager = AgentManager::new(executor);
    let fields = vec![(String::from("path"), JsonScalar::Str(String::from("/sdcard")))];
    let line = manager.command_line("LIST_FILES", &fields);
    assert_eq!(line, "{\"type\":\"LIST_FILES\",\"data\":{\"path\":\"/sdcard\"}}\n");

    let response = "{\"type\":\"LIST_FILES\",\"data\":{\"files\":[{\"name\":\"a\"}]}}";
    assert_eq!(manager.list_files_fast(response).unwrap(), "[{\"name\":\"a\"}]");
    // absent and null both substitute the typed empty default
    assert_eq!(
        manager.list_files_fast("{\"type\":\"LIST_FILES\",\"data\":{}}").unwrap(),
        "[]"
    );
    assert_eq!(
        manager
            .list_files_fast("{\"type\":\"LIST_FILES\",\"data\":{\"files\":null}}")
            .unwrap(),
        "[]"
    );
    assert_eq!(manager.set_clipboard("{\"data\":{\"success\":true}}").unwrap(), "true");
    assert_eq!(manager.get_clipboard("{\"data\":{}}").unwrap(), "\"\"");
    // an unparsable response is a fatal protocol error, not a default
    let protocol_error = manager.get_performance_stats("not json at all").unwrap_err();
    assert_eq!(protocol_error.code, "ADB_EXECUTION_FAILED");
    assert_eq!(protocol_error.details, Some(String::from("JSON parse error")));
    assert_eq!(
        manager.get_performance_stats("{\"data\":{}}").unwrap(),
        "{\"cpu\":0,\"ram\":0}"
    );
    assert!(manager.search_files_fast("garbage").is_err());
    // serde_json renders object keys sorted when re-serialising
    assert_eq!(
        manager
            .search_files_fast("{\"data\":{\"results\":[1],\"is_indexing\":true}}")
            .unwrap(),
        "{\"is_indexing\":true,\"results\":[1]}"
    );

    // multi-field payloads keep insertion order and escape strings
    let tap = vec![
        (String::from("input_type"), JsonScalar::Str(String::from("TAP"))),
        (String::from("x"), JsonScalar::Int(10)),
        (String::from("y"), JsonScalar::Int(-3)),
    ];
    let line = manager.command_line("INJECT_INPUT", &tap);
    assert_eq!(
        line,
        "{\"type\":\"INJECT_INPUT\",\"data\":{\"input_type\":\"TAP\",\"x\":10,\"y\":-3}}\n"
    );
    let quoted = vec![(String::from("text"), JsonScalar::Str(String::from("a\"b\\c\n")))];
    let line = manager.command_line("SET_CLIPBOARD", &quoted);
    assert_eq!(
        line,
        "{\"type\":\"SET_CLIPBOARD\",\"data\":{\"text\":\"a\\\"b\\\\c\\n\"}}\n"
    );

    assert_eq!(ensure_agent_next(0), EnsureAgentStep::Connect(1000));
    assert_eq!(ensure_agent_next(1), EnsureAgentStep::StartAgent);
    assert_eq!(ensure_agent_next(2), EnsureAgentStep::Connect(2000));
    assert_eq!(ensure_agent_next(3), EnsureAgentStep::Fail);
}

#[test]
fn shell_interpretation() {
    let ok = CommandResult::new(true, "hello\n", "");
    assert_eq!(execute_shell(&ok).unwrap(), "hello\n");
    let noisy = CommandResult::new(true, "", "boom");
    assert_eq!(execute_shell(&noisy).unwrap_err(), "boom");
    let cleared = CommandResult::new(true, "", "");
    assert!(clear_logcat(&cleared).is_ok());
    let failed = CommandResult::new(false, "", "denied");
    assert_eq!(clear_logcat(&failed).unwrap_err(), "Failed to clear logcat: denied");
}
