use adb_compass::agent::AgentManager;
use adb_compass::adb::AdbExecutor;
use adb_compass::capture::{
    capture_target_path, decode_capture_data, get_capture_base_path, recording_filename,
    screenshot_filename, screenshot_result, stop_recording_result, CaptureResult,
};
use adb_compass::files::{
    create_remote_directory, delete_remote_file, list_files, pull_file, push_file,
};
use adb_compass::nal::StreamState;
use adb_compass::props::{input_text_result, uninstall_app_result};
use adb_compass::runner::CommandResult;
use adb_compass::scrcpy::{
    control_write_result, forward_args, frame_event_name, kill_prior_args, pkill_args,
    push_server_args, remove_forwards_args, scrcpy_jar_candidates, socket_name, sync_event_name,
    tcp_spec_string, video_read_step, VideoLoopStep, VideoReadEvent,
};
use adb_compass::adb::AdbClient;
use adb_compass::shell::{get_logcat, get_logcat_args};
use adb_compass::wireless::{disconnect_wireless, enable_tcpip, wireless_address};

#[test]
fn capture_paths_and_names() {
    assert_eq!(get_capture_base_path(Some("/custom"), Some("/app/media")), "/custom");
    assert_eq!(get_capture_base_path(Some(""), Some("/app/media")), "/app/media");
    assert_eq!(get_capture_base_path(None, None), "./media");
    assert_eq!(screenshot_filename("20240101_100000"), "screenshot_20240101_100000.png");
    assert_eq!(recording_filename("20240101_100000"), "recording_20240101_100000.mp4");
    let saved = CaptureResult::saved("/tmp/a.png");
    assert!(saved.success);
    assert_eq!(saved.path.as_deref(), Some("/tmp/a.png"));
    let failed = CaptureResult::failed("boom");
    assert!(!failed.success);
    assert_eq!(failed.error.as_deref(), Some("boom"));
    assert!(CaptureResult::started().success);
    // an invalid payload is refused, never written
    let err = decode_capture_data("not//valid!base64").unwrap_err();
    assert_eq!(err.code, "DECODE_FAILED");
    assert_eq!(
        capture_target_path(Some("/abs/x.png"), "/base", "screenshots", "x.png"),
        "/abs/x.png"
    );
    assert_eq!(
        capture_target_path(None, "/base", "recordings", "r.mp4"),
        "/base/recordings/r.mp4"
    );
    let shot = screenshot_result(true, true, "/base/screenshots/s.png");
    assert_eq!(shot.path.as_deref(), Some("/base/screenshots/s.png"));
    assert!(!screenshot_result(false, true, "p").success);
    assert!(!screenshot_result(true, false, "p").success);
    assert!(stop_recording_result(true, "/base/recordings/r.mp4").success);
    assert_eq!(
        stop_recording_result(false, "p").error.as_deref(),
        Some("Failed to pull recording")
    );
}

#[test]
fn transfer_interpretation() {
    let ok = CommandResult::new(true, "1 file pushed\n", "");
    assert_eq!(push_file(&ok).unwrap(), "1 file pushed\n");
    let bad = CommandResult::new(false, "", "denied");
    assert_eq!(push_file(&bad).unwrap_err().code, "PUSH_FAILED");
    assert_eq!(pull_file(&ok).unwrap(), "1 file pushed\n");
    assert_eq!(pull_file(&bad).unwrap_err().code, "PULL_FAILED");
    assert!(delete_remote_file(&ok).is_ok());
    assert_eq!(delete_remote_file(&bad).unwrap_err().code, "DELETE_FAILED");
    assert!(create_remote_directory(&ok).is_ok());
    assert_eq!(create_remote_directory(&bad).unwrap_err().code, "MKDIR_FAILED");
    assert_eq!(list_files(&bad).unwrap_err().code, "LIST_FILES_FAILED");
}

#[test]
fn action_output_interpretation() {
    let clean = CommandResult::new(true, "", "");
    assert!(input_text_result(&clean).is_ok());
    // Android reports input failures on stdout
    let noisy = CommandResult::new(true, "java.lang.SecurityException: denied", "");
    assert_eq!(input_text_result(&noisy).unwrap_err().code, "INPUT_FAILED");
    let nonzero = CommandResult::new(false, "", "");
    assert_eq!(input_text_result(&nonzero).unwrap_err().code, "INPUT_FAILED");

    let done = CommandResult::new(true, "Success\n", "");
    assert_eq!(uninstall_app_result(&done).unwrap(), "Successfully uninstalled");
    let refused = CommandResult::new(true, "Failure [DELETE_FAILED_INTERNAL_ERROR]", "");
    assert_eq!(uninstall_app_result(&refused).unwrap_err().code, "UNINSTALL_FAILED");
}

#[test]
fn scrcpy_command_builders() {
    assert_eq!(tcp_spec_string(27183), "tcp:27183");
    assert_eq!(socket_name("12345678"), "localabstract:scrcpy_12345678");
    assert_eq!(
        kill_prior_args("dev"),
        vec!["-s", "dev", "shell", "pkill -f scrcpy"]
    );
    assert_eq!(
        push_server_args("dev", "resources/scrcpy-server.jar"),
        vec![
            "-s",
            "dev",
            "push",
            "resources/scrcpy-server.jar",
            "/data/local/tmp/scrcpy-server.jar"
        ]
    );
    assert_eq!(
        forward_args("dev", 27183, "12345678"),
        vec!["-s", "dev", "forward", "tcp:27183", "localabstract:scrcpy_12345678"]
    );
    assert_eq!(
        remove_forwards_args("dev"),
        vec!["-s", "dev", "forward", "--remove-all"]
    );
    assert_eq!(
        pkill_args("dev"),
        vec!["-s", "dev", "shell", "pkill", "-f", "scrcpy"]
    );
}

#[test]
fn agent_preparation_commands() {
    let manager = AgentManager::new(AdbExecutor::new());
    assert_eq!(
        manager.push_agent_args("dev"),
        vec!["-s", "dev", "push", "binaries/agent.jar", "/data/local/tmp/agent.jar"]
    );
    assert_eq!(
        manager.forward_agent_args("dev"),
        vec!["-s", "dev", "forward", "tcp:12345", "tcp:12345"]
    );
    let launch = manager.launch_agent_args("dev");
    assert_eq!(launch.len(), 4);
    assert_eq!(
        launch[3],
        "CLASSPATH=/data/local/tmp/agent.jar app_process / com.h1dr0n.adbcompass.Main 12345"
    );
}

#[test]
fn shell_logcat_arguments() {
    assert_eq!(
        get_logcat_args("dev", 200, Some("*:E")),
        vec!["-s", "dev", "logcat", "-d", "-t", "200", "*:E"]
    );
    assert_eq!(
        get_logcat_args("dev", 50, None),
        vec!["-s", "dev", "logcat", "-d", "-t", "50"]
    );
    let dump = CommandResult::new(true, "01-01 a\n", "");
    assert_eq!(get_logcat(&dump), "01-01 a\n");
}

#[test]
fn wireless_helpers() {
    assert_eq!(wireless_address("192.168.1.5", "5555"), "192.168.1.5:5555");
    let ok = CommandResult::new(true, "", "");
    assert_eq!(
        enable_tcpip(&ok, 5555).unwrap(),
        "TCP/IP mode enabled on port 5555"
    );
    let bad = CommandResult::new(false, "", "no device");
    assert_eq!(
        enable_tcpip(&bad, 5555).unwrap_err(),
        "Failed to enable TCP/IP: no device"
    );
    let out = CommandResult::new(true, "disconnected 192.168.1.5:5555\n", "");
    assert_eq!(disconnect_wireless(&out), "disconnected 192.168.1.5:5555");
}

#[test]
fn scrcpy_event_names_sanitize_every_special_character() {
    // every non-alphanumeric character becomes '_', hyphens included
    assert_eq!(frame_event_name("emulator-5554"), "scrcpy-frame-emulator_5554");
    assert_eq!(
        frame_event_name("192.168.1.5:5555"),
        "scrcpy-frame-192_168_1_5_5555"
    );
    assert_eq!(
        sync_event_name("viewer1", "emulator-5554"),
        "scrcpy-sync-viewer1-emulator_5554"
    );
}

#[test]
fn control_write_outcome_surfaces_the_write_error() {
    assert!(control_write_result(true).is_ok());
    let e = control_write_result(false).unwrap_err();
    assert_eq!(e.code, "CONTROL_WRITE_FAILED");
}

#[test]
fn video_loop_policy() {
    // a receive timeout does not end the session
    assert_eq!(
        video_read_step(true, VideoReadEvent::TimedOut),
        VideoLoopStep::Continue
    );
    assert_eq!(
        video_read_step(true, VideoReadEvent::Data),
        VideoLoopStep::ProcessAndContinue
    );
    // the peer closing, a hard error, and cancellation all end it
    assert_eq!(video_read_step(true, VideoReadEvent::Closed), VideoLoopStep::Stop);
    assert_eq!(video_read_step(true, VideoReadEvent::Failed), VideoLoopStep::Stop);
    assert_eq!(video_read_step(false, VideoReadEvent::Data), VideoLoopStep::Stop);
}

#[test]
fn probe_candidates_follow_the_documented_order() {
    assert_eq!(
        AdbClient::bundled_adb_candidates(Some("/opt/app"), "adb"),
        vec!["/opt/app/adb", "/opt/app/binaries/adb", "/opt/app/resources/adb", "adb"]
    );
    assert_eq!(AdbClient::bundled_adb_candidates(None, "adb"), vec!["adb"]);
    assert_eq!(
        scrcpy_jar_candidates(Some("/opt/app/res"), Some("/opt/app")),
        vec![
            "/opt/app/res/resources/scrcpy-server.jar",
            "/opt/app/res/scrcpy-server.jar",
            "/opt/app/resources/scrcpy-server.jar",
            "resources/scrcpy-server.jar"
        ]
    );
    assert_eq!(
        scrcpy_jar_candidates(None, None),
        vec!["resources/scrcpy-server.jar"]
    );
}

#[test]
fn stream_edge_cases() {
    // an empty accumulator finishes silently
    let mut state = StreamState::new();
    assert_eq!(state.finish(), None);
    // garbage without any start code is discarded at end of stream
    let mut state = StreamState::new();
    let frames = state.feed(&[0x11, 0x22, 0x33]);
    assert!(frames.is_empty());
    assert_eq!(state.finish(), None);
    // a lone start code with payload is a final NAL
    let mut state = StreamState::new();
    assert!(state.feed(&[0x00, 0x00, 0x01, 0x41]).is_empty());
    assert_eq!(state.finish(), Some(vec![0x00, 0x00, 0x01, 0x41]));
}
