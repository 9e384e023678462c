use adb_compass::adb::AdbClient;
use adb_compass::command::{AdbCommand, AdbCommandBuilder, ShellCommandBuilder};
use adb_compass::devices::DeviceStatus;

#[test]
fn test_adb_client_initialization() {
    let client = AdbClient::new();
    assert!(!client.adb_path().is_empty());
}

#[test]
fn test_adb_client_with_custom_path() {
    let path = String::from("/usr/local/bin/adb_test");
    let client = AdbClient::with_path(&path);
    assert_eq!(client.adb_path(), &path);
}

#[test]
fn test_command_to_args() {
    let cmd = AdbCommand::Devices { long: true };
    assert_eq!(cmd.to_args(), vec!["devices", "-l"]);
}

#[test]
fn test_builder_with_device() {
    let builder = AdbCommandBuilder::new().target("12345");
    let args = builder.build(AdbCommand::Shell(vec!["ls".into(), "/sdcard".into()]));
    assert_eq!(args, vec!["-s", "12345", "shell", "ls", "/sdcard"]);
}

#[test]
fn test_shell_builder() {
    let args = ShellCommandBuilder::new("input")
        .arg("tap")
        .arg("100")
        .arg("200")
        .build();
    assert_eq!(args, vec!["input", "tap", "100", "200"]);
}

#[test]
fn test_device_status_from_str() {
    assert_eq!(DeviceStatus::from("device"), DeviceStatus::Device);
    assert_eq!(DeviceStatus::from("offline"), DeviceStatus::Offline);
    assert_eq!(DeviceStatus::from("unauthorized"), DeviceStatus::Unauthorized);
}

#[test]
fn status_mapping_is_case_insensitive_and_trims() {
    assert_eq!(DeviceStatus::from("  DEVICE  "), DeviceStatus::Device);
    assert_eq!(
        DeviceStatus::from("recovery"),
        DeviceStatus::Unknown(String::from("recovery"))
    );
    // an unrecognized token is kept raw, case and all
    assert_eq!(
        DeviceStatus::from("Recovery"),
        DeviceStatus::Unknown(String::from("Recovery"))
    );
}

#[test]
fn command_args_cover_all_variants() {
    assert_eq!(AdbCommand::Version.to_args(), vec!["version"]);
    assert_eq!(AdbCommand::Devices { long: false }.to_args(), vec!["devices"]);
    assert_eq!(
        AdbCommand::Install { path: "a.apk".into(), reinstall: true }.to_args(),
        vec!["install", "-r", "a.apk"]
    );
    assert_eq!(
        AdbCommand::Uninstall { package: "com.x".into(), keep_data: true }.to_args(),
        vec!["uninstall", "-k", "com.x"]
    );
    assert_eq!(
        AdbCommand::Push { local: "l".into(), remote: "r".into() }.to_args(),
        vec!["push", "l", "r"]
    );
    assert_eq!(
        AdbCommand::Pull { remote: "r".into(), local: "l".into() }.to_args(),
        vec!["pull", "r", "l"]
    );
    assert_eq!(
        AdbCommand::Reboot { mode: Some("recovery".into()) }.to_args(),
        vec!["reboot", "recovery"]
    );
    assert_eq!(AdbCommand::Reboot { mode: None }.to_args(), vec!["reboot"]);
    assert_eq!(AdbCommand::StartServer.to_args(), vec!["start-server"]);
    assert_eq!(AdbCommand::KillServer.to_args(), vec!["kill-server"]);
    assert_eq!(
        AdbCommand::GetProp("ro.product.model".into()).to_args(),
        vec!["shell", "getprop", "ro.product.model"]
    );
}
