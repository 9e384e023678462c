use adb_compass::adb::{AdbClient, AdbDiscovery, AdbExecutor};
use adb_compass::apk::{map_install_error, ApkInfo, ApkInstaller, FileMeta};
use adb_compass::devices::{friendly_model, parse_devices_output, DeviceStatus};
use adb_compass::files::parse_ls_output;
use adb_compass::props::{
    escape_input_text, extract_prop, format_storage_size, get_device_props, list_packages,
    map_soc_codename, parse_battery_charging, parse_battery_level,
};
use adb_compass::runner::CommandResult;
use adb_compass::wireless::{
    connect_wireless, get_device_ip, parse_ifconfig, parse_ip_addr_show, parse_ip_route,
    tcpip_port,
};

#[test]
fn devices_output_parses_one_device() {
    let out = "List of devices attached\nemulator-5554    device product:sdk model:sdk_phone\n";
    let devices = parse_devices_output(out);
    assert_eq!(devices.len(), 1);
    assert_eq!(devices[0].id, "emulator-5554");
    assert_eq!(devices[0].status, DeviceStatus::Device);
    assert_eq!(devices[0].model, Some(String::from("sdk_phone")));
    assert_eq!(devices[0].product, Some(String::from("sdk")));
}

#[test]
fn devices_parsing_is_idempotent_and_skips_malformed() {
    let out = "List of devices attached\n\nshort\nabc unauthorized\n";
    let first = parse_devices_output(out);
    let second = parse_devices_output(out);
    assert_eq!(first, second);
    assert_eq!(first.len(), 1);
    assert_eq!(first[0].status, DeviceStatus::Unauthorized);
    // malformed output yields an empty list, never a failure
    assert_eq!(parse_devices_output("").len(), 0);
    assert_eq!(parse_devices_output("banner only").len(), 0);
}

#[test]
fn friendly_model_prepends_title_cased_brand() {
    // marketname empty, model and brand set
    assert_eq!(
        friendly_model(None, Some("Pixel 7"), Some("google")),
        Some(String::from("Google Pixel 7"))
    );
    // model already begins with the brand
    assert_eq!(
        friendly_model(None, Some("Google Pixel 7"), Some("google")),
        Some(String::from("Google Pixel 7"))
    );
    // marketname wins over model
    assert_eq!(
        friendly_model(Some("Galaxy S23"), Some("SM-S911B"), None),
        Some(String::from("Galaxy S23"))
    );
    assert_eq!(friendly_model(None, None, Some("acme")), Some(String::from("acme")));
    assert_eq!(friendly_model(None, None, None), None);
}

#[test]
fn discovery_assembles_model_from_prop_outputs() {
    let client = AdbClient::new();
    let discovery = AdbDiscovery::new(&client);
    let marketname = CommandResult::new(true, "", "");
    let model = CommandResult::new(true, "Pixel 7\n", "");
    let brand = CommandResult::new(true, "google\n", "");
    assert_eq!(
        discovery.get_device_model_info(&marketname, &model, &brand),
        Some(String::from("Google Pixel 7"))
    );
}

#[test]
fn executor_interprets_outputs() {
    let executor = AdbExecutor::new();
    let version = CommandResult::new(true, "Android Debug Bridge version 1.0.41\nsecond\n", "");
    assert_eq!(
        executor.check_available(&version).unwrap(),
        "Android Debug Bridge version 1.0.41"
    );
    let failed = CommandResult::new(false, "", "");
    assert_eq!(executor.check_available(&failed).unwrap_err().code, "ADB_NOT_FOUND");

    let prop = CommandResult::new(true, "  Pixel 7\n", "");
    assert_eq!(executor.get_device_prop("serial", &prop).unwrap(), "Pixel 7");
    assert_eq!(
        executor.get_device_prop("serial", &failed).unwrap_err().code,
        "DEVICE_NOT_FOUND"
    );

    assert_eq!(executor.get_setting(&CommandResult::new(true, "null\n", "")), None);
    assert_eq!(executor.get_setting(&CommandResult::new(true, "  \n", "")), None);
    assert_eq!(
        executor.get_setting(&CommandResult::new(true, "1\n", "")),
        Some(String::from("1"))
    );
}

#[test]
fn adb_status_reports_availability() {
    let executor = AdbExecutor::with_path("/opt/adb");
    let ok = CommandResult::new(true, "Android Debug Bridge version 1.0.41\n", "");
    let status = executor.check_adb_status(&ok);
    assert!(status.available);
    assert!(status.is_bundled);
    assert_eq!(status.adb_path.as_deref(), Some("/opt/adb"));
    assert_eq!(
        status.version.as_deref(),
        Some("Android Debug Bridge version 1.0.41")
    );
    let stock = AdbExecutor::new();
    let bad = CommandResult::new(false, "", "");
    let status = stock.check_adb_status(&bad);
    assert!(!status.available);
    assert!(!status.is_bundled);
    assert!(status.error.is_some());
}

#[test]
fn executor_facade_delegates() {
    let executor = AdbExecutor::new();
    assert!(executor.start_server(Ok(CommandResult::new(true, "", ""))).is_ok());
    let timed_out = adb_compass::error::AppError::new("ADB_TIMEOUT", "ADB command timed out");
    assert_eq!(
        executor.kill_server(Err(timed_out)).unwrap_err().code,
        "ADB_TIMEOUT"
    );
    let result = executor.install_apk("dev", false, None);
    assert!(!result.success);
    let checks = executor.check_action_requirements(None);
    assert_eq!(checks.len(), 1);
    assert_eq!(
        adb_compass::adb::AdbClient::discover_adb(Some(String::from("/x/adb"))),
        "/x/adb"
    );
    assert_eq!(adb_compass::adb::AdbClient::discover_adb(None), "adb");
}

#[test]
fn install_errors_map_to_friendly_messages() {
    let (msg, code) = map_install_error("Failure [INSTALL_FAILED_ALREADY_EXISTS: ...]");
    assert_eq!(msg, "App is already installed. Try uninstalling first.");
    assert_eq!(code, Some(String::from("INSTALL_FAILED_ALREADY_EXISTS")));
    let (msg, code) = map_install_error("Failure [INSTALL_FAILED_NO_MATCHING_ABIS]");
    assert_eq!(msg, "App not compatible with device architecture.");
    assert_eq!(code, Some(String::from("INSTALL_FAILED_NO_MATCHING_ABIS")));
    let (msg, code) = map_install_error("some unknown failure");
    assert_eq!(msg, "Installation failed. Check device connection and try again.");
    assert_eq!(code, None);
}

#[test]
fn installer_interprets_attempts() {
    let executor = AdbExecutor::new();
    let installer = ApkInstaller::new(&executor);
    let missing = installer.install("dev", false, None);
    assert!(!missing.success);
    assert_eq!(missing.message, "APK file not found");

    let ok = CommandResult::new(true, "Performing Streamed Install\nSuccess\n", "");
    let done = installer.install("dev", true, Some(&ok));
    assert!(done.success);
    assert_eq!(done.message, "APK installed successfully");

    let bad = CommandResult::new(false, "", "Failure [INSTALL_FAILED_OLDER_SDK]");
    let failed = installer.install("dev", true, Some(&bad));
    assert!(!failed.success);
    assert_eq!(failed.error_code, Some(String::from("INSTALL_FAILED_OLDER_SDK")));
}

#[test]
fn apk_info_reads_metadata_and_extension() {
    let info = ApkInfo::from_path(
        "/tmp/builds/My App.APK",
        Some(FileMeta { size_bytes: 1234, modified_ms: Some(99) }),
    )
    .unwrap();
    assert_eq!(info.file_name, "My App.APK");
    assert!(info.valid);
    assert_eq!(info.size_bytes, 1234);
    assert_eq!(info.last_modified, Some(99));
    assert!(ApkInfo::from_path("/tmp/x.apk", None).is_none());
    let other = ApkInfo::from_path(
        "notes.txt",
        Some(FileMeta { size_bytes: 1, modified_ms: None }),
    )
    .unwrap();
    assert!(!other.valid);
}

#[test]
fn props_are_extracted_from_getprop_dump() {
    let dump = "[ro.product.model]: [Pixel 7]\n[ro.build.version.release]: [14]\n\
                [ro.build.version.sdk]: [34]\n[ro.product.brand]: [google]\n\
                [ro.soc.model]: [zuma]\n";
    assert_eq!(extract_prop(dump, "ro.product.model"), Some(String::from("Pixel 7")));
    assert_eq!(extract_prop(dump, "ro.missing"), None);
    let battery = "Current Battery Service state:\n  level: 73\n  USB powered: true\n";
    assert_eq!(parse_battery_level(battery), Some(73));
    assert!(parse_battery_charging(battery));
    let props = get_device_props(
        dump,
        Some(battery),
        Some("Physical size: 1080x2400\n"),
        Some("Filesystem 1K-blocks Used Available Use% Mounted\n/dev/block 119538516 60000000 59538516 51% /data\n"),
        Some("MemTotal:        8000000 kB\n"),
    );
    assert_eq!(props.model, "Pixel 7");
    assert_eq!(props.android_version, "14");
    assert_eq!(props.sdk_version, "34");
    assert_eq!(props.manufacturer, Some(String::from("google")));
    assert_eq!(props.cpu, Some(String::from("Google Tensor G3")));
    assert_eq!(props.battery_level, Some(73));
    assert!(props.is_charging);
    assert_eq!(props.screen_resolution, Some(String::from("1080x2400")));
    assert_eq!(props.storage_total, Some(String::from("114.0 GB")));
    assert_eq!(props.ram_total, Some(String::from("7.6 GB")));
}

#[test]
fn storage_sizes_format_with_one_decimal() {
    assert_eq!(format_storage_size("500"), "500 KB");
    assert_eq!(format_storage_size("2048"), "2.0 MB");
    assert_eq!(format_storage_size("1572864"), "1.5 GB");
    assert_eq!(format_storage_size("garbage"), "garbage");
}

#[test]
fn soc_codenames_map_to_marketing_names() {
    assert_eq!(map_soc_codename("taro"), "Snapdragon 8 Gen 1");
    assert_eq!(map_soc_codename("KALAMA"), "Snapdragon 8 Gen 2");
    assert_eq!(map_soc_codename("Snapdragon 888"), "Snapdragon 888");
    assert_eq!(map_soc_codename("mystery"), "Mystery");
}

#[test]
fn input_text_is_escaped_for_the_shell() {
    assert_eq!(escape_input_text("hello world"), "hello%sworld");
    assert_eq!(escape_input_text("a&b|c;d"), "a\\&b\\|c\\;d");
    assert_eq!(escape_input_text("q\"w'e\\r"), "q\\\"w\\'e\\\\r");
    assert_eq!(escape_input_text("(<x>)"), "\\(\\<x\\>\\)");
}

#[test]
fn packages_are_listed_from_pm_output() {
    let out = CommandResult::new(true, "package:com.a\npackage:com.b \nnoise\n", "");
    assert_eq!(list_packages(&out).unwrap(), vec!["com.a", "com.b"]);
    let failed = CommandResult::new(false, "", "");
    assert_eq!(list_packages(&failed).unwrap_err().code, "LIST_PACKAGES_FAILED");
}

#[test]
fn ls_output_parses_and_orders_directories_first() {
    let out = "total 16\n\
               drwxrwxrwx 2 root root 4096 2024-01-01 10:00 Pictures\n\
               -rw-r--r-- 1 root root 123 2024-01-01 10:00 b.txt\n\
               -rw-r--r-- 1 root root 456 2024-01-01 10:00 A name with spaces\n\
               lrwxrwxrwx 1 root root 21 2024-01-01 10:00 sdcard -> /storage/self/primary\n\
               drwx------ 2 root root 4096 2024-01-01 10:00 .\n";
    let files = parse_ls_output(out);
    assert_eq!(files.len(), 4);
    assert!(files[0].is_directory);
    assert_eq!(files[0].name, "Pictures");
    assert_eq!(files[0].size, None);
    assert_eq!(files[1].name, "A name with spaces");
    assert_eq!(files[1].size, Some(456));
    assert_eq!(files[2].name, "b.txt");
    assert_eq!(files[3].name, "sdcard");
    assert_eq!(files[3].permissions.as_deref(), Some("lrwxrwxrwx"));
}

#[test]
fn device_ip_strategies_cascade() {
    assert_eq!(
        parse_ip_route("8.8.8.8 via 192.168.1.1 dev wlan0 src 192.168.1.5 uid 0\n"),
        Some(String::from("192.168.1.5"))
    );
    assert_eq!(parse_ip_route("no address here"), None);
    assert_eq!(
        parse_ip_addr_show("2: wlan0\n    inet 192.168.1.7/24 brd ...\n"),
        Some(String::from("192.168.1.7"))
    );
    assert_eq!(
        parse_ifconfig("wlan0 Link encap:Ethernet\n inet addr:10.0.0.3 Bcast:...\n"),
        Some(String::from("10.0.0.3"))
    );
    let route = CommandResult::new(true, "nothing", "");
    let wlan0 = CommandResult::new(true, "  inet 172.16.0.9/16 scope global\n", "");
    let got = get_device_ip(Some(&route), Some(&wlan0), None, None, None, None);
    assert_eq!(got.unwrap(), "172.16.0.9");
    let none = get_device_ip(None, None, None, None, None, None);
    assert_eq!(
        none.unwrap_err(),
        "Could not determine IP. Ensure WiFi is connected."
    );
}

#[test]
fn wireless_interpretation() {
    assert_eq!(tcpip_port("5557"), 5557);
    assert_eq!(tcpip_port("not a port"), 5555);
    let ok = CommandResult::new(true, "connected to 192.168.1.5:5555\n", "");
    assert_eq!(connect_wireless(&ok).unwrap(), "connected to 192.168.1.5:5555");
    let silent = CommandResult::new(true, "\n", "");
    assert_eq!(connect_wireless(&silent).unwrap_err(), "Connection failed - no response");
}
