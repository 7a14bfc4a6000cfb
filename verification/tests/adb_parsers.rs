use holo::adb::{parse_airplane_mode, parse_app_version, parse_avd_list, parse_battery_level,
    parse_database_list, parse_device_ip, parse_device_list, parse_du_output, parse_file_list,
    parse_package_list, parse_proc_mem, parse_runtime_permissions, parse_wifi_enabled};

#[test]
fn parses_single_device() {
    let output = "List of devices attached\nR5CT32MKXYJ device usb:1-1 product:a53xnaxx model:SM_A536E device:a53x transport_id:1\n\n";
    let devices = parse_device_list(output);
    assert_eq!(devices.len(), 1);
    assert_eq!(devices[0].serial, "R5CT32MKXYJ");
    assert_eq!(devices[0].model.as_deref(), Some("SM A536E"));
    assert_eq!(devices[0].device.as_deref(), Some("a53x"));
}

#[test]
fn parses_multiple_devices() {
    let output = "List of devices attached\n\
        R5CT32MKXYJ device usb:1-1 model:SM_A536E\n\
        emulator-5554 device product:sdk_phone model:sdk_phone\n\n";
    let devices = parse_device_list(output);
    assert_eq!(devices.len(), 2);
    assert_eq!(devices[0].serial, "R5CT32MKXYJ");
    assert_eq!(devices[0].model.as_deref(), Some("SM A536E"));
    assert_eq!(devices[1].model.as_deref(), Some("sdk phone"));
}

#[test]
fn skips_offline_and_unauthorized_devices() {
    let output = "List of devices attached\n\
        R5CT32MKXYJ device model:SM_A536E\n\
        ABCDEF123456 offline\n\
        GHIJKL789012 unauthorized\n\n";
    let devices = parse_device_list(output);
    assert_eq!(devices.len(), 1);
    assert_eq!(devices[0].serial, "R5CT32MKXYJ");
}

#[test]
fn returns_empty_for_no_devices() {
    let output = "List of devices attached\n\n";
    let devices = parse_device_list(output);
    assert!(devices.is_empty());
}

#[test]
fn parses_battery_level_from_dumpsys() {
    let output = "Current Battery Service state:\n  AC powered: false\n  USB powered: true\n  status: 2\n  level: 72\n  temperature: 250\n";
    assert_eq!(parse_battery_level(output), Some(72));
}

#[test]
fn parses_full_battery() {
    let output = "  level: 100\n";
    assert_eq!(parse_battery_level(output), Some(100));
}

#[test]
fn returns_none_for_missing_level() {
    let output = "Current Battery Service state:\n  AC powered: false\n";
    assert_eq!(parse_battery_level(output), None);
}

#[test]
fn parses_package_list() {
    let output = "package:com.spotify.music\npackage:com.whatsapp\npackage:com.android.chrome\n";
    let packages = parse_package_list(output);
    assert_eq!(packages, vec!["com.android.chrome", "com.spotify.music", "com.whatsapp"]);
}

#[test]
fn returns_empty_for_no_packages() {
    assert!(parse_package_list("").is_empty());
    assert!(parse_package_list("\n\n").is_empty());
}

#[test]
fn skips_lines_without_package_prefix() {
    let output = "package:com.example.app\nWarning: some adb warning\npackage:com.other.app\n";
    let packages = parse_package_list(output);
    assert_eq!(packages, vec!["com.example.app", "com.other.app"]);
}

#[test]
fn parses_database_list() {
    let output = "app.db\napp.db-journal\napp.db-wal\napp.db-shm\ncache.db\n";
    let dbs = parse_database_list(output);
    assert_eq!(dbs, vec!["app.db", "cache.db"]);
}

#[test]
fn returns_empty_for_no_databases() {
    assert!(parse_database_list("").is_empty());
    assert!(parse_database_list("\n\n").is_empty());
}

#[test]
fn filters_all_journal_variants() {
    let output = "main.db\nmain.db-journal\nmain.db-wal\nmain.db-shm\n";
    let dbs = parse_database_list(output);
    assert_eq!(dbs, vec!["main.db"]);
}

#[test]
fn parses_airplane_mode_on() {
    assert!(parse_airplane_mode("1\n"));
    assert!(parse_airplane_mode("1"));
}

#[test]
fn parses_airplane_mode_off() {
    assert!(!parse_airplane_mode("0\n"));
    assert!(!parse_airplane_mode("0"));
    assert!(!parse_airplane_mode("null\n"));
}

#[test]
fn handles_device_with_no_description() {
    let output = "List of devices attached\nemulator-5554 device\n\n";
    let devices = parse_device_list(output);
    assert_eq!(devices.len(), 1);
    assert_eq!(devices[0].serial, "emulator-5554");
    assert!(devices[0].model.is_none());
    assert!(devices[0].device.is_none());
}

#[test]
fn parses_runtime_permissions() {
    let output = "    runtime permissions:\n\
                   android.permission.CAMERA: granted=true\n\
                   android.permission.READ_CONTACTS: granted=false, flags=[ USER_SET ]\n\
                   \n\
                   some other section:\n";
    let perms = parse_runtime_permissions(output);
    assert_eq!(perms.len(), 2);
    assert_eq!(perms[0], ("android.permission.CAMERA".into(), true));
    assert_eq!(perms[1], ("android.permission.READ_CONTACTS".into(), false));
}

#[test]
fn returns_empty_for_no_permissions() {
    assert!(parse_runtime_permissions("").is_empty());
    assert!(parse_runtime_permissions("some unrelated output\n").is_empty());
}

#[test]
fn deduplicates_permissions() {
    let output = "    runtime permissions:\n\
                   android.permission.CAMERA: granted=true\n\
                   android.permission.CAMERA: granted=false\n\
                   \n";
    let perms = parse_runtime_permissions(output);
    assert_eq!(perms.len(), 1);
}

#[test]
fn parses_app_version() {
    let output = "  versionCode=42 minSdk=21 targetSdk=34\n  versionName=1.2.3\n";
    let (name, code) = parse_app_version(output);
    assert_eq!(name, "1.2.3");
    assert_eq!(code, "42");
}

#[test]
fn returns_empty_for_missing_version() {
    let (name, code) = parse_app_version("some unrelated output\n");
    assert!(name.is_empty());
    assert!(code.is_empty());
}

#[test]
fn takes_first_version_match() {
    let output = "  versionCode=10 minSdk=21\n  versionName=1.0\n  versionCode=20 minSdk=21\n  versionName=2.0\n";
    let (name, code) = parse_app_version(output);
    assert_eq!(name, "1.0");
    assert_eq!(code, "10");
}

#[test]
fn parses_file_list_with_dirs_and_files() {
    let output = "cache/\nfiles/\nshared_prefs/\napp.conf\ndata.bin\n";
    let entries = parse_file_list(output);
    assert_eq!(entries, vec![
        ("cache".into(), true),
        ("files".into(), true),
        ("shared_prefs".into(), true),
        ("app.conf".into(), false),
        ("data.bin".into(), false),
    ]);
}

#[test]
fn returns_empty_for_no_files() {
    assert!(parse_file_list("").is_empty());
    assert!(parse_file_list("\n\n").is_empty());
}

#[test]
fn sorts_dirs_before_files() {
    let output = "z_file\na_dir/\nb_file\n";
    let entries = parse_file_list(output);
    assert_eq!(entries[0], ("a_dir".into(), true));
    assert_eq!(entries[1], ("b_file".into(), false));
    assert_eq!(entries[2], ("z_file".into(), false));
}

#[test]
fn parses_proc_mem() {
    let output = "\
Name:\tcom.example.app
VmRSS:\t  128000 kB
VmSwap:\t       0 kB
";
    let info = parse_proc_mem(output);
    assert_eq!(info.rss_kb, 128000);
}

#[test]
fn proc_mem_empty_output() {
    let info = parse_proc_mem("");
    assert_eq!(info.rss_kb, 0);
}

#[test]
fn parses_wifi_enabled() {
    assert!(parse_wifi_enabled("1\n"));
    assert!(parse_wifi_enabled("1"));
    assert!(!parse_wifi_enabled("0\n"));
    assert!(!parse_wifi_enabled(""));
    assert!(!parse_wifi_enabled("null\n"));
}

#[test]
fn parses_device_ip_skipping_cellular() {
    let output = "100.109.184.96/27 dev rmnet_data1 proto kernel scope link src 100.109.184.112\n\
        192.168.1.0/24 dev wlan0 proto kernel scope link src 192.168.1.66\n";
    assert_eq!(parse_device_ip(output), Some("192.168.1.66".to_string()));
}

#[test]
fn parses_device_ip_from_eth0() {
    let output = "10.0.0.0/24 dev eth0 proto kernel scope link src 10.0.0.42\n";
    assert_eq!(parse_device_ip(output), Some("10.0.0.42".to_string()));
}

#[test]
fn parses_device_ip_with_default_route() {
    let output = "default via 192.168.1.1 dev wlan0 proto dhcp src 192.168.1.42 metric 600\n\
        192.168.1.0/24 dev wlan0 proto kernel scope link src 192.168.1.42\n";
    assert_eq!(parse_device_ip(output), Some("192.168.1.42".to_string()));
}

#[test]
fn device_ip_none_when_only_cellular() {
    let output = "100.109.184.96/27 dev rmnet_data1 proto kernel scope link src 100.109.184.112\n";
    assert_eq!(parse_device_ip(output), None);
}

#[test]
fn parses_du_output() {
    let output = "1234\t./cache\n5678\t.\n";
    assert_eq!(parse_du_output(output), (5678, 1234));
}

#[test]
fn parses_du_output_no_cache() {
    let output = "5678\t.\n";
    assert_eq!(parse_du_output(output), (5678, 0));
}

#[test]
fn parses_du_output_empty() {
    assert_eq!(parse_du_output(""), (0, 0));
}

#[test]
fn parses_avd_list() {
    let output = "Pixel_7_API_34\nMedium_Phone_API_35\n";
    let avds = parse_avd_list(output);
    assert_eq!(avds, vec!["Pixel_7_API_34", "Medium_Phone_API_35"]);
}

#[test]
fn parses_avd_list_empty() {
    assert!(parse_avd_list("").is_empty());
    assert!(parse_avd_list("\n\n").is_empty());
}

#[test]
fn parses_avd_list_with_whitespace() {
    let output = "  Pixel_7_API_34  \n  Medium_Phone  \n";
    let avds = parse_avd_list(output);
    assert_eq!(avds, vec!["Pixel_7_API_34", "Medium_Phone"]);
}

#[test]
fn parsed_devices_are_connected() {
    let output = "List of devices attached\nemulator-5554 device\n\n";
    let devices = parse_device_list(output);
    assert!(devices[0].connected);
}
