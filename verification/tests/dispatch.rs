use holo::dispatch::{apply_initial_state, build_title, DeviceState};
use holo::adb::Device;
use holo::app::{Action, App, Navigation};
use holo::dispatch::{
    action_is_blocked_while_viewing, dispatch, is_terminal_editor, AppCommand, DeviceSetting, Effect,
};

fn device(serial: &str) -> Device {
    Device { serial: serial.into(), model: None, device: None, connected: true }
}

fn app_with_device() -> App {
    let mut app = App::new(Some(device("R5CT")), Some("com.test"));
    app.toolbar.package = Some("com.test".into());
    app
}

#[test]
fn blocked_actions_only_flash_while_viewing() {
    let mut app = app_with_device();
    let e = dispatch(&mut app, Action::KillApp, true);
    assert!(matches!(e, Effect::Nothing));
    let (msg, err) = app.status_flash_active().unwrap();
    assert_eq!(msg, "viewing session — open ^h history to go live");
    assert!(err);
    assert!(action_is_blocked_while_viewing(&Action::RefreshDb));
    assert!(!action_is_blocked_while_viewing(&Action::Quit));
    assert!(matches!(dispatch(&mut app, Action::Quit, true), Effect::Quit));
}

#[test]
fn app_command_needs_device_and_app() {
    let mut app = app_with_device();
    let e = dispatch(&mut app, Action::KillApp, false);
    assert!(matches!(e, Effect::RunCommand { command: AppCommand::Kill, ref serial, ref package } if serial == "R5CT" && package == "com.test"));
    assert_eq!(app.status_flash_active().unwrap().0, "Killing app...");
    let mut bare = App::new(None, None);
    assert!(matches!(dispatch(&mut bare, Action::KillApp, false), Effect::Nothing));
    assert!(bare.status_flash.is_none());
}

#[test]
fn wireless_adb_passes_no_package() {
    let mut app = app_with_device();
    let e = dispatch(&mut app, Action::WirelessAdb, false);
    assert!(matches!(e, Effect::RunCommand { command: AppCommand::WirelessAdb, ref package, .. } if package.is_empty()));
}

#[test]
fn toggles_flip_flash_and_roll_back() {
    let mut app = app_with_device();
    let e = dispatch(&mut app, Action::ToggleDarkMode, false);
    assert!(app.dark_mode());
    assert_eq!(app.status_flash_active().unwrap().0, "Dark mode on");
    match e {
        Effect::SetSetting { setting, enabled, ref serial } => {
            assert_eq!(setting, DeviceSetting::DarkMode);
            assert!(enabled);
            assert_eq!(serial, "R5CT");
            app.set_setting(setting, !enabled);
        }
        _ => panic!("expected a setting"),
    }
    assert!(!app.dark_mode());
    let mut bare = App::new(None, None);
    assert!(matches!(dispatch(&mut bare, Action::ToggleWifi, false), Effect::Nothing));
    assert!(bare.wifi_enabled());
    assert_eq!(bare.status_flash_active().unwrap().0, "Wi-Fi on");
}

#[test]
fn change_device_detects_emulator_and_resets() {
    let mut app = app_with_device();
    app.open_settings();
    app.toolbar.last_package = Some("com.last".into());
    let e = dispatch(&mut app, Action::ChangeDevice(device("emulator-5554")), false);
    assert!(app.commands.is_emulator);
    assert!(app.toolbar.package.is_none());
    assert!(app.toolbar.device_connected);
    assert_eq!(app.nav(), &Navigation::Panels);
    assert!(matches!(e, Effect::SelectAndBuild { ref device, ref last_package } if device.serial == "emulator-5554" && last_package.as_deref() == Some("com.last")));
}

#[test]
fn change_app_remembers_package() {
    let mut app = app_with_device();
    let e = dispatch(&mut app, Action::ChangeApp("com.other".into()), false);
    assert_eq!(app.toolbar.package.as_deref(), Some("com.other"));
    assert_eq!(app.toolbar.last_package.as_deref(), Some("com.other"));
    assert_eq!(app.files_state.package, "com.other");
    assert!(matches!(e, Effect::BuildApp { ref package, device: Some(_) } if package == "com.other"));
}

#[test]
fn refresh_files_lists_root() {
    let mut app = app_with_device();
    let e = dispatch(&mut app, Action::RefreshFiles, false);
    assert!(matches!(e, Effect::ListDir { ref path, .. } if path == "."));
}

#[test]
fn terminal_editors_by_program_name() {
    assert!(is_terminal_editor("nvim"));
    assert!(is_terminal_editor("/usr/bin/vim -u NONE"));
    assert!(is_terminal_editor("  hx"));
    assert!(!is_terminal_editor("code --wait"));
    assert!(!is_terminal_editor(""));
    assert!(!is_terminal_editor("vimx"));
}

#[test]
fn title_shows_the_version_name_and_code() {
    assert_eq!(build_title(&Some(("1.2.3".to_string(), "45".to_string()))), " 1.2.3 / 45 ");
    assert_eq!(build_title(&Some((String::new(), "45".to_string()))), "");
    assert_eq!(build_title(&None), "");
}

#[test]
fn initial_state_sets_every_setting() {
    let mut app = app_with_device();
    let state = DeviceState {
        layout_bounds: true,
        airplane_mode: false,
        wifi_enabled: true,
        dark_mode: true,
        show_taps: false,
        pointer_location: true,
        gpu_rendering: false,
        talkback: true,
        measure_sdk: true,
    };
    apply_initial_state(&mut app, state);
    assert!(app.layout_bounds && !app.airplane_mode && app.wifi_enabled && app.dark_mode);
    assert!(!app.show_taps && app.pointer_location && !app.gpu_rendering && app.talkback);
    assert!(app.measure_sdk_detected);
    assert!(app.setting(DeviceSetting::DarkMode));
}
