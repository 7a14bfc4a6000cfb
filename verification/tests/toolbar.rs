use holo::adb::Device;
use holo::keys::KeyCode;
use holo::toolbar::{DropdownKind, ToolbarAction, ToolbarState};

fn make_device(serial: &str, model: Option<&str>) -> Device {
    Device {
        serial: serial.to_string(),
        model: model.map(String::from),
        device: None,
        connected: true,
    }
}

#[test]
fn new_state_has_no_selection() {
    let state = ToolbarState::new(None);
    assert!(state.device.is_none());
    assert!(state.package.is_none());
    assert!(state.open.is_none());
}

#[test]
fn device_label_with_device() {
    let state = ToolbarState::new(Some(make_device("ABC", Some("Pixel 7"))));
    assert_eq!(state.device_label(), "Pixel 7");
}

#[test]
fn device_label_without_device() {
    let state = ToolbarState::new(None);
    assert_eq!(state.device_label(), "no device");
}

#[test]
fn app_label_with_package() {
    let mut state = ToolbarState::new(None);
    state.package = Some("com.example.app".to_string());
    assert_eq!(state.app_label(), "com.example.app");
}

#[test]
fn app_label_without_package() {
    let state = ToolbarState::new(None);
    assert_eq!(state.app_label(), "no app");
}

#[test]
fn open_devices_sets_state() {
    let mut state = ToolbarState::new(None);
    state.open_devices();
    assert_eq!(state.open, Some(DropdownKind::Device));
    assert!(state.loading);
    assert_eq!(state.cursor, 0);
    assert!(state.filter.is_empty());
}

#[test]
fn open_apps_sets_state() {
    let mut state = ToolbarState::new(None);
    state.open_apps();
    assert_eq!(state.open, Some(DropdownKind::App));
    assert!(state.loading);
}

#[test]
fn receive_devices_populates_and_clears_loading() {
    let mut state = ToolbarState::new(None);
    state.open_devices();
    state.receive_devices(vec![make_device("A", None), make_device("B", None)]);
    assert!(!state.loading);
    assert_eq!(state.devices.len(), 2);
}

#[test]
fn receive_packages_populates_and_clears_loading() {
    let mut state = ToolbarState::new(None);
    state.open_apps();
    state.receive_packages(vec!["com.a".to_string(), "com.b".to_string()]);
    assert!(!state.loading);
    assert_eq!(state.packages.len(), 2);
}

#[test]
fn toolbar_typing_builds_filter() {
    let mut state = ToolbarState::new(None);
    state.open_apps();
    state.receive_packages(vec!["com.example".to_string()]);
    state.handle_key(KeyCode::Char('c'));
    state.handle_key(KeyCode::Char('o'));
    assert_eq!(state.filter, "co");
    assert_eq!(state.cursor, 0);
}

#[test]
fn toolbar_backspace_removes_char() {
    let mut state = ToolbarState::new(None);
    state.open_apps();
    state.filter = "abc".to_string();
    state.handle_key(KeyCode::Backspace);
    assert_eq!(state.filter, "ab");
}

#[test]
fn esc_closes_dropdown() {
    let mut state = ToolbarState::new(None);
    state.open_apps();
    let action = state.handle_key(KeyCode::Esc);
    assert!(state.open.is_none());
    assert!(matches!(action, ToolbarAction::Close));
}

#[test]
fn toolbar_cursor_moves_within_bounds() {
    let mut state = ToolbarState::new(None);
    state.open_apps();
    state.receive_packages(vec!["a".to_string(), "b".to_string(), "c".to_string()]);
    state.handle_key(KeyCode::Down);
    assert_eq!(state.cursor, 1);
    state.handle_key(KeyCode::Down);
    assert_eq!(state.cursor, 2);
    state.handle_key(KeyCode::Down);
    assert_eq!(state.cursor, 2);
    state.handle_key(KeyCode::Up);
    assert_eq!(state.cursor, 1);
}

#[test]
fn enter_selects_app() {
    let mut state = ToolbarState::new(None);
    state.open_apps();
    state.receive_packages(vec!["com.alpha".to_string(), "com.beta".to_string()]);
    state.handle_key(KeyCode::Down);
    let action = state.handle_key(KeyCode::Enter);
    assert!(matches!(action, ToolbarAction::SelectApp(ref p) if p == "com.beta"));
    assert!(state.open.is_none());
}

#[test]
fn enter_selects_device() {
    let mut state = ToolbarState::new(None);
    state.open_devices();
    state.receive_devices(vec![make_device("DEV1", None), make_device("DEV2", None)]);
    state.handle_key(KeyCode::Down);
    let action = state.handle_key(KeyCode::Enter);
    assert!(matches!(action, ToolbarAction::SelectDevice(ref d) if d.serial == "DEV2"));
}

#[test]
fn enter_does_nothing_when_empty() {
    let mut state = ToolbarState::new(None);
    state.open_apps();
    state.receive_packages(vec![]);
    let action = state.handle_key(KeyCode::Enter);
    assert!(matches!(action, ToolbarAction::Nothing));
    assert!(state.open.is_some());
}

#[test]
fn filter_narrows_packages() {
    let mut state = ToolbarState::new(None);
    state.open_apps();
    state.receive_packages(vec![
        "com.spotify.music".to_string(),
        "com.whatsapp".to_string(),
    ]);
    state.filter = "spot".to_string();
    let filtered = state.filtered_packages();
    assert_eq!(filtered, vec!["com.spotify.music"]);
}

#[test]
fn filter_narrows_devices() {
    let mut state = ToolbarState::new(None);
    state.open_devices();
    state.receive_devices(vec![
        make_device("A", Some("Pixel 7")),
        make_device("B", Some("Samsung")),
    ]);
    state.filter = "pix".to_string();
    let filtered = state.filtered_devices();
    assert_eq!(filtered.len(), 1);
    assert_eq!(filtered[0].serial, "A");
}

#[test]
fn auto_selects_last_package_when_available() {
    let mut state = ToolbarState::new(None);
    state.last_package = Some("com.example.app".to_string());
    let result = state.receive_packages(vec![
        "com.other".to_string(),
        "com.example.app".to_string(),
    ]);
    assert_eq!(result, Some("com.example.app".to_string()));
}

#[test]
fn no_auto_select_when_last_package_missing() {
    let mut state = ToolbarState::new(None);
    state.last_package = Some("com.example.app".to_string());
    let result = state.receive_packages(vec!["com.other".to_string()]);
    assert_eq!(result, None);
}

#[test]
fn no_auto_select_when_package_already_set() {
    let mut state = ToolbarState::new(None);
    state.package = Some("com.current".to_string());
    state.last_package = Some("com.example.app".to_string());
    let result = state.receive_packages(vec!["com.example.app".to_string()]);
    assert_eq!(result, None);
}

#[test]
fn no_auto_select_without_cache() {
    let mut state = ToolbarState::new(None);
    let result = state.receive_packages(vec!["com.example.app".to_string()]);
    assert_eq!(result, None);
}

#[test]
fn enter_launches_offline_emulator() {
    let mut state = ToolbarState::new(None);
    state.open_devices();
    state.receive_devices(vec![Device {
        serial: "Pixel_7_API_34".to_string(),
        model: Some("Pixel_7_API_34".to_string()),
        device: None,
        connected: false,
    }]);
    let action = state.handle_key(KeyCode::Enter);
    assert!(matches!(action, ToolbarAction::LaunchEmulator(ref name) if name == "Pixel_7_API_34"));
}
