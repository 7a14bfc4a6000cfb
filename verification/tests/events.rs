use holo::dispatch::DeviceState;
use holo::adb::Device;
use holo::app::{App, Navigation};
use holo::dispatch::Effect;
use holo::events::WorkerEvent;

fn app() -> App {
    let mut a = App::new(
        Some(Device { serial: "S1".into(), model: None, device: None, connected: true }),
        None,
    );
    a.toolbar.last_package = Some("com.last".into());
    a
}

#[test]
fn packages_pick_the_last_package_and_build() {
    let mut a = app();
    a.open_settings();
    let e = a.receive(WorkerEvent::Packages(vec!["com.a".into(), "com.last".into()]), false);
    assert_eq!(a.toolbar.package.as_deref(), Some("com.last"));
    assert_eq!(a.files_state.package, "com.last");
    assert!(matches!(a.nav(), Navigation::Settings { .. }));
    assert!(matches!(e, Effect::Build { ref device, ref package } if device.serial == "S1" && package == "com.last"));
}

#[test]
fn live_results_are_kept_out_while_viewing() {
    let mut a = app();
    let e = a.receive(WorkerEvent::Databases(Ok(vec!["x.db".into()])), true);
    assert!(matches!(e, Effect::Nothing));
    assert!(a.database_state.databases.is_empty());
    a.receive(WorkerEvent::Databases(Ok(vec!["x.db".into()])), false);
    assert_eq!(a.database_state.databases, vec!["x.db".to_string()]);
}

#[test]
fn pulled_database_is_reported_in_the_output() {
    let mut a = app();
    a.receive(WorkerEvent::DbPulled(Ok("/tmp/x.db".into())), false);
    a.receive(WorkerEvent::DbPulled(Err("denied".into())), false);
    assert_eq!(a.database_state.history_text().as_deref(), Some("pulled to /tmp/x.db\npull failed: denied"));
}

#[test]
fn trace_results_update_the_panel() {
    let mut a = app();
    a.trace_state.recording = true;
    a.receive(WorkerEvent::TraceStartFailed("no perfetto".into()), false);
    assert!(!a.trace_state.recording);
    assert_eq!(a.trace_state.status_message.as_deref(), Some("failed: no perfetto"));
    let e = a.receive(WorkerEvent::TracePulled(Ok("/tmp/a.perfetto-trace".into())), false);
    assert_eq!(a.trace_state.pulled_traces, vec!["/tmp/a.perfetto-trace".to_string()]);
    assert!(matches!(e, Effect::OpenTrace(ref p) if p == "/tmp/a.perfetto-trace"));
}

#[test]
fn timeouts_flash_an_error() {
    let mut a = app();
    a.receive(WorkerEvent::AdbTimeout("adb -s X shell true".into()), true);
    let (msg, err) = a.status_flash_active().unwrap();
    assert_eq!(msg, "adb timed out: adb -s X shell true");
    assert!(err);
}

#[test]
fn table_list_error_clears_loading() {
    let mut a = app();
    a.database_state.tables_loading.insert("a.db".into());
    a.receive(WorkerEvent::Tables(Err("boom".into())), false);
    assert!(!a.database_state.tables_loading.contains("a.db"));
    assert_eq!(a.database_state.error.as_deref(), Some("boom"));
}

#[test]
fn device_state_is_shown_when_it_arrives() {
    let mut a = app();
    let state = DeviceState {
        layout_bounds: false,
        airplane_mode: true,
        wifi_enabled: false,
        dark_mode: false,
        show_taps: true,
        pointer_location: false,
        gpu_rendering: true,
        talkback: false,
        measure_sdk: false,
    };
    assert!(a.accepts_event(&WorkerEvent::DeviceState(state)));
    assert!(matches!(a.receive(WorkerEvent::DeviceState(state), false), Effect::Nothing));
    assert!(a.airplane_mode && a.show_taps && a.gpu_rendering);
}

#[test]
fn device_packages_build_the_remembered_app() {
    let mut a = app();
    let e = a.receive(WorkerEvent::DevicePackages("S1".into(), vec!["com.x".into(), "com.last".into()]), false);
    assert!(matches!(e, Effect::Build { ref package, .. } if package == "com.last"));
    assert_eq!(a.toolbar.package.as_deref(), Some("com.last"));
    assert!(matches!(a.nav, Navigation::Panels));
}

#[test]
fn device_packages_without_the_remembered_app_open_the_picker() {
    let mut a = app();
    let e = a.receive(WorkerEvent::DevicePackages("S1".into(), vec!["com.x".into()]), false);
    assert!(matches!(e, Effect::Nothing));
    assert!(a.toolbar.package.is_none());
    assert!(matches!(a.nav, Navigation::Dropdown(_)));
    assert!(!a.toolbar.loading);
    assert_eq!(a.toolbar.packages, vec!["com.x".to_string()]);
}

#[test]
fn device_packages_for_another_device_are_dropped() {
    let mut a = app();
    let e = a.receive(WorkerEvent::DevicePackages("OTHER".into(), vec!["com.last".into()]), false);
    assert!(matches!(e, Effect::Nothing));
    assert!(a.toolbar.package.is_none());
    assert!(a.toolbar.packages.is_empty());
    assert!(matches!(a.nav, Navigation::Panels));
}

#[test]
fn a_booted_emulator_becomes_the_device() {
    let mut a = app();
    let emu = Device { serial: "emulator-5554".into(), model: None, device: None, connected: true };
    let e = a.receive(WorkerEvent::EmulatorReady(emu), false);
    assert_eq!(a.toolbar.device.as_ref().map(|d| d.serial.as_str()), Some("emulator-5554"));
    assert!(matches!(e, Effect::SelectAndBuild { .. }));
}
