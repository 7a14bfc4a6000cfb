//! What each action asks of the application and of the device: the
//! application's own state changes and status messages are made here; the
//! work that reaches the device, the disk or other programs is handed back
//! as an `Effect` for the front end to carry out.

use vstd::prelude::*;
use crate::adb::Device;
use crate::app::{Action, App, Navigation, restored, user_reset, zoom_toggled};
use crate::commands::CommandsState;
use crate::files::file_name_of;
use crate::session::SessionId;
use crate::text::{has_prefix, chars_of, extend_chars, split_ws, split_ws_bounds, starts_with, string_from_chars};
use crate::toolbar::ToolbarState;

verus! {

/// The device's settings as read when an app's data sources are built, and
/// whether the app carries the measure SDK.
#[derive(Debug, Clone, Copy, PartialEq, Eq, Structural)]
pub struct DeviceState {
    pub layout_bounds: bool,
    pub airplane_mode: bool,
    pub wifi_enabled: bool,
    pub dark_mode: bool,
    pub show_taps: bool,
    pub pointer_location: bool,
    pub gpu_rendering: bool,
    pub talkback: bool,
    pub measure_sdk: bool,
}

/// `b` is `a` showing the settings read from the device.
pub open spec fn initial_state_applied(a: App, b: App, s: DeviceState) -> bool {
    b == App {
        layout_bounds: s.layout_bounds,
        airplane_mode: s.airplane_mode,
        wifi_enabled: s.wifi_enabled,
        dark_mode: s.dark_mode,
        show_taps: s.show_taps,
        pointer_location: s.pointer_location,
        gpu_rendering: s.gpu_rendering,
        talkback: s.talkback,
        measure_sdk_detected: s.measure_sdk,
        ..a
    }
}

/// Shows the settings read from the device.
pub fn apply_initial_state(app: &mut App, state: DeviceState)
    ensures
        initial_state_applied(*old(app), *final(app), state),
{
    app.layout_bounds = state.layout_bounds;
    app.airplane_mode = state.airplane_mode;
    app.wifi_enabled = state.wifi_enabled;
    app.dark_mode = state.dark_mode;
    app.show_taps = state.show_taps;
    app.pointer_location = state.pointer_location;
    app.gpu_rendering = state.gpu_rendering;
    app.talkback = state.talkback;
    app.measure_sdk_detected = state.measure_sdk;
}

/// The window title for the app's version name and code: ` name / code `,
/// or nothing when the name is unknown or empty.
pub open spec fn title_text(version: Option<(String, String)>) -> Seq<char> {
    match version {
        Some((name, code)) => if name@.len() > 0 {
            seq![' '] + name@ + seq![' ', '/', ' '] + code@ + seq![' ']
        } else {
            seq![]
        },
        None => seq![],
    }
}

pub fn build_title(app_version: &Option<(String, String)>) -> (r: String)
    ensures
        r@ == title_text(*app_version),
{
    let mut out: Vec<char> = Vec::new();
    match app_version {
        Some((name, code)) => {
            let n = chars_of(name.as_str());
            if n.len() > 0 {
                out.push(' ');
                extend_chars(&mut out, n.as_slice());
                out.push(' ');
                out.push('/');
                out.push(' ');
                let c = chars_of(code.as_str());
                extend_chars(&mut out, c.as_slice());
                out.push(' ');
                proof {
                    assert(out@ =~= seq![' '] + name@ + seq![' ', '/', ' '] + code@ + seq![' ']);
                }
            }
        },
        None => {},
    }
    string_from_chars(out.as_slice())
}

/// The device settings that commands switch on and off.
#[derive(Debug, Clone, Copy, PartialEq, Eq, Structural)]
pub enum DeviceSetting {
    LayoutBounds,
    AirplaneMode,
    Wifi,
    DarkMode,
    ShowTaps,
    PointerLocation,
    GpuRendering,
    Talkback,
}

/// Whether setting `s` is on, as the application last knew it.
pub open spec fn setting_on(a: App, s: DeviceSetting) -> bool {
    match s {
        DeviceSetting::LayoutBounds => a.layout_bounds,
        DeviceSetting::AirplaneMode => a.airplane_mode,
        DeviceSetting::Wifi => a.wifi_enabled,
        DeviceSetting::DarkMode => a.dark_mode,
        DeviceSetting::ShowTaps => a.show_taps,
        DeviceSetting::PointerLocation => a.pointer_location,
        DeviceSetting::GpuRendering => a.gpu_rendering,
        DeviceSetting::Talkback => a.talkback,
    }
}

/// `b` is `a` with setting `s` set to `v`.
pub open spec fn setting_set(a: App, b: App, s: DeviceSetting, v: bool) -> bool {
    &&& b == App {
        layout_bounds: b.layout_bounds,
        airplane_mode: b.airplane_mode,
        wifi_enabled: b.wifi_enabled,
        dark_mode: b.dark_mode,
        show_taps: b.show_taps,
        pointer_location: b.pointer_location,
        gpu_rendering: b.gpu_rendering,
        talkback: b.talkback,
        ..a
    }
    &&& forall|o: DeviceSetting| #[trigger] setting_on(b, o) == if o == s {
        v
    } else {
        setting_on(a, o)
    }
}

/// The setting's name in status messages.
pub open spec fn setting_label_text(s: DeviceSetting) -> Seq<char> {
    match s {
        DeviceSetting::LayoutBounds => "Layout bounds"@,
        DeviceSetting::AirplaneMode => "Airplane mode"@,
        DeviceSetting::Wifi => "Wi-Fi"@,
        DeviceSetting::DarkMode => "Dark mode"@,
        DeviceSetting::ShowTaps => "Show taps"@,
        DeviceSetting::PointerLocation => "Pointer location"@,
        DeviceSetting::GpuRendering => "GPU rendering"@,
        DeviceSetting::Talkback => "TalkBack"@,
    }
}

pub fn setting_label(s: DeviceSetting) -> (r: &'static str)
    ensures
        r@ == setting_label_text(s),
{
    match s {
        DeviceSetting::LayoutBounds => {
            proof {
                reveal_strlit("Layout bounds");
            }
            "Layout bounds"
        },
        DeviceSetting::AirplaneMode => {
            proof {
                reveal_strlit("Airplane mode");
            }
            "Airplane mode"
        },
        DeviceSetting::Wifi => {
            proof {
                reveal_strlit("Wi-Fi");
            }
            "Wi-Fi"
        },
        DeviceSetting::DarkMode => {
            proof {
                reveal_strlit("Dark mode");
            }
            "Dark mode"
        },
        DeviceSetting::ShowTaps => {
            proof {
                reveal_strlit("Show taps");
            }
            "Show taps"
        },
        DeviceSetting::PointerLocation => {
            proof {
                reveal_strlit("Pointer location");
            }
            "Pointer location"
        },
        DeviceSetting::GpuRendering => {
            proof {
                reveal_strlit("GPU rendering");
            }
            "GPU rendering"
        },
        DeviceSetting::Talkback => {
            proof {
                reveal_strlit("TalkBack");
            }
            "TalkBack"
        },
    }
}

/// The status message when the device refuses the setting.
pub open spec fn setting_error_text(s: DeviceSetting) -> Seq<char> {
    match s {
        DeviceSetting::LayoutBounds => "Failed to set layout bounds"@,
        DeviceSetting::AirplaneMode => "Failed to toggle airplane mode"@,
        DeviceSetting::Wifi => "Failed to toggle Wi-Fi"@,
        DeviceSetting::DarkMode => "Failed to toggle dark mode"@,
        DeviceSetting::ShowTaps => "Failed to toggle show taps"@,
        DeviceSetting::PointerLocation => "Failed to toggle pointer location"@,
        DeviceSetting::GpuRendering => "Failed to toggle GPU rendering"@,
        DeviceSetting::Talkback => "Failed to toggle TalkBack"@,
    }
}

pub fn setting_error(s: DeviceSetting) -> (r: &'static str)
    ensures
        r@ == setting_error_text(s),
{
    match s {
        DeviceSetting::LayoutBounds => {
            proof {
                reveal_strlit("Failed to set layout bounds");
            }
            "Failed to set layout bounds"
        },
        DeviceSetting::AirplaneMode => {
            proof {
                reveal_strlit("Failed to toggle airplane mode");
            }
            "Failed to toggle airplane mode"
        },
        DeviceSetting::Wifi => {
            proof {
                reveal_strlit("Failed to toggle Wi-Fi");
            }
            "Failed to toggle Wi-Fi"
        },
        DeviceSetting::DarkMode => {
            proof {
                reveal_strlit("Failed to toggle dark mode");
            }
            "Failed to toggle dark mode"
        },
        DeviceSetting::ShowTaps => {
            proof {
                reveal_strlit("Failed to toggle show taps");
            }
            "Failed to toggle show taps"
        },
        DeviceSetting::PointerLocation => {
            proof {
                reveal_strlit("Failed to toggle pointer location");
            }
            "Failed to toggle pointer location"
        },
        DeviceSetting::GpuRendering => {
            proof {
                reveal_strlit("Failed to toggle GPU rendering");
            }
            "Failed to toggle GPU rendering"
        },
        DeviceSetting::Talkback => {
            proof {
                reveal_strlit("Failed to toggle TalkBack");
            }
            "Failed to toggle TalkBack"
        },
    }
}

impl App {
    pub fn setting(&self, s: DeviceSetting) -> (b: bool)
        ensures
            b == setting_on(*self, s),
    {
        match s {
            DeviceSetting::LayoutBounds => self.layout_bounds,
            DeviceSetting::AirplaneMode => self.airplane_mode,
            DeviceSetting::Wifi => self.wifi_enabled,
            DeviceSetting::DarkMode => self.dark_mode,
            DeviceSetting::ShowTaps => self.show_taps,
            DeviceSetting::PointerLocation => self.pointer_location,
            DeviceSetting::GpuRendering => self.gpu_rendering,
            DeviceSetting::Talkback => self.talkback,
        }
    }

    /// Sets `s` to `v`: also how a refused toggle is rolled back.
    pub fn set_setting(&mut self, s: DeviceSetting, v: bool)
        ensures
            setting_set(*old(self), *final(self), s, v),
    {
        match s {
            DeviceSetting::LayoutBounds => self.layout_bounds = v,
            DeviceSetting::AirplaneMode => self.airplane_mode = v,
            DeviceSetting::Wifi => self.wifi_enabled = v,
            DeviceSetting::DarkMode => self.dark_mode = v,
            DeviceSetting::ShowTaps => self.show_taps = v,
            DeviceSetting::PointerLocation => self.pointer_location = v,
            DeviceSetting::GpuRendering => self.gpu_rendering = v,
            DeviceSetting::Talkback => self.talkback = v,
        }
    }
}

/// The commands that run once against the app or the device.
#[derive(Debug, Clone, Copy, PartialEq, Eq, Structural)]
pub enum AppCommand {
    Launch,
    OpenInfo,
    Kill,
    ClearData,
    Uninstall,
    WakeScreen,
    WirelessAdb,
}

/// The status message while the command runs.
pub open spec fn command_flash_text(c: AppCommand) -> Seq<char> {
    match c {
        AppCommand::Launch => "Opening app..."@,
        AppCommand::OpenInfo => "Opening app info..."@,
        AppCommand::Kill => "Killing app..."@,
        AppCommand::ClearData => "Clearing data..."@,
        AppCommand::Uninstall => "Uninstalling..."@,
        AppCommand::WakeScreen => "Waking screen..."@,
        AppCommand::WirelessAdb => "Enabling wireless ADB..."@,
    }
}

pub fn command_flash(c: AppCommand) -> (r: &'static str)
    ensures
        r@ == command_flash_text(c),
{
    match c {
        AppCommand::Launch => {
            proof {
                reveal_strlit("Opening app...");
            }
            "Opening app..."
        },
        AppCommand::OpenInfo => {
            proof {
                reveal_strlit("Opening app info...");
            }
            "Opening app info..."
        },
        AppCommand::Kill => {
            proof {
                reveal_strlit("Killing app...");
            }
            "Killing app..."
        },
        AppCommand::ClearData => {
            proof {
                reveal_strlit("Clearing data...");
            }
            "Clearing data..."
        },
        AppCommand::Uninstall => {
            proof {
                reveal_strlit("Uninstalling...");
            }
            "Uninstalling..."
        },
        AppCommand::WakeScreen => {
            proof {
                reveal_strlit("Waking screen...");
            }
            "Waking screen..."
        },
        AppCommand::WirelessAdb => {
            proof {
                reveal_strlit("Enabling wireless ADB...");
            }
            "Enabling wireless ADB..."
        },
    }
}

/// The status message when the command fails.
pub open spec fn command_error_text(c: AppCommand) -> Seq<char> {
    match c {
        AppCommand::Launch => "Failed to open app"@,
        AppCommand::OpenInfo => "Failed to open app info"@,
        AppCommand::Kill => "Failed to kill app"@,
        AppCommand::ClearData => "Failed to clear data"@,
        AppCommand::Uninstall => "Failed to uninstall"@,
        AppCommand::WakeScreen => "Failed to wake screen"@,
        AppCommand::WirelessAdb => "Failed to enable wireless ADB"@,
    }
}

pub fn command_error(c: AppCommand) -> (r: &'static str)
    ensures
        r@ == command_error_text(c),
{
    match c {
        AppCommand::Launch => {
            proof {
                reveal_strlit("Failed to open app");
            }
            "Failed to open app"
        },
        AppCommand::OpenInfo => {
            proof {
                reveal_strlit("Failed to open app info");
            }
            "Failed to open app info"
        },
        AppCommand::Kill => {
            proof {
                reveal_strlit("Failed to kill app");
            }
            "Failed to kill app"
        },
        AppCommand::ClearData => {
            proof {
                reveal_strlit("Failed to clear data");
            }
            "Failed to clear data"
        },
        AppCommand::Uninstall => {
            proof {
                reveal_strlit("Failed to uninstall");
            }
            "Failed to uninstall"
        },
        AppCommand::WakeScreen => {
            proof {
                reveal_strlit("Failed to wake screen");
            }
            "Failed to wake screen"
        },
        AppCommand::WirelessAdb => {
            proof {
                reveal_strlit("Failed to enable wireless ADB");
            }
            "Failed to enable wireless ADB"
        },
    }
}

/// The work an action leaves to the front end.
#[derive(Debug)]
pub enum Effect {
    /// Nothing to do outside the application.
    Nothing,
    Quit,
    FetchDevices,
    FetchPackages { serial: String },
    /// A device was picked: list its packages and build the data sources
    /// for the last package, when it is there.
    SelectAndBuild { device: Device, last_package: Option<String> },
    /// An app was picked: remember it and build its data sources on the
    /// current device, if any.
    BuildApp { package: String, device: Option<Device> },
    /// Build the data sources of `package` on `device`.
    Build { device: Device, package: String },
    /// A pulled file is ready to open in the editor.
    OpenPulledFile(String),
    RunCommand { command: AppCommand, serial: String, package: String },
    /// Set a device setting; when the device refuses, `set_setting` puts
    /// back the other value.
    SetSetting { setting: DeviceSetting, serial: String, enabled: bool },
    Screenshot { serial: String },
    SetPermission { serial: String, package: String, permission: String, granted: bool },
    ClearLogcat,
    RestartDbDetection { serial: String, package: String },
    Copy(String),
    OpenLogcat,
    RunQuery { serial: String, package: String, db: String, sql: String },
    PullDb { serial: String, package: String, db: String },
    FetchTables { serial: String, package: String, db: String },
    ListDir { serial: String, package: String, path: String },
    PullFile { serial: String, package: String, path: String },
    StartTrace { serial: String, package: String },
    StopTrace { serial: String, package: String },
    LaunchEmulator(String),
    Mirror { serial: String },
    OpenInEditor(String),
    OpenTrace(String),
    DeleteTraceFile(String),
    CycleTheme(bool),
    CopyTempDir,
    OpenTempDir,
    OpenUrl(String),
    /// Copy this path to the clipboard and report whether it worked.
    CopyPath(String),
    /// Load this captured session and show it.
    OpenSession(SessionId),
    /// Leave the captured session on screen for the live app.
    CloseSession,
    /// Delete this captured session from the disk.
    DeleteSession(SessionId),
}

/// Actions that would touch the device; they are refused while a captured
/// session is on screen.
pub open spec fn blocked_while_viewing(a: Action) -> bool {
    match a {
        Action::OpenApp | Action::OpenAppInfo | Action::KillApp | Action::ClearData
        | Action::UninstallApp | Action::WakeScreen | Action::ToggleLayoutBounds
        | Action::ToggleAirplaneMode | Action::TogglePermission(_, _) | Action::Screenshot
        | Action::ToggleWifi | Action::ToggleDarkMode | Action::ToggleShowTaps
        | Action::TogglePointerLocation | Action::ToggleGpuRendering | Action::ToggleTalkback
        | Action::WirelessAdb | Action::MirrorDevice | Action::StartTrace | Action::StopTrace
        | Action::RunQuery(_, _) | Action::PullDb(_) | Action::DbFetchTables(_) | Action::RefreshDb
        | Action::RefreshFiles | Action::ExpandDir(_) | Action::OpenFile(_) | Action::ResetLogcat => true,
        _ => false,
    }
}

pub fn action_is_blocked_while_viewing(action: &Action) -> (b: bool)
    ensures
        b == blocked_while_viewing(*action),
{
    match action {
        Action::OpenApp | Action::OpenAppInfo | Action::KillApp | Action::ClearData
        | Action::UninstallApp | Action::WakeScreen | Action::ToggleLayoutBounds
        | Action::ToggleAirplaneMode | Action::TogglePermission(_, _) | Action::Screenshot
        | Action::ToggleWifi | Action::ToggleDarkMode | Action::ToggleShowTaps
        | Action::TogglePointerLocation | Action::ToggleGpuRendering | Action::ToggleTalkback
        | Action::WirelessAdb | Action::MirrorDevice | Action::StartTrace | Action::StopTrace
        | Action::RunQuery(_, _) | Action::PullDb(_) | Action::DbFetchTables(_) | Action::RefreshDb
        | Action::RefreshFiles | Action::ExpandDir(_) | Action::OpenFile(_) | Action::ResetLogcat => true,
        _ => false,
    }
}

/// The editors that run in the terminal, by program name.
pub open spec fn terminal_editor_name(n: Seq<char>) -> bool {
    n == "nvim"@ || n == "vim"@ || n == "vi"@ || n == "nano"@ || n == "micro"@ || n == "helix"@
        || n == "hx"@ || n == "kak"@ || n == "kakoune"@ || n == "emacs"@ || n == "joe"@ || n
        == "pico"@ || n == "ed"@
}

/// Whether the editor command `cmd` runs in the terminal: the file name
/// of its first word is one of the terminal editors.
pub open spec fn terminal_editor(cmd: Seq<char>) -> bool {
    let words = split_ws(cmd);
    let first = if words.len() > 0 {
        words[0]
    } else {
        Seq::<char>::empty()
    };
    match crate::files::path_file_name(first) {
        Some(n) => terminal_editor_name(n),
        None => false,
    }
}

fn is_named(n: &str, m: &str) -> (b: bool)
    ensures
        b == (n@ == m@),
{
    let a = chars_of(n);
    let c = chars_of(m);
    crate::text::eq_chars(a.as_slice(), c.as_slice())
}

pub fn is_terminal_editor(cmd: &str) -> (b: bool)
    ensures
        b == terminal_editor(cmd@),
{
    let cv = chars_of(cmd);
    let cs = cv.as_slice();
    let words = split_ws_bounds(cs);
    let first: String = if words.len() > 0 {
        let (s, e) = words[0];
        let w = &cs[s..e];
        proof {
            assert(w@ =~= cs@.subrange(s as int, e as int));
        }
        string_from_chars(w)
    } else {
        proof {
            reveal_strlit("");
        }
        String::new()
    };
    match file_name_of(first.as_str()) {
        Some(n) => {
            let s = n.as_str();
            is_named(s, "nvim") || is_named(s, "vim") || is_named(s, "vi") || is_named(s, "nano")
                || is_named(s, "micro") || is_named(s, "helix") || is_named(s, "hx") || is_named(
                s,
                "kak",
            ) || is_named(s, "kakoune") || is_named(s, "emacs") || is_named(s, "joe") || is_named(
                s,
                "pico",
            ) || is_named(s, "ed")
        },
        None => false,
    }
}


// ---------------------------------------------------------------------------
// Dispatching an action
// ---------------------------------------------------------------------------

/// The serial of the selected device.
pub open spec fn serial_of(a: App) -> Option<String> {
    match a.toolbar.device {
        Some(d) => Some(d.serial),
        None => None,
    }
}

/// `b` is `a` with status message `msg` (an error when `err`).
pub open spec fn flashed(a: App, b: App, msg: Seq<char>, err: bool) -> bool {
    &&& b == App { status_flash: b.status_flash, ..a }
    &&& b.status_flash matches Some(f) && f.0@ == msg && f.2 == err
}

/// What refusing a device action while viewing a captured session shows.
pub const VIEWING_REFUSAL: &'static str = "viewing session — open ^h history to go live";

/// The app command behind an action.
pub open spec fn command_of(a: Action) -> Option<AppCommand> {
    match a {
        Action::OpenApp => Some(AppCommand::Launch),
        Action::OpenAppInfo => Some(AppCommand::OpenInfo),
        Action::KillApp => Some(AppCommand::Kill),
        Action::ClearData => Some(AppCommand::ClearData),
        Action::UninstallApp => Some(AppCommand::Uninstall),
        Action::WakeScreen => Some(AppCommand::WakeScreen),
        Action::WirelessAdb => Some(AppCommand::WirelessAdb),
        _ => None,
    }
}

/// The device setting behind an action.
pub open spec fn setting_of(a: Action) -> Option<DeviceSetting> {
    match a {
        Action::ToggleLayoutBounds => Some(DeviceSetting::LayoutBounds),
        Action::ToggleAirplaneMode => Some(DeviceSetting::AirplaneMode),
        Action::ToggleWifi => Some(DeviceSetting::Wifi),
        Action::ToggleDarkMode => Some(DeviceSetting::DarkMode),
        Action::ToggleShowTaps => Some(DeviceSetting::ShowTaps),
        Action::TogglePointerLocation => Some(DeviceSetting::PointerLocation),
        Action::ToggleGpuRendering => Some(DeviceSetting::GpuRendering),
        Action::ToggleTalkback => Some(DeviceSetting::Talkback),
        _ => None,
    }
}

/// An app command runs against the selected device; all but waking the
/// screen and wireless adb need a selected app too. Wake-screen passes the
/// app's name or nothing; wireless adb passes nothing.
pub open spec fn command_done(a: App, b: App, c: AppCommand, e: Effect) -> bool {
    let needs_app = !(c == AppCommand::WakeScreen || c == AppCommand::WirelessAdb);
    match serial_of(a) {
        Some(s) => if needs_app && a.toolbar.package is None {
            b == a && e == Effect::Nothing
        } else {
            &&& flashed(a, b, command_flash_text(c), false)
            &&& e matches Effect::RunCommand { command, serial, package } && command == c && serial
                == s && package@ == if c == AppCommand::WirelessAdb {
                Seq::<char>::empty()
            } else {
                match a.toolbar.package {
                    Some(p) => p@,
                    None => Seq::<char>::empty(),
                }
            }
        },
        None => b == a && e == Effect::Nothing,
    }
}

/// A setting is switched at once in the application and reported; the
/// device is asked to follow when one is selected.
pub open spec fn toggle_done(a: App, b: App, st: DeviceSetting, e: Effect) -> bool {
    let on = !setting_on(a, st);
    let m = App { status_flash: a.status_flash, ..b };
    &&& setting_set(a, m, st, on)
    &&& flashed(m, b, setting_label_text(st) + if on {
        " on"@
    } else {
        " off"@
    }, false)
    &&& match serial_of(a) {
        Some(s) => e == Effect::SetSetting { setting: st, serial: s, enabled: on },
        None => e == Effect::Nothing,
    }
}

/// Work that needs the selected device and app, and changes nothing in
/// the application.
pub open spec fn device_work(a: App, b: App, e: Effect, work: spec_fn(String, String) -> Effect) -> bool {
    &&& b == a
    &&& match (serial_of(a), a.toolbar.package) {
        (Some(s), Some(p)) => e == work(s, p),
        _ => e == Effect::Nothing,
    }
}

/// What dispatching `action` does, when no captured session refuses it.
pub open spec fn action_done(a: App, b: App, action: Action, e: Effect) -> bool {
    match action {
        Action::Quit => b == a && e == Effect::Quit,
        Action::FetchDevices => b == a && e == Effect::FetchDevices,
        Action::FetchApps => b == a && e == match serial_of(a) {
            Some(s) => Effect::FetchPackages { serial: s },
            None => Effect::Nothing,
        },
        Action::ChangeDevice(d) => {
            let m = App {
                toolbar: ToolbarState { device: Some(d), device_connected: true, package: None, ..a.toolbar },
                commands: CommandsState { is_emulator: starts_with(d.serial@, "emulator-"@), ..a.commands },
                ..a
            };
            user_reset(m, b, Seq::empty()) && e == Effect::SelectAndBuild {
                device: d,
                last_package: a.toolbar.last_package,
            }
        },
        Action::ChangeApp(p) => {
            let m = App {
                toolbar: ToolbarState { package: Some(p), last_package: Some(p), ..a.toolbar },
                ..a
            };
            user_reset(m, b, p@) && e == Effect::BuildApp { package: p, device: a.toolbar.device }
        },
        Action::OpenApp | Action::OpenAppInfo | Action::KillApp | Action::ClearData
        | Action::UninstallApp | Action::WakeScreen | Action::WirelessAdb => command_done(
            a,
            b,
            command_of(action)->0,
            e,
        ),
        Action::ToggleLayoutBounds | Action::ToggleAirplaneMode | Action::ToggleWifi
        | Action::ToggleDarkMode | Action::ToggleShowTaps | Action::TogglePointerLocation
        | Action::ToggleGpuRendering | Action::ToggleTalkback => toggle_done(
            a,
            b,
            setting_of(action)->0,
            e,
        ),
        Action::Screenshot => match (serial_of(a), a.toolbar.package) {
            (Some(s), Some(_)) => flashed(a, b, "Taking screenshot..."@, false) && e
                == Effect::Screenshot { serial: s },
            _ => b == a && e == Effect::Nothing,
        },
        Action::MirrorDevice => match serial_of(a) {
            Some(s) => flashed(a, b, "Starting mirror..."@, false) && e == Effect::Mirror { serial: s },
            None => b == a && e == Effect::Nothing,
        },
        Action::TogglePermission(perm, granted) => device_work(
            a,
            b,
            e,
            |s: String, p: String| Effect::SetPermission { serial: s, package: p, permission: perm, granted },
        ),
        Action::RefreshDb => device_work(a, b, e, |s: String, p: String| Effect::RestartDbDetection { serial: s, package: p }),
        Action::RunQuery(db, sql) => device_work(
            a,
            b,
            e,
            |s: String, p: String| Effect::RunQuery { serial: s, package: p, db, sql },
        ),
        Action::PullDb(db) => device_work(a, b, e, |s: String, p: String| Effect::PullDb { serial: s, package: p, db }),
        Action::DbFetchTables(db) => device_work(
            a,
            b,
            e,
            |s: String, p: String| Effect::FetchTables { serial: s, package: p, db },
        ),
        Action::RefreshFiles => b == a && match (serial_of(a), a.toolbar.package) {
            (Some(s), Some(p)) => e matches Effect::ListDir { serial, package, path } && serial == s
                && package == p && path@ == "."@,
            _ => e == Effect::Nothing,
        },
        Action::ExpandDir(path) => device_work(a, b, e, |s: String, p: String| Effect::ListDir { serial: s, package: p, path }),
        Action::OpenFile(path) => device_work(a, b, e, |s: String, p: String| Effect::PullFile { serial: s, package: p, path }),
        Action::StartTrace => device_work(a, b, e, |s: String, p: String| Effect::StartTrace { serial: s, package: p }),
        Action::StopTrace => device_work(a, b, e, |s: String, p: String| Effect::StopTrace { serial: s, package: p }),
        Action::ResetLogcat => b == a && e == Effect::ClearLogcat,
        Action::CopyDbResult(t) => b == a && e == Effect::Copy(t),
        Action::OpenLogcat => b == a && e == Effect::OpenLogcat,
        Action::LaunchEmulator(n) => b == a && e == Effect::LaunchEmulator(n),
        Action::OpenInEditor(t) => b == a && e == Effect::OpenInEditor(t),
        Action::OpenTrace(p) => b == a && e == Effect::OpenTrace(p),
        Action::DeleteTraceFile(p) => b == a && e == Effect::DeleteTraceFile(p),
        Action::CycleTheme(f) => b == a && e == Effect::CycleTheme(f),
        Action::CopyTempDir => b == a && e == Effect::CopyTempDir,
        Action::OpenTempDir => b == a && e == Effect::OpenTempDir,
        Action::OpenUrl(u) => b == a && e == Effect::OpenUrl(u),
        Action::CopyPath(t) => b == a && e == Effect::CopyPath(t),
        Action::OpenSession(id) => b == a && e == Effect::OpenSession(id),
        Action::CloseSession => b == a && e == Effect::CloseSession,
        Action::DeleteSession(id) => b == a && e == Effect::DeleteSession(id),
        Action::ZoomIn => e == Effect::Nothing && if a.saved_visibility is None && a.focused is Some {
            zoom_toggled(a, b)
        } else {
            b == a
        },
        Action::Noop | Action::Unfocus => b == a && e == Effect::Nothing,
    }
}

/// What dispatching `action` does: a device action while a captured
/// session is on screen is refused with a message; anything else as
/// `action_done` says.
pub open spec fn dispatch_done(a: App, b: App, action: Action, viewing: bool, e: Effect) -> bool {
    if viewing && blocked_while_viewing(action) {
        flashed(a, b, VIEWING_REFUSAL@, true) && e == Effect::Nothing
    } else {
        action_done(a, b, action, e)
    }
}

fn selected_serial(app: &App) -> (r: Option<String>)
    ensures
        r == serial_of(*app),
{
    match &app.toolbar.device {
        Some(d) => Some(d.serial.clone()),
        None => None,
    }
}

fn selected_package(app: &App) -> (r: Option<String>)
    ensures
        r == app.toolbar.package,
{
    match &app.toolbar.package {
        Some(p) => Some(p.clone()),
        None => None,
    }
}

/// The selected device's serial and app, when both are there.
fn selected(app: &App) -> (r: Option<(String, String)>)
    ensures
        r == match (serial_of(*app), app.toolbar.package) {
            (Some(s), Some(p)) => Some((s, p)),
            _ => None,
        },
{
    match (selected_serial(app), selected_package(app)) {
        (Some(s), Some(p)) => Some((s, p)),
        _ => None,
    }
}

fn run_command(app: &mut App, c: AppCommand) -> (e: Effect)
    ensures
        command_done(*old(app), *final(app), c, e),
{
    let needs_app = !(c == AppCommand::WakeScreen || c == AppCommand::WirelessAdb);
    let serial = match selected_serial(app) {
        Some(s) => s,
        None => return Effect::Nothing,
    };
    let package = selected_package(app);
    if needs_app && package.is_none() {
        return Effect::Nothing;
    }
    let pkg: String = if c == AppCommand::WirelessAdb {
        String::new()
    } else {
        match package {
            Some(p) => p,
            None => String::new(),
        }
    };
    app.set_status_flash(command_flash(c).to_string(), false);
    Effect::RunCommand { command: c, serial, package: pkg }
}

fn toggle(app: &mut App, st: DeviceSetting) -> (e: Effect)
    ensures
        toggle_done(*old(app), *final(app), st, e),
{
    let on = !app.setting(st);
    app.set_setting(st, on);
    let ghost m = *app;
    let mut msg = crate::text::chars_of(setting_label(st));
    let tail = if on {
        crate::text::chars_of(" on")
    } else {
        crate::text::chars_of(" off")
    };
    crate::text::extend_chars(&mut msg, tail.as_slice());
    let ghost want = setting_label_text(st) + if on {
        " on"@
    } else {
        " off"@
    };
    assert(msg@ == want);
    app.set_status_flash(string_from_chars(msg.as_slice()), false);
    assert(flashed(m, *app, want, false));
    let e = match selected_serial(app) {
        Some(s) => Effect::SetSetting { setting: st, serial: s, enabled: on },
        None => Effect::Nothing,
    };
    assert(serial_of(*old(app)) == serial_of(*app));
    assert(setting_set(*old(app), m, st, on));
    assert(on == !setting_on(*old(app), st));
    assert(match serial_of(*old(app)) {
            Some(s) => e == Effect::SetSetting { setting: st, serial: s, enabled: on },
            None => e == Effect::Nothing,
        });
    e
}

fn change_device(app: &mut App, d: Device) -> (e: Effect)
    ensures
        action_done(*old(app), *final(app), Action::ChangeDevice(d), e),
{
    let last = match &app.toolbar.last_package {
        Some(p) => Some(p.clone()),
        None => None,
    };
    let ev = {
        let cs = crate::text::chars_of(d.serial.as_str());
        let pre = crate::text::chars_of("emulator-");
        has_prefix(cs.as_slice(), pre.as_slice())
    };
    app.commands.is_emulator = ev;
    app.toolbar.device = Some(d.duplicate());
    app.toolbar.device_connected = true;
    app.toolbar.package = None;
    let ghost m = *app;
    proof {
        reveal_strlit("");
        assert(""@ =~= Seq::<char>::empty());
        assert(m == App {
            toolbar: ToolbarState { device: Some(d), device_connected: true, package: None, ..old(app).toolbar },
            commands: CommandsState { is_emulator: starts_with(d.serial@, "emulator-"@), ..old(app).commands },
            ..*old(app)
        });
    }
    app.reset_for_new_app("");
    Effect::SelectAndBuild { device: d, last_package: last }
}

fn change_app(app: &mut App, p: String) -> (e: Effect)
    ensures
        action_done(*old(app), *final(app), Action::ChangeApp(p), e),
{
    let device = match &app.toolbar.device {
        Some(d) => Some(d.duplicate()),
        None => None,
    };
    app.toolbar.package = Some(p.clone());
    app.toolbar.last_package = Some(p.clone());
    app.reset_for_new_app(p.as_str());
    Effect::BuildApp { package: p, device }
}

/// Carries out `action` in the application and says what is left for the
/// front end.
pub fn dispatch(app: &mut App, action: Action, viewing: bool) -> (e: Effect)
    ensures
        dispatch_done(*old(app), *final(app), action, viewing, e),
{
    if viewing && action_is_blocked_while_viewing(&action) {
        app.set_status_flash(VIEWING_REFUSAL.to_string(), true);
        return Effect::Nothing;
    }
    apply_action(app, action)
}

fn apply_action(app: &mut App, action: Action) -> (e: Effect)
    ensures
        action_done(*old(app), *final(app), action, e),
{
    let ghost act = action;
    match action {
        Action::Quit => Effect::Quit,
        Action::FetchDevices => Effect::FetchDevices,
        Action::FetchApps => match selected_serial(app) {
            Some(s) => Effect::FetchPackages { serial: s },
            None => Effect::Nothing,
        },
        Action::ChangeDevice(d) => change_device(app, d),
        Action::ChangeApp(p) => change_app(app, p),
        Action::OpenApp => run_command(app, AppCommand::Launch),
        Action::OpenAppInfo => run_command(app, AppCommand::OpenInfo),
        Action::KillApp => run_command(app, AppCommand::Kill),
        Action::ClearData => run_command(app, AppCommand::ClearData),
        Action::UninstallApp => run_command(app, AppCommand::Uninstall),
        Action::WakeScreen => run_command(app, AppCommand::WakeScreen),
        Action::WirelessAdb => run_command(app, AppCommand::WirelessAdb),
        Action::ToggleLayoutBounds => toggle(app, DeviceSetting::LayoutBounds),
        Action::ToggleAirplaneMode => toggle(app, DeviceSetting::AirplaneMode),
        Action::ToggleWifi => toggle(app, DeviceSetting::Wifi),
        Action::ToggleDarkMode => toggle(app, DeviceSetting::DarkMode),
        Action::ToggleShowTaps => toggle(app, DeviceSetting::ShowTaps),
        Action::TogglePointerLocation => toggle(app, DeviceSetting::PointerLocation),
        Action::ToggleGpuRendering => toggle(app, DeviceSetting::GpuRendering),
        Action::ToggleTalkback => toggle(app, DeviceSetting::Talkback),
        Action::Screenshot => match selected(app) {
            Some((s, _)) => {
                app.set_status_flash("Taking screenshot...".to_string(), false);
                Effect::Screenshot { serial: s }
            },
            None => Effect::Nothing,
        },
        Action::MirrorDevice => match selected_serial(app) {
            Some(s) => {
                app.set_status_flash("Starting mirror...".to_string(), false);
                Effect::Mirror { serial: s }
            },
            None => Effect::Nothing,
        },
        Action::TogglePermission(perm, granted) => match selected(app) {
            Some((s, p)) => Effect::SetPermission { serial: s, package: p, permission: perm, granted },
            None => Effect::Nothing,
        },
        Action::RefreshDb => match selected(app) {
            Some((s, p)) => Effect::RestartDbDetection { serial: s, package: p },
            None => Effect::Nothing,
        },
        Action::RunQuery(db, sql) => match selected(app) {
            Some((s, p)) => Effect::RunQuery { serial: s, package: p, db, sql },
            None => Effect::Nothing,
        },
        Action::PullDb(db) => match selected(app) {
            Some((s, p)) => Effect::PullDb { serial: s, package: p, db },
            None => Effect::Nothing,
        },
        Action::DbFetchTables(db) => match selected(app) {
            Some((s, p)) => Effect::FetchTables { serial: s, package: p, db },
            None => Effect::Nothing,
        },
        Action::RefreshFiles => match selected(app) {
            Some((s, p)) => {
                proof {
                    reveal_strlit(".");
                }
                Effect::ListDir { serial: s, package: p, path: ".".to_string() }
            },
            None => Effect::Nothing,
        },
        Action::ExpandDir(path) => match selected(app) {
            Some((s, p)) => Effect::ListDir { serial: s, package: p, path },
            None => Effect::Nothing,
        },
        Action::OpenFile(path) => match selected(app) {
            Some((s, p)) => Effect::PullFile { serial: s, package: p, path },
            None => Effect::Nothing,
        },
        Action::StartTrace => match selected(app) {
            Some((s, p)) => Effect::StartTrace { serial: s, package: p },
            None => Effect::Nothing,
        },
        Action::StopTrace => match selected(app) {
            Some((s, p)) => Effect::StopTrace { serial: s, package: p },
            None => Effect::Nothing,
        },
        Action::ResetLogcat => Effect::ClearLogcat,
        Action::CopyDbResult(t) => Effect::Copy(t),
        Action::OpenLogcat => Effect::OpenLogcat,
        Action::LaunchEmulator(n) => Effect::LaunchEmulator(n),
        Action::OpenInEditor(t) => Effect::OpenInEditor(t),
        Action::OpenTrace(p) => Effect::OpenTrace(p),
        Action::DeleteTraceFile(p) => Effect::DeleteTraceFile(p),
        Action::CycleTheme(f) => Effect::CycleTheme(f),
        Action::CopyTempDir => Effect::CopyTempDir,
        Action::OpenTempDir => Effect::OpenTempDir,
        Action::OpenUrl(u) => Effect::OpenUrl(u),
        Action::CopyPath(t) => Effect::CopyPath(t),
        Action::OpenSession(id) => Effect::OpenSession(id),
        Action::CloseSession => Effect::CloseSession,
        Action::DeleteSession(id) => Effect::DeleteSession(id),
        Action::ZoomIn => {
            if app.saved_visibility.is_none() && app.focused.is_some() {
                app.toggle_zoom();
            }
            Effect::Nothing
        },
        Action::Noop | Action::Unfocus => Effect::Nothing,
    }
}

/// While a captured session is on screen, an action that would touch the
/// device reaches nothing outside the application: only a status message
/// (an error) explains why.
pub proof fn law_viewing_blocks_device_work(a: App, b: App, action: Action, e: Effect)
    requires
        dispatch_done(a, b, action, true, e),
        blocked_while_viewing(action),
    ensures
        e == Effect::Nothing,
        b == (App { status_flash: b.status_flash, ..a }),
        b.status_flash matches Some(f) && f.2,
{
}

/// A refused setting is rolled back: after the optimistic switch, setting
/// it back to the other value gives the setting it had before.
pub proof fn law_toggle_rollback(a: App, b: App, c: App, st: DeviceSetting, e: Effect, enabled: bool)
    requires
        toggle_done(a, b, st, e),
        e matches Effect::SetSetting { enabled: on, .. } && on == enabled,
        setting_set(b, c, st, !enabled),
    ensures
        forall|o: DeviceSetting| setting_on(c, o) == setting_on(a, o),
{
    assert forall|o: DeviceSetting| setting_on(c, o) == setting_on(a, o) by {
        let m = App { status_flash: a.status_flash, ..b };
        assert(setting_on(m, o) == setting_on(b, o));
    }
}
} // verus!
