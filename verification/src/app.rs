//! What a key press or a worker result asks the application to do, and
//! which popup is showing.

use vstd::prelude::*;
use crate::adb::Device;
use crate::clock::{millis_since, now};
use crate::commands::{CommandsState, commands_key_done, shortcut_match, command_list, triggered_key};
use crate::database::{DatabaseState, db_key, db_key_in_bounds, fresh_view, opt_text, step_done};
use crate::files::{FilesState, files_key_done};
use crate::issues::{IssuesState, issues_key_done};
use crate::keys::{KeyCode, KeyEvent, KeyModifiers};
use crate::logcat::{LogcatState, PAGE_LINES, logcat_key_done};
use crate::monitor::{MonitorState, monitor_key_done};
use crate::network::{NetworkState, network_key_done};
use crate::panel;
use crate::permissions::{PermissionsState, permissions_key_done};
use crate::session::SessionId;
use crate::text::{ascii_lower, string_clear};
use crate::toolbar::{DropdownKind, ToolbarAction, ToolbarState, toolbar_key_done};
use crate::trace::{TraceState, trace_key_done};

verus! {

/// Which popup the user is currently looking at; exactly one is active.
#[derive(Debug, Clone, PartialEq)]
pub enum Navigation {
    /// Normal panel-driven UI. No popup overlay.
    Panels,
    /// Toolbar dropdown active; the toolbar holds its data.
    Dropdown(DropdownKind),
    /// Settings popup active.
    Settings { cursor: usize },
    /// Modal alert with a body string.
    Dialog(String),
}

#[derive(Debug)]
pub enum Action {
    Quit,
    ChangeDevice(Device),
    ChangeApp(String),
    FetchDevices,
    FetchApps,
    Noop,
    Unfocus,
    /// Enlarge the focused panel to fill the screen.
    ZoomIn,
    OpenApp,
    OpenAppInfo,
    KillApp,
    ClearData,
    ResetLogcat,
    RefreshDb,
    CopyDbResult(String),
    RunQuery(String, String),
    PullDb(String),
    DbFetchTables(String),
    UninstallApp,
    WakeScreen,
    ToggleLayoutBounds,
    ToggleAirplaneMode,
    TogglePermission(String, bool),
    OpenLogcat,
    RefreshFiles,
    ExpandDir(String),
    OpenFile(String),
    StartTrace,
    StopTrace,
    Screenshot,
    ToggleWifi,
    ToggleDarkMode,
    WirelessAdb,
    LaunchEmulator(String),
    MirrorDevice,
    ToggleShowTaps,
    TogglePointerLocation,
    ToggleGpuRendering,
    ToggleTalkback,
    OpenInEditor(String),
    /// Open this pulled trace in Perfetto.
    OpenTrace(String),
    /// Delete this pulled trace file.
    DeleteTraceFile(String),
    /// Switch to the next colour theme (`true`) or the previous one.
    CycleTheme(bool),
    /// Copy the path of the directory holding pulled files.
    CopyTempDir,
    /// Open the directory holding pulled files.
    OpenTempDir,
    /// Open a web page.
    OpenUrl(String),
    /// Copy a path to the clipboard and say so.
    CopyPath(String),
    /// Show this captured session instead of the live app.
    OpenSession(SessionId),
    /// Go back from a captured session to the live app.
    CloseSession,
    /// Delete this captured session.
    DeleteSession(SessionId),
}


// ---------------------------------------------------------------------------
// The application state
// ---------------------------------------------------------------------------

pub struct App {
    /// Visibility of panels 1 to 8 (the commands panel keeps its own).
    pub panel_visible: [bool; 8],
    pub focused: Option<u8>,
    pub commands: CommandsState,
    pub logcat_state: LogcatState,
    pub database_state: DatabaseState,
    pub permissions_state: PermissionsState,
    pub files_state: FilesState,
    pub monitor_state: MonitorState,
    pub toolbar: ToolbarState,
    pub layout_bounds: bool,
    pub airplane_mode: bool,
    pub wifi_enabled: bool,
    pub dark_mode: bool,
    pub show_taps: bool,
    pub pointer_location: bool,
    pub gpu_rendering: bool,
    pub talkback: bool,
    pub nav: Navigation,
    pub trace_state: TraceState,
    pub issues_state: IssuesState,
    pub network_state: NetworkState,
    pub measure_sdk_detected: bool,
    /// The layout before zooming in: panels 1 to 8 and the commands panel.
    pub saved_visibility: Option<([bool; 8], bool)>,
    /// A short message for the status bar, when it was set, and whether it
    /// reports an error.
    pub status_flash: Option<(String, std::time::Instant, bool)>,
}

/// `b` is `a` with the app picker open, on the cached list when there is
/// one (else waiting for it).
pub open spec fn apps_picker_opened(a: App, b: App) -> bool {
    &&& b == App { nav: Navigation::Dropdown(DropdownKind::App), toolbar: b.toolbar, ..a }
    &&& b.toolbar == ToolbarState {
        open: Some(DropdownKind::App),
        cursor: 0,
        filter: b.toolbar.filter,
        loading: a.toolbar.packages@.len() == 0,
        ..a.toolbar
    }
    &&& b.toolbar.filter@.len() == 0
}

/// The scrcpy project's page, offered in the settings popup.
pub const SCRCPY_PAGE: &'static str = "https://github.com/Genymobile/scrcpy/tree/master?tab=readme-ov-file";
/// This project's page.
pub const PROJECT_PAGE: &'static str = "https://github.com/measure-sh/holo";

/// The panel that focus key `c` selects, by number.
pub open spec fn focus_panel(c: char) -> Option<u8> {
    if c == 'c' {
        Some(panel::COMMANDS)
    } else if c == 'l' {
        Some(panel::LOGCAT)
    } else if c == 'm' {
        Some(panel::MONITOR)
    } else if c == 'n' {
        Some(panel::NETWORK)
    } else if c == 't' {
        Some(panel::TRACE)
    } else if c == 'i' {
        Some(panel::ISSUES)
    } else if c == 'p' {
        Some(panel::PERMISSIONS)
    } else if c == 'f' {
        Some(panel::FILES)
    } else if c == 'd' {
        Some(panel::DATABASE)
    } else {
        None
    }
}

/// Whether panel `n` is shown.
pub open spec fn shown(a: App, n: int) -> bool {
    if n == panel::COMMANDS {
        a.commands.visible
    } else if 1 <= n <= 8 {
        a.panel_visible@[n - 1]
    } else {
        false
    }
}

/// How many of `s` are set.
pub open spec fn count_set(s: Seq<bool>) -> nat
    decreases s.len(),
{
    if s.len() == 0 {
        0
    } else {
        count_set(s.drop_last()) + if s.last() {
            1nat
        } else {
            0nat
        }
    }
}

/// `a` with the layout from before zooming in put back.
pub open spec fn restored(a: App) -> App {
    match a.saved_visibility {
        Some(saved) => App {
            panel_visible: saved.0,
            commands: CommandsState { visible: saved.1, ..a.commands },
            saved_visibility: None,
            ..a
        },
        None => a,
    }
}

/// `a` with the layout put back and no panel focused.
pub open spec fn unfocused(a: App) -> App {
    App { focused: None, ..restored(a) }
}

/// `b` is `a` zoomed in on its focused panel, or zoomed out when it was
/// zoomed in: only that panel is shown, and the layout is kept to put back.
pub open spec fn zoom_toggled(a: App, b: App) -> bool {
    if a.saved_visibility is Some {
        b == restored(a)
    } else {
        match a.focused {
            None => b == a,
            Some(f) => {
                &&& b == App {
                    panel_visible: b.panel_visible,
                    commands: CommandsState { visible: f == panel::COMMANDS, ..a.commands },
                    saved_visibility: Some((a.panel_visible, a.commands.visible)),
                    ..a
                }
                &&& forall|i: int| 0 <= i < 8 ==> b.panel_visible@[i] == (i + 1 == f)
            },
        }
    }
}

/// `b` is `a` with panel `n` (1 to 8) shown or hidden; the last shown
/// panel stays, and a hidden panel loses the focus.
pub open spec fn visibility_toggled(a: App, b: App, n: int) -> bool {
    if !(1 <= n <= 8) {
        b == a
    } else if a.panel_visible@[n - 1] && count_set(a.panel_visible@) + (if a.commands.visible {
        1int
    } else {
        0int
    }) == 1 {
        b == a
    } else {
        let now_shown = !a.panel_visible@[n - 1];
        &&& b == App {
            panel_visible: b.panel_visible,
            focused: if !now_shown && a.focused == Some(n as u8) {
                None
            } else {
                a.focused
            },
            ..a
        }
        &&& b.panel_visible@ == a.panel_visible@.update(n - 1, now_shown)
    }
}

/// `b` is `a` with the focus moved to panel `n` or away from it; a hidden
/// panel cannot take the focus. Moving the focus stops any text editing
/// and clears the commands filter.
pub open spec fn focus_toggled(a: App, b: App, n: u8) -> bool {
    if a.focused != Some(n) && !shown(a, n as int) {
        b == a
    } else {
        &&& b == App {
            focused: if a.focused == Some(n) {
                None
            } else {
                Some(n)
            },
            logcat_state: LogcatState { editing: None, ..a.logcat_state },
            database_state: b.database_state,
            commands: CommandsState { filter: b.commands.filter, cursor: 0, ..a.commands },
            ..a
        }
        &&& b.database_state@ == (crate::database::DbView { editing_query: false, ..a.database_state@ })
        &&& b.commands.filter@.len() == 0
    }
}

/// Panel `p` took the key: `b` is `a` with only that panel changed, as its
/// own key handling changes it, and `res` is its reply.
pub open spec fn panel_step(p: u8, a: App, b: App, key: KeyEvent, res: Option<Action>) -> bool {
    if p == panel::COMMANDS {
        commands_key_done(a.commands, b.commands, key, res) && b == App { commands: b.commands, ..a }
    } else if p == panel::LOGCAT {
        logcat_key_done(a.logcat_state, b.logcat_state, key, res) && b == App {
            logcat_state: b.logcat_state,
            ..a
        }
    } else if p == panel::MONITOR {
        monitor_key_done(a.monitor_state, b.monitor_state, key, res) && b == App {
            monitor_state: b.monitor_state,
            ..a
        }
    } else if p == panel::NETWORK {
        network_key_done(a.network_state, b.network_state, key, res) && b == App {
            network_state: b.network_state,
            ..a
        }
    } else if p == panel::TRACE {
        trace_key_done(a.trace_state, b.trace_state, key, res) && b == App {
            trace_state: b.trace_state,
            ..a
        }
    } else if p == panel::ISSUES {
        issues_key_done(a.issues_state, b.issues_state, key, res) && b == App {
            issues_state: b.issues_state,
            ..a
        }
    } else if p == panel::PERMISSIONS {
        permissions_key_done(a.permissions_state, b.permissions_state, key, res) && b == App {
            permissions_state: b.permissions_state,
            ..a
        }
    } else if p == panel::FILES {
        files_key_done(a.files_state, b.files_state, key, res) && b == App {
            files_state: b.files_state,
            ..a
        }
    } else {
        step_done(
            a.database_state@,
            b.database_state@,
            db_key(a.database_state@, key),
            res,
        ) && b == App { database_state: b.database_state, ..a }
    }
}

/// What the application makes of a panel's reply: Unfocus gives the focus
/// up (putting back a zoomed layout); any other reply is passed on.
pub open spec fn reply_taken(a: App, b: App, res: Option<Action>, r: Action) -> bool {
    match res {
        Some(Action::Unfocus) => b == unfocused(a) && r == Action::Noop,
        Some(x) => b == a && r == x,
        None => b == a && r == Action::Noop,
    }
}

/// The focused panel `p` took the key. A key it leaves unanswered still
/// ends there; its own focus key gives the focus up.
pub open spec fn focused_step(p: u8, a: App, b: App, key: KeyEvent, r: Action) -> bool {
    exists|m: App, res: Option<Action>|
        #[trigger] panel_step(p, a, m, key, res) && match res {
            Some(_) => reply_taken(m, b, res, r),
            None => r == Action::Noop && if key.code is Char && focus_panel(key.code->Char_0)
                == Some(p) {
                b == unfocused(m)
            } else {
                b == m
            },
        }
}

/// The commands shortcut that Ctrl with `c` runs, if any.
pub open spec fn shortcut_of(a: App, c: char) -> Option<int> {
    shortcut_match(command_list(), ascii_lower(c), a.commands.is_emulator, 0)
}

/// What a key does in the settings popup with the cursor on row `cursor`:
/// Up and Down move; on the theme row Left and Right change the theme; on
/// the folder row `c` copies its path; Enter opens the row's folder or
/// page; anything else closes the popup.
pub open spec fn settings_key_done(a: App, b: App, code: KeyCode, cursor: usize, r: Action) -> bool {
    let up = code == KeyCode::Up || code == KeyCode::Char('k');
    let down = code == KeyCode::Down || code == KeyCode::Char('j');
    let right = (code == KeyCode::Right || code == KeyCode::Char('l')) && cursor == 0;
    let left = (code == KeyCode::Left || code == KeyCode::Char('h')) && cursor == 0;
    let copy = code == KeyCode::Char('c') && cursor == 1;
    &&& b == App { nav: b.nav, status_flash: b.status_flash, ..a }
    &&& b.nav == if up {
        Navigation::Settings { cursor: if cursor > 0 { (cursor - 1) as usize } else { 0 } }
    } else if down {
        Navigation::Settings { cursor: if cursor + 1 < 3 { (cursor + 1) as usize } else { 3 } }
    } else if right || left {
        a.nav
    } else {
        Navigation::Panels
    }
    &&& if copy && !up && !down {
        b.status_flash matches Some(f) && f.0@ == "Path copied!"@ && !f.2
    } else {
        b.status_flash == a.status_flash
    }
    &&& if up || down {
        r == Action::Noop
    } else if right {
        r == Action::CycleTheme(true)
    } else if left {
        r == Action::CycleTheme(false)
    } else if copy {
        r == Action::CopyTempDir
    } else if code == KeyCode::Enter {
        if cursor == 1 {
            r == Action::OpenTempDir
        } else if cursor == 2 {
            r matches Action::OpenUrl(u) && u@ == SCRCPY_PAGE@
        } else if cursor == 3 {
            r matches Action::OpenUrl(u) && u@ == PROJECT_PAGE@
        } else {
            r == Action::Noop
        }
    } else {
        r == Action::Noop
    }
}

/// A logcat filter being typed takes the key.
#[verifier::opaque]
pub open spec fn typing_done(a: App, b: App, key: KeyEvent, r: Action) -> bool {
    exists|res: Option<Action>|
        #[trigger] logcat_key_done(a.logcat_state, b.logcat_state, key, res) && b == App {
            logcat_state: b.logcat_state,
            ..a
        } && r == match res {
            Some(x) => x,
            None => Action::Noop,
        }
}

/// The database prompt or pull confirmation takes the key.
#[verifier::opaque]
pub open spec fn db_modal_done(a: App, b: App, key: KeyEvent, r: Action) -> bool {
    exists|m: App, res: Option<Action>|
        #[trigger] panel_step(panel::DATABASE, a, m, key, res) && reply_taken(m, b, res, r)
}

/// Ctrl with `q`, space, `d`, `a` or `z`: quit, the settings popup, the
/// device or app picker, zoom.
pub open spec fn is_global_key(code: KeyCode) -> bool {
    code == KeyCode::Char('q') || code == KeyCode::Char(' ') || code == KeyCode::Char('d') || code
        == KeyCode::Char('a') || code == KeyCode::Char('z')
}

#[verifier::opaque]
pub open spec fn global_done(a: App, b: App, code: KeyCode, r: Action) -> bool {
    if code == KeyCode::Char('q') {
        b == a && r == Action::Quit
    } else if code == KeyCode::Char(' ') {
        b == App { nav: Navigation::Settings { cursor: 0 }, ..a } && r == Action::Noop
    } else if code == KeyCode::Char('d') || code == KeyCode::Char('a') {
        let kind = if code == KeyCode::Char('d') {
            DropdownKind::Device
        } else {
            DropdownKind::App
        };
        &&& b == App { nav: Navigation::Dropdown(kind), toolbar: b.toolbar, ..a }
        &&& b.toolbar == ToolbarState {
            open: Some(kind),
            cursor: 0,
            filter: b.toolbar.filter,
            loading: if kind == DropdownKind::Device {
                a.toolbar.devices@.len() == 0
            } else {
                a.toolbar.packages@.len() == 0
            },
            ..a.toolbar
        }
        &&& b.toolbar.filter@.len() == 0
        &&& r == if kind == DropdownKind::Device {
            Action::FetchDevices
        } else {
            Action::FetchApps
        }
    } else {
        &&& if a.focused is Some {
            zoom_toggled(a, b)
        } else {
            b == a
        }
        &&& r == Action::Noop
    }
}

/// An open popup takes the key: a dialog closes, the settings popup and
/// the pickers handle it.
#[verifier::opaque]
pub open spec fn popup_done(a: App, b: App, code: KeyCode, r: Action) -> bool {
    match a.nav {
        Navigation::Dialog(_) => b == App { nav: Navigation::Panels, ..a } && r == Action::Noop,
        Navigation::Settings { cursor } => settings_key_done(a, b, code, cursor, r),
        _ => exists|tb: ToolbarState, t: ToolbarAction|
            #[trigger] toolbar_key_done(a.toolbar, tb, code, t) && match t {
                ToolbarAction::Nothing => b == App { toolbar: tb, ..a } && r == Action::Noop,
                ToolbarAction::Close => b == App { toolbar: tb, nav: Navigation::Panels, ..a }
                    && r == Action::Noop,
                ToolbarAction::SelectDevice(d) => b == App {
                    toolbar: tb,
                    nav: Navigation::Panels,
                    ..a
                } && r == Action::ChangeDevice(d),
                ToolbarAction::SelectApp(p) => b == App {
                    toolbar: tb,
                    nav: Navigation::Panels,
                    ..a
                } && r == Action::ChangeApp(p),
                ToolbarAction::LaunchEmulator(n) => b == App {
                    toolbar: tb,
                    nav: Navigation::Panels,
                    ..a
                } && r == Action::LaunchEmulator(n),
            },
    }
}

/// Ctrl with `c` runs the commands panel's command with that shortcut.
#[verifier::opaque]
pub open spec fn shortcut_done(a: App, b: App, c: char, r: Action) -> bool {
    let i = shortcut_of(a, c)->0;
    &&& b == App { commands: b.commands, ..a }
    &&& b.commands == CommandsState { triggered: b.commands.triggered, ..a.commands }
    &&& triggered_key(b.commands.triggered) == Some(ascii_lower(c))
    &&& r == command_list()[i].2
}

/// The layout keys: `0` shows or hides the commands panel, `1` to `8` the
/// other panels (either way leaving any zoom), a panel's letter moves the
/// focus; other keys do nothing.
#[verifier::opaque]
pub open spec fn layout_done(a: App, b: App, code: KeyCode) -> bool {
    if code == KeyCode::Char('0') {
        b == App {
            saved_visibility: None,
            commands: CommandsState { visible: !a.commands.visible, ..a.commands },
            ..a
        }
    } else if code is Char && '1' <= code->Char_0 <= '8' {
        visibility_toggled(
            App { saved_visibility: None, ..a },
            b,
            (code->Char_0 as int) - ('0' as int),
        )
    } else if code is Char && focus_panel(code->Char_0) is Some {
        focus_toggled(a, b, focus_panel(code->Char_0)->0)
    } else {
        b == a
    }
}

/// What a key does to the application, in order of precedence: a logcat
/// filter being typed, or the database prompt or pull confirmation, takes
/// every key; then the global Ctrl shortcuts (quit, settings, the device
/// and app pickers, zoom); then an open popup; then a commands shortcut;
/// then the focused panel; then the layout keys.
pub open spec fn app_key_done(a: App, b: App, key: KeyEvent, r: Action) -> bool {
    let ctrl = key.modifiers.has_control();
    let code = key.code;
    if a.logcat_state.editing is Some {
        typing_done(a, b, key, r)
    } else if a.database_state.editing_query || a.database_state.confirming_pull is Some {
        db_modal_done(a, b, key, r)
    } else if ctrl && is_global_key(code) {
        global_done(a, b, code, r)
    } else if !(a.nav is Panels) {
        popup_done(a, b, code, r)
    } else if ctrl && code is Char && shortcut_of(a, code->Char_0) is Some {
        shortcut_done(a, b, code->Char_0, r)
    } else if a.focused is Some {
        focused_step(a.focused->0, a, b, key, r)
    } else {
        layout_done(a, b, code) && r == Action::Noop
    }
}

/// The states in which the keys cannot run a counter past `usize::MAX` or
/// a history index past its list, for the component that a key reaches.
pub open spec fn app_key_in_bounds(a: App, key: KeyEvent) -> bool {
    &&& (a.logcat_state.editing is Some || a.focused == Some(panel::LOGCAT)) ==> a.logcat_state.scroll
        + PAGE_LINES <= usize::MAX
    &&& a.focused == Some(panel::COMMANDS) && !(key.modifiers.has_control() && key.code is Char)
        && key.code == KeyCode::Down ==> a.commands.cursor < usize::MAX
    &&& a.nav is Dropdown ==> a.toolbar.filter@.len() < usize::MAX
    &&& (a.database_state.editing_query || a.database_state.confirming_pull is Some || a.focused
        == Some(panel::DATABASE)) ==> db_key_in_bounds(a.database_state@, key.code)
    &&& a.focused == Some(panel::NETWORK) ==> a.network_state.key_in_bounds(key.code)
}

/// The focused panel, if any, is one of the nine.
pub open spec fn app_wf(a: App) -> bool {
    a.focused matches Some(f) ==> f <= 8
}

/// `b` is `a` with every panel started afresh for `package`, the commands
/// filter and cursor cleared; popup, focus, layout and settings kept.
pub open spec fn panel_data_reset(a: App, b: App, package: Seq<char>) -> bool {
    &&& b == App {
        logcat_state: b.logcat_state,
        database_state: b.database_state,
        files_state: b.files_state,
        permissions_state: b.permissions_state,
        monitor_state: b.monitor_state,
        trace_state: b.trace_state,
        issues_state: b.issues_state,
        network_state: b.network_state,
        measure_sdk_detected: false,
        commands: b.commands,
        ..a
    }
    &&& b.commands == CommandsState { filter: b.commands.filter, cursor: 0, triggered: None, ..a.commands }
    &&& b.commands.filter@.len() == 0
    &&& b.logcat_state.filter.tag@.len() == 0
    &&& b.logcat_state.filter.search@.len() == 0
    &&& b.logcat_state.filter.level is None
    &&& b.logcat_state.scroll == 0
    &&& !b.logcat_state.wrap
    &&& b.logcat_state.editing is None
    &&& fresh_view(b.database_state@)
    &&& b.files_state.package@ == package
    &&& b.files_state.root_children is None
    &&& b.files_state.selected_index == 0
    &&& b.permissions_state.permissions@.len() == 0
    &&& b.monitor_state.history@.len() == 0
    &&& !b.trace_state.recording
    &&& b.trace_state.pulled_traces@.len() == 0
    &&& b.issues_state.issues@.len() == 0
    &&& b.network_state.entries@.len() == 0
}

/// `b` is `a` with the layout put back, the panels started afresh for
/// `package`, no focus and no popup.
pub open spec fn user_reset(a: App, b: App, package: Seq<char>) -> bool {
    &&& panel_data_reset(restored(a), App { focused: restored(a).focused, nav: restored(a).nav, ..b }, package)
    &&& b.focused is None
    &&& b.nav == Navigation::Panels
}

impl App {
    pub fn new(device: Option<Device>, package: Option<&str>) -> (r: Self)
        ensures
            app_wf(r),
            r.nav == Navigation::Panels,
            r.focused is None,
            r.saved_visibility is None,
            r.status_flash is None,
            forall|i: int| 0 <= i < 8 ==> r.panel_visible@[i],
            r.commands.visible,
            r.toolbar.device == device,
            opt_text(r.toolbar.package) == match package {
                Some(p) => Some(p@),
                None => None::<Seq<char>>,
            },
            r.files_state.package@ == match package {
                Some(p) => p@,
                None => Seq::<char>::empty(),
            },
            fresh_view(r.database_state@),
            !r.layout_bounds && !r.airplane_mode && !r.wifi_enabled && !r.dark_mode,
            !r.show_taps && !r.pointer_location && !r.gpu_rendering && !r.talkback,
            !r.measure_sdk_detected,
    {
        let pkg: &str = match package {
            Some(p) => p,
            None => {
                proof {
                    reveal_strlit("");
                }
                ""
            },
        };
        let mut toolbar = ToolbarState::new(device);
        toolbar.package = match package {
            Some(p) => Some(p.to_string()),
            None => None,
        };
        App {
            panel_visible: [true; 8],
            focused: None,
            commands: CommandsState::new(),
            logcat_state: LogcatState::new(),
            database_state: DatabaseState::new(),
            permissions_state: PermissionsState::new(),
            files_state: FilesState::new(pkg),
            monitor_state: MonitorState::new(),
            toolbar,
            layout_bounds: false,
            airplane_mode: false,
            wifi_enabled: false,
            dark_mode: false,
            show_taps: false,
            pointer_location: false,
            gpu_rendering: false,
            talkback: false,
            nav: Navigation::Panels,
            trace_state: TraceState::new(),
            issues_state: IssuesState::new(),
            network_state: NetworkState::new(),
            measure_sdk_detected: false,
            saved_visibility: None,
            status_flash: None,
        }
    }

    pub fn nav(&self) -> (r: &Navigation)
        ensures
            *r == self.nav,
    {
        &self.nav
    }

    pub fn open_settings(&mut self)
        ensures
            *final(self) == (App { nav: Navigation::Settings { cursor: 0 }, ..*old(self) }),
    {
        self.nav = Navigation::Settings { cursor: 0 };
    }

    pub fn open_devices_popup(&mut self)
        ensures
            *final(self) == (App { nav: Navigation::Dropdown(DropdownKind::Device), toolbar: final(self).toolbar, ..*old(self) }),
            final(self).toolbar == (ToolbarState {
                open: Some(DropdownKind::Device),
                cursor: 0,
                filter: final(self).toolbar.filter,
                loading: old(self).toolbar.devices@.len() == 0,
                ..old(self).toolbar
            }),
            final(self).toolbar.filter@.len() == 0,
    {
        self.nav = Navigation::Dropdown(DropdownKind::Device);
        let loading = self.toolbar.devices.len() == 0;
        self.toolbar.open_devices();
        self.toolbar.loading = loading;
    }

    pub fn open_apps_popup(&mut self)
        ensures
            apps_picker_opened(*old(self), *final(self)),
    {
        self.nav = Navigation::Dropdown(DropdownKind::App);
        let loading = self.toolbar.packages.len() == 0;
        self.toolbar.open_apps();
        self.toolbar.loading = loading;
    }

    pub fn open_dialog(&mut self, body: String)
        ensures
            *final(self) == (App { nav: Navigation::Dialog(body), ..*old(self) }),
    {
        self.nav = Navigation::Dialog(body);
    }

    pub fn close_popup(&mut self)
        ensures
            *final(self) == (App { nav: Navigation::Panels, ..*old(self) }),
    {
        self.nav = Navigation::Panels;
    }

    /// The settings row under the cursor (0 when the popup is closed).
    pub fn settings_cursor(&self) -> (r: usize)
        ensures
            r == match self.nav {
                Navigation::Settings { cursor } => cursor,
                _ => 0,
            },
    {
        match &self.nav {
            Navigation::Settings { cursor } => *cursor,
            _ => 0,
        }
    }

    fn handle_settings_key(&mut self, code: KeyCode, cursor: usize) -> (r: Action)
        requires
            old(self).nav == (Navigation::Settings { cursor }),
        ensures
            settings_key_done(*old(self), *final(self), code, cursor, r),
    {
        let up = code == KeyCode::Up || code == KeyCode::Char('k');
        let down = code == KeyCode::Down || code == KeyCode::Char('j');
        let right = (code == KeyCode::Right || code == KeyCode::Char('l')) && cursor == 0;
        let left = (code == KeyCode::Left || code == KeyCode::Char('h')) && cursor == 0;
        let copy = code == KeyCode::Char('c') && cursor == 1;
        if up {
            self.nav = Navigation::Settings { cursor: if cursor > 0 { cursor - 1 } else { 0 } };
        } else if down {
            self.nav = Navigation::Settings { cursor: if cursor < 2 { cursor + 1 } else { 3 } };
        } else if !(right || left) {
            self.nav = Navigation::Panels;
        }
        if copy && !up && !down {
            self.status_flash = Some(("Path copied!".to_string(), now(), false));
        }
        if up || down {
            Action::Noop
        } else if right {
            Action::CycleTheme(true)
        } else if left {
            Action::CycleTheme(false)
        } else if copy {
            Action::CopyTempDir
        } else if code == KeyCode::Enter {
            if cursor == 1 {
                Action::OpenTempDir
            } else if cursor == 2 {
                Action::OpenUrl(SCRCPY_PAGE.to_string())
            } else if cursor == 3 {
                Action::OpenUrl(PROJECT_PAGE.to_string())
            } else {
                Action::Noop
            }
        } else {
            Action::Noop
        }
    }

    pub fn set_status_flash(&mut self, msg: String, is_error: bool)
        ensures
            *final(self) == (App { status_flash: final(self).status_flash, ..*old(self) }),
            final(self).status_flash matches Some(f) && f.0 == msg && f.2 == is_error,
    {
        self.status_flash = Some((msg, now(), is_error));
    }
}

/// The panel that focus key `c` selects, as the panel table lists it.
fn panel_for_key(c: char) -> (r: Option<u8>)
    ensures
        r == focus_panel(c),
{
    let found = panel::by_focus_key(c);
    proof {
        let t = panel::panel_table();
        assert(t[0].1 == 'c' && t[1].1 == 'l' && t[2].1 == 'm' && t[3].1 == 'n' && t[4].1 == 't');
        assert(t[5].1 == 'i' && t[6].1 == 'p' && t[7].1 == 'f' && t[8].1 == 'd');
    }
    match found {
        Some(p) => Some(p.number),
        None => None,
    }
}

impl App {
    /// Whether panel `n` is shown.
    pub fn is_panel_visible(&self, n: u8) -> (b: bool)
        ensures
            b == shown(*self, n as int),
    {
        if n == panel::COMMANDS {
            return self.commands.visible;
        }
        if n < 1 || n > 8 {
            return false;
        }
        self.panel_visible[(n - 1) as usize]
    }

    /// Shows or hides panel `n` (1 to 8); the last shown panel stays.
    pub fn toggle_visibility(&mut self, n: u8)
        ensures
            visibility_toggled(*old(self), *final(self), n as int),
    {
        if n < 1 || n > 8 {
            return;
        }
        let idx = (n - 1) as usize;
        let mut count: usize = 0;
        let mut i: usize = 0;
        while i < 8
            invariant
                i <= 8,
                self.panel_visible@.len() == 8,
                count == count_set(self.panel_visible@.take(i as int)),
                count <= i,
            decreases 8 - i,
        {
            proof {
                assert(self.panel_visible@.take(i + 1).drop_last() =~= self.panel_visible@.take(i as int));
            }
            if self.panel_visible[i] {
                count = count + 1;
            }
            i = i + 1;
        }
        proof {
            assert(self.panel_visible@.take(8) =~= self.panel_visible@);
        }
        if self.commands.visible {
            count = count + 1;
        }
        if self.panel_visible[idx] && count == 1 {
            return;
        }
        let v = !self.panel_visible[idx];
        self.panel_visible[idx] = v;
        if !v && self.focused == Some(n) {
            self.focused = None;
        }
    }

    /// Puts back the layout from before zooming in.
    pub fn restore_zoom(&mut self)
        ensures
            *final(self) == restored(*old(self)),
    {
        match self.saved_visibility {
            Some((vis, cmd)) => {
                self.panel_visible = vis;
                self.commands.visible = cmd;
                self.saved_visibility = None;
            },
            None => {},
        }
    }

    /// Shows only panel `f`, keeping the layout to put back.
    fn zoom_in(&mut self, f: u8)
        requires
            old(self).saved_visibility is None,
            old(self).focused == Some(f),
        ensures
            zoom_toggled(*old(self), *final(self)),
    {
        let saved = (self.panel_visible, self.commands.visible);
        let mut vis = [false; 8];
        if f >= 1 && f <= 8 {
            vis[(f - 1) as usize] = true;
        }
        proof {
            assert forall|i: int| 0 <= i < 8 implies vis@[i] == (i + 1 == f) by {}
        }
        self.saved_visibility = Some(saved);
        self.commands.visible = f == panel::COMMANDS;
        self.panel_visible = vis;
    }

    /// Zooms in on the focused panel, or back out.
    pub fn toggle_zoom(&mut self)
        ensures
            zoom_toggled(*old(self), *final(self)),
    {
        if self.saved_visibility.is_some() {
            self.restore_zoom();
        } else {
            match self.focused {
                Some(f) => self.zoom_in(f),
                None => {},
            }
        }
    }

    /// Whether the layout is zoomed in on one panel.
    pub fn is_zoomed(&self) -> (b: bool)
        ensures
            b == self.saved_visibility is Some,
    {
        self.saved_visibility.is_some()
    }

    /// Moves the focus to panel `n`, or away from it.
    pub fn toggle_focus(&mut self, n: u8)
        ensures
            focus_toggled(*old(self), *final(self), n),
    {
        if self.focused == Some(n) {
            self.focused = None;
        } else if self.is_panel_visible(n) {
            self.focused = Some(n);
        } else {
            return;
        }
        self.logcat_state.editing = None;
        self.database_state.editing_query = false;
        string_clear(&mut self.commands.filter);
        self.commands.cursor = 0;
    }

    /// Hands the key to panel `p`.
    fn panel_key(&mut self, p: u8, key: KeyEvent) -> (res: Option<Action>)
        requires
            p <= 8,
            p == panel::LOGCAT ==> old(self).logcat_state.scroll + PAGE_LINES <= usize::MAX,
            p == panel::COMMANDS && !(key.modifiers.has_control() && key.code is Char) && key.code
                == KeyCode::Down ==> old(self).commands.cursor < usize::MAX,
            p == panel::DATABASE ==> db_key_in_bounds(old(self).database_state@, key.code),
            p == panel::NETWORK ==> old(self).network_state.key_in_bounds(key.code),
        ensures
            panel_step(p, *old(self), *final(self), key, res),
    {
        if p == panel::COMMANDS {
            self.commands.handle_key(key)
        } else if p == panel::LOGCAT {
            self.logcat_state.handle_key(key)
        } else if p == panel::MONITOR {
            self.monitor_state.handle_key(key)
        } else if p == panel::NETWORK {
            self.network_state.handle_key(key)
        } else if p == panel::TRACE {
            self.trace_state.handle_key(key)
        } else if p == panel::ISSUES {
            self.issues_state.handle_key(key)
        } else if p == panel::PERMISSIONS {
            self.permissions_state.handle_key(key)
        } else if p == panel::FILES {
            self.files_state.handle_key(key)
        } else {
            self.database_state.handle_key(key)
        }
    }

    /// What the application makes of a panel's reply.
    fn take_reply(&mut self, res: Option<Action>) -> (r: Action)
        ensures
            reply_taken(*old(self), *final(self), res, r),
    {
        match res {
            Some(Action::Unfocus) => {
                self.restore_zoom();
                self.focused = None;
                Action::Noop
            },
            Some(x) => x,
            None => Action::Noop,
        }
    }

    /// The focused panel `p` takes the key.
    fn delegate_to_focused(&mut self, p: u8, key: KeyEvent) -> (r: Action)
        requires
            app_wf(*old(self)),
            p <= 8,
            p == panel::LOGCAT ==> old(self).logcat_state.scroll + PAGE_LINES <= usize::MAX,
            p == panel::COMMANDS && !(key.modifiers.has_control() && key.code is Char) && key.code
                == KeyCode::Down ==> old(self).commands.cursor < usize::MAX,
            p == panel::DATABASE ==> db_key_in_bounds(old(self).database_state@, key.code),
            p == panel::NETWORK ==> old(self).network_state.key_in_bounds(key.code),
        ensures
            app_wf(*final(self)),
            focused_step(p, *old(self), *final(self), key, r),
    {
        let res = self.panel_key(p, key);
        let ghost m = *self;
        let ghost gres = res;
        let is_some = res.is_some();
        if is_some {
            let r = self.take_reply(res);
            assert(panel_step(p, *old(self), m, key, gres));
            return r;
        }
        match key.code {
            KeyCode::Char(c) => {
                if panel_for_key(c) == Some(p) {
                    self.restore_zoom();
                    self.focused = None;
                }
            },
            _ => {},
        }
        assert(panel_step(p, *old(self), m, key, gres));
        Action::Noop
    }
}

impl App {
    /// Applies a key press to the application.
    pub fn handle_key(&mut self, key: KeyEvent) -> (r: Action)
        requires
            app_wf(*old(self)),
            app_key_in_bounds(*old(self), key),
        ensures
            app_wf(*final(self)),
            app_key_done(*old(self), *final(self), key, r),
    {
        let code = key.code;
        if self.logcat_state.editing.is_some() {
            return self.typing_key(key);
        }
        if self.database_state.editing_query || self.database_state.confirming_pull.is_some() {
            return self.db_modal_key(key);
        }
        let ctrl = key.modifiers.contains(KeyModifiers::CONTROL);
        if ctrl && is_global(code) {
            return self.global_key(code);
        }
        let on_panels = match &self.nav {
            Navigation::Panels => true,
            _ => false,
        };
        if !on_panels {
            return self.popup_key(code);
        }
        if ctrl {
            match code {
                KeyCode::Char(ch) => {
                    if find_shortcut_for(&self.commands, ch) {
                        return self.shortcut_key(ch);
                    }
                },
                _ => {},
            }
        }
        match self.focused {
            Some(p) => {
                return self.delegate_to_focused(p, key);
            },
            None => {},
        }
        self.layout_key(code);
        Action::Noop
    }

    fn typing_key(&mut self, key: KeyEvent) -> (r: Action)
        requires
            app_wf(*old(self)),
            old(self).logcat_state.editing is Some,
            old(self).logcat_state.scroll + PAGE_LINES <= usize::MAX,
        ensures
            app_wf(*final(self)),
            typing_done(*old(self), *final(self), key, r),
    {
        let res = self.logcat_state.handle_key(key);
        proof {
            reveal(typing_done);
            assert(logcat_key_done(old(self).logcat_state, self.logcat_state, key, res));
        }
        match res {
            Some(x) => x,
            None => Action::Noop,
        }
    }

    fn db_modal_key(&mut self, key: KeyEvent) -> (r: Action)
        requires
            app_wf(*old(self)),
            db_key_in_bounds(old(self).database_state@, key.code),
        ensures
            app_wf(*final(self)),
            db_modal_done(*old(self), *final(self), key, r),
    {
        let res = self.panel_key(panel::DATABASE, key);
        let ghost m = *self;
        let ghost gres = res;
        let r = self.take_reply(res);
        proof {
            reveal(db_modal_done);
            assert(panel_step(panel::DATABASE, *old(self), m, key, gres));
        }
        r
    }

    fn global_key(&mut self, code: KeyCode) -> (r: Action)
        requires
            app_wf(*old(self)),
            is_global_key(code),
        ensures
            app_wf(*final(self)),
            global_done(*old(self), *final(self), code, r),
    {
        proof {
            reveal(global_done);
        }
        match code {
            KeyCode::Char('q') => Action::Quit,
            KeyCode::Char(' ') => {
                self.open_settings();
                Action::Noop
            },
            KeyCode::Char('d') => {
                self.open_devices_popup();
                Action::FetchDevices
            },
            KeyCode::Char('a') => {
                self.open_apps_popup();
                Action::FetchApps
            },
            _ => {
                if self.focused.is_some() {
                    self.toggle_zoom();
                }
                Action::Noop
            },
        }
    }

    fn popup_key(&mut self, code: KeyCode) -> (r: Action)
        requires
            app_wf(*old(self)),
            !(old(self).nav is Panels),
            old(self).nav is Dropdown ==> old(self).toolbar.filter@.len() < usize::MAX,
        ensures
            app_wf(*final(self)),
            popup_done(*old(self), *final(self), code, r),
    {
        proof {
            reveal(popup_done);
        }
        match &self.nav {
            Navigation::Dialog(_) => {
                self.close_popup();
                Action::Noop
            },
            Navigation::Settings { cursor } => {
                let c = *cursor;
                self.handle_settings_key(code, c)
            },
            _ => self.dropdown_key(code),
        }
    }

    fn shortcut_key(&mut self, ch: char) -> (r: Action)
        requires
            app_wf(*old(self)),
            shortcut_of(*old(self), ch) is Some,
        ensures
            app_wf(*final(self)),
            shortcut_done(*old(self), *final(self), ch, r),
    {
        proof {
            reveal(shortcut_done);
        }
        let got = self.commands.action_for_shortcut(ch);
        match got {
            Some(a) => a,
            None => Action::Noop,
        }
    }

    fn dropdown_key(&mut self, code: KeyCode) -> (r: Action)
        requires
            old(self).nav is Dropdown,
            old(self).toolbar.filter@.len() < usize::MAX,
        ensures
            exists|tb: ToolbarState, t: ToolbarAction|
                #[trigger] toolbar_key_done(old(self).toolbar, tb, code, t) && match t {
                    ToolbarAction::Nothing => *final(self) == (App { toolbar: tb, ..*old(self) })
                        && r == Action::Noop,
                    ToolbarAction::Close => *final(self) == (App {
                        toolbar: tb,
                        nav: Navigation::Panels,
                        ..*old(self)
                    }) && r == Action::Noop,
                    ToolbarAction::SelectDevice(d) => *final(self) == (App {
                        toolbar: tb,
                        nav: Navigation::Panels,
                        ..*old(self)
                    }) && r == Action::ChangeDevice(d),
                    ToolbarAction::SelectApp(p) => *final(self) == (App {
                        toolbar: tb,
                        nav: Navigation::Panels,
                        ..*old(self)
                    }) && r == Action::ChangeApp(p),
                    ToolbarAction::LaunchEmulator(n) => *final(self) == (App {
                        toolbar: tb,
                        nav: Navigation::Panels,
                        ..*old(self)
                    }) && r == Action::LaunchEmulator(n),
                },
    {
        let t = self.toolbar.handle_key(code);
        let ghost tb = self.toolbar;
        let ghost gt = t;
        assert(toolbar_key_done(old(self).toolbar, tb, code, gt));
        match t {
            ToolbarAction::Nothing => Action::Noop,
            ToolbarAction::Close => {
                self.nav = Navigation::Panels;
                Action::Noop
            },
            ToolbarAction::SelectDevice(d) => {
                self.nav = Navigation::Panels;
                Action::ChangeDevice(d)
            },
            ToolbarAction::SelectApp(p) => {
                self.nav = Navigation::Panels;
                Action::ChangeApp(p)
            },
            ToolbarAction::LaunchEmulator(n) => {
                self.nav = Navigation::Panels;
                Action::LaunchEmulator(n)
            },
        }
    }

    fn layout_key(&mut self, code: KeyCode)
        requires
            app_wf(*old(self)),
        ensures
            app_wf(*final(self)),
            layout_done(*old(self), *final(self), code),
    {
        proof {
            reveal(layout_done);
        }
        match code {
            KeyCode::Char(c) => {
                if c == '0' {
                    self.saved_visibility = None;
                    self.commands.visible = !self.commands.visible;
                } else if '1' <= c && c <= '8' {
                    self.saved_visibility = None;
                    let n = (c as u32 - '0' as u32) as u8;
                    self.toggle_visibility(n);
                } else {
                    match panel_for_key(c) {
                        Some(p) => self.toggle_focus(p),
                        None => {},
                    }
                }
            },
            _ => {},
        }
    }
}

/// Ctrl with this key is one of the global shortcuts.
fn is_global(code: KeyCode) -> (b: bool)
    ensures
        b == is_global_key(code),
{
    match code {
        KeyCode::Char(c) => c == 'q' || c == ' ' || c == 'd' || c == 'a' || c == 'z',
        _ => false,
    }
}

/// Whether Ctrl with `ch` runs a command of the commands panel.
fn find_shortcut_for(commands: &CommandsState, ch: char) -> (b: bool)
    ensures
        b == shortcut_match(command_list(), ascii_lower(ch), commands.is_emulator, 0) is Some,
{
    let c = crate::text::char_ascii_lower(ch);
    crate::commands::has_shortcut(c, commands.is_emulator)
}

impl App {
    /// Visibility of panels 1 to 8.
    pub fn panel_visibility(&self) -> (r: &[bool; 8])
        ensures
            *r == self.panel_visible,
    {
        &self.panel_visible
    }

    pub fn focused_panel(&self) -> (r: Option<u8>)
        ensures
            r == self.focused,
    {
        self.focused
    }

    pub fn layout_bounds(&self) -> (b: bool)
        ensures
            b == self.layout_bounds,
    {
        self.layout_bounds
    }

    pub fn set_layout_bounds(&mut self, v: bool)
        ensures
            *final(self) == (App { layout_bounds: v, ..*old(self) }),
    {
        self.layout_bounds = v;
    }

    pub fn airplane_mode(&self) -> (b: bool)
        ensures
            b == self.airplane_mode,
    {
        self.airplane_mode
    }

    pub fn set_airplane_mode(&mut self, v: bool)
        ensures
            *final(self) == (App { airplane_mode: v, ..*old(self) }),
    {
        self.airplane_mode = v;
    }

    pub fn wifi_enabled(&self) -> (b: bool)
        ensures
            b == self.wifi_enabled,
    {
        self.wifi_enabled
    }

    pub fn set_wifi_enabled(&mut self, v: bool)
        ensures
            *final(self) == (App { wifi_enabled: v, ..*old(self) }),
    {
        self.wifi_enabled = v;
    }

    pub fn dark_mode(&self) -> (b: bool)
        ensures
            b == self.dark_mode,
    {
        self.dark_mode
    }

    pub fn set_dark_mode(&mut self, v: bool)
        ensures
            *final(self) == (App { dark_mode: v, ..*old(self) }),
    {
        self.dark_mode = v;
    }

    pub fn show_taps(&self) -> (b: bool)
        ensures
            b == self.show_taps,
    {
        self.show_taps
    }

    pub fn set_show_taps(&mut self, v: bool)
        ensures
            *final(self) == (App { show_taps: v, ..*old(self) }),
    {
        self.show_taps = v;
    }

    pub fn pointer_location(&self) -> (b: bool)
        ensures
            b == self.pointer_location,
    {
        self.pointer_location
    }

    pub fn set_pointer_location(&mut self, v: bool)
        ensures
            *final(self) == (App { pointer_location: v, ..*old(self) }),
    {
        self.pointer_location = v;
    }

    pub fn gpu_rendering(&self) -> (b: bool)
        ensures
            b == self.gpu_rendering,
    {
        self.gpu_rendering
    }

    pub fn set_gpu_rendering(&mut self, v: bool)
        ensures
            *final(self) == (App { gpu_rendering: v, ..*old(self) }),
    {
        self.gpu_rendering = v;
    }

    pub fn talkback(&self) -> (b: bool)
        ensures
            b == self.talkback,
    {
        self.talkback
    }

    pub fn set_talkback(&mut self, v: bool)
        ensures
            *final(self) == (App { talkback: v, ..*old(self) }),
    {
        self.talkback = v;
    }

    pub fn measure_sdk_detected(&self) -> (b: bool)
        ensures
            b == self.measure_sdk_detected,
    {
        self.measure_sdk_detected
    }

    pub fn set_measure_sdk_detected(&mut self, v: bool)
        ensures
            *final(self) == (App { measure_sdk_detected: v, ..*old(self) }),
    {
        self.measure_sdk_detected = v;
    }

    pub fn monitor_state(&self) -> (r: &MonitorState)
        ensures
            *r == self.monitor_state,
    {
        &self.monitor_state
    }

    pub fn monitor_state_mut(&mut self) -> (r: &mut MonitorState)
        ensures
            *r == old(self).monitor_state,
            *final(self) == (App { monitor_state: *final(r), ..*old(self) }),
    {
        &mut self.monitor_state
    }

    pub fn trace_state(&self) -> (r: &TraceState)
        ensures
            *r == self.trace_state,
    {
        &self.trace_state
    }

    pub fn trace_state_mut(&mut self) -> (r: &mut TraceState)
        ensures
            *r == old(self).trace_state,
            *final(self) == (App { trace_state: *final(r), ..*old(self) }),
    {
        &mut self.trace_state
    }

    pub fn database_state(&self) -> (r: &DatabaseState)
        ensures
            *r == self.database_state,
    {
        &self.database_state
    }

    pub fn database_state_mut(&mut self) -> (r: &mut DatabaseState)
        ensures
            *r == old(self).database_state,
            *final(self) == (App { database_state: *final(r), ..*old(self) }),
    {
        &mut self.database_state
    }

    pub fn permissions_state(&self) -> (r: &PermissionsState)
        ensures
            *r == self.permissions_state,
    {
        &self.permissions_state
    }

    pub fn permissions_state_mut(&mut self) -> (r: &mut PermissionsState)
        ensures
            *r == old(self).permissions_state,
            *final(self) == (App { permissions_state: *final(r), ..*old(self) }),
    {
        &mut self.permissions_state
    }

    pub fn files_state(&self) -> (r: &FilesState)
        ensures
            *r == self.files_state,
    {
        &self.files_state
    }

    pub fn files_state_mut(&mut self) -> (r: &mut FilesState)
        ensures
            *r == old(self).files_state,
            *final(self) == (App { files_state: *final(r), ..*old(self) }),
    {
        &mut self.files_state
    }

    pub fn issues_state(&self) -> (r: &IssuesState)
        ensures
            *r == self.issues_state,
    {
        &self.issues_state
    }

    pub fn issues_state_mut(&mut self) -> (r: &mut IssuesState)
        ensures
            *r == old(self).issues_state,
            *final(self) == (App { issues_state: *final(r), ..*old(self) }),
    {
        &mut self.issues_state
    }

    pub fn network_state(&self) -> (r: &NetworkState)
        ensures
            *r == self.network_state,
    {
        &self.network_state
    }

    pub fn network_state_mut(&mut self) -> (r: &mut NetworkState)
        ensures
            *r == old(self).network_state,
            *final(self) == (App { network_state: *final(r), ..*old(self) }),
    {
        &mut self.network_state
    }

    pub fn logcat_state(&self) -> (r: &LogcatState)
        ensures
            *r == self.logcat_state,
    {
        &self.logcat_state
    }

    pub fn logcat_state_mut(&mut self) -> (r: &mut LogcatState)
        ensures
            *r == old(self).logcat_state,
            *final(self) == (App { logcat_state: *final(r), ..*old(self) }),
    {
        &mut self.logcat_state
    }

    pub fn commands(&self) -> (r: &CommandsState)
        ensures
            *r == self.commands,
    {
        &self.commands
    }

    pub fn commands_mut(&mut self) -> (r: &mut CommandsState)
        ensures
            *r == old(self).commands,
            *final(self) == (App { commands: *final(r), ..*old(self) }),
    {
        &mut self.commands
    }

    pub fn toolbar(&self) -> (r: &ToolbarState)
        ensures
            *r == self.toolbar,
    {
        &self.toolbar
    }

    pub fn toolbar_mut(&mut self) -> (r: &mut ToolbarState)
        ensures
            *r == old(self).toolbar,
            *final(self) == (App { toolbar: *final(r), ..*old(self) }),
    {
        &mut self.toolbar
    }

    /// Starts every panel afresh for `package`, keeping the popup, the
    /// focus and the layout: what a background worker may do.
    pub fn reset_panel_data_for_app(&mut self, package: &str)
        ensures
            panel_data_reset(*old(self), *final(self), package@),
    {
        self.logcat_state = LogcatState::new();
        self.database_state = DatabaseState::new();
        self.files_state = FilesState::new(package);
        self.permissions_state = PermissionsState::new();
        self.monitor_state = MonitorState::new();
        self.trace_state = TraceState::new();
        self.issues_state = IssuesState::new();
        self.network_state = NetworkState::new();
        self.measure_sdk_detected = false;
        string_clear(&mut self.commands.filter);
        self.commands.cursor = 0;
        self.commands.triggered = None;
    }

    /// The reset for a package the user picked: panels afresh, the layout
    /// put back, no focus, no popup.
    pub fn reset_for_new_app(&mut self, package: &str)
        ensures
            user_reset(*old(self), *final(self), package@),
    {
        if self.saved_visibility.is_some() {
            self.restore_zoom();
        }
        let ghost r = *self;
        self.reset_panel_data_for_app(package);
        self.focused = None;
        self.nav = Navigation::Panels;
        proof {
            assert(App { focused: r.focused, nav: r.nav, ..*self } == App {
                focused: restored(*old(self)).focused,
                nav: restored(*old(self)).nav,
                ..*self
            });
        }
    }

    /// The status message while it is fresh (shown for two seconds), and
    /// whether it reports an error. The age of the message comes from the
    /// clock, of which nothing is promised; what is shown at each age is
    /// `flash_at`'s answer.
    pub fn status_flash_active(&self) -> (r: Option<(&str, bool)>)
        ensures
            match r {
                Some(p) => self.status_flash matches Some(f) && p.0@ == f.0@ && p.1 == f.2,
                None => true,
            },
            self.status_flash is None ==> r is None,
    {
        match &self.status_flash {
            Some((_, t, _)) => self.flash_at(millis_since(t)),
            None => None,
        }
    }

    /// The status message `elapsed_ms` milliseconds after it was set, and
    /// whether it reports an error: shown for two seconds, then gone.
    pub fn flash_at(&self, elapsed_ms: u128) -> (r: Option<(&str, bool)>)
        ensures
            match self.status_flash {
                Some(f) => if elapsed_ms < 2000 {
                    r matches Some(p) && p.0@ == f.0@ && p.1 == f.2
                } else {
                    r is None
                },
                None => r is None,
            },
    {
        match &self.status_flash {
            Some((msg, _, is_error)) => {
                if elapsed_ms < 2000 {
                    Some((msg.as_str(), *is_error))
                } else {
                    None
                }
            },
            None => None,
        }
    }

    /// Whether something on screen is still fading: a just-run command or
    /// a fresh status message.
    pub fn has_active_animation(&self) -> (b: bool)
        ensures
            self.commands.triggered is None && self.status_flash is None ==> !b,
    {
        self.commands.has_active_animation() || self.status_flash_active().is_some()
    }
}

// ---------------------------------------------------------------------------
// Laws of the layout and the keys
// ---------------------------------------------------------------------------

/// How many panels are shown, the commands panel included.
pub open spec fn shown_count(a: App) -> int {
    count_set(a.panel_visible@) + if a.commands.visible {
        1int
    } else {
        0int
    }
}

proof fn lemma_count_flip(s: Seq<bool>, i: int)
    requires
        0 <= i < s.len(),
    ensures
        count_set(s.update(i, !s[i])) == count_set(s) + if s[i] {
            -1int
        } else {
            1int
        },
    decreases s.len(),
{
    let t = s.update(i, !s[i]);
    if i == s.len() - 1 {
        assert(t.drop_last() =~= s.drop_last());
    } else {
        assert(t.drop_last() =~= s.drop_last().update(i, !s[i]));
        lemma_count_flip(s.drop_last(), i);
    }
}

/// Showing or hiding a panel never leaves the screen empty: with a panel
/// shown before, one is shown after.
pub proof fn law_last_panel_stays(a: App, b: App, n: int)
    requires
        visibility_toggled(a, b, n),
        a.panel_visible@.len() == 8,
        shown_count(a) >= 1,
    ensures
        shown_count(b) >= 1,
{
    if 1 <= n <= 8 && !(a.panel_visible@[n - 1] && shown_count(a) == 1) {
        lemma_count_flip(a.panel_visible@, n - 1);
    }
}

/// Toggling the same panel twice gives back the layout, whenever a panel
/// was shown to begin with.
pub proof fn law_toggle_twice_restores(a: App, b: App, c: App, n: int)
    requires
        visibility_toggled(a, b, n),
        visibility_toggled(b, c, n),
        a.panel_visible@.len() == 8,
        shown_count(a) >= 1,
    ensures
        c.panel_visible@ == a.panel_visible@,
        c.commands.visible == a.commands.visible,
{
    if 1 <= n <= 8 && !(a.panel_visible@[n - 1] && shown_count(a) == 1) {
        lemma_count_flip(a.panel_visible@, n - 1);
        assert(b.panel_visible@[n - 1] == !a.panel_visible@[n - 1]);
        if !(b.panel_visible@[n - 1] && shown_count(b) == 1) {
            assert(c.panel_visible@ =~= a.panel_visible@);
        }
    }
}

/// Zooming in on the focused panel and back out gives back the layout
/// and keeps the focus.
pub proof fn law_zoom_round_trip(a: App, b: App, c: App)
    requires
        a.saved_visibility is None,
        a.focused is Some,
        zoom_toggled(a, b),
        zoom_toggled(b, c),
    ensures
        c.panel_visible == a.panel_visible,
        c.commands.visible == a.commands.visible,
        c.saved_visibility is None,
        c.focused == a.focused,
{
}

/// A background worker's reset leaves whatever the user is looking at
/// alone: the popup, the focus and the layout.
pub proof fn law_worker_reset_keeps_navigation(a: App, b: App, package: Seq<char>)
    requires
        panel_data_reset(a, b, package),
    ensures
        b.nav == a.nav,
        b.focused == a.focused,
        b.panel_visible == a.panel_visible,
        b.saved_visibility == a.saved_visibility,
        b.commands.visible == a.commands.visible,
{
}

/// Ctrl+Q quits from anywhere, popups and focused panels included, unless
/// text is being typed into the logcat filter or the database prompt
/// (which take every key), and changes nothing.
pub proof fn law_ctrl_q_quits(a: App, b: App, key: KeyEvent, r: Action)
    requires
        app_key_done(a, b, key, r),
        key.modifiers.has_control(),
        key.code == KeyCode::Char('q'),
        a.logcat_state.editing is None,
        !a.database_state.editing_query,
        a.database_state.confirming_pull is None,
    ensures
        r == Action::Quit,
        b == a,
{
    reveal(global_done);
}

/// The global Ctrl keys reach past any popup: Ctrl+D and Ctrl+A open the
/// device or app picker in one press, whatever was open.
pub proof fn law_pickers_open_in_one_press(a: App, b: App, key: KeyEvent, r: Action)
    requires
        app_key_done(a, b, key, r),
        key.modifiers.has_control(),
        key.code == KeyCode::Char('d') || key.code == KeyCode::Char('a'),
        a.logcat_state.editing is None,
        !a.database_state.editing_query,
        a.database_state.confirming_pull is None,
    ensures
        b.nav == Navigation::Dropdown(if key.code == KeyCode::Char('d') {
            DropdownKind::Device
        } else {
            DropdownKind::App
        }),
        r == if key.code == KeyCode::Char('d') {
            Action::FetchDevices
        } else {
            Action::FetchApps
        },
{
    reveal(global_done);
}

impl App {
    /// Whether `handle_key` can take `key` now: the application state is
    /// well formed and no counter that the key reaches is at its limit.
    pub fn accepts_key(&self, key: KeyEvent) -> (b: bool)
        ensures
            b == (app_wf(*self) && app_key_in_bounds(*self, key)),
    {
        let wf = match self.focused {
            Some(f) => f <= 8,
            None => true,
        };
        let ctrl_char = key.modifiers.contains(KeyModifiers::CONTROL) && match key.code {
            KeyCode::Char(_) => true,
            _ => false,
        };
        let logcat_ok = !(self.logcat_state.editing.is_some() || self.focused == Some(panel::LOGCAT))
            || self.logcat_state.scroll <= usize::MAX - PAGE_LINES;
        let commands_ok = !(self.focused == Some(panel::COMMANDS) && !ctrl_char && key.code
            == KeyCode::Down) || self.commands.cursor < usize::MAX;
        let toolbar_ok = match self.nav {
            Navigation::Dropdown(_) => crate::text::chars_of(self.toolbar.filter.as_str()).len() < usize::MAX,
            _ => true,
        };
        let db_ok = !(self.database_state.editing_query || self.database_state.confirming_pull.is_some()
            || self.focused == Some(panel::DATABASE)) || self.database_state.accepts_key(key.code);
        let net_ok = !(self.focused == Some(panel::NETWORK)) || self.network_state.accepts_key(key);
        wf && logcat_ok && commands_ok && toolbar_ok && db_ok && net_ok
    }
}
} // verus!
