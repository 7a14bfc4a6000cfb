use holo::app::{Action, App, Navigation};
use holo::keys::{KeyCode, KeyEvent, KeyModifiers};
use holo::logcat;
use holo::panel;
use holo::toolbar::DropdownKind;

fn key(code: KeyCode) -> KeyEvent {
    KeyEvent::new(code, KeyModifiers::NONE)
}

#[test]
fn new_app_starts_on_panels() {
    let app = App::new(None, Some("com.test"));
    assert_eq!(app.nav(), &Navigation::Panels);
}

#[test]
fn ctrl_space_opens_settings() {
    let mut app = App::new(None, Some("com.test"));
    app.handle_key(KeyEvent::new(KeyCode::Char(' '), KeyModifiers::CONTROL));
    assert!(matches!(app.nav(), Navigation::Settings { .. }));
}

#[test]
fn ctrl_d_from_settings_jumps_to_devices_in_one_press() {
    let mut app = App::new(None, Some("com.test"));
    app.open_settings();
    let action = app.handle_key(KeyEvent::new(KeyCode::Char('d'), KeyModifiers::CONTROL));
    assert!(matches!(action, Action::FetchDevices));
    assert!(matches!(app.nav(), Navigation::Dropdown(DropdownKind::Device)));
}

#[test]
fn ctrl_a_from_dropdown_switches_to_apps_in_one_press() {
    let mut app = App::new(None, Some("com.test"));
    app.open_devices_popup();
    let action = app.handle_key(KeyEvent::new(KeyCode::Char('a'), KeyModifiers::CONTROL));
    assert!(matches!(action, Action::FetchApps));
    assert!(matches!(app.nav(), Navigation::Dropdown(DropdownKind::App)));
}

#[test]
fn worker_data_reset_preserves_open_settings() {
    // The architectural invariant: a worker callback updating panel
    // state for a freshly auto-selected package must NOT close a popup
    // the user has open. Pre-refactor this tore settings down because
    // `reset_for_new_app` cleared `settings_open` directly.
    let mut app = App::new(None, Some("com.test"));
    app.open_settings();
    app.reset_panel_data_for_app("com.test");
    assert!(matches!(app.nav(), Navigation::Settings { .. }));
}

#[test]
fn worker_data_reset_preserves_open_dropdown() {
    let mut app = App::new(None, Some("com.test"));
    app.open_apps_popup();
    app.reset_panel_data_for_app("com.test");
    assert!(matches!(app.nav(), Navigation::Dropdown(DropdownKind::App)));
}

#[test]
fn worker_data_reset_preserves_open_dialog() {
    let mut app = App::new(None, Some("com.test"));
    app.open_dialog("hi".into());
    app.reset_panel_data_for_app("com.test");
    assert!(matches!(app.nav(), Navigation::Dialog(_)));
}

#[test]
fn user_app_change_resets_navigation() {
    let mut app = App::new(None, Some("com.test"));
    app.open_settings();
    // The user-driven path explicitly closes any popup as part of the
    // app-change cleanup.
    app.reset_for_new_app("com.test");
    assert_eq!(app.nav(), &Navigation::Panels);
}

#[test]
fn new_app_all_panels_visible() {
    let app = App::new(None, Some("com.test"));
    assert_eq!(app.panel_visibility(), &[true; 8]);
}

#[test]
fn new_app_has_no_focus() {
    let app = App::new(None, Some("com.test"));
    assert_eq!(app.focused_panel(), None);
}

#[test]
fn toggle_visibility_hides_panel() {
    let mut app = App::new(None, Some("com.test"));
    app.toggle_visibility(3);
    assert_eq!(
        app.panel_visibility(),
        &[true, true, false, true, true, true, true, true]
    );
}

#[test]
fn toggle_visibility_twice_restores_panel() {
    let mut app = App::new(None, Some("com.test"));
    app.toggle_visibility(3);
    app.toggle_visibility(3);
    assert_eq!(app.panel_visibility(), &[true; 8]);
}

#[test]
fn cannot_hide_last_panel() {
    let mut app = App::new(None, Some("com.test"));
    app.commands.visible = false;
    for n in 2..=8 {
        app.toggle_visibility(n);
    }
    assert_eq!(
        app.panel_visibility(),
        &[true, false, false, false, false, false, false, false]
    );
    app.toggle_visibility(1);
    assert_eq!(
        app.panel_visibility(),
        &[true, false, false, false, false, false, false, false]
    );
}

#[test]
fn out_of_range_is_ignored() {
    let mut app = App::new(None, Some("com.test"));
    app.toggle_visibility(0);
    app.toggle_visibility(10);
    app.toggle_visibility(11);
    assert_eq!(app.panel_visibility(), &[true; 8]);
}

#[test]
fn ctrl_q_quits() {
    let mut app = App::new(None, Some("com.test"));
    assert!(matches!(app.handle_key(ctrl('q')), Action::Quit));
}

#[test]
fn ctrl_q_quits_even_when_focused() {
    let mut app = App::new(None, Some("com.test"));
    app.handle_key(key(KeyCode::Char('l')));
    assert_eq!(app.focused_panel(), Some(panel::LOGCAT));
    assert!(matches!(app.handle_key(ctrl('q')), Action::Quit));
}

#[test]
fn handle_key_digit_toggles_visibility() {
    let mut app = App::new(None, Some("com.test"));
    assert!(matches!(
        app.handle_key(key(KeyCode::Char('3'))),
        Action::Noop
    ));
    assert_eq!(
        app.panel_visibility(),
        &[true, true, false, true, true, true, true, true]
    );
}

#[test]
fn handle_key_unknown_is_none() {
    let mut app = App::new(None, Some("com.test"));
    assert!(matches!(
        app.handle_key(key(KeyCode::Tab)),
        Action::Noop
    ));
    assert_eq!(app.panel_visibility(), &[true; 8]);
}

#[test]
fn i_focuses_issues_panel() {
    let mut app = App::new(None, Some("com.test"));
    app.handle_key(key(KeyCode::Char('i')));
    assert_eq!(app.focused_panel(), Some(panel::ISSUES));
}

#[test]
fn focus_toggles_on_same_key() {
    let mut app = App::new(None, Some("com.test"));
    app.handle_key(key(KeyCode::Char('l')));
    assert_eq!(app.focused_panel(), Some(panel::LOGCAT));
    app.handle_key(key(KeyCode::Char('l')));
    assert_eq!(app.focused_panel(), None);
}

fn ctrl(ch: char) -> KeyEvent {
    KeyEvent::new(KeyCode::Char(ch), KeyModifiers::CONTROL)
}

#[test]
fn ctrl_o_opens_app() {
    let mut app = App::new(None, Some("com.test"));
    assert!(matches!(app.handle_key(ctrl('o')), Action::OpenApp));
}

#[test]
fn ctrl_k_kills_app() {
    let mut app = App::new(None, Some("com.test"));
    assert!(matches!(app.handle_key(ctrl('k')), Action::KillApp));
}

#[test]
fn ctrl_d_opens_device_selector() {
    let mut app = App::new(None, Some("com.test"));
    assert!(matches!(app.handle_key(ctrl('d')), Action::FetchDevices));
}

#[test]
fn ctrl_a_opens_app_selector() {
    let mut app = App::new(None, Some("com.test"));
    assert!(matches!(app.handle_key(ctrl('a')), Action::FetchApps));
}

#[test]
fn ctrl_n_toggles_dark_mode() {
    let mut app = App::new(None, Some("com.test"));
    assert!(matches!(app.handle_key(ctrl('n')), Action::ToggleDarkMode));
}

#[test]
fn ctrl_e_toggles_airplane_mode() {
    let mut app = App::new(None, Some("com.test"));
    assert!(matches!(app.handle_key(ctrl('e')), Action::ToggleAirplaneMode));
}

#[test]
fn ctrl_t_toggles_show_taps() {
    let mut app = App::new(None, Some("com.test"));
    assert!(matches!(app.handle_key(ctrl('t')), Action::ToggleShowTaps));
}

#[test]
fn ctrl_p_toggles_pointer_location() {
    let mut app = App::new(None, Some("com.test"));
    assert!(matches!(app.handle_key(ctrl('p')), Action::TogglePointerLocation));
}

#[test]
fn ctrl_g_toggles_gpu_rendering() {
    let mut app = App::new(None, Some("com.test"));
    assert!(matches!(app.handle_key(ctrl('g')), Action::ToggleGpuRendering));
}

#[test]
fn c_focuses_commands_panel() {
    let mut app = App::new(None, Some("com.test"));
    app.handle_key(key(KeyCode::Char('c')));
    assert_eq!(app.focused_panel(), Some(panel::COMMANDS));
}

#[test]
fn commands_panel_enter_executes() {
    let mut app = App::new(None, Some("com.test"));
    app.handle_key(key(KeyCode::Char('c')));
    let action = app.handle_key(key(KeyCode::Enter));
    assert!(matches!(action, Action::OpenApp));
}

#[test]
fn t_enters_tag_editing_when_focused() {
    let mut app = App::new(None, Some("com.test"));
    app.handle_key(key(KeyCode::Char('l')));
    app.handle_key(key(KeyCode::Char('t')));
    assert_eq!(app.logcat_state().editing, Some(logcat::LogcatEditTarget::Tag));
    assert_eq!(app.focused_panel(), Some(panel::LOGCAT));
}

#[test]
fn slash_enters_search_editing_when_focused() {
    let mut app = App::new(None, Some("com.test"));
    app.handle_key(key(KeyCode::Char('l')));
    app.handle_key(key(KeyCode::Char('/')));
    assert_eq!(app.logcat_state().editing, Some(logcat::LogcatEditTarget::Search));
    assert_eq!(app.focused_panel(), Some(panel::LOGCAT));
}

#[test]
fn t_focuses_trace_panel() {
    let mut app = App::new(None, Some("com.test"));
    app.handle_key(key(KeyCode::Char('t')));
    assert_eq!(app.focused_panel(), Some(panel::TRACE));
}

#[test]
fn s_starts_trace_when_focused() {
    let mut app = App::new(None, Some("com.test"));
    app.handle_key(key(KeyCode::Char('t')));
    assert!(!app.trace_state().recording);
    let action = app.handle_key(key(KeyCode::Char('s')));
    assert!(matches!(action, Action::StartTrace));
    assert!(app.trace_state().recording);
}

#[test]
fn s_stops_trace_when_recording() {
    let mut app = App::new(None, Some("com.test"));
    app.handle_key(key(KeyCode::Char('t')));
    app.handle_key(key(KeyCode::Char('s')));
    assert!(app.trace_state().recording);
    let action = app.handle_key(key(KeyCode::Char('s')));
    assert!(matches!(action, Action::StopTrace));
    assert!(!app.trace_state().recording);
}

#[test]
fn esc_unfocuses_trace_panel() {
    let mut app = App::new(None, Some("com.test"));
    app.handle_key(key(KeyCode::Char('t')));
    assert_eq!(app.focused_panel(), Some(panel::TRACE));
    app.handle_key(key(KeyCode::Esc));
    assert_eq!(app.focused_panel(), None);
}

#[test]
fn typing_appends_to_tag() {
    let mut app = App::new(None, Some("com.test"));
    app.handle_key(key(KeyCode::Char('l')));
    app.handle_key(key(KeyCode::Char('t')));
    app.handle_key(key(KeyCode::Char('a')));
    app.handle_key(key(KeyCode::Char('b')));
    assert_eq!(app.logcat_state().filter.tag, "ab");
}

#[test]
fn typing_appends_to_search() {
    let mut app = App::new(None, Some("com.test"));
    app.handle_key(key(KeyCode::Char('l')));
    app.handle_key(key(KeyCode::Char('/')));
    app.handle_key(key(KeyCode::Char('x')));
    app.handle_key(key(KeyCode::Char('y')));
    assert_eq!(app.logcat_state().filter.search, "xy");
}

#[test]
fn backspace_removes_from_tag() {
    let mut app = App::new(None, Some("com.test"));
    app.handle_key(key(KeyCode::Char('l')));
    app.handle_key(key(KeyCode::Char('t')));
    app.handle_key(key(KeyCode::Char('a')));
    app.handle_key(key(KeyCode::Char('b')));
    app.handle_key(key(KeyCode::Backspace));
    assert_eq!(app.logcat_state().filter.tag, "a");
}

#[test]
fn enter_exits_editing_mode() {
    let mut app = App::new(None, Some("com.test"));
    app.handle_key(key(KeyCode::Char('l')));
    app.handle_key(key(KeyCode::Char('/')));
    assert_eq!(app.logcat_state().editing, Some(logcat::LogcatEditTarget::Search));
    app.handle_key(key(KeyCode::Enter));
    assert_eq!(app.logcat_state().editing, None);
}

#[test]
fn esc_exits_tag_editing_preserving_input() {
    let mut app = App::new(None, Some("com.test"));
    app.handle_key(key(KeyCode::Char('l')));
    app.handle_key(key(KeyCode::Char('t')));
    app.handle_key(key(KeyCode::Char('a')));
    app.handle_key(key(KeyCode::Char('b')));
    app.handle_key(key(KeyCode::Esc));
    assert!(!app.database_state().editing_query);
    assert_eq!(app.logcat_state().filter.tag, "ab");
}

#[test]
fn esc_exits_search_editing_preserving_input() {
    let mut app = App::new(None, Some("com.test"));
    app.handle_key(key(KeyCode::Char('l')));
    app.handle_key(key(KeyCode::Char('/')));
    app.handle_key(key(KeyCode::Char('x')));
    app.handle_key(key(KeyCode::Char('y')));
    app.handle_key(key(KeyCode::Esc));
    assert!(!app.database_state().editing_query);
    assert_eq!(app.logcat_state().filter.search, "xy");
}

#[test]
fn level_cycles_forward_with_right() {
    let mut app = App::new(None, Some("com.test"));
    app.handle_key(key(KeyCode::Char('l')));
    assert_eq!(app.logcat_state().filter.level, None);
    app.handle_key(key(KeyCode::Right));
    assert_eq!(app.logcat_state().filter.level, Some('V'));
    app.handle_key(key(KeyCode::Right));
    assert_eq!(app.logcat_state().filter.level, Some('D'));
}

#[test]
fn level_cycles_backward_with_left() {
    let mut app = App::new(None, Some("com.test"));
    app.handle_key(key(KeyCode::Char('l')));
    app.handle_key(key(KeyCode::Left));
    assert_eq!(app.logcat_state().filter.level, Some('F'));
}

#[test]
fn level_wraps_around() {
    let mut app = App::new(None, Some("com.test"));
    app.handle_key(key(KeyCode::Char('l')));
    for _ in 0..7 {
        app.handle_key(key(KeyCode::Right));
    }
    assert_eq!(app.logcat_state().filter.level, None);
}

#[test]
fn scroll_up_increments_offset() {
    let mut app = App::new(None, Some("com.test"));
    app.handle_key(key(KeyCode::Char('l')));
    app.handle_key(key(KeyCode::Up));
    assert_eq!(app.logcat_state().scroll, 1);
    app.handle_key(key(KeyCode::Up));
    assert_eq!(app.logcat_state().scroll, 2);
}

#[test]
fn scroll_down_decrements_offset() {
    let mut app = App::new(None, Some("com.test"));
    app.handle_key(key(KeyCode::Char('l')));
    app.handle_key(key(KeyCode::Up));
    app.handle_key(key(KeyCode::Up));
    app.handle_key(key(KeyCode::Down));
    assert_eq!(app.logcat_state().scroll, 1);
}

#[test]
fn j_k_scroll_logcat() {
    let mut app = App::new(None, Some("com.test"));
    app.handle_key(key(KeyCode::Char('l')));
    app.handle_key(key(KeyCode::Char('k')));
    assert_eq!(app.logcat_state().scroll, 1);
    app.handle_key(key(KeyCode::Char('k')));
    assert_eq!(app.logcat_state().scroll, 2);
    app.handle_key(key(KeyCode::Char('j')));
    assert_eq!(app.logcat_state().scroll, 1);
}

#[test]
fn space_scrolls_page() {
    let mut app = App::new(None, Some("com.test"));
    app.handle_key(key(KeyCode::Char('l')));
    app.handle_key(key(KeyCode::Char(' ')));
    assert_eq!(app.logcat_state().scroll, 20);
}

#[test]
fn scroll_does_not_go_below_zero() {
    let mut app = App::new(None, Some("com.test"));
    app.handle_key(key(KeyCode::Char('l')));
    app.handle_key(key(KeyCode::Down));
    assert_eq!(app.logcat_state().scroll, 0);
}

#[test]
fn esc_resets_scroll_to_zero() {
    let mut app = App::new(None, Some("com.test"));
    app.handle_key(key(KeyCode::Char('l')));
    app.handle_key(key(KeyCode::Up));
    app.handle_key(key(KeyCode::Up));
    app.handle_key(key(KeyCode::Up));
    assert_eq!(app.logcat_state().scroll, 3);
    app.handle_key(key(KeyCode::Esc));
    assert_eq!(app.logcat_state().scroll, 0);
    assert_eq!(app.focused_panel(), Some(panel::LOGCAT));
}

#[test]
fn esc_unfocuses_logcat_when_at_bottom() {
    let mut app = App::new(None, Some("com.test"));
    app.handle_key(key(KeyCode::Char('l')));
    assert_eq!(app.focused_panel(), Some(panel::LOGCAT));
    app.handle_key(key(KeyCode::Esc));
    assert_eq!(app.focused_panel(), None);
}

#[test]
fn left_right_ignored_without_focus() {
    let mut app = App::new(None, Some("com.test"));
    assert_eq!(app.focused_panel(), None);
    app.handle_key(key(KeyCode::Right));
    assert_eq!(app.logcat_state().filter.level, None);
}

#[test]
fn r_resets_logcat_filters_and_scroll() {
    let mut app = App::new(None, Some("com.test"));
    app.handle_key(key(KeyCode::Char('l')));
    app.handle_key(key(KeyCode::Char('t')));
    app.handle_key(key(KeyCode::Char('a')));
    app.handle_key(key(KeyCode::Enter));
    app.handle_key(key(KeyCode::Char('/')));
    app.handle_key(key(KeyCode::Char('b')));
    app.handle_key(key(KeyCode::Enter));
    app.handle_key(key(KeyCode::Right));
    assert_eq!(app.logcat_state().filter.tag, "a");
    assert_eq!(app.logcat_state().filter.search, "b");
    assert!(app.logcat_state().filter.level.is_some());
    app.handle_key(key(KeyCode::Up));
    app.handle_key(key(KeyCode::Up));
    assert_eq!(app.logcat_state().scroll, 2);

    assert!(matches!(app.handle_key(key(KeyCode::Char('r'))), Action::ResetLogcat));
    assert_eq!(app.logcat_state().filter.tag, "");
    assert_eq!(app.logcat_state().filter.search, "");
    assert_eq!(app.logcat_state().filter.level, None);
    assert_eq!(app.logcat_state().scroll, 0);
}

#[test]
fn o_in_logcat_returns_open_action() {
    let mut app = App::new(None, Some("com.test"));
    app.handle_key(key(KeyCode::Char('l')));
    let action = app.handle_key(key(KeyCode::Char('o')));
    assert!(matches!(action, Action::OpenLogcat));
}

#[test]
fn r_ignored_without_focus() {
    let mut app = App::new(None, Some("com.test"));
    assert!(matches!(app.handle_key(key(KeyCode::Char('r'))), Action::Noop));
}

#[test]
fn scroll_ignored_when_logcat_not_focused() {
    let mut app = App::new(None, Some("com.test"));
    assert_eq!(app.focused_panel(), None);
    app.handle_key(key(KeyCode::Up));
    app.handle_key(key(KeyCode::Down));
    assert_eq!(app.logcat_state().scroll, 0);
}

#[test]
fn d_focuses_database_panel() {
    let mut app = App::new(None, Some("com.test"));
    app.handle_key(key(KeyCode::Char('d')));
    assert_eq!(app.focused_panel(), Some(panel::DATABASE));
}

#[test]
fn db_panel_navigate_and_expand() {
    let mut app = App::new(None, Some("com.test"));
    app.database_state_mut().databases = vec!["a.db".into(), "b.db".into()];
    app.handle_key(key(KeyCode::Char('d')));
    app.handle_key(key(KeyCode::Down));
    assert_eq!(app.database_state().tree_cursor, 1);
    let action = app.handle_key(key(KeyCode::Enter));
    assert!(matches!(action, Action::DbFetchTables(ref d) if d == "b.db"));
    assert!(app.database_state().expanded.contains("b.db"));
}

#[test]
fn db_panel_enter_on_table_opens_detail() {
    let mut app = App::new(None, Some("com.test"));
    app.database_state_mut().databases = vec!["a.db".into()];
    app.database_state_mut().expanded.insert("a.db".into());
    app.database_state_mut().tables.insert("a.db".into(), vec!["users".into()]);
    app.handle_key(key(KeyCode::Char('d')));
    app.handle_key(key(KeyCode::Down)); // cursor to "users"
    app.handle_key(key(KeyCode::Enter));
    assert!(app.database_state().detail_open);
    assert_eq!(
        app.database_state().selected_table.as_ref().map(|(_, t)| t.as_str()),
        Some("users"),
    );
}

#[test]
fn db_panel_esc_closes_detail_then_unfocuses() {
    let mut app = App::new(None, Some("com.test"));
    app.database_state_mut().databases = vec!["a.db".into()];
    app.database_state_mut().detail_open = true;
    app.database_state_mut().selected_table = Some(("a.db".into(), "t".into()));
    app.handle_key(key(KeyCode::Char('d')));
    app.handle_key(key(KeyCode::Esc));
    assert!(!app.database_state().detail_open);
    assert_eq!(app.focused_panel(), None);
}

#[test]
fn db_panel_slash_activates_repl() {
    let mut app = App::new(None, Some("com.test"));
    app.database_state_mut().databases = vec!["a.db".into()];
    app.handle_key(key(KeyCode::Char('d')));
    app.handle_key(key(KeyCode::Char('/')));
    assert!(app.database_state().repl_active);
    assert!(app.database_state().editing_query);
}

#[test]
fn query_editing_enter_returns_run_query_and_appends_history() {
    let mut app = App::new(None, Some("com.test"));
    app.database_state_mut().databases = vec!["test.db".into()];
    app.handle_key(key(KeyCode::Char('d')));
    app.handle_key(key(KeyCode::Char('/')));
    app.handle_key(key(KeyCode::Char('S')));
    app.handle_key(key(KeyCode::Char('Q')));
    app.handle_key(key(KeyCode::Char('L')));
    let action = app.handle_key(key(KeyCode::Enter));
    assert!(matches!(action, Action::RunQuery(_, _)));
    assert!(app.database_state().editing_query);
    assert!(app.database_state().textarea_text().is_empty());
    assert_eq!(app.database_state().history.len(), 1);
}

#[test]
fn repl_e_enters_editing_after_esc() {
    let mut app = App::new(None, Some("com.test"));
    app.database_state_mut().databases = vec!["a.db".into()];
    app.handle_key(key(KeyCode::Char('d')));
    app.handle_key(key(KeyCode::Char('/')));
    app.handle_key(key(KeyCode::Esc));
    assert!(app.database_state().repl_active);
    assert!(!app.database_state().editing_query);
    app.handle_key(key(KeyCode::Char('e')));
    assert!(app.database_state().editing_query);
}

#[test]
fn repl_up_scrolls_history() {
    let mut app = App::new(None, Some("com.test"));
    app.database_state_mut().databases = vec!["a.db".into()];
    app.handle_key(key(KeyCode::Char('d')));
    app.handle_key(key(KeyCode::Char('/')));
    app.handle_key(key(KeyCode::Esc));
    app.database_state_mut().history = vec![
        holo::database::ReplLine::Input("SELECT 1".into()),
        holo::database::ReplLine::Output("1".into()),
    ];
    app.handle_key(key(KeyCode::Up));
    assert_eq!(app.database_state().repl_scroll, 1);
}

#[test]
fn toggle_panel_5_visibility() {
    let mut app = App::new(None, Some("com.test"));
    app.handle_key(key(KeyCode::Char('5')));
    assert!(!app.panel_visibility()[4]);
    app.handle_key(key(KeyCode::Char('5')));
    assert!(app.panel_visibility()[4]);
}

#[test]
fn p_sets_confirming_pull_from_list_view() {
    let mut app = App::new(None, Some("com.test"));
    app.database_state_mut().databases = vec!["a.db".into(), "b.db".into()];
    app.handle_key(key(KeyCode::Char('d')));
    app.handle_key(key(KeyCode::Down));
    let action = app.handle_key(key(KeyCode::Char('p')));
    assert!(matches!(action, Action::Noop));
    assert_eq!(app.database_state().confirming_pull.as_deref(), Some("b.db"));
}

#[test]
fn app_pp_confirms_pull() {
    let mut app = App::new(None, Some("com.test"));
    app.database_state_mut().databases = vec!["a.db".into()];
    app.handle_key(key(KeyCode::Char('d')));
    app.handle_key(key(KeyCode::Char('p')));
    let action = app.handle_key(key(KeyCode::Char('p')));
    assert!(matches!(action, Action::PullDb(db) if db == "a.db"));
    assert!(app.database_state().confirming_pull.is_none());
}

#[test]
fn any_key_cancels_pull_confirmation() {
    let mut app = App::new(None, Some("com.test"));
    app.database_state_mut().databases = vec!["a.db".into()];
    app.handle_key(key(KeyCode::Char('d')));
    app.handle_key(key(KeyCode::Char('p')));
    assert!(app.database_state().confirming_pull.is_some());
    let action = app.handle_key(key(KeyCode::Esc));
    assert!(matches!(action, Action::Noop));
    assert!(app.database_state().confirming_pull.is_none());
}

#[test]
fn p_confirms_pull_for_cursor_db_when_table_cursor() {
    let mut app = App::new(None, Some("com.test"));
    app.database_state_mut().databases = vec!["a.db".into()];
    app.database_state_mut().expanded.insert("a.db".into());
    app.database_state_mut().tables.insert("a.db".into(), vec!["t".into()]);
    app.handle_key(key(KeyCode::Char('d')));
    app.handle_key(key(KeyCode::Down)); // cursor on table
    let action = app.handle_key(key(KeyCode::Char('p')));
    assert!(matches!(action, Action::Noop));
    assert_eq!(app.database_state().confirming_pull.as_deref(), Some("a.db"));
}

#[test]
fn toggle_focus_clears_tag_editing() {
    let mut app = App::new(None, Some("com.test"));
    app.handle_key(key(KeyCode::Char('l')));
    app.handle_key(key(KeyCode::Char('t')));
    assert_eq!(app.logcat_state().editing, Some(logcat::LogcatEditTarget::Tag));
    app.handle_key(key(KeyCode::Esc));
    app.handle_key(key(KeyCode::Char('l')));
    assert_eq!(app.logcat_state().editing, None);
}

#[test]
fn toggle_focus_clears_search_editing() {
    let mut app = App::new(None, Some("com.test"));
    app.handle_key(key(KeyCode::Char('l')));
    app.handle_key(key(KeyCode::Char('/')));
    assert_eq!(app.logcat_state().editing, Some(logcat::LogcatEditTarget::Search));
    app.handle_key(key(KeyCode::Esc));
    app.handle_key(key(KeyCode::Char('l')));
    assert_eq!(app.logcat_state().editing, None);
}

#[test]
fn switching_focus_clears_query_editing() {
    let mut app = App::new(None, Some("com.test"));
    app.database_state_mut().databases = vec!["a.db".into()];
    app.handle_key(key(KeyCode::Char('d')));
    app.handle_key(key(KeyCode::Char('/')));
    assert!(app.database_state().editing_query);
    app.handle_key(key(KeyCode::Esc));
    app.handle_key(key(KeyCode::Char('d')));
    assert!(!app.database_state().editing_query);
}

#[test]
fn r_refreshes_db_from_list_view() {
    let mut app = App::new(None, Some("com.test"));
    app.database_state_mut().databases = vec!["a.db".into()];
    app.handle_key(key(KeyCode::Char('d')));
    assert!(matches!(app.handle_key(key(KeyCode::Char('r'))), Action::RefreshDb));
    assert!(app.database_state().databases.is_empty());
}

#[test]
fn r_refreshes_db_from_repl_view() {
    let mut app = App::new(None, Some("com.test"));
    app.database_state_mut().databases = vec!["a.db".into()];
    app.handle_key(key(KeyCode::Char('d')));
    app.handle_key(key(KeyCode::Char('/')));
    app.handle_key(key(KeyCode::Esc));
    app.handle_key(key(KeyCode::Esc));
    assert!(!app.database_state().repl_active);
    assert!(matches!(app.handle_key(key(KeyCode::Char('r'))), Action::RefreshDb));
    assert!(app.database_state().databases.is_empty());
}

#[test]
fn c_copies_full_history() {
    let mut app = App::new(None, Some("com.test"));
    app.database_state_mut().databases = vec!["a.db".into()];
    app.handle_key(key(KeyCode::Char('d')));
    app.handle_key(key(KeyCode::Char('/')));
    app.handle_key(key(KeyCode::Esc));
    app.database_state_mut().push_query("SELECT 1");
    app.database_state_mut().push_result("1");
    let action = app.handle_key(key(KeyCode::Char('c')));
    assert!(matches!(action, Action::CopyDbResult(ref s) if s == "> SELECT 1\n1"));
}

#[test]
fn c_noop_without_output() {
    let mut app = App::new(None, Some("com.test"));
    app.database_state_mut().databases = vec!["a.db".into()];
    app.handle_key(key(KeyCode::Char('d')));
    app.handle_key(key(KeyCode::Char('/')));
    app.handle_key(key(KeyCode::Esc));
    let action = app.handle_key(key(KeyCode::Char('c')));
    assert!(matches!(action, Action::Noop));
}

#[test]
fn z_toggles_zoom_for_logcat() {
    let mut app = App::new(None, Some("com.test"));
    app.handle_key(key(KeyCode::Char('l')));
    assert_eq!(app.focused_panel(), Some(panel::LOGCAT));

    let original_vis = *app.panel_visibility();
    let original_cmd = app.commands().visible;

    app.handle_key(ctrl('z'));
    assert!(app.is_zoomed());
    assert_eq!(app.panel_visibility(), &[true, false, false, false, false, false, false, false]);
    assert!(!app.commands().visible);

    app.handle_key(ctrl('z'));
    assert!(!app.is_zoomed());
    assert_eq!(app.panel_visibility(), &original_vis);
    assert_eq!(app.commands().visible, original_cmd);
}

#[test]
fn z_toggles_zoom_for_commands() {
    let mut app = App::new(None, Some("com.test"));
    app.handle_key(key(KeyCode::Char('c')));
    assert_eq!(app.focused_panel(), Some(panel::COMMANDS));

    app.handle_key(ctrl('z'));
    assert!(app.is_zoomed());
    assert_eq!(app.panel_visibility(), &[false; 8]);
    assert!(app.commands().visible);

    app.handle_key(ctrl('z'));
    assert!(!app.is_zoomed());
    assert_eq!(app.panel_visibility(), &[true; 8]);
}

#[test]
fn esc_exits_zoom() {
    let mut app = App::new(None, Some("com.test"));
    app.handle_key(key(KeyCode::Char('l')));
    let original_vis = *app.panel_visibility();

    app.handle_key(ctrl('z'));
    assert!(app.is_zoomed());

    app.handle_key(key(KeyCode::Esc));
    assert!(!app.is_zoomed());
    assert_eq!(app.panel_visibility(), &original_vis);
    assert_eq!(app.focused_panel(), None);
}

#[test]
fn visibility_toggle_clears_zoom() {
    let mut app = App::new(None, Some("com.test"));
    app.handle_key(key(KeyCode::Char('l')));
    app.handle_key(ctrl('z'));
    assert!(app.is_zoomed());

    app.handle_key(key(KeyCode::Esc));
    app.handle_key(key(KeyCode::Char('2')));
    assert!(!app.is_zoomed());
}

#[test]
fn z_noop_without_focus() {
    let mut app = App::new(None, Some("com.test"));
    let original_vis = *app.panel_visibility();
    app.handle_key(ctrl('z'));
    assert!(!app.is_zoomed());
    assert_eq!(app.panel_visibility(), &original_vis);
}

#[test]
fn focus_key_ignored_for_hidden_panel() {
    let mut app = App::new(None, Some("com.test"));
    app.handle_key(key(KeyCode::Char('1')));
    assert!(!app.panel_visibility()[0]);
    app.handle_key(key(KeyCode::Char('l')));
    assert_eq!(app.focused_panel(), None);
}

#[test]
fn hiding_focused_panel_clears_focus() {
    let mut app = App::new(None, Some("com.test"));
    app.handle_key(key(KeyCode::Char('l')));
    assert_eq!(app.focused_panel(), Some(panel::LOGCAT));
    app.handle_key(key(KeyCode::Esc));
    app.handle_key(key(KeyCode::Char('1')));
    assert_eq!(app.focused_panel(), None);
}

#[test]
fn hiding_commands_clears_focus() {
    let mut app = App::new(None, Some("com.test"));
    app.handle_key(key(KeyCode::Char('c')));
    assert_eq!(app.focused_panel(), Some(panel::COMMANDS));
    app.handle_key(key(KeyCode::Esc));
    assert_eq!(app.focused_panel(), None);
    app.handle_key(key(KeyCode::Char('0')));
    assert!(!app.commands().visible);
    app.handle_key(key(KeyCode::Char('c')));
    assert_eq!(app.focused_panel(), None);
}

#[test]
fn status_flash_shows_for_two_seconds() {
    let mut app = App::new(None, Some("com.test"));
    assert_eq!(app.flash_at(0), None);
    app.set_status_flash("saved".to_string(), false);
    assert_eq!(app.flash_at(0), Some(("saved", false)));
    assert_eq!(app.flash_at(1999), Some(("saved", false)));
    assert_eq!(app.flash_at(2000), None);
    assert_eq!(app.status_flash_active(), Some(("saved", false)));
}

#[test]
fn triggered_shortcut_is_highlighted_for_two_seconds() {
    let mut app = App::new(None, Some("com.test"));
    assert!(!app.commands.highlight_at(0));
    app.commands.triggered = Some(('o', std::time::Instant::now()));
    assert!(app.commands.highlight_at(1999));
    assert!(!app.commands.highlight_at(2000));
    assert!(app.has_active_animation());
}
