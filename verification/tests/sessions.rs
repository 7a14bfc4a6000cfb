use holo::app::Action;
use holo::keys::{KeyCode, KeyEvent, KeyModifiers};
use holo::session::SessionId;
use holo::sessions::{device_label, sessions_root_from, SessionSummary, SessionsState};

fn key(code: KeyCode) -> KeyEvent {
    KeyEvent::new(code, KeyModifiers::NONE)
}

fn summary(pid: u32, dir: &str) -> SessionSummary {
    SessionSummary {
        id: SessionId { package: "com.test".into(), dir_name: dir.into() },
        started_at: 1_700_000_000,
        ended_at: None,
        duration_secs: None,
        size_bytes: 0,
        pid,
        device_serial: "emu".into(),
        device_model: None,
    }
}

fn summary_with_device(model: Option<&str>, serial: &str) -> SessionSummary {
    SessionSummary {
        id: SessionId { package: "com.test".into(), dir_name: "x".into() },
        started_at: 1_700_000_000,
        ended_at: None,
        duration_secs: None,
        size_bytes: 0,
        pid: 1,
        device_serial: serial.into(),
        device_model: model.map(|m| m.to_string()),
    }
}

#[test]
fn dialog_always_has_a_live_row() {
    let s = SessionsState::new();
    assert_eq!(s.total_rows(), 1);
    assert!(s.history_at(0).is_none());
}

#[test]
fn live_session_is_filtered_out_of_history() {
    let mut s = SessionsState::new();
    let live = summary(99, "live");
    s.live_id = Some(live.id.clone());
    s.set_sessions(vec![live, summary(1, "older"), summary(2, "older2")]);
    assert_eq!(s.total_rows(), 3);
    assert_eq!(s.history_at(1).unwrap().id.dir_name, "older");
    assert_eq!(s.history_at(2).unwrap().id.dir_name, "older2");
}

#[test]
fn navigate_clamps_to_total_rows() {
    let mut s = SessionsState::new();
    s.set_sessions(vec![summary(1, "a"), summary(2, "b")]);
    s.handle_key(key(KeyCode::Char('j')), None);
    assert_eq!(s.selected, 1);
    s.handle_key(key(KeyCode::Char('j')), None);
    assert_eq!(s.selected, 2);
    s.handle_key(key(KeyCode::Char('j')), None);
    assert_eq!(s.selected, 2);
    s.handle_key(key(KeyCode::Char('k')), None);
    assert_eq!(s.selected, 1);
}

#[test]
fn enter_on_live_row_emits_close_session() {
    let s = &mut SessionsState::new();
    let action = s.handle_key(key(KeyCode::Enter), None);
    assert!(matches!(action, Some(Action::CloseSession)));
}

#[test]
fn enter_on_history_row_opens_that_session() {
    let mut s = SessionsState::new();
    s.set_sessions(vec![summary(1, "older")]);
    s.handle_key(key(KeyCode::Char('j')), None);
    let action = s.handle_key(key(KeyCode::Enter), None);
    assert!(matches!(action, Some(Action::OpenSession(_))));
}

#[test]
fn esc_always_unfocuses() {
    let mut s = SessionsState::new();
    let action = s.handle_key(key(KeyCode::Esc), None);
    assert!(matches!(action, Some(Action::Unfocus)));

    let viewed = SessionId { package: "com.test".into(), dir_name: "x".into() };
    let action = s.handle_key(key(KeyCode::Esc), Some(&viewed));
    assert!(matches!(action, Some(Action::Unfocus)));
}

#[test]
fn d_on_live_row_is_noop() {
    let mut s = SessionsState::new();
    let action = s.handle_key(key(KeyCode::Char('d')), None);
    assert!(matches!(action, Some(Action::Noop)));
}

#[test]
fn d_emits_delete_for_history_row() {
    let mut s = SessionsState::new();
    s.set_sessions(vec![summary(1, "older")]);
    s.handle_key(key(KeyCode::Char('j')), None);
    let action = s.handle_key(key(KeyCode::Char('d')), None);
    assert!(matches!(action, Some(Action::DeleteSession(_))));
}

#[test]
fn d_is_noop_on_currently_viewed_session() {
    let mut s = SessionsState::new();
    let viewed = summary(7, "viewed");
    let viewed_id = viewed.id.clone();
    s.set_sessions(vec![viewed]);
    s.handle_key(key(KeyCode::Char('j')), Some(&viewed_id));
    let action = s.handle_key(key(KeyCode::Char('d')), Some(&viewed_id));
    assert!(matches!(action, Some(Action::Noop)));
}

#[test]
fn c_emits_copy_path_with_sessions_root() {
    let mut s = SessionsState::new();
    let action = s.handle_key(key(KeyCode::Char('c')), None);
    let Some(Action::CopyPath(path)) = action else {
        panic!("expected CopyPath action");
    };
    assert!(path.ends_with("holo/sessions"), "expected sessions root path, got {path}");
}

#[test]
fn device_label_prefers_model_when_present() {
    let s = summary_with_device(Some("Pixel 8"), "1234abcd");
    assert_eq!(device_label(&s), "Pixel 8");
}

#[test]
fn device_label_falls_back_to_serial_for_empty_or_missing_model() {
    let s = summary_with_device(None, "emulator-5554");
    assert_eq!(device_label(&s), "emulator-5554");
    let s = summary_with_device(Some(""), "emulator-5554");
    assert_eq!(device_label(&s), "emulator-5554");
}

#[test]
fn set_sessions_clamps_the_cursor() {
    let mut s = SessionsState::new();
    s.set_sessions(vec![summary(1, "a"), summary(2, "b")]);
    s.selected = 2;
    s.set_sessions(vec![summary(3, "c")]);
    assert_eq!(s.selected, 1);
    assert!(s.error.is_none());
}

#[test]
fn sessions_live_under_the_cache_directory() {
    assert_eq!(sessions_root_from(Some("/home/u/.cache".into())), "/home/u/.cache/holo/sessions");
    assert_eq!(sessions_root_from(None), "./holo/sessions");
}
