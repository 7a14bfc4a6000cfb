use holo::anrs::AnrEntry;
use holo::app::Action;
use holo::crashes::CrashEntry;
use holo::issues::{IssueKind, IssuesState};
use holo::keys::{KeyCode, KeyEvent, KeyModifiers};

fn key(code: KeyCode) -> KeyEvent {
    KeyEvent::new(code, KeyModifiers::NONE)
}

#[test]
fn merges_and_sorts_by_timestamp() {
    let mut state = IssuesState::new();
    state.set_crashes(vec![
        CrashEntry { timestamp: "2024-01-15 10:00:00".into(), exception: "NPE".into(), full_text: "c1".into() },
        CrashEntry { timestamp: "2024-01-15 12:00:00".into(), exception: "OOM".into(), full_text: "c2".into() },
    ]);
    state.set_anrs(vec![
        AnrEntry { timestamp: "2024-01-15 11:00:00".into(), reason: "Input timeout".into(), full_text: "a1".into() },
    ]);
    assert_eq!(state.issues.len(), 3);
    assert_eq!(state.issues[0].timestamp, "2024-01-15 12:00:00");
    assert_eq!(state.issues[0].kind, IssueKind::Crash);
    assert_eq!(state.issues[1].timestamp, "2024-01-15 11:00:00");
    assert_eq!(state.issues[1].kind, IssueKind::Anr);
    assert_eq!(state.issues[2].timestamp, "2024-01-15 10:00:00");
    assert_eq!(state.issues[2].kind, IssueKind::Crash);
}

#[test]
fn issues_navigate_list() {
    let mut state = IssuesState::new();
    state.set_crashes(vec![
        CrashEntry { timestamp: "t1".into(), exception: "e1".into(), full_text: "f1".into() },
        CrashEntry { timestamp: "t2".into(), exception: "e2".into(), full_text: "f2".into() },
    ]);
    assert_eq!(state.selected, 0);
    state.handle_key(key(KeyCode::Char('j')));
    assert_eq!(state.selected, 1);
    state.handle_key(key(KeyCode::Char('j')));
    assert_eq!(state.selected, 1);
    state.handle_key(key(KeyCode::Char('k')));
    assert_eq!(state.selected, 0);
}

#[test]
fn enter_opens_in_editor() {
    let mut state = IssuesState::new();
    state.set_crashes(vec![
        CrashEntry { timestamp: "t".into(), exception: "e".into(), full_text: "full".into() },
    ]);
    let action = state.handle_key(key(KeyCode::Enter));
    assert!(matches!(action, Some(Action::OpenInEditor(ref s)) if s == "full"));
}

#[test]
fn esc_unfocuses() {
    let state = &mut IssuesState::new();
    let action = state.handle_key(key(KeyCode::Esc));
    assert!(matches!(action, Some(Action::Unfocus)));
}
