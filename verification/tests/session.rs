use holo::session::{pid_step, PidAction, PID_GONE_GRACE_MS};
use holo::session::{artifact_dir_for_inner, SessionId};
use std::path::PathBuf;

fn id(dir: &str) -> SessionId {
    SessionId {
        package: "com.test".into(),
        dir_name: dir.into(),
    }
}

fn path(parts: Vec<String>) -> PathBuf {
    parts.iter().collect()
}

#[test]
fn resolver_prefers_viewed_session_over_live() {
    let viewed = id("captured");
    let live = id("running");
    let dir = path(artifact_dir_for_inner(Some(&viewed), Some(&live), Some("com.test"), "dumps").unwrap());
    assert!(dir.ends_with("captured/dumps"));
}

#[test]
fn resolver_falls_back_to_live_when_not_viewing() {
    let live = id("running");
    let dir = path(artifact_dir_for_inner(None, Some(&live), Some("com.test"), "screenshots").unwrap());
    assert!(dir.ends_with("running/screenshots"));
}

#[test]
fn resolver_uses_unsessioned_when_no_session_active() {
    let dir = path(artifact_dir_for_inner(None, None, Some("com.test"), "screenshots").unwrap());
    assert!(dir.ends_with("com.test/_unsessioned/screenshots"));
}

#[test]
fn resolver_returns_none_without_a_package() {
    let dir = artifact_dir_for_inner(None, None, None, "screenshots");
    assert!(dir.is_none());
}

#[test]
fn pid_changes_start_restart_and_keep_watching() {
    assert_eq!(pid_step(None, Some(42), None), (PidAction::Start(42), false));
    assert_eq!(pid_step(Some(42), Some(42), Some(1000)), (PidAction::Nothing, false));
    assert_eq!(pid_step(Some(42), Some(43), None), (PidAction::Restart(43), false));
    assert_eq!(pid_step(None, None, Some(9000)), (PidAction::Nothing, false));
}

#[test]
fn a_vanished_pid_is_kept_for_the_grace_period() {
    assert_eq!(pid_step(Some(42), None, None), (PidAction::Nothing, true));
    assert_eq!(pid_step(Some(42), None, Some(PID_GONE_GRACE_MS - 1)), (PidAction::Nothing, true));
    assert_eq!(pid_step(Some(42), None, Some(PID_GONE_GRACE_MS)), (PidAction::Stop, false));
}
