use holo::logcat_state::LogcatState;

#[test]
fn logcat_state_new_state_has_empty_filter_and_zero_scroll() {
    let state = LogcatState::new();
    assert_eq!(state.filter.tag, "");
    assert_eq!(state.filter.search, "");
    assert_eq!(state.filter.level, None);
    assert_eq!(state.scroll, 0);
}

#[test]
fn logcat_state_reset_clears_filter_and_scroll() {
    let mut state = LogcatState::new();
    state.filter.tag = "MyTag".into();
    state.filter.search = "error".into();
    state.filter.level = Some('E');
    state.scroll = 5;
    state.reset();
    assert_eq!(state.filter.tag, "");
    assert_eq!(state.filter.search, "");
    assert_eq!(state.filter.level, None);
    assert_eq!(state.scroll, 0);
}

#[test]
fn logcat_state_cycle_level_forward() {
    let mut state = LogcatState::new();
    assert_eq!(state.filter.level, None);
    state.cycle_level(true);
    assert_eq!(state.filter.level, Some('V'));
    state.cycle_level(true);
    assert_eq!(state.filter.level, Some('D'));
}

#[test]
fn logcat_state_cycle_level_backward() {
    let mut state = LogcatState::new();
    state.cycle_level(false);
    assert_eq!(state.filter.level, Some('F'));
}

#[test]
fn logcat_state_cycle_level_wraps() {
    let mut state = LogcatState::new();
    for _ in 0..7 {
        state.cycle_level(true);
    }
    assert_eq!(state.filter.level, None);
}

#[test]
fn logcat_state_clamp_scroll_limits_to_max() {
    let mut state = LogcatState::new();
    state.scroll = 100;
    state.clamp_scroll(50, 20);
    assert_eq!(state.scroll, 30);
}

#[test]
fn logcat_state_adjust_scroll_increments_when_scrolled() {
    let mut state = LogcatState::new();
    state.scroll = 5;
    state.adjust_scroll_for_new_lines(3);
    assert_eq!(state.scroll, 8);
}

#[test]
fn logcat_state_adjust_scroll_noop_when_at_bottom() {
    let mut state = LogcatState::new();
    state.scroll = 0;
    state.adjust_scroll_for_new_lines(3);
    assert_eq!(state.scroll, 0);
}
