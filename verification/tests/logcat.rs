use holo::logcat::{next_level, parse, LogcatFilter, LogcatState};

#[test]
fn logcat_parse_valid_line() {
    let line = "03-20 17:20:19.256 17010 17026 D Measure : EventProcessor started";
    let parsed = parse(line).unwrap();
    assert_eq!(parsed.timestamp, "17:20:19.256");
    assert_eq!(parsed.level, 'D');
    assert_eq!(parsed.tag, "Measure");
    assert_eq!(parsed.message, "EventProcessor started");
}

#[test]
fn parse_line_with_padded_fields() {
    let line = "03-20 21:35:22.958  3725  3742 D Measure : Span processed: SampleApp.onCreate, 102ms";
    let parsed = parse(line).unwrap();
    assert_eq!(parsed.timestamp, "21:35:22.958");
    assert_eq!(parsed.level, 'D');
    assert_eq!(parsed.tag, "Measure");
    assert_eq!(parsed.message, "Span processed: SampleApp.onCreate, 102ms");
}

#[test]
fn parse_missing_fields() {
    assert!(parse("03-20 17:20:19.256").is_none());
}

#[test]
fn parse_invalid_level() {
    let line = "03-20 17:20:19.256 17010 17026 X Tag : msg";
    assert!(parse(line).is_none());
}

#[test]
fn parse_no_message() {
    let line = "03-20 17:20:19.256 17010 17026 D Tag :";
    let parsed = parse(line).unwrap();
    assert_eq!(parsed.tag, "Tag");
    assert_eq!(parsed.message, "");
}

#[test]
fn logcat_new_state_has_empty_filter_and_zero_scroll() {
    let state = LogcatState::new();
    assert_eq!(state.filter.tag, "");
    assert_eq!(state.filter.search, "");
    assert_eq!(state.filter.level, None);
    assert_eq!(state.scroll, 0);
}

#[test]
fn logcat_reset_clears_filter_and_scroll() {
    let mut state = LogcatState::new();
    state.filter.tag = "MyTag".into();
    state.filter.search = "error".into();
    state.filter.level = Some('E');
    state.scroll = 5;
    state.reset();
    assert_eq!(state.filter.tag, "");
    assert_eq!(state.filter.search, "");
    assert_eq!(state.filter.level, None);
    assert_eq!(state.scroll, 0);
}

#[test]
fn logcat_cycle_level_forward() {
    let mut state = LogcatState::new();
    assert_eq!(state.filter.level, None);
    state.cycle_level(true);
    assert_eq!(state.filter.level, Some('V'));
    state.cycle_level(true);
    assert_eq!(state.filter.level, Some('D'));
}

#[test]
fn logcat_cycle_level_backward() {
    let mut state = LogcatState::new();
    state.cycle_level(false);
    assert_eq!(state.filter.level, Some('F'));
}

#[test]
fn logcat_cycle_level_wraps() {
    let mut state = LogcatState::new();
    for _ in 0..7 {
        state.cycle_level(true);
    }
    assert_eq!(state.filter.level, None);
}

#[test]
fn logcat_clamp_scroll_limits_to_max() {
    let mut state = LogcatState::new();
    state.scroll = 100;
    state.clamp_scroll(50, 20);
    assert_eq!(state.scroll, 30);
}

#[test]
fn logcat_adjust_scroll_increments_when_scrolled() {
    let mut state = LogcatState::new();
    state.scroll = 5;
    state.adjust_scroll_for_new_lines(3);
    assert_eq!(state.scroll, 8);
}

#[test]
fn logcat_adjust_scroll_noop_when_at_bottom() {
    let mut state = LogcatState::new();
    state.scroll = 0;
    state.adjust_scroll_for_new_lines(3);
    assert_eq!(state.scroll, 0);
}

#[test]
fn filter_matches_all_by_default() {
    let filter = LogcatFilter::new();
    assert!(filter.matches("01-01 12:00:00.000  1234  5678 D MyTag   : hello"));
}

#[test]
fn filter_by_level() {
    let mut filter = LogcatFilter::new();
    filter.level = Some('E');
    assert!(!filter.matches("01-01 12:00:00.000  1234  5678 D MyTag   : hello"));
    assert!(filter.matches("01-01 12:00:00.000  1234  5678 E MyTag   : error"));
}

#[test]
fn filter_by_tag() {
    let mut filter = LogcatFilter::new();
    filter.tag = "MyTag".into();
    assert!(filter.matches("01-01 12:00:00.000  1234  5678 D MyTag   : hello"));
    assert!(!filter.matches("01-01 12:00:00.000  1234  5678 D Other   : hello"));
}

#[test]
fn filter_by_search() {
    let mut filter = LogcatFilter::new();
    filter.search = "error".into();
    assert!(filter.matches("01-01 12:00:00.000  1234  5678 D MyTag   : some error here"));
    assert!(!filter.matches("01-01 12:00:00.000  1234  5678 D MyTag   : hello world"));
}

#[test]
fn level_filter_steps_back_to_where_it_was() {
    for l in [None, Some('V'), Some('D'), Some('I'), Some('W'), Some('E'), Some('F')] {
        for forward in [true, false] {
            assert_eq!(next_level(next_level(l, forward), !forward), l);
        }
    }
}
