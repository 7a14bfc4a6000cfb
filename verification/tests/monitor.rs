use holo::monitor::{format_ago, range_shifted};
use holo::app::Action;
use holo::keys::{KeyCode, KeyEvent};
use holo::memory::Trend;
use holo::monitor::{GcEvent, MonitorSample, MonitorState, MonitorView, MAX_SAMPLES, NS_PER_SEC, RETENTION_NS};

fn sample(data: u64) -> MonitorSample {
    MonitorSample {
        data_kb: data,
        debuggable: true,
    }
}

#[test]
fn monitor_push_caps_at_max_samples() {
    let mut state = MonitorState::new();
    for i in 0..130 {
        state.push(sample(i));
    }
    assert_eq!(state.history.len(), MAX_SAMPLES);
    assert_eq!(state.history.last().unwrap().data_kb, 129);
}

#[test]
fn monitor_trend_stable_with_few_samples() {
    let mut state = MonitorState::new();
    state.push(sample(100));
    state.push(sample(200));
    assert_eq!(state.trend_u64(|m| m.data_kb), Trend::Stable);
}

#[test]
fn monitor_trend_rising_when_increasing() {
    let mut state = MonitorState::new();
    for i in 0..5 {
        state.push(sample(100 + i * 20));
    }
    assert_eq!(state.trend_u64(|m| m.data_kb), Trend::Rising);
}

#[test]
fn monitor_trend_falling_when_decreasing() {
    let mut state = MonitorState::new();
    for i in 0..5 {
        state.push(sample(200 - i * 20));
    }
    assert_eq!(state.trend_u64(|m| m.data_kb), Trend::Falling);
}

#[test]
fn monitor_trend_stable_with_small_changes() {
    let mut state = MonitorState::new();
    for i in 0..5 {
        state.push(sample(1000 + i));
    }
    assert_eq!(state.trend_u64(|m| m.data_kb), Trend::Stable);
}

#[test]
fn push_tracks_debuggable_flag() {
    let mut state = MonitorState::new();
    assert!(state.debuggable);
    state.push(MonitorSample {
        debuggable: false,
        ..Default::default()
    });
    assert!(!state.debuggable);
}

fn key_event(code: KeyCode) -> KeyEvent {
    KeyEvent::from_code(code)
}

#[test]
fn cycle_view_forward_wraps_through_all_positions() {
    let mut v = MonitorView::All;
    let order = [
        MonitorView::Cpu,
        MonitorView::Memory,
        MonitorView::Disk,
        MonitorView::Network,
        MonitorView::All,
    ];
    for expected in order {
        v = v.cycle(true);
        assert_eq!(v, expected);
    }
}

#[test]
fn cycle_view_backward_wraps_to_last() {
    assert_eq!(MonitorView::All.cycle(false), MonitorView::Network);
}

#[test]
fn handle_key_right_advances_view() {
    let mut state = MonitorState::new();
    state.handle_key(key_event(KeyCode::Right));
    assert_eq!(state.view, MonitorView::Cpu);
}

#[test]
fn handle_key_left_steps_view_backwards() {
    let mut state = MonitorState::new();
    state.view = MonitorView::Memory;
    state.handle_key(key_event(KeyCode::Left));
    assert_eq!(state.view, MonitorView::Cpu);
}

#[test]
fn handle_key_esc_unfocuses_without_resetting_view() {
    let mut state = MonitorState::new();
    state.view = MonitorView::Disk;
    let action = state.handle_key(key_event(KeyCode::Esc));
    assert!(matches!(action, Some(Action::Unfocus)));
    assert_eq!(state.view, MonitorView::Disk);
}

#[test]
fn push_gc_records_event() {
    let mut state = MonitorState::new();
    state.push_gc(42, 1234);
    assert_eq!(state.gc_events.len(), 1);
    assert_eq!(state.gc_events[0].ts_ns, 42);
    assert_eq!(state.gc_events[0].duration_us, 1234);
}

#[test]
fn push_memory_records_sample_and_caps() {
    let mut state = MonitorState::new();
    for i in 0..(MAX_SAMPLES as i64 + 5) {
        state.push_memory(i * NS_PER_SEC, (1000 + i) as u64, 0, 0);
    }
    assert_eq!(state.memory_history.len(), MAX_SAMPLES);
    assert_eq!(
        state.memory_history.last().unwrap().rss_kb,
        (1000 + MAX_SAMPLES as i64 + 4) as u64,
    );
}

#[test]
fn push_memory_evicts_stale_gc_events() {
    let mut state = MonitorState::new();
    // GC event from "the distant past" relative to a fresh memory sample.
    state.gc_events.push(GcEvent { ts_ns: 0, duration_us: 5 });
    state.push_memory(RETENTION_NS + NS_PER_SEC, 100, 0, 0);
    assert!(state.gc_events.is_empty());
}

#[test]
fn push_memory_keeps_recent_gc_events() {
    let mut state = MonitorState::new();
    let now = 500 * NS_PER_SEC;
    state.gc_events.push(GcEvent { ts_ns: now - NS_PER_SEC, duration_us: 5 });
    state.push_memory(now, 100, 0, 0);
    assert_eq!(state.gc_events.len(), 1);
}

#[test]
fn evict_keeps_events_at_exact_cutoff() {
    let mut state = MonitorState::new();
    let now = 500 * NS_PER_SEC;
    state.gc_events = vec![GcEvent { ts_ns: now - RETENTION_NS, duration_us: 99 }];
    state.evict_at_ns(now);
    assert_eq!(state.gc_events.len(), 1);
}

#[test]
fn latest_agent_ts_ns_picks_freshest_across_streams() {
    let mut state = MonitorState::new();
    assert_eq!(state.latest_agent_ts_ns(), None);
    state.push_memory(100, 1, 0, 0);
    state.push_gc(200, 1);
    assert_eq!(state.latest_agent_ts_ns(), Some(200));
    state.push_memory(300, 2, 0, 0);
    assert_eq!(state.latest_agent_ts_ns(), Some(300));
    state.push_cpu(400, 12.5f32.to_bits(), 17);
    assert_eq!(state.latest_agent_ts_ns(), Some(400));
}

#[test]
fn push_cpu_records_sample_and_caps() {
    let mut state = MonitorState::new();
    for i in 0..(MAX_SAMPLES as i64 + 5) {
        state.push_cpu(i * NS_PER_SEC, (i as f32).to_bits(), i as u32);
    }
    assert_eq!(state.cpu_history.len(), MAX_SAMPLES);
    let last = state.cpu_history.last().unwrap();
    assert_eq!(f32::from_bits(last.cpu_percent_bits), (MAX_SAMPLES as i64 + 4) as f32);
    assert_eq!(last.num_threads, (MAX_SAMPLES as i64 + 4) as u32);
}

#[test]
fn push_cpu_evicts_stale_gc_events() {
    let mut state = MonitorState::new();
    state.gc_events.push(GcEvent { ts_ns: 0, duration_us: 5 });
    state.push_cpu(RETENTION_NS + NS_PER_SEC, 25.0f32.to_bits(), 17);
    assert!(state.gc_events.is_empty());
}

#[test]
fn ago_labels_use_minutes_past_a_minute() {
    assert_eq!(format_ago(0), "0s");
    assert_eq!(format_ago(45), "45s");
    assert_eq!(format_ago(60), "1m");
    assert_eq!(format_ago(125), "2m5s");
    assert_eq!(format_ago(3600), "60m");
}

#[test]
fn series_shift_to_their_smallest_nonzero_sample() {
    let (bars, top) = range_shifted(&[0, 100, 105, 0, 120]);
    assert_eq!(bars, vec![None, Some(0), Some(5), None, Some(20)]);
    assert_eq!(top, 20);
}

#[test]
fn an_all_zero_series_draws_no_bars() {
    let (bars, top) = range_shifted(&[0, 0, 0]);
    assert_eq!(bars, vec![None, None, None]);
    assert_eq!(top, 0);
    let (bars, top) = range_shifted(&[]);
    assert!(bars.is_empty());
    assert_eq!(top, 0);
}
