use holo::adb::MemInfo;
use holo::memory::{MemoryState, Trend, MAX_SAMPLES};

fn sample(total: u64, _java: u64, _native: u64) -> MemInfo {
    MemInfo { rss_kb: total }
}

#[test]
fn memory_push_caps_at_max_samples() {
    let mut state = MemoryState::new();
    for i in 0..70 {
        state.push(sample(i, 0, 0));
    }
    assert_eq!(state.history.len(), MAX_SAMPLES);
    assert_eq!(state.first().unwrap().rss_kb, 10);
    assert_eq!(state.latest().unwrap().rss_kb, 69);
}

#[test]
fn memory_trend_stable_with_few_samples() {
    let mut state = MemoryState::new();
    state.push(sample(100, 0, 0));
    state.push(sample(200, 0, 0));
    assert_eq!(state.trend(|m| m.rss_kb), Trend::Stable);
}

#[test]
fn memory_trend_rising_when_increasing() {
    let mut state = MemoryState::new();
    for i in 0..5 {
        state.push(sample(100 + i * 20, 0, 0));
    }
    assert_eq!(state.trend(|m| m.rss_kb), Trend::Rising);
}

#[test]
fn memory_trend_falling_when_decreasing() {
    let mut state = MemoryState::new();
    for i in 0..5 {
        state.push(sample(200 - i * 20, 0, 0));
    }
    assert_eq!(state.trend(|m| m.rss_kb), Trend::Falling);
}

#[test]
fn memory_trend_stable_with_small_changes() {
    let mut state = MemoryState::new();
    for i in 0..5 {
        state.push(sample(1000 + i, 0, 0));
    }
    assert_eq!(state.trend(|m| m.rss_kb), Trend::Stable);
}

#[test]
fn sparkline_data_extracts_values() {
    let mut state = MemoryState::new();
    state.push(MemInfo { rss_kb: 40 });
    state.push(MemInfo { rss_kb: 45 });
    assert_eq!(state.sparkline_data(|m| m.rss_kb), vec![40, 45]);
}
