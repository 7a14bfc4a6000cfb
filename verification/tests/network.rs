use holo::app::Action;
use holo::keys::{KeyCode, KeyEvent, KeyModifiers};
use holo::network::{parse_http_data, NetworkEntry, NetworkState, TrafficSample, MAX_TRAFFIC};
use holo::network::format_headers_text;
use holo::network::entry_exportable;

const SAMPLE_LINE: &str = "04-08 09:17:37.261 23922 23938 D Measure : EventProcessor: HTTP, HttpData(url=https://postman-echo.com/status/200, method=get, status_code=200, start_time=54525376, end_time=54525792, failure_reason=null, failure_description=null, request_headers={}, response_headers={}, request_body=null, response_body=null, client=okhttp)";

#[test]
fn network_parse_valid_line() {
    let entry = parse_http_data(SAMPLE_LINE).unwrap();
    assert_eq!(entry.url, "https://postman-echo.com/status/200");
    assert_eq!(entry.method, "get");
    assert_eq!(entry.status_code, 200);
    assert_eq!(entry.latency_ms, 416);
    assert!(entry.failure_reason.is_none());
    assert_eq!(entry.client, "okhttp");
    assert_eq!(entry.timestamp, "09:17:37.261");
    assert_eq!(entry.request_headers, "{}");
    assert_eq!(entry.response_headers, "{}");
    assert_eq!(entry.request_body, "null");
    assert_eq!(entry.response_body, "null");
}

#[test]
fn parse_non_measure_line() {
    let line = "04-08 09:17:37.261 23922 23938 D OkHttp  : some other log";
    assert!(parse_http_data(line).is_none());
}

#[test]
fn parse_non_http_measure_line() {
    let line = "04-08 09:17:37.261 23922 23938 D Measure : EventProcessor: Lifecycle, something";
    assert!(parse_http_data(line).is_none());
}

#[test]
fn parse_malformed_line() {
    let line = "not a logcat line at all";
    assert!(parse_http_data(line).is_none());
}

#[test]
fn parse_drops_localhost() {
    let line = "04-08 09:17:37.261 23922 23938 D Measure : EventProcessor: HTTP, HttpData(url=http://localhost:8081/message?device=Pixel&app=com.foo.debug&clientid=BridgelessDevSupportManager, method=get, status_code=200, start_time=1, end_time=2, failure_reason=null, failure_description=null, request_headers={}, response_headers={}, request_body=null, response_body=null, client=okhttp)";
    assert!(parse_http_data(line).is_none());
}

#[test]
fn parse_drops_loopback_ip() {
    let line = "04-08 09:17:37.261 23922 23938 D Measure : EventProcessor: HTTP, HttpData(url=http://127.0.0.1:8081/inspector/device, method=get, status_code=200, start_time=1, end_time=2, failure_reason=null, failure_description=null, request_headers={}, response_headers={}, request_body=null, response_body=null, client=okhttp)";
    assert!(parse_http_data(line).is_none());
}

#[test]
fn parse_drops_emulator_host() {
    let line = "04-08 09:17:37.261 23922 23938 D Measure : EventProcessor: HTTP, HttpData(url=http://10.0.2.2:3000/api, method=get, status_code=200, start_time=1, end_time=2, failure_reason=null, failure_description=null, request_headers={}, response_headers={}, request_body=null, response_body=null, client=okhttp)";
    assert!(parse_http_data(line).is_none());
}

#[test]
fn parse_keeps_non_localhost_urls() {
    let line = "04-08 09:17:37.261 23922 23938 D Measure : EventProcessor: HTTP, HttpData(url=https://api.example.com/inspector/devices/42, method=get, status_code=200, start_time=1, end_time=2, failure_reason=null, failure_description=null, request_headers={}, response_headers={}, request_body=null, response_body=null, client=okhttp)";
    let entry = parse_http_data(line).unwrap();
    assert_eq!(entry.url, "https://api.example.com/inspector/devices/42");
}

#[test]
fn state_entry_count() {
    let mut state = NetworkState::new();
    state.push(make_entry(200, 100));
    state.push(make_entry(404, 50));
    assert_eq!(state.entries.len(), 2);
}

#[test]
fn cursor_navigation() {
    let mut state = NetworkState::new();
    state.push(make_entry(200, 100));
    state.push(make_entry(200, 200));
    state.push(make_entry(200, 300));
    // auto-follow puts cursor at last
    assert_eq!(state.selected, 2);
    state.handle_key(key(KeyCode::Char('k')));
    assert_eq!(state.selected, 1);
    state.handle_key(key(KeyCode::Char('k')));
    assert_eq!(state.selected, 0);
    state.handle_key(key(KeyCode::Char('k')));
    assert_eq!(state.selected, 0); // clamped
    state.handle_key(key(KeyCode::Char('j')));
    assert_eq!(state.selected, 1);
}

#[test]
fn cursor_clamps_at_end() {
    let mut state = NetworkState::new();
    state.push(make_entry(200, 100));
    state.push(make_entry(200, 200));
    assert_eq!(state.selected, 1);
    state.handle_key(key(KeyCode::Char('j')));
    assert_eq!(state.selected, 1); // can't go past end
}

#[test]
fn enter_opens_detail_and_zooms() {
    let mut state = NetworkState::new();
    state.push(make_entry(200, 100));
    let action = state.handle_key(key(KeyCode::Enter));
    assert!(state.detail_open);
    assert!(matches!(action, Some(Action::ZoomIn)));
}

#[test]
fn enter_noop_on_empty() {
    let mut state = NetworkState::new();
    let action = state.handle_key(key(KeyCode::Enter));
    assert!(!state.detail_open);
    assert!(matches!(action, Some(Action::Noop)));
}

#[test]
fn esc_in_detail_closes_and_unfocuses() {
    let mut state = NetworkState::new();
    state.push(make_entry(200, 100));
    state.detail_open = true;
    let action = state.handle_key(key(KeyCode::Esc));
    assert!(!state.detail_open);
    assert!(matches!(action, Some(Action::Unfocus)));
}

#[test]
fn esc_in_list_unfocuses() {
    let mut state = NetworkState::new();
    let action = state.handle_key(key(KeyCode::Esc));
    assert!(matches!(action, Some(Action::Unfocus)));
}

#[test]
fn auto_follow_when_at_last() {
    let mut state = NetworkState::new();
    state.push(make_entry(200, 100));
    assert_eq!(state.selected, 0);
    state.push(make_entry(200, 200));
    assert_eq!(state.selected, 1); // followed
    state.push(make_entry(200, 300));
    assert_eq!(state.selected, 2); // followed
}

#[test]
fn push_traffic_caps_at_max() {
    let mut state = NetworkState::new();
    for i in 0..(MAX_TRAFFIC + 50) {
        state.push_traffic(TrafficSample {
            rx_bps: i as u64,
            tx_bps: 0,
            rx_total: 0,
            tx_total: 0,
        });
    }
    assert_eq!(state.traffic.len(), MAX_TRAFFIC);
    assert_eq!(state.traffic.first().unwrap().rx_bps, 50);
    assert_eq!(state.traffic.last().unwrap().rx_bps, (MAX_TRAFFIC + 49) as u64);
}

#[test]
fn push_traffic_records_baseline() {
    let mut state = NetworkState::new();
    assert_eq!(state.traffic_baseline, None);
    state.push_traffic(TrafficSample {
        rx_bps: 0,
        tx_bps: 0,
        rx_total: 1000,
        tx_total: 500,
    });
    assert_eq!(state.traffic_baseline, Some((1000, 500)));
}

#[test]
fn push_traffic_keeps_first_baseline() {
    let mut state = NetworkState::new();
    state.push_traffic(TrafficSample {
        rx_bps: 0,
        tx_bps: 0,
        rx_total: 1000,
        tx_total: 500,
    });
    state.push_traffic(TrafficSample {
        rx_bps: 0,
        tx_bps: 0,
        rx_total: 2000,
        tx_total: 1500,
    });
    assert_eq!(state.traffic_baseline, Some((1000, 500)));
}

#[test]
fn push_traffic_baseline_survives_buffer_rotation() {
    let mut state = NetworkState::new();
    for i in 0..(MAX_TRAFFIC + 10) {
        state.push_traffic(TrafficSample {
            rx_bps: 0,
            tx_bps: 0,
            rx_total: 1000 + i as u64,
            tx_total: 500 + i as u64,
        });
    }
    assert_eq!(state.traffic_baseline, Some((1000, 500)));
}

#[test]
fn no_follow_when_scrolled_up() {
    let mut state = NetworkState::new();
    state.push(make_entry(200, 100));
    state.push(make_entry(200, 200));
    assert_eq!(state.selected, 1);
    state.handle_key(key(KeyCode::Char('k'))); // move up
    assert_eq!(state.selected, 0);
    state.push(make_entry(200, 300));
    assert_eq!(state.selected, 0); // stayed put
}

fn key(code: KeyCode) -> KeyEvent {
    KeyEvent::new(code, KeyModifiers::NONE)
}

fn make_entry(status: u16, latency: u64) -> NetworkEntry {
    NetworkEntry {
        url: "https://example.com".into(),
        method: "GET".into(),
        status_code: status,
        latency_ms: latency,
        failure_reason: None,
        failure_description: None,
        client: "okhttp".into(),
        timestamp: "09:17:37.261".into(),
        request_headers: String::new(),
        response_headers: String::new(),
        request_body: String::new(),
        response_body: String::new(),
    }
}

#[test]
fn header_pairs_split_where_the_next_segment_has_an_equals() {
    assert_eq!(format_headers_text("{a=1, b=2}"), "a: 1\nb: 2");
    assert_eq!(
        format_headers_text("{date=Wed, 15 Apr 2026 09:22:25 GMT, x-id=7}"),
        "date: Wed, 15 Apr 2026 09:22:25 GMT\nx-id: 7"
    );
    assert_eq!(format_headers_text("{date=Wed, 15 Apr 2026 09:22:25 GMT}"), "date: Wed, 15 Apr 2026 09:22:25 GMT");
}

#[test]
fn entries_with_non_ascii_headers_are_not_exported() {
    let mut e = make_entry(200, 5);
    e.request_headers = "{accept=*/*}".into();
    assert!(entry_exportable(&e));
    e.response_headers = "{x-name=José}".into();
    assert!(!entry_exportable(&e));
}
