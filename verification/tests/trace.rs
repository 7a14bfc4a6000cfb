use holo::trace::{file_reply_head, parse_trace_request, perfetto_url, served_name, TraceRequest, NOT_FOUND_REPLY, PREFLIGHT_REPLY};
use holo::app::Action;
use holo::keys::{KeyCode, KeyEvent, KeyModifiers};
use holo::trace::{trace_config, TraceState};

fn key(code: KeyCode) -> KeyEvent {
    KeyEvent::new(code, KeyModifiers::NONE)
}

fn with_traces(n: usize) -> TraceState {
    let mut t = TraceState::new();
    t.pulled_traces = (0..n).map(|i| format!("/tmp/t{i}.perfetto-trace")).collect();
    t
}

#[test]
fn trace_config_names_the_package() {
    let c = trace_config("com.example");
    assert!(c.contains("atrace_apps: \"com.example\""));
    assert!(c.starts_with("buffers {\n  size_kb: 262144"));
    assert!(c.ends_with("duration_ms: 1800000\n"));
}

#[test]
fn s_toggles_recording() {
    let mut t = TraceState::new();
    assert!(matches!(t.handle_key(key(KeyCode::Char('s'))), Some(Action::StartTrace)));
    assert!(t.recording && t.started_at.is_some());
    assert!(matches!(t.handle_key(key(KeyCode::Char('s'))), Some(Action::StopTrace)));
    assert!(!t.recording && t.started_at.is_none());
}

#[test]
fn list_keys_ignored_while_recording() {
    let mut t = with_traces(3);
    t.handle_key(key(KeyCode::Char('s')));
    assert!(t.handle_key(key(KeyCode::Down)).is_none());
    assert!(t.handle_key(key(KeyCode::Char('d'))).is_none());
    assert_eq!(t.pulled_traces.len(), 3);
    assert!(matches!(t.handle_key(key(KeyCode::Esc)), Some(Action::Unfocus)));
}

#[test]
fn enter_opens_selected_trace() {
    let mut t = with_traces(2);
    t.handle_key(key(KeyCode::Down));
    let a = t.handle_key(key(KeyCode::Enter));
    assert!(matches!(a, Some(Action::OpenTrace(ref p)) if p == "/tmp/t1.perfetto-trace"));
}

#[test]
fn d_deletes_and_clamps_selection() {
    let mut t = with_traces(2);
    t.handle_key(key(KeyCode::Down));
    let a = t.handle_key(key(KeyCode::Char('d')));
    assert!(matches!(a, Some(Action::DeleteTraceFile(ref p)) if p == "/tmp/t1.perfetto-trace"));
    assert_eq!(t.pulled_traces, vec!["/tmp/t0.perfetto-trace".to_string()]);
    assert_eq!(t.selected_index, 0);
    t.handle_key(key(KeyCode::Char('d')));
    assert!(t.pulled_traces.is_empty());
    assert!(matches!(t.handle_key(key(KeyCode::Char('d'))), Some(Action::Noop)));
    assert!(matches!(t.handle_key(key(KeyCode::Enter)), Some(Action::Noop)));
}

#[test]
fn selection_moves_within_list() {
    let mut t = with_traces(2);
    t.handle_key(key(KeyCode::Up));
    assert_eq!(t.selected_index, 0);
    t.handle_key(key(KeyCode::Char('j')));
    t.handle_key(key(KeyCode::Char('j')));
    assert_eq!(t.selected_index, 1);
    t.selected_index = 9;
    t.clamp_selection();
    assert_eq!(t.selected_index, 1);
}

#[test]
fn trace_requests_name_the_file_without_leading_slashes() {
    let req = "GET /trace_1.perfetto-trace HTTP/1.1\r\nHost: 127.0.0.1:9001\r\n\r\n";
    assert_eq!(parse_trace_request(req), TraceRequest::File("trace_1.perfetto-trace".into()));
    assert_eq!(parse_trace_request("GET //a.trace HTTP/1.1"), TraceRequest::File("a.trace".into()));
    assert_eq!(parse_trace_request(""), TraceRequest::File(String::new()));
    assert_eq!(parse_trace_request("GET"), TraceRequest::File(String::new()));
}

#[test]
fn options_requests_are_preflights() {
    assert_eq!(parse_trace_request("OPTIONS /a.trace HTTP/1.1\r\n"), TraceRequest::Preflight);
}

#[test]
fn trace_replies_carry_the_length_and_the_perfetto_origin() {
    let head = file_reply_head(1234);
    assert!(head.starts_with("HTTP/1.1 200 OK\r\n"));
    assert!(head.contains("Access-Control-Allow-Origin: https://ui.perfetto.dev\r\n"));
    assert!(head.ends_with("Content-Length: 1234\r\n\r\n"));
    assert!(PREFLIGHT_REPLY.starts_with("HTTP/1.1 204 No Content\r\n"));
    assert!(NOT_FOUND_REPLY.starts_with("HTTP/1.1 404 Not Found\r\n"));
}

#[test]
fn perfetto_is_pointed_at_the_served_file() {
    let name = served_name("/home/u/traces/20240101_trace.perfetto-trace");
    assert_eq!(name, "20240101_trace.perfetto-trace");
    assert_eq!(
        perfetto_url(9001, &name),
        "https://ui.perfetto.dev/#!/?url=http://127.0.0.1:9001/20240101_trace.perfetto-trace"
    );
}

#[test]
fn the_package_changes_only_the_atrace_apps_line() {
    let a = trace_config("com.a");
    let b = trace_config("org.other.app");
    assert_eq!(a.matches("      atrace_apps: \"com.a\"\n").count(), 1);
    assert!(a.contains("duration_ms: 1800000"));
    assert_eq!(
        a.replace("atrace_apps: \"com.a\"", "atrace_apps: \"X\""),
        b.replace("atrace_apps: \"org.other.app\"", "atrace_apps: \"X\"")
    );
    assert_eq!(trace_config("com.a"), a);
}
