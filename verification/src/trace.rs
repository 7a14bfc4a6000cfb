//! The trace panel: recording on and off, and the list of traces pulled
//! from the device, to open in Perfetto or delete.

use vstd::prelude::*;
use crate::app::Action;
use crate::clock::now;
use crate::keys::{KeyCode, KeyEvent};
use crate::files::{file_name_of, path_file_name};
use crate::text::{chars_of, decimal, decimal_chars, extend_chars, has_prefix, lines, next_line, split_ws,
    split_ws_bounds, starts_with, string_from_chars};

verus! {

/// The Perfetto config up to the line that names the traced app.
pub const TRACE_CONFIG_HEAD: &'static str = r#"buffers {
  size_kb: 262144
  fill_policy: RING_BUFFER
}

buffers {
  size_kb: 8192
  fill_policy: RING_BUFFER
}

data_sources {
  config {
    name: "linux.ftrace"
    target_buffer: 0
    ftrace_config {
      atrace_categories: "gfx"
      atrace_categories: "input"
      atrace_categories: "view"
      atrace_categories: "webview"
      atrace_categories: "wm"
      atrace_categories: "am"
      atrace_categories: "sm"
      atrace_categories: "audio"
      atrace_categories: "video"
      atrace_categories: "camera"
      atrace_categories: "hal"
      atrace_categories: "res"
      atrace_categories: "dalvik"
      atrace_categories: "rs"
      atrace_categories: "bionic"
      atrace_categories: "power"
      atrace_categories: "pm"
      atrace_categories: "ss"
      atrace_categories: "database"
      atrace_categories: "network"
      atrace_categories: "adb"
      atrace_categories: "vibrator"
      atrace_categories: "aidl"
      atrace_categories: "nnapi"
      atrace_categories: "core_services"
      atrace_categories: "pdx"
"#;

/// The Perfetto config after the line that names the traced app, up to
/// the last line.
pub const TRACE_CONFIG_TAIL: &'static str = r#"      ftrace_events: "sched/sched_switch"
      ftrace_events: "sched/sched_waking"
      ftrace_events: "sched/sched_wakeup_new"
      ftrace_events: "sched/sched_process_exec"
      ftrace_events: "sched/sched_process_exit"
      ftrace_events: "sched/sched_process_fork"
      ftrace_events: "sched/sched_process_free"
      ftrace_events: "task/task_newtask"
      ftrace_events: "task/task_rename"
      ftrace_events: "power/suspend_resume"
      ftrace_events: "power/cpu_frequency"
      ftrace_events: "power/cpu_idle"
      ftrace_events: "power/gpu_frequency"
      buffer_size_kb: 16384
      drain_period_ms: 250
    }
  }
}

data_sources {
  config {
    name: "linux.process_stats"
    target_buffer: 1
    process_stats_config {
      scan_all_processes_on_start: true
      proc_stats_poll_ms: 1000
    }
  }
}

data_sources {
  config {
    name: "linux.sys_stats"
    target_buffer: 1
    sys_stats_config {
      meminfo_period_ms: 1000
      vmstat_period_ms: 1000
      stat_period_ms: 1000
    }
  }
}

"#;

/// The start of the line that names the traced app.
pub const APPS_LINE_OPEN: &'static str = "      atrace_apps: \"";

/// The end of that line.
pub const APPS_LINE_CLOSE: &'static str = "\"\n";

/// The last line: the trace stops after half an hour.
pub const DURATION_LINE: &'static str = "duration_ms: 1800000\n";

/// The line that names `package` as the traced app.
pub open spec fn apps_line(package: Seq<char>) -> Seq<char> {
    APPS_LINE_OPEN@ + package + APPS_LINE_CLOSE@
}

/// The Perfetto config for `package`: the fixed text with the line that
/// names the package, ending with the duration line.
pub open spec fn config_text(package: Seq<char>) -> Seq<char> {
    TRACE_CONFIG_HEAD@ + apps_line(package) + TRACE_CONFIG_TAIL@ + DURATION_LINE@
}

/// The Perfetto config that records the system and `package`'s atrace
/// events for up to half an hour.
pub fn trace_config(package: &str) -> (r: String)
    ensures
        r@ == config_text(package@),
{
    let mut out = chars_of(TRACE_CONFIG_HEAD);
    let o = chars_of(APPS_LINE_OPEN);
    extend_chars(&mut out, o.as_slice());
    let p = chars_of(package);
    extend_chars(&mut out, p.as_slice());
    let c = chars_of(APPS_LINE_CLOSE);
    extend_chars(&mut out, c.as_slice());
    let t = chars_of(TRACE_CONFIG_TAIL);
    extend_chars(&mut out, t.as_slice());
    let d = chars_of(DURATION_LINE);
    extend_chars(&mut out, d.as_slice());
    proof {
        assert(out@ =~= config_text(package@));
    }
    string_from_chars(out.as_slice())
}

/// The package decides only its own line: the configs for any two
/// packages agree before that line and after it; the line names the
/// package; and the config ends with the duration line.
pub proof fn law_trace_config_only_package(p: Seq<char>, q: Seq<char>)
    ensures
        config_text(p).take(TRACE_CONFIG_HEAD@.len() as int) == config_text(q).take(
            TRACE_CONFIG_HEAD@.len() as int,
        ),
        config_text(p).skip((TRACE_CONFIG_HEAD@.len() + apps_line(p).len()) as int) == config_text(q).skip(
            (TRACE_CONFIG_HEAD@.len() + apps_line(q).len()) as int,
        ),
        config_text(p).subrange(
            TRACE_CONFIG_HEAD@.len() as int,
            (TRACE_CONFIG_HEAD@.len() + apps_line(p).len()) as int,
        ) == APPS_LINE_OPEN@ + p + APPS_LINE_CLOSE@,
        config_text(p).skip(config_text(p).len() - DURATION_LINE@.len()) == DURATION_LINE@,
{
    let h = TRACE_CONFIG_HEAD@;
    let t = TRACE_CONFIG_TAIL@ + DURATION_LINE@;
    assert(config_text(p) =~= h + apps_line(p) + t);
    assert(config_text(q) =~= h + apps_line(q) + t);
    assert(config_text(p).take(h.len() as int) =~= h);
    assert(config_text(q).take(h.len() as int) =~= h);
    assert(config_text(p).skip((h.len() + apps_line(p).len()) as int) =~= t);
    assert(config_text(q).skip((h.len() + apps_line(q).len()) as int) =~= t);
    assert(config_text(p).subrange(h.len() as int, (h.len() + apps_line(p).len()) as int) =~= apps_line(p));
    assert(config_text(p).skip(config_text(p).len() - DURATION_LINE@.len()) =~= DURATION_LINE@);
}

pub struct TraceState {
    pub recording: bool,
    pub started_at: Option<std::time::Instant>,
    pub status_message: Option<String>,
    pub message_at: Option<std::time::Instant>,
    /// The pulled trace files, by path, in order.
    pub pulled_traces: Vec<String>,
    pub selected_index: usize,
}

/// The selection held within a list of `len` entries.
pub open spec fn clamped_selection(sel: int, len: int) -> int {
    if len == 0 {
        0
    } else if sel >= len {
        len - 1
    } else {
        sel
    }
}

/// What a key does to the trace panel: `s` starts or stops a recording;
/// while not recording, Up and Down move in the list, Enter opens the
/// selected trace and `d` deletes it; Esc gives the focus away.
pub open spec fn trace_key_done(a: TraceState, b: TraceState, key: KeyEvent, r: Option<Action>) -> bool {
    let n = a.pulled_traces@.len();
    let sel = a.selected_index as int;
    let up = key.code == KeyCode::Up || key.code == KeyCode::Char('k');
    let down = key.code == KeyCode::Down || key.code == KeyCode::Char('j');
    if key.code == KeyCode::Char('s') {
        if a.recording {
            &&& b == TraceState { recording: false, started_at: None, ..a }
            &&& r == Some(Action::StopTrace)
        } else {
            &&& b == TraceState {
                recording: true,
                started_at: b.started_at,
                status_message: None,
                message_at: None,
                ..a
            }
            &&& b.started_at is Some
            &&& r == Some(Action::StartTrace)
        }
    } else if a.recording && key.code != KeyCode::Esc {
        b == a && r is None
    } else if up {
        &&& b == TraceState { selected_index: if sel > 0 { (sel - 1) as usize } else { 0 }, ..a }
        &&& r == Some(Action::Noop)
    } else if down {
        &&& b == TraceState { selected_index: if sel + 1 < n { (sel + 1) as usize } else { a.selected_index }, ..a }
        &&& r == Some(Action::Noop)
    } else if key.code == KeyCode::Enter {
        &&& b == a
        &&& if sel < n {
            r matches Some(Action::OpenTrace(p)) && p@ == a.pulled_traces@[sel]@
        } else {
            r == Some(Action::Noop)
        }
    } else if key.code == KeyCode::Char('d') {
        if n > 0 && sel < n {
            &&& b.pulled_traces@ == a.pulled_traces@.remove(sel)
            &&& b == TraceState {
                pulled_traces: b.pulled_traces,
                selected_index: clamped_selection(sel, n - 1) as usize,
                ..a
            }
            &&& r matches Some(Action::DeleteTraceFile(p)) && p@ == a.pulled_traces@[sel]@
        } else {
            &&& b == a
            &&& r == Some(Action::Noop)
        }
    } else if key.code == KeyCode::Esc {
        b == a && r == Some(Action::Unfocus)
    } else {
        b == a && r is None
    }
}

impl TraceState {
    /// A panel with nothing recorded and no traces listed yet.
    pub fn new() -> (r: Self)
        ensures
            !r.recording,
            r.started_at is None,
            r.status_message is None,
            r.message_at is None,
            r.pulled_traces@.len() == 0,
            r.selected_index == 0,
    {
        TraceState {
            recording: false,
            started_at: None,
            status_message: None,
            message_at: None,
            pulled_traces: Vec::new(),
            selected_index: 0,
        }
    }

    /// Applies a key to the focused trace panel.
    pub fn handle_key(&mut self, key: KeyEvent) -> (r: Option<Action>)
        ensures
            trace_key_done(*old(self), *final(self), key, r),
    {
        let code = key.code;
        match code {
            KeyCode::Char('s') => {
                if self.recording {
                    self.recording = false;
                    self.started_at = None;
                    Some(Action::StopTrace)
                } else {
                    self.recording = true;
                    self.started_at = Some(now());
                    self.status_message = None;
                    self.message_at = None;
                    Some(Action::StartTrace)
                }
            },
            KeyCode::Up | KeyCode::Char('k') => {
                if self.recording {
                    return None;
                }
                if self.selected_index > 0 {
                    self.selected_index = self.selected_index - 1;
                }
                Some(Action::Noop)
            },
            KeyCode::Down | KeyCode::Char('j') => {
                if self.recording {
                    return None;
                }
                let n = self.pulled_traces.len();
                if n > 0 && self.selected_index < n - 1 {
                    self.selected_index = self.selected_index + 1;
                }
                Some(Action::Noop)
            },
            KeyCode::Enter => {
                if self.recording {
                    return None;
                }
                match self.selected_path() {
                    Some(p) => Some(Action::OpenTrace(p.clone())),
                    None => Some(Action::Noop),
                }
            },
            KeyCode::Char('d') => {
                if self.recording {
                    return None;
                }
                match self.delete_selected() {
                    Some(p) => Some(Action::DeleteTraceFile(p)),
                    None => Some(Action::Noop),
                }
            },
            KeyCode::Esc => Some(Action::Unfocus),
            _ => None,
        }
    }

    /// Holds the selection within the list.
    pub fn clamp_selection(&mut self)
        ensures
            *final(self) == (TraceState {
                selected_index: clamped_selection(
                    old(self).selected_index as int,
                    old(self).pulled_traces@.len() as int,
                ) as usize,
                ..*old(self)
            }),
    {
        let n = self.pulled_traces.len();
        if n == 0 {
            self.selected_index = 0;
        } else if self.selected_index >= n {
            self.selected_index = n - 1;
        }
    }

    /// Takes the selected trace out of the list, if there is one.
    pub fn delete_selected(&mut self) -> (r: Option<String>)
        ensures
            ({
                let n = old(self).pulled_traces@.len();
                let sel = old(self).selected_index as int;
                if n > 0 && sel < n {
                    &&& r matches Some(p) && p == old(self).pulled_traces@[sel]
                    &&& final(self).pulled_traces@ == old(self).pulled_traces@.remove(sel)
                    &&& *final(self) == (TraceState {
                        pulled_traces: final(self).pulled_traces,
                        selected_index: clamped_selection(sel, n - 1) as usize,
                        ..*old(self)
                    })
                } else {
                    r is None && *final(self) == *old(self)
                }
            }),
    {
        let n = self.pulled_traces.len();
        if n == 0 || self.selected_index >= n {
            return None;
        }
        let idx = self.selected_index;
        let p = self.pulled_traces.remove(idx);
        self.clamp_selection();
        Some(p)
    }

    /// The selected trace's path.
    pub fn selected_path(&self) -> (r: Option<&String>)
        ensures
            match r {
                Some(p) => (self.selected_index as int) < self.pulled_traces@.len()
                    && *p == self.pulled_traces@[self.selected_index as int],
                None => self.selected_index >= self.pulled_traces@.len(),
            },
    {
        if self.selected_index < self.pulled_traces.len() {
            Some(&self.pulled_traces[self.selected_index])
        } else {
            None
        }
    }
}


// ---------------------------------------------------------------------------
// The local server that hands pulled traces to ui.perfetto.dev
// ---------------------------------------------------------------------------

/// The loopback port the trace server listens on.
pub const TRACE_SERVER_PORT: u16 = 9001;

/// The answer to a CORS preflight from the Perfetto UI.
pub const PREFLIGHT_REPLY: &'static str = "HTTP/1.1 204 No Content\r\nAccess-Control-Allow-Origin: https://ui.perfetto.dev\r\nAccess-Control-Allow-Methods: GET\r\nAccess-Control-Allow-Headers: *\r\nContent-Length: 0\r\n\r\n";

/// The answer for a file the server does not have.
pub const NOT_FOUND_REPLY: &'static str = "HTTP/1.1 404 Not Found\r\nContent-Length: 0\r\n\r\n";

/// The head of the answer carrying a trace, up to its length.
pub const FILE_REPLY_HEAD: &'static str = "HTTP/1.1 200 OK\r\nAccess-Control-Allow-Origin: https://ui.perfetto.dev\r\nContent-Type: application/octet-stream\r\nCache-Control: no-cache\r\nContent-Length: ";

/// The Perfetto UI's address up to the port of the trace server.
pub const PERFETTO_URL_HEAD: &'static str = "https://ui.perfetto.dev/#!/?url=http://127.0.0.1:";

/// What a request to the trace server asks for.
#[derive(Debug, Clone, PartialEq, Eq)]
pub enum TraceRequest {
    /// A CORS preflight (`OPTIONS`).
    Preflight,
    /// The file of this name.
    File(String),
}

/// The request's first line (empty for an empty request).
pub open spec fn first_line(req: Seq<char>) -> Seq<char> {
    if lines(req).len() > 0 {
        lines(req)[0]
    } else {
        seq![]
    }
}

/// The second word of the first line: the path asked for.
pub open spec fn request_target(req: Seq<char>) -> Seq<char> {
    if split_ws(first_line(req)).len() > 1 {
        split_ws(first_line(req))[1]
    } else {
        seq![]
    }
}

/// How many `/` start `s`.
pub open spec fn leading_slashes(s: Seq<char>) -> nat
    decreases s.len(),
{
    if s.len() > 0 && s[0] == '/' {
        1 + leading_slashes(s.drop_first())
    } else {
        0
    }
}

proof fn lemma_leading_slashes(s: Seq<char>, i: int)
    requires
        0 <= i <= s.len(),
        forall|j: int| 0 <= j < i ==> s[j] == '/',
    ensures
        leading_slashes(s) == i + leading_slashes(s.skip(i)),
    decreases i,
{
    if i > 0 {
        lemma_leading_slashes(s.drop_first(), i - 1);
        assert(s.drop_first().skip(i - 1) =~= s.skip(i));
    } else {
        assert(s.skip(0) =~= s);
    }
}

/// The file a request names: its path without the leading slashes.
pub open spec fn requested_name(req: Seq<char>) -> Seq<char> {
    let t = request_target(req);
    t.skip(leading_slashes(t) as int)
}

/// What the request asks for: a preflight when it starts with `OPTIONS`,
/// else the file it names.
pub fn parse_trace_request(req: &str) -> (r: TraceRequest)
    ensures
        match r {
            TraceRequest::Preflight => starts_with(req@, "OPTIONS"@),
            TraceRequest::File(n) => !starts_with(req@, "OPTIONS"@) && n@ == requested_name(req@),
        },
{
    let cs = chars_of(req);
    let opt = chars_of("OPTIONS");
    if has_prefix(cs.as_slice(), opt.as_slice()) {
        return TraceRequest::Preflight;
    }
    let s = cs.as_slice();
    let line_end: usize = if s.len() > 0 {
        let (b, _np) = next_line(s, 0);
        proof {
            assert(s@.skip(0) =~= s@);
        }
        b
    } else {
        0
    };
    let line = slice_chars(s, 0, line_end);
    proof {
        assert(first_line(req@) == line@);
    }
    let words = split_ws_bounds(line.as_slice());
    let mut start: usize = 0;
    let mut end: usize = 0;
    if words.len() > 1 {
        start = words[1].0;
        end = words[1].1;
    }
    let ghost target = line@.subrange(start as int, end as int);
    assert(target == request_target(req@));
    let mut k: usize = start;
    while k < end && line[k] == '/'
        invariant
            start <= k <= end <= line@.len(),
            target == line@.subrange(start as int, end as int),
            forall|j: int| start <= j < k ==> line@[j] == '/',
        decreases end - k,
    {
        k = k + 1;
    }
    proof {
        assert forall|j: int| 0 <= j < k - start implies target[j] == '/' by {
            assert(target[j] == line@[start + j]);
        }
        lemma_leading_slashes(target, k - start);
        if k < end {
            assert(target.skip(k - start)[0] == line@[k as int]);
        }
        assert(target.skip(k - start) =~= line@.subrange(k as int, end as int));
    }
    let name = slice_chars(line.as_slice(), k, end);
    TraceRequest::File(string_from_chars(name.as_slice()))
}

fn slice_chars(s: &[char], start: usize, end: usize) -> (r: Vec<char>)
    requires
        start <= end <= s@.len(),
    ensures
        r@ == s@.subrange(start as int, end as int),
{
    let mut r: Vec<char> = Vec::new();
    let mut i: usize = start;
    while i < end
        invariant
            start <= i <= end <= s@.len(),
            r@ == s@.subrange(start as int, i as int),
        decreases end - i,
    {
        r.push(s[i]);
        proof {
            assert(s@.subrange(start as int, i + 1) =~= s@.subrange(start as int, i as int).push(s@[i as int]));
        }
        i = i + 1;
    }
    r
}

/// The head of the answer carrying a trace of `len` bytes.
pub fn file_reply_head(len: usize) -> (r: String)
    ensures
        r@ == FILE_REPLY_HEAD@ + decimal(len as nat) + seq!['\r', '\n', '\r', '\n'],
{
    let mut out = chars_of(FILE_REPLY_HEAD);
    let n = decimal_chars(len as u64);
    extend_chars(&mut out, n.as_slice());
    out.push('\r');
    out.push('\n');
    out.push('\r');
    out.push('\n');
    proof {
        assert(out@ =~= FILE_REPLY_HEAD@ + decimal(len as nat) + seq!['\r', '\n', '\r', '\n']);
    }
    string_from_chars(out.as_slice())
}

/// The name a pulled trace is served under: its file name.
pub fn served_name(path: &str) -> (r: String)
    ensures
        r@ == match path_file_name(path@) {
            Some(n) => n,
            None => Seq::<char>::empty(),
        },
{
    match file_name_of(path) {
        Some(n) => n,
        None => string_from_chars(Vec::<char>::new().as_slice()),
    }
}

/// The Perfetto UI address that loads `name` from the trace server on
/// `port`.
pub fn perfetto_url(port: u16, name: &str) -> (r: String)
    ensures
        r@ == PERFETTO_URL_HEAD@ + decimal(port as nat) + seq!['/'] + name@,
{
    let mut out = chars_of(PERFETTO_URL_HEAD);
    let p = decimal_chars(port as u64);
    extend_chars(&mut out, p.as_slice());
    out.push('/');
    let n = chars_of(name);
    extend_chars(&mut out, n.as_slice());
    proof {
        assert(out@ =~= PERFETTO_URL_HEAD@ + decimal(port as nat) + seq!['/'] + name@);
    }
    string_from_chars(out.as_slice())
}
} // verus!
