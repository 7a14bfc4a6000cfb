//! Where captured sessions and their artifacts live, relative to the
//! sessions root directory (which the front end finds on the machine).

use vstd::prelude::*;
use crate::anrs::AnrEntry;
use crate::crashes::CrashEntry;
use crate::monitor::MonitorSample;
use crate::text::{chars_of, decimal, decimal_chars, extend_chars, string_from_chars};

verus! {

/// A captured session: its package and its directory's name.
#[derive(Debug, Clone, PartialEq, Eq)]
pub struct SessionId {
    pub package: String,
    pub dir_name: String,
}

/// The directory a session lives in, as components under the sessions
/// root.
pub open spec fn session_dir(id: SessionId) -> Seq<Seq<char>> {
    seq![id.package@, id.dir_name@]
}

/// Artifacts made without any session go here, under the package.
pub const UNSESSIONED: &'static str = "_unsessioned";

/// Where an artifact of `kind` goes, as components under the sessions
/// root: the viewed session's directory, else the live session's, else
/// the package's directory for artifacts made outside any session. There
/// is none without a session or a package.
pub open spec fn artifact_dir(
    viewed: Option<SessionId>,
    live: Option<SessionId>,
    package: Option<Seq<char>>,
    kind: Seq<char>,
) -> Option<Seq<Seq<char>>> {
    match viewed {
        Some(id) => Some(session_dir(id).push(kind)),
        None => match live {
            Some(id) => Some(session_dir(id).push(kind)),
            None => match package {
                Some(p) => Some(seq![p, UNSESSIONED@, kind]),
                None => None,
            },
        },
    }
}

pub open spec fn parts_view(v: Seq<String>) -> Seq<Seq<char>> {
    v.map_values(|s: String| s@)
}

fn in_session(id: &SessionId, kind: &str) -> (r: Vec<String>)
    ensures
        parts_view(r@) == session_dir(*id).push(kind@),
{
    let mut v: Vec<String> = Vec::new();
    v.push(id.package.clone());
    v.push(id.dir_name.clone());
    v.push(kind.to_string());
    proof {
        assert(parts_view(v@) =~= session_dir(*id).push(kind@));
    }
    v
}

/// The directory for an artifact of `kind`, as components under the
/// sessions root.
pub fn artifact_dir_for_inner(
    viewed_session: Option<&SessionId>,
    live_session: Option<&SessionId>,
    package: Option<&str>,
    kind: &str,
) -> (r: Option<Vec<String>>)
    ensures
        match r {
            Some(v) => artifact_dir(
                match viewed_session {
                    Some(s) => Some(*s),
                    None => None,
                },
                match live_session {
                    Some(s) => Some(*s),
                    None => None,
                },
                match package {
                    Some(p) => Some(p@),
                    None => None,
                },
                kind@,
            ) == Some(parts_view(v@)),
            None => viewed_session is None && live_session is None && package is None,
        },
{
    if let Some(id) = viewed_session {
        return Some(in_session(id, kind));
    }
    if let Some(id) = live_session {
        return Some(in_session(id, kind));
    }
    match package {
        Some(p) => {
            let mut v: Vec<String> = Vec::new();
            v.push(p.to_string());
            v.push(UNSESSIONED.to_string());
            v.push(kind.to_string());
            proof {
                assert(parts_view(v@) =~= seq![p@, UNSESSIONED@, kind@]);
            }
            Some(v)
        },
        None => None,
    }
}


impl SessionId {
    /// The session's directory, as components under the sessions root.
    pub fn dir(&self) -> (r: Vec<String>)
        ensures
            parts_view(r@) == session_dir(*self),
    {
        let mut v: Vec<String> = Vec::new();
        v.push(self.package.clone());
        v.push(self.dir_name.clone());
        proof {
            assert(parts_view(v@) =~= session_dir(*self));
        }
        v
    }
}

/// The subdirectory of a session holding its traces.
pub const TRACES_DIR: &'static str = "traces";

/// A session's directory name: its start time (`%Y%m%d_%H%M%S`), the
/// captured process and this program's process.
pub open spec fn session_dir_name(stamp: Seq<char>, pid: u32, host_pid: u32) -> Seq<char> {
    stamp + "_pid"@ + decimal(pid as nat) + "_h"@ + decimal(host_pid as nat)
}

pub fn dir_name_for(stamp: &str, pid: u32, host_pid: u32) -> (r: String)
    ensures
        r@ == session_dir_name(stamp@, pid, host_pid),
{
    let mut out = chars_of(stamp);
    let a = chars_of("_pid");
    extend_chars(&mut out, a.as_slice());
    let p = decimal_chars(pid as u64);
    extend_chars(&mut out, p.as_slice());
    let b = chars_of("_h");
    extend_chars(&mut out, b.as_slice());
    let h = decimal_chars(host_pid as u64);
    extend_chars(&mut out, h.as_slice());
    string_from_chars(out.as_slice())
}

/// What the session is started with: the device, the process and the
/// state probed once when the app's data sources were built.
#[derive(Debug, Clone)]
pub struct SessionSeed {
    pub device_serial: String,
    pub device_model: Option<String>,
    pub package: String,
    pub pid: u32,
    pub app_version: Option<(String, String)>,
    pub has_measure_sdk: bool,
    pub debuggable: bool,
    pub initial_layout_bounds: bool,
    pub initial_airplane_mode: bool,
    pub initial_wifi_enabled: bool,
    pub initial_dark_mode: bool,
    pub initial_show_taps: bool,
    pub initial_pointer_location: bool,
    pub initial_gpu_rendering: bool,
    pub initial_talkback: bool,
}

/// A crash or ANR as a session records it.
#[derive(Debug, Clone)]
pub struct PersistedIssue {
    pub kind: String,
    pub timestamp: String,
    pub description: String,
    pub full_text: String,
}

/// A disk sample as a session records it.
#[derive(Debug, Clone, Copy)]
pub struct PersistedDiskSample {
    pub data_kb: u64,
    pub debuggable: bool,
}

impl PersistedDiskSample {
    pub fn from_sample(s: &MonitorSample) -> (r: Self)
        ensures
            r.data_kb == s.data_kb,
            r.debuggable == s.debuggable,
    {
        PersistedDiskSample { data_kb: s.data_kb, debuggable: s.debuggable }
    }
}

/// A vitals frame: the event kind, the payload's length as four bytes
/// (most significant first), then the payload.
pub open spec fn vitals_frame(kind: u8, payload: Seq<u8>) -> Seq<u8> {
    let n = payload.len();
    seq![
        kind,
        ((n / 0x100_0000) % 0x100) as u8,
        ((n / 0x1_0000) % 0x100) as u8,
        ((n / 0x100) % 0x100) as u8,
        (n % 0x100) as u8,
    ] + payload
}

pub fn encode_vitals_frame(kind: u8, payload: &[u8]) -> (r: Vec<u8>)
    requires
        payload@.len() <= u32::MAX,
    ensures
        r@ == vitals_frame(kind, payload@),
{
    let n = payload.len() as u32;
    let mut out: Vec<u8> = Vec::new();
    out.push(kind);
    out.push(((n / 0x100_0000) % 0x100) as u8);
    out.push(((n / 0x1_0000) % 0x100) as u8);
    out.push(((n / 0x100) % 0x100) as u8);
    out.push((n % 0x100) as u8);
    let mut i: usize = 0;
    let ghost head = out@;
    while i < payload.len()
        invariant
            i <= payload@.len(),
            out@ == head + payload@.take(i as int),
        decreases payload@.len() - i,
    {
        out.push(payload[i]);
        proof {
            assert(payload@.take(i + 1) =~= payload@.take(i as int).push(payload@[i as int]));
        }
        i = i + 1;
    }
    proof {
        assert(payload@.take(i as int) =~= payload@);
    }
    out
}

/// The issues a session has recorded, by kind, time and description;
/// each is recorded once.
pub struct IssueLedger {
    seen: Vec<(String, String, String)>,
}

pub open spec fn key_view(k: (String, String, String)) -> (Seq<char>, Seq<char>, Seq<char>) {
    (k.0@, k.1@, k.2@)
}

impl IssueLedger {
    pub closed spec fn keys(&self) -> Set<(Seq<char>, Seq<char>, Seq<char>)> {
        self.seen@.map_values(|k: (String, String, String)| key_view(k)).to_set()
    }

    pub fn new() -> (r: Self)
        ensures
            r.keys() == Set::<(Seq<char>, Seq<char>, Seq<char>)>::empty(),
    {
        let r = IssueLedger { seen: Vec::new() };
        proof {
            assert(r.seen@.map_values(|k: (String, String, String)| key_view(k)).to_set() =~= Set::<(Seq<char>, Seq<char>, Seq<char>)>::empty());
        }
        r
    }

    fn same(a: &String, b: &String) -> (r: bool)
        ensures
            r == (a@ == b@),
    {
        let x = chars_of(a.as_str());
        let y = chars_of(b.as_str());
        crate::text::eq_chars(x.as_slice(), y.as_slice())
    }

    fn contains(&self, kind: &String, ts: &String, desc: &String) -> (r: bool)
        ensures
            r == self.keys().contains((kind@, ts@, desc@)),
    {
        let ghost vs = self.seen@.map_values(|k: (String, String, String)| key_view(k));
        let mut i: usize = 0;
        while i < self.seen.len()
            invariant
                i <= self.seen@.len(),
                vs == self.seen@.map_values(|k: (String, String, String)| key_view(k)),
                forall|j: int| 0 <= j < i ==> vs[j] != (kind@, ts@, desc@),
            decreases self.seen@.len() - i,
        {
            let k = &self.seen[i];
            if Self::same(&k.0, kind) && Self::same(&k.1, ts) && Self::same(&k.2, desc) {
                proof {
                    assert(vs[i as int] == (kind@, ts@, desc@));
                    assert(vs.to_set().contains(vs[i as int]));
                }
                return true;
            }
            i = i + 1;
        }
        proof {
            if vs.to_set().contains((kind@, ts@, desc@)) {
                let j = vs.index_of((kind@, ts@, desc@));
                assert(vs[j] == (kind@, ts@, desc@));
            }
        }
        false
    }

    /// Records an issue unless one with the same kind, time and
    /// description was recorded before; says whether it was new.
    pub fn record(&mut self, kind: String, ts: String, desc: String) -> (fresh: bool)
        ensures
            fresh == !old(self).keys().contains((kind@, ts@, desc@)),
            final(self).keys() == old(self).keys().insert((kind@, ts@, desc@)),
    {
        if self.contains(&kind, &ts, &desc) {
            proof {
                assert(old(self).keys().insert((kind@, ts@, desc@)) =~= old(self).keys());
            }
            return false;
        }
        let ghost before = self.seen@.map_values(|k: (String, String, String)| key_view(k));
        let ghost key = (kind@, ts@, desc@);
        self.seen.push((kind, ts, desc));
        proof {
            let after = self.seen@.map_values(|k: (String, String, String)| key_view(k));
            assert(after =~= before.push(key));
            before.lemma_push_to_set_commute(key);
        }
        true
    }

    /// The record of a crash seen for the first time.
    pub fn crash_if_new(&mut self, crash: &CrashEntry) -> (r: Option<PersistedIssue>)
        ensures
            final(self).keys() == old(self).keys().insert(("crash"@, crash.timestamp@, crash.exception@)),
            match r {
                Some(i) => !old(self).keys().contains(("crash"@, crash.timestamp@, crash.exception@))
                    && i.kind@ == "crash"@ && i.timestamp@ == crash.timestamp@ && i.description@
                    == crash.exception@ && i.full_text@ == crash.full_text@,
                None => old(self).keys().contains(("crash"@, crash.timestamp@, crash.exception@)),
            },
    {
        let fresh = self.record("crash".to_string(), crash.timestamp.clone(), crash.exception.clone());
        if fresh {
            Some(PersistedIssue {
                kind: "crash".to_string(),
                timestamp: crash.timestamp.clone(),
                description: crash.exception.clone(),
                full_text: crash.full_text.clone(),
            })
        } else {
            None
        }
    }

    /// The record of an ANR seen for the first time.
    pub fn anr_if_new(&mut self, anr: &AnrEntry) -> (r: Option<PersistedIssue>)
        ensures
            final(self).keys() == old(self).keys().insert(("anr"@, anr.timestamp@, anr.reason@)),
            match r {
                Some(i) => !old(self).keys().contains(("anr"@, anr.timestamp@, anr.reason@))
                    && i.kind@ == "anr"@ && i.timestamp@ == anr.timestamp@ && i.description@
                    == anr.reason@ && i.full_text@ == anr.full_text@,
                None => old(self).keys().contains(("anr"@, anr.timestamp@, anr.reason@)),
            },
    {
        let fresh = self.record("anr".to_string(), anr.timestamp.clone(), anr.reason.clone());
        if fresh {
            Some(PersistedIssue {
                kind: "anr".to_string(),
                timestamp: anr.timestamp.clone(),
                description: anr.reason.clone(),
                full_text: anr.full_text.clone(),
            })
        } else {
            None
        }
    }
}

/// Recording an issue twice adds nothing: the second time it is not new
/// and the ledger stays as it was.
pub proof fn law_issue_recorded_once(
    a: Set<(Seq<char>, Seq<char>, Seq<char>)>,
    k: (Seq<char>, Seq<char>, Seq<char>),
)
    ensures
        a.insert(k).contains(k),
        a.insert(k).insert(k) == a.insert(k),
{
    assert(a.insert(k).insert(k) =~= a.insert(k));
}

/// What becomes of the watchers of the app's process when its pid is polled.
#[derive(Debug, Clone, Copy, PartialEq, Eq)]
pub enum PidAction {
    Nothing,
    /// Start watching this process.
    Start(u32),
    /// Stop watching the old process and start on this one.
    Restart(u32),
    /// Stop watching: the process has been gone too long.
    Stop,
}

/// How long the pid may read as absent before the watchers stop: a brief
/// disconnect does not split one run of the app in two.
pub const PID_GONE_GRACE_MS: u64 = 5000;

/// The step for the watched pid `monitored` when the poll reads `current`,
/// the pid having read as absent for `gone_for_ms` (when it has): the
/// action, and whether the absence keeps being timed (else the timer is
/// cleared).
pub open spec fn pid_decision(monitored: Option<u32>, current: Option<u32>, gone_for_ms: Option<u64>) -> (
    PidAction,
    bool,
) {
    match (monitored, current) {
        (Some(a), Some(b)) => if a == b {
            (PidAction::Nothing, false)
        } else {
            (PidAction::Restart(b), false)
        },
        (None, Some(b)) => (PidAction::Start(b), false),
        (Some(_), None) => {
            let gone: u64 = match gone_for_ms {
                Some(ms) => ms,
                None => 0,
            };
            if gone >= PID_GONE_GRACE_MS {
                (PidAction::Stop, false)
            } else {
                (PidAction::Nothing, true)
            }
        },
        (None, None) => (PidAction::Nothing, false),
    }
}

pub fn pid_step(monitored: Option<u32>, current: Option<u32>, gone_for_ms: Option<u64>) -> (r: (PidAction, bool))
    ensures
        r == pid_decision(monitored, current, gone_for_ms),
{
    match (monitored, current) {
        (Some(a), Some(b)) => if a == b {
            (PidAction::Nothing, false)
        } else {
            (PidAction::Restart(b), false)
        },
        (None, Some(b)) => (PidAction::Start(b), false),
        (Some(_), None) => {
            let gone: u64 = match gone_for_ms {
                Some(ms) => ms,
                None => 0,
            };
            if gone >= PID_GONE_GRACE_MS {
                (PidAction::Stop, false)
            } else {
                (PidAction::Nothing, true)
            }
        },
        (None, None) => (PidAction::Nothing, false),
    }
}

/// A process seen again under the same pid is never restarted, and a watch
/// only stops once the pid has been gone for the whole grace period.
pub proof fn law_pid_debounce(pid: u32, current: Option<u32>, gone_for_ms: Option<u64>)
    ensures
        current == Some(pid) ==> pid_decision(Some(pid), current, gone_for_ms).0 == PidAction::Nothing,
        pid_decision(Some(pid), current, gone_for_ms).0 == PidAction::Stop ==> (current is None && (
        gone_for_ms matches Some(ms) && ms >= PID_GONE_GRACE_MS)),
{
}
} // verus!
