//! The sessions history dialog: a Live row on top, then the captured
//! sessions of the app (the live one is shown as the Live row, not twice).

use vstd::prelude::*;
use crate::app::Action;
use crate::keys::{KeyCode, KeyEvent};
use crate::session::SessionId;
use crate::text::{chars_of, eq_chars, string_from_chars};

verus! {

/// A captured session as the dialog lists it.
#[derive(Debug, Clone)]
pub struct SessionSummary {
    pub id: SessionId,
    /// When the capture started, in seconds since the Unix epoch.
    pub started_at: i64,
    /// When it ended, if it did.
    pub ended_at: Option<i64>,
    pub duration_secs: Option<u64>,
    pub size_bytes: u64,
    pub pid: u32,
    /// The device the session was captured against.
    pub device_serial: String,
    pub device_model: Option<String>,
}

/// The two ids name the same session.
pub open spec fn same_id(a: SessionId, b: SessionId) -> bool {
    a.package@ == b.package@ && a.dir_name@ == b.dir_name@
}

/// `s` is the session being captured live.
pub open spec fn is_live(live: Option<SessionId>, s: SessionId) -> bool {
    live matches Some(l) && same_id(l, s)
}

/// Indices, among the first `n` sessions, of those listed below the Live
/// row: all but the live one, in order.
pub open spec fn history_indices(s: Seq<SessionSummary>, live: Option<SessionId>, n: int) -> Seq<int>
    decreases n,
{
    if n <= 0 {
        Seq::empty()
    } else if is_live(live, s[n - 1].id) {
        history_indices(s, live, n - 1)
    } else {
        history_indices(s, live, n - 1).push(n - 1)
    }
}

proof fn lemma_prefix_indices(s: Seq<SessionSummary>, live: Option<SessionId>, m: int, n: int)
    requires
        0 <= m <= n,
    ensures
        history_indices(s, live, m).len() <= history_indices(s, live, n).len(),
        history_indices(s, live, m) == history_indices(s, live, n).take(history_indices(s, live, m).len() as int),
    decreases n - m,
{
    if m < n {
        lemma_prefix_indices(s, live, m, n - 1);
        let a = history_indices(s, live, m);
        let b = history_indices(s, live, n - 1);
        let c = history_indices(s, live, n);
        if !is_live(live, s[n - 1].id) {
            assert(c == b.push(n - 1));
            assert(c.take(a.len() as int) =~= b.take(a.len() as int));
        }
    } else {
        assert(history_indices(s, live, n).take(history_indices(s, live, n).len() as int) =~= history_indices(
            s,
            live,
            n,
        ));
    }
}

proof fn lemma_history_indices(s: Seq<SessionSummary>, live: Option<SessionId>, n: int)
    requires
        0 <= n <= s.len(),
    ensures
        history_indices(s, live, n).len() <= n,
        forall|k: int|
            0 <= k < history_indices(s, live, n).len() ==> 0 <= #[trigger] history_indices(s, live, n)[k] < n,
    decreases n,
{
    if n > 0 {
        lemma_history_indices(s, live, n - 1);
    }
}

/// A pure `std::path::Path::join` of `part` onto `base`, as text.
pub uninterp spec fn path_joined(base: Seq<char>, part: Seq<char>) -> Seq<char>;

/// `Path::new(base).join(part)`, as text (both are UTF-8, so the text is
/// exact).
#[verifier::external_body]
fn join_path(base: &str, part: &str) -> (r: String)
    ensures
        r@ == path_joined(base@, part@),
{
    std::path::Path::new(base).join(part).to_string_lossy().into_owned()
}

/// `dirs::cache_dir`, as text. It depends on the environment, so nothing is
/// promised of it.
#[verifier::external_body]
fn cache_dir_text() -> Option<String> {
    dirs::cache_dir().map(|d| d.to_string_lossy().into_owned())
}

/// Where sessions are kept: `holo/sessions` under the cache directory
/// (under the current directory when there is none).
pub open spec fn sessions_root_of(cache: Option<String>) -> Seq<char> {
    let base = match cache {
        Some(d) => d@,
        None => "."@,
    };
    path_joined(path_joined(base, "holo"@), "sessions"@)
}

pub fn sessions_root_from(cache: Option<String>) -> (r: String)
    ensures
        r@ == sessions_root_of(cache),
{
    let app_dir = match &cache {
        Some(d) => join_path(d.as_str(), "holo"),
        None => join_path(".", "holo"),
    };
    join_path(app_dir.as_str(), "sessions")
}

/// The device a session row names: its model when one was captured and is
/// not empty, else its serial.
pub open spec fn device_label_of(s: SessionSummary) -> Seq<char> {
    match s.device_model {
        Some(m) => if m@.len() > 0 {
            m@
        } else {
            s.device_serial@
        },
        None => s.device_serial@,
    }
}

pub fn device_label(s: &SessionSummary) -> (r: String)
    ensures
        r@ == device_label_of(*s),
{
    match &s.device_model {
        Some(m) => {
            if chars_of(m.as_str()).len() > 0 {
                return string_from_chars(chars_of(m.as_str()).as_slice());
            }
        },
        None => {},
    }
    string_from_chars(chars_of(s.device_serial.as_str()).as_slice())
}

fn same_session(a: &SessionId, b: &SessionId) -> (r: bool)
    ensures
        r == same_id(*a, *b),
{
    let ap = chars_of(a.package.as_str());
    let bp = chars_of(b.package.as_str());
    let ad = chars_of(a.dir_name.as_str());
    let bd = chars_of(b.dir_name.as_str());
    eq_chars(ap.as_slice(), bp.as_slice()) && eq_chars(ad.as_slice(), bd.as_slice())
}

fn copy_id(id: &SessionId) -> (r: SessionId)
    ensures
        same_id(r, *id),
{
    SessionId {
        package: string_from_chars(chars_of(id.package.as_str()).as_slice()),
        dir_name: string_from_chars(chars_of(id.dir_name.as_str()).as_slice()),
    }
}

/// State of the sessions history dialog. Row 0 is the Live row; rows 1 and
/// on are the captured sessions other than the live one.
pub struct SessionsState {
    pub sessions: Vec<SessionSummary>,
    /// The row under the cursor.
    pub selected: usize,
    pub error: Option<String>,
    /// The session being captured live, if any.
    pub live_id: Option<SessionId>,
    /// Where sessions are kept, as `c` copies it.
    pub root: String,
}

/// Indices into `s.sessions` of the rows below the Live row.
pub open spec fn history_of(s: SessionsState) -> Seq<int> {
    history_indices(s.sessions@, s.live_id, s.sessions@.len() as int)
}

/// The rows: the Live row and the history.
pub open spec fn rows_of(s: SessionsState) -> int {
    1 + history_of(s).len() as int
}

/// The captured session on row `idx`, if that row is one.
pub open spec fn session_on_row(s: SessionsState, idx: int) -> Option<SessionSummary> {
    if 1 <= idx <= history_of(s).len() {
        Some(s.sessions@[history_of(s)[idx - 1]])
    } else {
        None
    }
}

/// What a key does to the dialog (`viewing`: the session on screen, if
/// any): `k`/Up and `j`/Down move within the rows, `c` copies the sessions
/// directory, Enter on the Live row goes live and on a session opens it,
/// `d` deletes a session unless it is on screen (on the Live row it does
/// nothing), Esc leaves the dialog.
pub open spec fn sessions_key_done(
    a: SessionsState,
    b: SessionsState,
    key: KeyEvent,
    viewing: Option<SessionId>,
    r: Option<Action>,
) -> bool {
    match key.code {
        KeyCode::Up | KeyCode::Char('k') => b == SessionsState {
            selected: if a.selected > 0 {
                (a.selected - 1) as usize
            } else {
                0
            },
            ..a
        } && r == Some(Action::Noop),
        KeyCode::Down | KeyCode::Char('j') => b == SessionsState {
            selected: if a.selected + 1 < rows_of(a) {
                (a.selected + 1) as usize
            } else {
                (rows_of(a) - 1) as usize
            },
            ..a
        } && r == Some(Action::Noop),
        KeyCode::Char('c') => b == a && (r matches Some(Action::CopyPath(p)) && p@ == a.root@),
        KeyCode::Enter => b == a && if a.selected == 0 {
            r == Some(Action::CloseSession)
        } else {
            match session_on_row(a, a.selected as int) {
                Some(x) => (r matches Some(Action::OpenSession(id)) && same_id(id, x.id)),
                None => r is None,
            }
        },
        KeyCode::Char('d') => b == a && if a.selected == 0 {
            r == Some(Action::Noop)
        } else {
            match session_on_row(a, a.selected as int) {
                Some(x) => if (viewing matches Some(v) && same_id(v, x.id)) {
                    r == Some(Action::Noop)
                } else {
                    (r matches Some(Action::DeleteSession(id)) && same_id(id, x.id))
                },
                None => r is None,
            }
        },
        KeyCode::Esc => b == a && r == Some(Action::Unfocus),
        _ => b == a && r is None,
    }
}

impl SessionsState {
    /// An empty dialog on the Live row, keeping sessions under the user's
    /// cache directory.
    pub fn new() -> (r: Self)
        ensures
            r.sessions@.len() == 0,
            r.selected == 0,
            r.error is None,
            r.live_id is None,
            exists|cache: Option<String>| r.root@ == sessions_root_of(cache),
    {
        let cache = cache_dir_text();
        let ghost c = cache;
        let root = sessions_root_from(cache);
        let r = SessionsState { sessions: Vec::new(), selected: 0, error: None, live_id: None, root };
        assert(r.root@ == sessions_root_of(c));
        r
    }

    /// The index into `sessions` of the session on row `idx`, if any.
    fn index_of_row(&self, idx: usize) -> (r: Option<usize>)
        ensures
            match r {
                Some(i) => 1 <= idx <= history_of(*self).len() && i as int == history_of(*self)[idx - 1],
                None => !(1 <= idx <= history_of(*self).len()),
            },
    {
        let ghost s = self.sessions@;
        let ghost live = self.live_id;
        let mut count: usize = 0;
        let mut i: usize = 0;
        proof {
            lemma_history_indices(s, live, s.len() as int);
        }
        while i < self.sessions.len()
            invariant
                s == self.sessions@,
                live == self.live_id,
                i <= s.len(),
                count as int == history_indices(s, live, i as int).len(),
                idx == 0 || count < idx,
            decreases s.len() - i,
        {
            proof {
                lemma_history_indices(s, live, i as int);
            }
            let hidden = match &self.live_id {
                Some(l) => same_session(l, &self.sessions[i].id),
                None => false,
            };
            proof {
                assert(hidden == is_live(live, s[i as int].id));
                assert(history_indices(s, live, i + 1) == if hidden {
                    history_indices(s, live, i as int)
                } else {
                    history_indices(s, live, i as int).push(i as int)
                });
            }
            if !hidden {
                count = count + 1;
                if count == idx {
                    proof {
                        assert(history_indices(s, live, i + 1) == history_indices(s, live, i as int).push(i as int));
                        lemma_prefix_indices(s, live, i + 1, s.len() as int);
                        let h1 = history_indices(s, live, i + 1);
                        let hn = history_indices(s, live, s.len() as int);
                        assert(h1.len() == idx);
                        assert(h1[idx - 1] == i);
                        assert(hn.take(h1.len() as int)[idx - 1] == hn[idx - 1]);
                        assert(history_of(*self) == hn);
                    }
                    return Some(i);
                }
            }
            i = i + 1;
        }
        None
    }

    /// The captured session on row `idx`; none for the Live row or past the
    /// last row.
    pub fn history_at(&self, idx: usize) -> (r: Option<&SessionSummary>)
        ensures
            match r {
                Some(x) => session_on_row(*self, idx as int) == Some(*x),
                None => session_on_row(*self, idx as int) is None,
            },
    {
        match self.index_of_row(idx) {
            Some(i) => {
                proof {
                    lemma_history_indices(self.sessions@, self.live_id, self.sessions@.len() as int);
                }
                Some(&self.sessions[i])
            },
            None => None,
        }
    }

    /// The number of rows: the Live row and the history.
    pub fn total_rows(&self) -> (r: usize)
        requires
            self.sessions@.len() < usize::MAX,
        ensures
            r as int == rows_of(*self),
    {
        let ghost s = self.sessions@;
        let ghost live = self.live_id;
        let mut count: usize = 0;
        let mut i: usize = 0;
        while i < self.sessions.len()
            invariant
                s == self.sessions@,
                live == self.live_id,
                i <= s.len(),
                s.len() < usize::MAX,
                count as int == history_indices(s, live, i as int).len(),
            decreases s.len() - i,
        {
            proof {
                lemma_history_indices(s, live, i as int);
            }
            let hidden = match &self.live_id {
                Some(l) => same_session(l, &self.sessions[i].id),
                None => false,
            };
            proof {
                assert(hidden == is_live(live, s[i as int].id));
                assert(history_indices(s, live, i + 1) == if hidden {
                    history_indices(s, live, i as int)
                } else {
                    history_indices(s, live, i as int).push(i as int)
                });
            }
            if !hidden {
                count = count + 1;
            }
            i = i + 1;
        }
        proof {
            lemma_history_indices(s, live, s.len() as int);
        }
        count + 1
    }

    /// Takes a fresh list; the cursor stays within the rows and the error
    /// is cleared.
    pub fn set_sessions(&mut self, sessions: Vec<SessionSummary>)
        requires
            sessions@.len() < usize::MAX,
        ensures
            final(self).sessions == sessions,
            final(self).live_id == old(self).live_id,
            final(self).root == old(self).root,
            final(self).error is None,
            final(self).selected == if old(self).selected < rows_of(*final(self)) {
                old(self).selected as int
            } else {
                rows_of(*final(self)) - 1
            },
    {
        self.sessions = sessions;
        let max = self.total_rows() - 1;
        if self.selected > max {
            self.selected = max;
        }
        self.error = None;
    }

    /// Applies a key; `viewing_id` is the session on screen, if any.
    pub fn handle_key(&mut self, key: KeyEvent, viewing_id: Option<&SessionId>) -> (r: Option<Action>)
        requires
            old(self).sessions@.len() < usize::MAX,
        ensures
            sessions_key_done(
                *old(self),
                *final(self),
                key,
                match viewing_id {
                    Some(v) => Some(*v),
                    None => None,
                },
                r,
            ),
    {
        match key.code {
            KeyCode::Up | KeyCode::Char('k') => {
                if self.selected > 0 {
                    self.selected = self.selected - 1;
                }
                Some(Action::Noop)
            },
            KeyCode::Down | KeyCode::Char('j') => {
                let rows = self.total_rows();
                if self.selected < rows - 1 {
                    self.selected = self.selected + 1;
                } else {
                    self.selected = rows - 1;
                }
                Some(Action::Noop)
            },
            KeyCode::Char('c') => Some(Action::CopyPath(string_from_chars(chars_of(self.root.as_str()).as_slice()))),
            KeyCode::Enter => {
                if self.selected == 0 {
                    return Some(Action::CloseSession);
                }
                match self.history_at(self.selected) {
                    Some(x) => Some(Action::OpenSession(copy_id(&x.id))),
                    None => None,
                }
            },
            KeyCode::Char('d') => {
                if self.selected == 0 {
                    return Some(Action::Noop);
                }
                match self.history_at(self.selected) {
                    Some(x) => {
                        let shown = match viewing_id {
                            Some(v) => same_session(v, &x.id),
                            None => false,
                        };
                        if shown {
                            Some(Action::Noop)
                        } else {
                            Some(Action::DeleteSession(copy_id(&x.id)))
                        }
                    },
                    None => None,
                }
            },
            KeyCode::Esc => Some(Action::Unfocus),
            _ => None,
        }
    }
}

} // verus!
