//! The issues panel: crashes and ANRs merged into one list, newest first.

use vstd::prelude::*;
use crate::anrs::{AnrEntry, anr_view};
use crate::app::Action;
use crate::crashes::{CrashEntry, crash_view};
use crate::keys::{KeyCode, KeyEvent};
use crate::order::{lex_less, lex_lt};
use crate::text::chars_of;

verus! {

#[derive(Clone, Copy, Debug, PartialEq)]
pub enum IssueKind {
    Crash,
    Anr,
}

pub struct IssueEntry {
    pub kind: IssueKind,
    pub timestamp: String,
    pub description: String,
    pub full_text: String,
}

pub ghost struct IssueView {
    pub kind: IssueKind,
    pub timestamp: Seq<char>,
    pub description: Seq<char>,
    pub full_text: Seq<char>,
}

pub open spec fn issue_view(e: IssueEntry) -> IssueView {
    IssueView { kind: e.kind, timestamp: e.timestamp@, description: e.description@, full_text: e.full_text@ }
}

pub open spec fn issues_view(v: Seq<IssueEntry>) -> Seq<IssueView> {
    v.map_values(|e: IssueEntry| issue_view(e))
}

/// Crashes then ANRs, as issue rows.
pub open spec fn merged_issues(crashes: Seq<CrashEntry>, anrs: Seq<AnrEntry>) -> Seq<IssueView> {
    crashes.map_values(
        |c: CrashEntry|
            IssueView {
                kind: IssueKind::Crash,
                timestamp: c.timestamp@,
                description: c.exception@,
                full_text: c.full_text@,
            },
    ) + anrs.map_values(
        |a: AnrEntry|
            IssueView {
                kind: IssueKind::Anr,
                timestamp: a.timestamp@,
                description: a.reason@,
                full_text: a.full_text@,
            },
    )
}

/// Where `x` goes in a list sorted newest first: after every row whose
/// timestamp is not older than its own.
pub open spec fn newest_first_position(sorted: Seq<IssueView>, ts: Seq<char>) -> nat
    decreases sorted.len(),
{
    if sorted.len() == 0 || lex_lt(sorted[0].timestamp, ts) {
        0
    } else {
        1 + newest_first_position(sorted.drop_first(), ts)
    }
}

/// Stable sort by timestamp, newest first: rows with equal timestamps
/// keep their relative order.
pub open spec fn sort_newest_first(s: Seq<IssueView>) -> Seq<IssueView>
    decreases s.len(),
{
    if s.len() == 0 {
        Seq::empty()
    } else {
        let rest = sort_newest_first(s.drop_last());
        rest.insert(newest_first_position(rest, s.last().timestamp) as int, s.last())
    }
}

proof fn lemma_newest_first_position(sorted: Seq<IssueView>, ts: Seq<char>, k: int)
    requires
        0 <= k <= sorted.len(),
        forall|j: int| 0 <= j < k ==> !lex_lt(#[trigger] sorted[j].timestamp, ts),
        k == sorted.len() || lex_lt(sorted[k].timestamp, ts),
    ensures
        newest_first_position(sorted, ts) == k,
    decreases k,
{
    if k > 0 {
        let t = sorted.drop_first();
        assert forall|j: int| 0 <= j < k - 1 implies !lex_lt(#[trigger] t[j].timestamp, ts) by {
            assert(t[j] == sorted[j + 1]);
        }
        if k < sorted.len() {
            assert(t[k - 1] == sorted[k]);
        }
        assert(!lex_lt(sorted[0].timestamp, ts));
        lemma_newest_first_position(t, ts, k - 1);
    }
}

/// Inserts `entry` where `sort_newest_first` puts a row appended last.
fn insert_newest_first(out: &mut Vec<IssueEntry>, entry: IssueEntry)
    ensures
        issues_view(final(out)@) == issues_view(old(out)@).insert(
            newest_first_position(issues_view(old(out)@), entry.timestamp@) as int,
            issue_view(entry),
        ),
{
    let ghost x = issue_view(entry);
    let ts = chars_of(entry.timestamp.as_str());
    let len = out.len();
    let mut k: usize = 0;
    while k < len && !lex_less(chars_of(out[k].timestamp.as_str()).as_slice(), ts.as_slice())
        invariant
            k <= len,
            len == out@.len(),
            ts@ == x.timestamp,
            forall|j: int| 0 <= j < k ==> !lex_lt(#[trigger] out@[j].timestamp@, x.timestamp),
        decreases len - k,
    {
        k = k + 1;
    }
    let ghost before = issues_view(out@);
    proof {
        assert forall|j: int| 0 <= j < k implies !lex_lt(#[trigger] before[j].timestamp, x.timestamp) by {
            assert(before[j].timestamp == out@[j].timestamp@);
        }
        if k < len {
            assert(before[k as int].timestamp == out@[k as int].timestamp@);
        }
        lemma_newest_first_position(before, x.timestamp, k as int);
    }
    out.insert(k, entry);
    proof {
        assert(issues_view(out@) =~= before.insert(k as int, x));
    }
}

pub struct IssuesState {
    pub crashes: Vec<CrashEntry>,
    pub anrs: Vec<AnrEntry>,
    pub issues: Vec<IssueEntry>,
    pub selected: usize,
    pub crash_error: Option<String>,
    pub anr_error: Option<String>,
}

/// The selection kept on a row of a list of `len` rows.
pub open spec fn clamped_selection(selected: int, len: int) -> int {
    if len == 0 {
        0
    } else if selected < len - 1 {
        selected
    } else {
        len - 1
    }
}

pub open spec fn issues_key_done(a: IssuesState, b: IssuesState, key: KeyEvent, r: Option<Action>) -> bool {
    &&& b.issues == a.issues
    &&& b.crash_error == a.crash_error
    &&& b.anr_error == a.anr_error
    &&& b.crash_list() == a.crash_list()
    &&& b.anr_list() == a.anr_list()
    &&& match key.code {
        KeyCode::Up | KeyCode::Char('k') => r matches Some(Action::Noop)
            && b.selected == (if a.selected > 0 {
                a.selected - 1
            } else {
                0
            }),
        KeyCode::Down | KeyCode::Char('j') => r matches Some(Action::Noop)
            && b.selected == (if a.issues@.len() == 0 {
                a.selected as int
            } else {
                clamped_selection(a.selected + 1, a.issues@.len() as int)
            }),
        KeyCode::Enter => b.selected == a.selected && if a.selected < a.issues@.len() {
            r matches Some(Action::OpenInEditor(t)) && t@ == a.issues@[a.selected as int].full_text@
        } else {
            r matches Some(Action::Noop)
        },
        KeyCode::Esc => r matches Some(Action::Unfocus) && b.selected == a.selected,
        _ => r is None && b.selected == a.selected,
    }
}

pub open spec fn crashes_set(a: IssuesState, b: IssuesState, crashes: Vec<CrashEntry>) -> bool {
    &&& b.crash_list() == crashes@
    &&& b.anr_list() == a.anr_list()
    &&& b.crash_error is None
    &&& b.anr_error == a.anr_error
    &&& b.rows_match()
    &&& b.selected == clamped_selection(
        a.selected as int,
        b.issues@.len() as int,
    )
}

pub open spec fn crash_error_set(a: IssuesState, b: IssuesState, e: String) -> bool {
    &&& b.crash_error == Some(e)
    &&& b.anr_error == a.anr_error
    &&& b.crash_list() == a.crash_list()
    &&& b.anr_list() == a.anr_list()
    &&& b.issues == a.issues
    &&& b.selected == a.selected
}

pub open spec fn anrs_set(a: IssuesState, b: IssuesState, anrs: Vec<AnrEntry>) -> bool {
    &&& b.anr_list() == anrs@
    &&& b.crash_list() == a.crash_list()
    &&& b.anr_error is None
    &&& b.crash_error == a.crash_error
    &&& b.rows_match()
    &&& b.selected == clamped_selection(
        a.selected as int,
        b.issues@.len() as int,
    )
}

pub open spec fn anr_error_set(a: IssuesState, b: IssuesState, e: String) -> bool {
    &&& b.anr_error == Some(e)
    &&& b.crash_error == a.crash_error
    &&& b.crash_list() == a.crash_list()
    &&& b.anr_list() == a.anr_list()
    &&& b.issues == a.issues
    &&& b.selected == a.selected
}

impl IssuesState {
    /// The crash entries last received.
    pub open spec fn crash_list(&self) -> Seq<CrashEntry> {
        self.crashes@
    }

    /// The ANR entries last received.
    pub open spec fn anr_list(&self) -> Seq<AnrEntry> {
        self.anrs@
    }

    /// The rows shown: both lists merged, newest first.
    pub open spec fn rows_match(&self) -> bool {
        issues_view(self.issues@) == sort_newest_first(merged_issues(self.crash_list(), self.anr_list()))
    }

    pub fn new() -> (r: Self)
        ensures
            r.crash_list().len() == 0,
            r.anr_list().len() == 0,
            r.issues@.len() == 0,
            r.selected == 0,
            r.crash_error is None,
            r.anr_error is None,
    {
        Self {
            crashes: Vec::new(),
            anrs: Vec::new(),
            issues: Vec::new(),
            selected: 0,
            crash_error: None,
            anr_error: None,
        }
    }

    pub fn set_crashes(&mut self, crashes: Vec<CrashEntry>)
        ensures
            crashes_set(*old(self), *final(self), crashes),
    {
        self.crashes = crashes;
        self.crash_error = None;
        self.rebuild();
    }

    pub fn set_crash_error(&mut self, e: String)
        ensures
            crash_error_set(*old(self), *final(self), e),
    {
        self.crash_error = Some(e);
    }

    pub fn set_anrs(&mut self, anrs: Vec<AnrEntry>)
        ensures
            anrs_set(*old(self), *final(self), anrs),
    {
        self.anrs = anrs;
        self.anr_error = None;
        self.rebuild();
    }

    pub fn set_anr_error(&mut self, e: String)
        ensures
            anr_error_set(*old(self), *final(self), e),
    {
        self.anr_error = Some(e);
    }

    /// The crash poller's error if there is one, else the ANR poller's.
    pub fn error(&self) -> (r: Option<&str>)
        ensures
            r matches Some(s) ==> s@ == (match self.crash_error {
                Some(c) => c@,
                None => match self.anr_error {
                    Some(a) => a@,
                    None => Seq::empty(),
                },
            }),
            r is None <==> self.crash_error is None && self.anr_error is None,
    {
        match &self.crash_error {
            Some(c) => Some(c.as_str()),
            None => match &self.anr_error {
                Some(a) => Some(a.as_str()),
                None => None,
            },
        }
    }

    fn rebuild(&mut self)
        ensures
            final(self).crash_list() == old(self).crash_list(),
            final(self).anr_list() == old(self).anr_list(),
            final(self).crash_error == old(self).crash_error,
            final(self).anr_error == old(self).anr_error,
            final(self).rows_match(),
            final(self).selected == clamped_selection(
                old(self).selected as int,
                final(self).issues@.len() as int,
            ),
    {
        let ghost merged = merged_issues(self.crashes@, self.anrs@);
        let mut out: Vec<IssueEntry> = Vec::new();
        proof {
            assert(merged.take(0) =~= Seq::<IssueView>::empty());
            assert(issues_view(out@) =~= Seq::<IssueView>::empty());
        }
        let mut i: usize = 0;
        while i < self.crashes.len()
            invariant
                i <= self.crashes@.len(),
                merged == merged_issues(self.crashes@, self.anrs@),
                issues_view(out@) == sort_newest_first(merged.take(i as int)),
            decreases self.crashes@.len() - i,
        {
            let c = &self.crashes[i];
            let entry = IssueEntry {
                kind: IssueKind::Crash,
                timestamp: c.timestamp.clone(),
                description: c.exception.clone(),
                full_text: c.full_text.clone(),
            };
            proof {
                assert(issue_view(entry) == merged[i as int]);
                assert(merged.take(i + 1).drop_last() =~= merged.take(i as int));
            }
            insert_newest_first(&mut out, entry);
            i = i + 1;
        }
        let cl = self.crashes.len();
        let mut j: usize = 0;
        while j < self.anrs.len()
            invariant
                j <= self.anrs@.len(),
                cl == self.crashes@.len(),
                merged == merged_issues(self.crashes@, self.anrs@),
                issues_view(out@) == sort_newest_first(merged.take(cl + j)),
            decreases self.anrs@.len() - j,
        {
            let a = &self.anrs[j];
            let entry = IssueEntry {
                kind: IssueKind::Anr,
                timestamp: a.timestamp.clone(),
                description: a.reason.clone(),
                full_text: a.full_text.clone(),
            };
            proof {
                assert(issue_view(entry) == merged[cl + j]);
                assert(merged.take(cl + j + 1).drop_last() =~= merged.take(cl + j));
            }
            insert_newest_first(&mut out, entry);
            j = j + 1;
        }
        proof {
            assert(merged.take(cl + j) =~= merged);
        }
        self.issues = out;
        if self.issues.len() == 0 {
            self.selected = 0;
        } else if self.selected >= self.issues.len() - 1 {
            self.selected = self.issues.len() - 1;
        }
    }

    /// Moves the selection, opens the selected report, or unfocuses.
    pub fn handle_key(&mut self, key: KeyEvent) -> (r: Option<Action>)
        ensures
            issues_key_done(*old(self), *final(self), key, r),
    {
        match key.code {
            KeyCode::Up | KeyCode::Char('k') => {
                self.selected = if self.selected > 0 {
                    self.selected - 1
                } else {
                    0
                };
                Some(Action::Noop)
            },
            KeyCode::Down | KeyCode::Char('j') => {
                if self.issues.len() > 0 {
                    let last = self.issues.len() - 1;
                    self.selected = if self.selected < last {
                        self.selected + 1
                    } else {
                        last
                    };
                }
                Some(Action::Noop)
            },
            KeyCode::Enter => {
                if self.selected < self.issues.len() {
                    Some(Action::OpenInEditor(self.issues[self.selected].full_text.clone()))
                } else {
                    Some(Action::Noop)
                }
            },
            KeyCode::Esc => Some(Action::Unfocus),
            _ => None,
        }
    }
}

} // verus!
