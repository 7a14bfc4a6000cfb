//! The command palette: a fuzzy-filtered list of app commands.

use vstd::prelude::*;
use crate::app::Action;
use crate::apps::{fuzzy_match, fuzzy_matches};
use crate::keys::KeyCode;
use crate::text::{string_clear, string_pop, string_push};

verus! {

pub struct Command {
    pub name: &'static str,
    pub action: Action,
}

/// The palette's commands, in the order listed.
pub open spec fn palette() -> Seq<(Seq<char>, Action)> {
    seq![
        ("open app"@, Action::OpenApp),
        ("wake screen"@, Action::WakeScreen),
        ("kill app"@, Action::KillApp),
        ("clear data"@, Action::ClearData),
        ("uninstall app"@, Action::UninstallApp),
        ("screenshot"@, Action::Screenshot),
        ("toggle layout bounds"@, Action::ToggleLayoutBounds),
        ("toggle airplane mode"@, Action::ToggleAirplaneMode),
        ("toggle wifi"@, Action::ToggleWifi),
        ("wireless adb"@, Action::WirelessAdb),
        ("quit"@, Action::Quit),
    ]
}

/// Number of commands in the palette.
pub const PALETTE_SIZE: usize = 11;

pub open spec fn entries_view(v: Seq<(&'static str, Action)>) -> Seq<(Seq<char>, Action)> {
    v.map_values(|e: (&'static str, Action)| (e.0@, e.1))
}

/// The entries among the first `n` whose name matches `filter`, in order.
pub open spec fn matching_entries(s: Seq<(Seq<char>, Action)>, filter: Seq<char>, n: int) -> Seq<(Seq<char>, Action)>
    decreases n,
{
    if n <= 0 || n > s.len() {
        Seq::empty()
    } else if fuzzy_match(s[n - 1].0, filter) {
        matching_entries(s, filter, n - 1).push(s[n - 1])
    } else {
        matching_entries(s, filter, n - 1)
    }
}

pub open spec fn palette_matches(filter: Seq<char>) -> Seq<(Seq<char>, Action)> {
    matching_entries(palette(), filter, palette().len() as int)
}

fn palette_table() -> (r: Vec<(&'static str, Action)>)
    ensures
        entries_view(r@) == palette(),
{
    let r = vec![
        ("open app", Action::OpenApp),
        ("wake screen", Action::WakeScreen),
        ("kill app", Action::KillApp),
        ("clear data", Action::ClearData),
        ("uninstall app", Action::UninstallApp),
        ("screenshot", Action::Screenshot),
        ("toggle layout bounds", Action::ToggleLayoutBounds),
        ("toggle airplane mode", Action::ToggleAirplaneMode),
        ("toggle wifi", Action::ToggleWifi),
        ("wireless adb", Action::WirelessAdb),
        ("quit", Action::Quit),
    ];
    proof {
        assert(entries_view(r@) =~= palette());
    }
    r
}

pub struct CommandPaletteState {
    pub open: bool,
    pub filter: String,
    pub cursor: usize,
}

impl CommandPaletteState {
    pub fn new() -> (r: Self)
        ensures
            !r.open,
            r.filter@.len() == 0,
            r.cursor == 0,
    {
        Self { open: false, filter: String::new(), cursor: 0 }
    }

    /// Shows the palette with an empty filter.
    pub fn open(&mut self)
        ensures
            final(self).open,
            final(self).filter@.len() == 0,
            final(self).cursor == 0,
    {
        self.open = true;
        string_clear(&mut self.filter);
        self.cursor = 0;
    }

    pub fn close(&mut self)
        ensures
            !final(self).open,
            final(self).filter@ == old(self).filter@,
            final(self).cursor == old(self).cursor,
    {
        self.open = false;
    }

    /// The commands whose names match the filter, in palette order.
    pub fn filtered_commands(&self) -> (r: Vec<(&'static str, Action)>)
        ensures
            entries_view(r@) == palette_matches(self.filter@),
    {
        let table = palette_table();
        let ghost all = entries_view(table@);
        let mut out: Vec<(&'static str, Action)> = Vec::new();
        let mut rest = table;
        let mut i: usize = 0;
        proof {
            assert(entries_view(rest@) =~= all.skip(0));
        }
        while rest.len() > 0
            invariant
                all == palette(),
                i <= all.len(),
                entries_view(rest@) == all.skip(i as int),
                entries_view(out@) == matching_entries(all, self.filter@, i as int),
            decreases rest@.len(),
        {
            let ghost rv = entries_view(rest@);
            let ghost old_rest = rest@;
            proof {
                assert(rv.len() == rest@.len());
                assert(i < all.len());
                assert(rv[0] == all[i as int]);
            }
            let (name, action) = rest.remove(0);
            proof {
                assert(rest@ =~= old_rest.skip(1));
                assert(entries_view(rest@) =~= rv.skip(1));
                assert(rv.skip(1) =~= all.skip(i + 1));
                assert(all.take(i + 1) =~= all.take(i as int).push(all[i as int]));
            }
            if fuzzy_matches(name, self.filter.as_str()) {
                let ghost before = entries_view(out@);
                out.push((name, action));
                proof {
                    assert(entries_view(out@) =~= before.push(all[i as int]));
                }
            }
            i = i + 1;
        }
        out
    }

    /// Esc closes; arrows move within the matches; Enter closes and
    /// returns the command under the cursor; typing edits the filter and
    /// resets the cursor.
    pub fn handle_key(&mut self, code: KeyCode) -> (r: Option<Action>)
        requires
            code == KeyCode::Down ==> old(self).cursor < usize::MAX,
        ensures
            match code {
                KeyCode::Esc => {
                    &&& r is None
                    &&& !final(self).open
                    &&& final(self).filter@ == old(self).filter@
                    &&& final(self).cursor == old(self).cursor
                },
                KeyCode::Up => {
                    &&& r is None
                    &&& final(self).open == old(self).open
                    &&& final(self).filter@ == old(self).filter@
                    &&& final(self).cursor == if old(self).cursor > 0 {
                        old(self).cursor - 1
                    } else {
                        0
                    }
                },
                KeyCode::Down => {
                    let count = palette_matches(old(self).filter@).len();
                    &&& r is None
                    &&& final(self).open == old(self).open
                    &&& final(self).filter@ == old(self).filter@
                    &&& final(self).cursor == if old(self).cursor + 1 < count - 1 {
                        old(self).cursor + 1
                    } else if count > 0 {
                        count - 1
                    } else {
                        0
                    }
                },
                KeyCode::Enter => {
                    let m = palette_matches(old(self).filter@);
                    &&& !final(self).open
                    &&& final(self).filter@ == old(self).filter@
                    &&& final(self).cursor == old(self).cursor
                    &&& if old(self).cursor < m.len() {
                        r == Some(m[old(self).cursor as int].1)
                    } else {
                        r is None
                    }
                },
                KeyCode::Backspace => {
                    &&& r is None
                    &&& final(self).open == old(self).open
                    &&& final(self).cursor == 0
                    &&& final(self).filter@ == if old(self).filter@.len() > 0 {
                        old(self).filter@.drop_last()
                    } else {
                        old(self).filter@
                    }
                },
                KeyCode::Char(c) => {
                    &&& r is None
                    &&& final(self).open == old(self).open
                    &&& final(self).cursor == 0
                    &&& final(self).filter@ == old(self).filter@.push(c)
                },
                _ => {
                    &&& r is None
                    &&& final(self).open == old(self).open
                    &&& final(self).filter@ == old(self).filter@
                    &&& final(self).cursor == old(self).cursor
                },
            },
    {
        match code {
            KeyCode::Esc => {
                self.close();
                None
            },
            KeyCode::Up => {
                self.cursor = if self.cursor > 0 {
                    self.cursor - 1
                } else {
                    0
                };
                None
            },
            KeyCode::Down => {
                let count = self.filtered_commands().len();
                let last = if count > 0 {
                    count - 1
                } else {
                    0
                };
                self.cursor = if self.cursor + 1 < last {
                    self.cursor + 1
                } else {
                    last
                };
                None
            },
            KeyCode::Enter => {
                let mut filtered = self.filtered_commands();
                let result = if self.cursor < filtered.len() {
                    let ghost fv = entries_view(filtered@);
                    let (_, action) = filtered.remove(self.cursor);
                    proof {
                        assert(fv[self.cursor as int].1 == action);
                    }
                    Some(action)
                } else {
                    None
                };
                self.close();
                result
            },
            KeyCode::Backspace => {
                string_pop(&mut self.filter);
                self.cursor = 0;
                None
            },
            KeyCode::Char(c) => {
                string_push(&mut self.filter, c);
                self.cursor = 0;
                None
            },
            _ => None,
        }
    }
}

} // verus!
