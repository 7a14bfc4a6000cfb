//! The commands panel: device and app commands with one-key shortcuts.

use vstd::prelude::*;
use crate::app::Action;
use crate::apps::{fuzzy_match, fuzzy_matches};
use crate::clock::{millis_since, now};
use crate::keys::{KeyCode, KeyEvent, KeyModifiers};
use crate::text::{ascii_lower, char_ascii_lower, chars_of, eq_chars, string_clear, string_pop,
    string_push};

verus! {

/// The commands, each with its shortcut (used with Ctrl), in panel order.
pub open spec fn command_list() -> Seq<(Seq<char>, char, Action)> {
    seq![
        ("open app"@, 'o', Action::OpenApp),
        ("kill app"@, 'k', Action::KillApp),
        ("clear data"@, 'x', Action::ClearData),
        ("wakeup"@, 'w', Action::WakeScreen),
        ("screenshot"@, 's', Action::Screenshot),
        ("mirror"@, 'r', Action::MirrorDevice),
        ("dark mode"@, 'n', Action::ToggleDarkMode),
        ("layout bounds"@, 'l', Action::ToggleLayoutBounds),
        ("show taps"@, 't', Action::ToggleShowTaps),
        ("pointer location"@, 'p', Action::TogglePointerLocation),
        ("gpu rendering"@, 'g', Action::ToggleGpuRendering),
        ("wifi"@, 'f', Action::ToggleWifi),
        ("airplane mode"@, 'e', Action::ToggleAirplaneMode),
        ("wireless adb"@, 'b', Action::WirelessAdb),
        ("uninstall"@, 'u', Action::UninstallApp),
    ]
}

pub open spec fn command_entries_view(v: Seq<(&'static str, char, Action)>) -> Seq<(Seq<char>, char, Action)> {
    v.map_values(|e: (&'static str, char, Action)| (e.0@, e.1, e.2))
}

/// An emulator has no screen to mirror.
pub open spec fn offered(name: Seq<char>, is_emulator: bool) -> bool {
    !(is_emulator && name == "mirror"@)
}

/// The offered commands among the first `n` whose names match `filter`.
pub open spec fn shown_commands(
    s: Seq<(Seq<char>, char, Action)>,
    filter: Seq<char>,
    is_emulator: bool,
    n: int,
) -> Seq<(Seq<char>, char, Action)>
    decreases n,
{
    if n <= 0 || n > s.len() {
        Seq::empty()
    } else if offered(s[n - 1].0, is_emulator) && fuzzy_match(s[n - 1].0, filter) {
        shown_commands(s, filter, is_emulator, n - 1).push(s[n - 1])
    } else {
        shown_commands(s, filter, is_emulator, n - 1)
    }
}

/// The first offered command from index `i` on whose shortcut is `c`.
pub open spec fn shortcut_match(s: Seq<(Seq<char>, char, Action)>, c: char, is_emulator: bool, i: int) -> Option<int>
    decreases s.len() - i,
{
    if i < 0 || i >= s.len() {
        None
    } else if s[i].1 == c && offered(s[i].0, is_emulator) {
        Some(i)
    } else {
        shortcut_match(s, c, is_emulator, i + 1)
    }
}

fn command_table() -> (r: Vec<(&'static str, char, Action)>)
    ensures
        command_entries_view(r@) == command_list(),
{
    let r = vec![
        ("open app", 'o', Action::OpenApp),
        ("kill app", 'k', Action::KillApp),
        ("clear data", 'x', Action::ClearData),
        ("wakeup", 'w', Action::WakeScreen),
        ("screenshot", 's', Action::Screenshot),
        ("mirror", 'r', Action::MirrorDevice),
        ("dark mode", 'n', Action::ToggleDarkMode),
        ("layout bounds", 'l', Action::ToggleLayoutBounds),
        ("show taps", 't', Action::ToggleShowTaps),
        ("pointer location", 'p', Action::TogglePointerLocation),
        ("gpu rendering", 'g', Action::ToggleGpuRendering),
        ("wifi", 'f', Action::ToggleWifi),
        ("airplane mode", 'e', Action::ToggleAirplaneMode),
        ("wireless adb", 'b', Action::WirelessAdb),
        ("uninstall", 'u', Action::UninstallApp),
    ];
    proof {
        assert(command_entries_view(r@) =~= command_list());
    }
    r
}

fn is_offered(name: &str, is_emulator: bool) -> (b: bool)
    ensures
        b == offered(name@, is_emulator),
{
    if !is_emulator {
        return true;
    }
    let nv = chars_of(name);
    let mirror = chars_of("mirror");
    !eq_chars(nv.as_slice(), mirror.as_slice())
}

/// Whether some offered command has shortcut `c`.
pub fn has_shortcut(c: char, is_emulator: bool) -> (b: bool)
    ensures
        b == shortcut_match(command_list(), c, is_emulator, 0) is Some,
{
    find_shortcut(c, is_emulator).is_some()
}

fn find_shortcut(c: char, is_emulator: bool) -> (r: Option<Action>)
    ensures
        match shortcut_match(command_list(), c, is_emulator, 0) {
            Some(i) => r == Some(command_list()[i].2),
            None => r is None,
        },
{
    let table = command_table();
    let ghost all = command_entries_view(table@);
    let mut rest = table;
    let mut i: usize = 0;
    proof {
        assert(command_entries_view(rest@) =~= all.skip(0));
    }
    while rest.len() > 0
        invariant
            all == command_list(),
            i <= all.len(),
            command_entries_view(rest@) == all.skip(i as int),
            shortcut_match(all, c, is_emulator, 0) == shortcut_match(all, c, is_emulator, i as int),
        decreases rest@.len(),
    {
        let ghost rv = command_entries_view(rest@);
        let ghost old_rest = rest@;
        proof {
            assert(rv.len() == rest@.len());
            assert(i < all.len());
            assert(rv[0] == all[i as int]);
        }
        let (name, key, action) = rest.remove(0);
        proof {
            assert(rest@ =~= old_rest.skip(1));
            assert(command_entries_view(rest@) =~= rv.skip(1));
            assert(rv.skip(1) =~= all.skip(i + 1));
        }
        if key == c && is_offered(name, is_emulator) {
            return Some(action);
        }
        i = i + 1;
    }
    proof {
        assert(command_entries_view(rest@).len() == 0);
    }
    None
}

pub struct CommandsState {
    pub visible: bool,
    pub cursor: usize,
    pub filter: String,
    pub is_emulator: bool,
    pub triggered: Option<(char, std::time::Instant)>,
}

pub open spec fn triggered_key(t: Option<(char, std::time::Instant)>) -> Option<char> {
    match t {
        Some(p) => Some(p.0),
        None => None,
    }
}

pub open spec fn commands_key_done(a: CommandsState, b: CommandsState, key: KeyEvent, r: Option<Action>) -> bool {
    &&& b.visible == a.visible
    &&& b.is_emulator == a.is_emulator
    &&& key.modifiers.has_control() && key.code is Char ==> match shortcut_match(
        command_list(),
        ascii_lower(key.code->Char_0),
        a.is_emulator,
        0,
    ) {
        Some(i) => r == Some(command_list()[i].2) && triggered_key(b.triggered)
            == Some(ascii_lower(key.code->Char_0)),
        None => r is None && b.triggered == a.triggered,
    } && b.cursor == a.cursor && b.filter@ == a.filter@
    &&& !(key.modifiers.has_control() && key.code is Char) ==> match key.code {
        KeyCode::Up => {
            &&& r == Some(Action::Noop)
            &&& b.cursor == if a.cursor > 0 {
                a.cursor - 1
            } else {
                0
            }
            &&& b.filter@ == a.filter@
            &&& b.triggered == a.triggered
        },
        KeyCode::Down => {
            let count = a.shown().len();
            &&& r == Some(Action::Noop)
            &&& b.cursor == if a.cursor + 1 < count - 1 {
                a.cursor + 1
            } else if count > 0 {
                count - 1
            } else {
                0
            }
            &&& b.filter@ == a.filter@
            &&& b.triggered == a.triggered
        },
        KeyCode::Enter => {
            let m = a.shown();
            &&& b.cursor == a.cursor
            &&& b.filter@ == a.filter@
            &&& if a.cursor < m.len() {
                r == Some(m[a.cursor as int].2) && triggered_key(b.triggered)
                    == Some(m[a.cursor as int].1)
            } else {
                r == Some(Action::Noop) && b.triggered == a.triggered
            }
        },
        KeyCode::Esc => {
            &&& r == Some(Action::Unfocus)
            &&& b.cursor == 0
            &&& b.filter@.len() == 0
            &&& b.triggered == a.triggered
        },
        KeyCode::Backspace => {
            &&& r == Some(Action::Noop)
            &&& b.cursor == 0
            &&& b.filter@ == if a.filter@.len() > 0 {
                a.filter@.drop_last()
            } else {
                a.filter@
            }
            &&& b.triggered == a.triggered
        },
        KeyCode::Char(c) => {
            &&& r == Some(Action::Noop)
            &&& b.cursor == 0
            &&& b.filter@ == a.filter@.push(c)
            &&& b.triggered == a.triggered
        },
        _ => {
            &&& r == Some(Action::Noop)
            &&& b.cursor == a.cursor
            &&& b.filter@ == a.filter@
            &&& b.triggered == a.triggered
        },
    }
}

impl CommandsState {
    pub open spec fn shown(&self) -> Seq<(Seq<char>, char, Action)> {
        shown_commands(command_list(), self.filter@, self.is_emulator, command_list().len() as int)
    }

    pub fn new() -> (r: Self)
        ensures
            r.visible,
            r.cursor == 0,
            r.filter@.len() == 0,
            !r.is_emulator,
            r.triggered is None,
    {
        Self { visible: true, cursor: 0, filter: String::new(), is_emulator: false, triggered: None }
    }

    /// The commands the panel lists: offered on this device and matching
    /// the filter, in panel order.
    pub fn filtered_commands(&self) -> (r: Vec<(&'static str, char, Action)>)
        ensures
            command_entries_view(r@) == self.shown(),
    {
        let table = command_table();
        let ghost all = command_entries_view(table@);
        let mut out: Vec<(&'static str, char, Action)> = Vec::new();
        let mut rest = table;
        let mut i: usize = 0;
        proof {
            assert(command_entries_view(rest@) =~= all.skip(0));
        }
        while rest.len() > 0
            invariant
                all == command_list(),
                i <= all.len(),
                command_entries_view(rest@) == all.skip(i as int),
                command_entries_view(out@) == shown_commands(all, self.filter@, self.is_emulator, i as int),
            decreases rest@.len(),
        {
            let ghost rv = command_entries_view(rest@);
            let ghost old_rest = rest@;
            proof {
                assert(rv.len() == rest@.len());
                assert(i < all.len());
                assert(rv[0] == all[i as int]);
            }
            let (name, key, action) = rest.remove(0);
            proof {
                assert(rest@ =~= old_rest.skip(1));
                assert(command_entries_view(rest@) =~= rv.skip(1));
                assert(rv.skip(1) =~= all.skip(i + 1));
            }
            if is_offered(name, self.is_emulator) && fuzzy_matches(name, self.filter.as_str()) {
                let ghost before = command_entries_view(out@);
                out.push((name, key, action));
                proof {
                    assert(command_entries_view(out@) =~= before.push(all[i as int]));
                }
            }
            i = i + 1;
        }
        out
    }

    /// Ctrl+`ch`: runs the offered command with that shortcut (any case),
    /// marking the shortcut as just triggered.
    pub fn action_for_shortcut(&mut self, ch: char) -> (r: Option<Action>)
        ensures
            match shortcut_match(command_list(), ascii_lower(ch), old(self).is_emulator, 0) {
                Some(i) => r == Some(command_list()[i].2) && triggered_key(final(self).triggered)
                    == Some(ascii_lower(ch)),
                None => r is None && final(self).triggered == old(self).triggered,
            },
            *final(self) == (CommandsState { triggered: final(self).triggered, ..*old(self) }),
    {
        let c = char_ascii_lower(ch);
        match find_shortcut(c, self.is_emulator) {
            Some(action) => {
                self.triggered = Some((c, now()));
                Some(action)
            },
            None => None,
        }
    }

    /// Ctrl with a letter runs that command's shortcut; otherwise the keys
    /// move in the list, run the command under the cursor (Enter), or edit
    /// the filter. Esc clears the filter and leaves the panel.
    pub fn handle_key(&mut self, key: KeyEvent) -> (r: Option<Action>)
        requires
            !(key.modifiers.has_control() && key.code is Char) && key.code == KeyCode::Down
                ==> old(self).cursor < usize::MAX,
        ensures
            commands_key_done(*old(self), *final(self), key, r),
    {
        if key.modifiers.contains(KeyModifiers::CONTROL) {
            match key.code {
                KeyCode::Char(ch) => {
                    return self.action_for_shortcut(ch);
                },
                _ => {},
            }
        }
        match key.code {
            KeyCode::Up => {
                self.cursor = if self.cursor > 0 {
                    self.cursor - 1
                } else {
                    0
                };
                Some(Action::Noop)
            },
            KeyCode::Down => {
                let count = self.filtered_commands().len();
                let last = if count > 0 {
                    count - 1
                } else {
                    0
                };
                self.cursor = if self.cursor + 1 < last {
                    self.cursor + 1
                } else {
                    last
                };
                Some(Action::Noop)
            },
            KeyCode::Enter => {
                let mut filtered = self.filtered_commands();
                if self.cursor < filtered.len() {
                    let ghost fv = command_entries_view(filtered@);
                    let (_, shortcut, action) = filtered.remove(self.cursor);
                    proof {
                        assert(fv[self.cursor as int].1 == shortcut);
                        assert(fv[self.cursor as int].2 == action);
                    }
                    self.triggered = Some((shortcut, now()));
                    Some(action)
                } else {
                    Some(Action::Noop)
                }
            },
            KeyCode::Esc => {
                string_clear(&mut self.filter);
                self.cursor = 0;
                Some(Action::Unfocus)
            },
            KeyCode::Backspace => {
                string_pop(&mut self.filter);
                self.cursor = 0;
                Some(Action::Noop)
            },
            KeyCode::Char(ch) => {
                string_push(&mut self.filter, ch);
                self.cursor = 0;
                Some(Action::Noop)
            },
            _ => Some(Action::Noop),
        }
    }

    /// A shortcut was triggered less than two seconds ago. How long ago
    /// comes from the clock, of which nothing is promised: the answer for
    /// each elapsed time is `highlight_at`'s.
    pub fn has_active_animation(&self) -> (b: bool)
        ensures
            self.triggered is None ==> !b,
    {
        match &self.triggered {
            Some((_, t)) => self.highlight_at(millis_since(t)),
            None => false,
        }
    }

    /// Whether the triggered shortcut is still highlighted `elapsed_ms`
    /// milliseconds after it was triggered: for two seconds.
    pub fn highlight_at(&self, elapsed_ms: u128) -> (b: bool)
        ensures
            b == (self.triggered is Some && elapsed_ms < 2000),
    {
        self.triggered.is_some() && elapsed_ms < 2000
    }
}

} // verus!
