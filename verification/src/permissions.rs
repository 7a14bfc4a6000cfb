//! The permissions panel: the app's runtime permissions and a cursor.

use vstd::prelude::*;
use crate::adb::named_flags_view;
use crate::app::Action;
use crate::keys::{KeyCode, KeyEvent};
use crate::text::{lowercase, to_lowercase};
use crate::text::{chars_of, has_prefix, starts_with, string_from_chars};

verus! {

pub struct PermissionsState {
    pub permissions: Vec<(String, bool)>,
    pub selected_index: usize,
    pub error: Option<String>,
}

/// A permission's display name: without the `android.permission.` prefix,
/// in lowercase.
pub open spec fn short_permission_name(p: Seq<char>) -> Seq<char> {
    if starts_with(p, "android.permission."@) {
        lowercase(p.skip("android.permission."@.len() as int))
    } else {
        lowercase(p)
    }
}

pub open spec fn permissions_key_done(a: PermissionsState, b: PermissionsState, key: KeyEvent, r: Option<Action>) -> bool {
    &&& b.error == a.error
    &&& match key.code {
        KeyCode::Up | KeyCode::Char('k') => r matches Some(Action::Noop)
            && b.permissions == a.permissions
            && b.selected_index == (if a.permissions@.len() > 0
                && a.selected_index > 0 {
                a.selected_index - 1
            } else {
                a.selected_index as int
            }),
        KeyCode::Down | KeyCode::Char('j') => r matches Some(Action::Noop)
            && b.permissions == a.permissions
            && b.selected_index == (if a.permissions@.len() == 0 {
                a.selected_index as int
            } else if a.selected_index + 1 < a.permissions@.len() {
                a.selected_index + 1
            } else {
                a.permissions@.len() - 1
            }),
        KeyCode::Enter => b.selected_index == a.selected_index && if a.selected_index < a.permissions@.len() {
            let i = a.selected_index as int;
            let (name, granted) = a.permissions@[i];
            &&& named_flags_view(b.permissions@) == named_flags_view(
                a.permissions@,
            ).update(i, (name@, !granted))
            &&& r matches Some(Action::TogglePermission(p, g)) && p@ == name@ && g
                == !granted
        } else {
            r matches Some(Action::Noop) && b.permissions == a.permissions
        },
        KeyCode::Esc => r matches Some(Action::Unfocus) && b.permissions == a.permissions && b.selected_index == a.selected_index,
        _ => r is None && b.permissions == a.permissions
            && b.selected_index == a.selected_index,
    }
}

impl PermissionsState {
    pub fn new() -> (r: Self)
        ensures
            r.permissions@.len() == 0,
            r.selected_index == 0,
            r.error is None,
    {
        Self { permissions: Vec::new(), selected_index: 0, error: None }
    }

    pub fn move_up(&mut self)
        ensures
            final(self).selected_index == (if old(self).permissions@.len() > 0
                && old(self).selected_index > 0 {
                old(self).selected_index - 1
            } else {
                old(self).selected_index as int
            }),
            final(self).permissions == old(self).permissions,
            final(self).error == old(self).error,
    {
        if self.permissions.len() > 0 && self.selected_index > 0 {
            self.selected_index = self.selected_index - 1;
        }
    }

    pub fn move_down(&mut self)
        ensures
            final(self).selected_index == (if old(self).permissions@.len() == 0 {
                old(self).selected_index as int
            } else if old(self).selected_index + 1 < old(self).permissions@.len() {
                old(self).selected_index + 1
            } else {
                old(self).permissions@.len() - 1
            }),
            final(self).permissions == old(self).permissions,
            final(self).error == old(self).error,
    {
        let n = self.permissions.len();
        if n > 0 {
            self.selected_index = if self.selected_index < n - 1 {
                self.selected_index + 1
            } else {
                n - 1
            };
        }
    }

    /// Flips the selected permission's granted flag and returns it, with
    /// its new state.
    pub fn toggle_selected(&mut self) -> (r: Option<(String, bool)>)
        ensures
            final(self).selected_index == old(self).selected_index,
            final(self).error == old(self).error,
            old(self).selected_index < old(self).permissions@.len() ==> {
                let i = old(self).selected_index as int;
                let (name, granted) = old(self).permissions@[i];
                &&& named_flags_view(final(self).permissions@) == named_flags_view(
                    old(self).permissions@,
                ).update(i, (name@, !granted))
                &&& r matches Some(x) && x.0@ == name@ && x.1 == !granted
            },
            old(self).selected_index >= old(self).permissions@.len() ==> r is None
                && final(self).permissions == old(self).permissions,
    {
        let i = self.selected_index;
        if i < self.permissions.len() {
            let name = self.permissions[i].0.clone();
            let granted = !self.permissions[i].1;
            let ghost before = named_flags_view(self.permissions@);
            self.permissions.set(i, (name.clone(), granted));
            proof {
                assert(named_flags_view(self.permissions@) =~= before.update(
                    i as int,
                    (name@, granted),
                ));
            }
            Some((name, granted))
        } else {
            None
        }
    }

    pub fn short_name(permission: &str) -> (r: String)
        ensures
            r@ == short_permission_name(permission@),
    {
        let v = chars_of(permission);
        let prefix = chars_of("android.permission.");
        if has_prefix(v.as_slice(), prefix.as_slice()) {
            let rest = &v[prefix.len()..v.len()];
            proof {
                assert(rest@ =~= permission@.skip("android.permission."@.len() as int));
            }
            let s = string_from_chars(rest);
            to_lowercase(s.as_str())
        } else {
            to_lowercase(permission)
        }
    }

    /// Moves the cursor, toggles the selected permission, or unfocuses.
    pub fn handle_key(&mut self, key: KeyEvent) -> (r: Option<Action>)
        ensures
            permissions_key_done(*old(self), *final(self), key, r),
    {
        match key.code {
            KeyCode::Up | KeyCode::Char('k') => {
                self.move_up();
                Some(Action::Noop)
            },
            KeyCode::Down | KeyCode::Char('j') => {
                self.move_down();
                Some(Action::Noop)
            },
            KeyCode::Enter => {
                match self.toggle_selected() {
                    Some((perm, granted)) => Some(Action::TogglePermission(perm, granted)),
                    None => Some(Action::Noop),
                }
            },
            KeyCode::Esc => Some(Action::Unfocus),
            _ => None,
        }
    }
}

} // verus!
