//! The panels of the main screen: their numbers, names and focus keys.

use vstd::prelude::*;

verus! {

pub struct PanelDef {
    pub number: u8,
    pub name: &'static str,
    pub focus_key: Option<char>,
}

pub const COMMANDS: u8 = 0;
pub const LOGCAT: u8 = 1;
pub const MONITOR: u8 = 2;
pub const NETWORK: u8 = 3;
pub const TRACE: u8 = 4;
pub const ISSUES: u8 = 5;
pub const PERMISSIONS: u8 = 6;
pub const FILES: u8 = 7;
pub const DATABASE: u8 = 8;

/// Name and focus key of each panel, by number.
pub open spec fn panel_table() -> Seq<(Seq<char>, char)> {
    seq![
        ("commands"@, 'c'),
        ("logcat"@, 'l'),
        ("monitor"@, 'm'),
        ("network"@, 'n'),
        ("trace"@, 't'),
        ("issues"@, 'i'),
        ("permissions"@, 'p'),
        ("files"@, 'f'),
        ("database"@, 'd'),
    ]
}

pub open spec fn panel_matches(p: PanelDef, n: int) -> bool {
    &&& 0 <= n < 9
    &&& p.number == n
    &&& p.name@ == panel_table()[n].0
    &&& p.focus_key == Some(panel_table()[n].1)
}

fn panel(n: u8) -> (r: PanelDef)
    requires
        n < 9,
    ensures
        panel_matches(r, n as int),
{
    let (name, key): (&'static str, char) = match n {
        0 => ("commands", 'c'),
        1 => ("logcat", 'l'),
        2 => ("monitor", 'm'),
        3 => ("network", 'n'),
        4 => ("trace", 't'),
        5 => ("issues", 'i'),
        6 => ("permissions", 'p'),
        7 => ("files", 'f'),
        _ => ("database", 'd'),
    };
    PanelDef { number: n, name, focus_key: Some(key) }
}

/// The panel with number `n` (0 to 8).
pub fn by_number(n: u8) -> (r: PanelDef)
    requires
        n < 9,
    ensures
        panel_matches(r, n as int),
{
    panel(n)
}

/// The panel that `key` focuses, if any.
pub fn by_focus_key(key: char) -> (r: Option<PanelDef>)
    ensures
        match r {
            Some(p) => panel_matches(p, p.number as int) && panel_table()[p.number as int].1 == key,
            None => forall|i: int| 0 <= i < 9 ==> panel_table()[i].1 != key,
        },
{
    let mut n: u8 = 0;
    while n < 9
        invariant
            n <= 9,
            forall|i: int| 0 <= i < n ==> panel_table()[i].1 != key,
        decreases 9 - n,
    {
        let p = panel(n);
        if p.focus_key == Some(key) {
            return Some(p);
        }
        n = n + 1;
    }
    None
}

} // verus!
