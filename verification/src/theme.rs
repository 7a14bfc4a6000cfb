//! The colour themes, by index, and the names of the logcat levels. The
//! colours themselves belong to the terminal front end.

use vstd::prelude::*;

verus! {

/// How many themes there are.
pub const THEME_COUNT: usize = 4;

pub fn theme_count() -> (r: usize)
    ensures
        r == THEME_COUNT,
{
    THEME_COUNT
}

/// The theme names, by index.
pub open spec fn theme_name_of(i: int) -> Seq<char> {
    if i == 0 {
        "Dark"@
    } else if i == 1 {
        "Light"@
    } else if i == 2 {
        "Tokyo Night (Omarchy)"@
    } else {
        "Akaito (Omarchy)"@
    }
}

pub fn theme_name(i: usize) -> (r: &'static str)
    requires
        i < THEME_COUNT,
    ensures
        r@ == theme_name_of(i as int),
{
    if i == 0 {
        "Dark"
    } else if i == 1 {
        "Light"
    } else if i == 2 {
        "Tokyo Night (Omarchy)"
    } else {
        "Akaito (Omarchy)"
    }
}

/// The theme that index `id` selects: past the last, the last.
pub fn theme_index(id: usize) -> (r: usize)
    ensures
        r == if id < THEME_COUNT {
            id
        } else {
            (THEME_COUNT - 1) as usize
        },
{
    if id < THEME_COUNT {
        id
    } else {
        THEME_COUNT - 1
    }
}

/// The theme after (`forward`) or before `current`, wrapping around.
pub open spec fn cycled_theme(current: int, forward: bool) -> int {
    if forward {
        (current + 1) % (THEME_COUNT as int)
    } else if current == 0 {
        THEME_COUNT - 1
    } else {
        current - 1
    }
}

pub fn cycle_theme(current: usize, forward: bool) -> (r: usize)
    requires
        current < THEME_COUNT,
    ensures
        r == cycled_theme(current as int, forward),
        r < THEME_COUNT,
{
    if forward {
        (current + 1) % THEME_COUNT
    } else if current == 0 {
        THEME_COUNT - 1
    } else {
        current - 1
    }
}

/// Going forward then back, or back then forward, returns to the theme.
pub proof fn law_theme_cycle_inverse(current: int, forward: bool)
    requires
        0 <= current < THEME_COUNT,
    ensures
        cycled_theme(cycled_theme(current, forward), !forward) == current,
{
}

/// Cycling forward through every theme comes back to the start.
pub proof fn law_theme_cycle_period(current: int)
    requires
        0 <= current < THEME_COUNT,
    ensures
        cycled_theme(cycled_theme(cycled_theme(cycled_theme(current, true), true), true), true)
            == current,
{
}

/// The one-letter label of a logcat level.
pub open spec fn level_label_of(level: char) -> Seq<char> {
    if level == 'V' {
        "V"@
    } else if level == 'D' {
        "D"@
    } else if level == 'I' {
        "I"@
    } else if level == 'W' {
        "W"@
    } else if level == 'E' {
        "E"@
    } else if level == 'F' {
        "F"@
    } else {
        "?"@
    }
}

pub fn level_label(level: char) -> (r: &'static str)
    ensures
        r@ == level_label_of(level),
{
    match level {
        'V' => "V",
        'D' => "D",
        'I' => "I",
        'W' => "W",
        'E' => "E",
        'F' => "F",
        _ => "?",
    }
}

/// The name of a logcat level.
pub open spec fn level_name_of(level: char) -> Seq<char> {
    if level == 'V' {
        "Verbose"@
    } else if level == 'D' {
        "Debug"@
    } else if level == 'I' {
        "Info"@
    } else if level == 'W' {
        "Warn"@
    } else if level == 'E' {
        "Error"@
    } else if level == 'F' {
        "Fatal"@
    } else {
        "Unknown"@
    }
}

pub fn level_name(level: char) -> (r: &'static str)
    ensures
        r@ == level_name_of(level),
{
    match level {
        'V' => "Verbose",
        'D' => "Debug",
        'I' => "Info",
        'W' => "Warn",
        'E' => "Error",
        'F' => "Fatal",
        _ => "Unknown",
    }
}

} // verus!
