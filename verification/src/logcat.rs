//! Logcat lines: decoding the `threadtime` format, filtering, and the
//! scroll/filter state of the logcat panel.

use vstd::prelude::*;
use crate::app::Action;
use crate::keys::{KeyCode, KeyEvent};
use crate::text::{chars_of, char_is_ws, contains, contains_slice, ends_with, has_suffix,
    is_ws, lead_ws, lemma_lead_ws, split_once, split_once_slice, string_clear, string_pop,
    string_push, trim, trim_bounds, trim_start, lowercase, to_lowercase};

verus! {

/// One decoded logcat line; the string fields borrow from the raw line.
pub struct LogcatLine<'a> {
    pub timestamp: &'a str,
    pub level: char,
    pub tag: &'a str,
    pub message: &'a str,
}

/// The next space-delimited token of `s` and what follows it: leading
/// whitespace is skipped, the token ends at the next `' '`, and that one
/// space is dropped.
pub open spec fn next_token(s: Seq<char>) -> Option<(Seq<char>, Seq<char>)> {
    let t = trim_start(s);
    if t.len() == 0 {
        None
    } else {
        match split_once(t, " "@) {
            Some((tok, rest)) => Some((tok, rest)),
            None => Some((t, Seq::empty())),
        }
    }
}

pub open spec fn is_level(c: char) -> bool {
    c == 'V' || c == 'D' || c == 'I' || c == 'W' || c == 'E' || c == 'F'
}

/// `(timestamp, level, tag, message)` of a `threadtime` line:
/// `<date> <time> <pid> <tid> <level> <tag>: <message>`.
pub open spec fn parse_line(line: Seq<char>) -> Option<(Seq<char>, char, Seq<char>, Seq<char>)> {
    match next_token(line) {
        None => None,
        Some((_date, r1)) => match next_token(r1) {
            None => None,
            Some((timestamp, r2)) => match next_token(r2) {
                None => None,
                Some((_pid, r3)) => match next_token(r3) {
                    None => None,
                    Some((_tid, r4)) => match next_token(r4) {
                        None => None,
                        Some((level_str, rest)) => {
                            let level = level_str[0];
                            if !is_level(level) {
                                None
                            } else {
                                match split_once(rest, ": "@) {
                                    Some((t, m)) => Some((timestamp, level, trim(t), m)),
                                    None => if ends_with(rest, ":"@) {
                                        Some(
                                            (
                                                timestamp,
                                                level,
                                                trim(rest.take(rest.len() - ":"@.len())),
                                                Seq::empty(),
                                            ),
                                        )
                                    } else {
                                        Some((timestamp, level, trim(rest), Seq::empty()))
                                    },
                                }
                            }
                        },
                    },
                },
            },
        },
    }
}

/// The next token of `v[p..]`: returns `(a, b, np)` with the token at
/// `v[a..b]` and the remainder at `v[np..]`.
fn token_at(v: &[char], p: usize) -> (r: Option<(usize, usize, usize)>)
    requires
        p <= v@.len(),
    ensures
        r matches Some(x) ==> p <= x.0 < x.1 <= x.2 <= v@.len() && next_token(v@.skip(p as int))
            == Some((v@.subrange(x.0 as int, x.1 as int), v@.skip(x.2 as int))),
        r is None ==> next_token(v@.skip(p as int)) is None,
{
    let n = v.len();
    let mut a = p;
    while a < n && char_is_ws(v[a])
        invariant
            p <= a <= n,
            n == v@.len(),
            forall|j: int| p <= j < a ==> is_ws(#[trigger] v@[j]),
        decreases n - a,
    {
        a = a + 1;
    }
    let ghost s = v@.skip(p as int);
    proof {
        assert forall|j: int| 0 <= j < a - p implies is_ws(#[trigger] s[j]) by {
            assert(s[j] == v@[j + p]);
        }
        if a < n {
            assert(s[a - p] == v@[a as int]);
        }
        lemma_lead_ws(s, a - p);
        assert(trim_start(s) =~= v@.skip(a as int));
    }
    if a == n {
        return None;
    }
    let t = &v[a..n];
    let space = chars_of(" ");
    proof {
        reveal_strlit(" ");
        assert(t@ =~= v@.skip(a as int));
        assert(t@[0] == v@[a as int]);
    }
    match split_once_slice(t, space.as_slice()) {
        Some((tok, rest)) => {
            let b = a + tok.len();
            let np = n - rest.len();
            proof {
                assert(tok@ =~= v@.subrange(a as int, b as int));
                assert(rest@ =~= v@.skip(np as int));
                if tok@.len() == 0 {
                    assert(t@.subrange(0, 1)[0] == t@[0]);
                    assert(t@.subrange(0, 1) == " "@);
                }
            }
            Some((a, b, np))
        },
        None => {
            proof {
                assert(t@ =~= v@.subrange(a as int, n as int));
                assert(v@.skip(n as int) =~= Seq::<char>::empty());
            }
            Some((a, n, n))
        },
    }
}

pub open spec fn line_view(l: LogcatLine) -> (Seq<char>, char, Seq<char>, Seq<char>) {
    (l.timestamp@, l.level, l.tag@, l.message@)
}

/// Decodes a `threadtime` logcat line.
#[verifier::spinoff_prover]
#[verifier::rlimit(40)]
pub fn parse(line: &str) -> (r: Option<LogcatLine<'_>>)
    ensures
        r matches Some(l) ==> parse_line(line@) == Some(line_view(l)),
        r is None ==> parse_line(line@) is None,
{
    let cv = chars_of(line);
    let v = cv.as_slice();
    proof {
        assert(v@.skip(0) =~= v@);
    }
    let (_, _, p1) = match token_at(v, 0) {
        Some(x) => x,
        None => return None,
    };
    let (ta, tb, p2) = match token_at(v, p1) {
        Some(x) => x,
        None => return None,
    };
    let (_, _, p3) = match token_at(v, p2) {
        Some(x) => x,
        None => return None,
    };
    let (_, _, p4) = match token_at(v, p3) {
        Some(x) => x,
        None => return None,
    };
    let (la, lb, p5) = match token_at(v, p4) {
        Some(x) => x,
        None => return None,
    };
    let level = v[la];
    proof {
        assert(v@.subrange(la as int, lb as int)[0] == v@[la as int]);
    }
    if !(level == 'V' || level == 'D' || level == 'I' || level == 'W' || level == 'E' || level
        == 'F') {
        return None;
    }
    let n = v.len();
    let rest = &v[p5..n];
    proof {
        assert(rest@ =~= v@.skip(p5 as int));
    }
    let sep = chars_of(": ");
    let colon = chars_of(":");
    proof {
        reveal_strlit(": ");
        reveal_strlit(":");
    }
    let timestamp = line.substring_char(ta, tb);
    match split_once_slice(rest, sep.as_slice()) {
        Some((t, m)) => {
            let (x, y) = trim_bounds(t);
            let ta2 = p5 + x;
            let tb2 = p5 + y;
            let ms = n - m.len();
            proof {
                assert(t@ =~= v@.subrange(p5 as int, p5 + t@.len()));
                assert(t@.subrange(x as int, y as int) =~= v@.subrange(ta2 as int, tb2 as int));
                assert(m@ =~= v@.subrange(ms as int, n as int));
            }
            Some(
                LogcatLine {
                    timestamp,
                    level,
                    tag: line.substring_char(ta2, tb2),
                    message: line.substring_char(ms, n),
                },
            )
        },
        None => {
            let end = if has_suffix(rest, colon.as_slice()) {
                n - 1
            } else {
                n
            };
            proof {
                reveal_strlit(":");
            }
            let body = &v[p5..end];
            let (x, y) = trim_bounds(body);
            proof {
                if ends_with(rest@, ":"@) {
                    assert(body@ =~= rest@.take(rest@.len() - ":"@.len()));
                } else {
                    assert(body@ =~= rest@);
                }
                assert(body@.subrange(x as int, y as int) =~= v@.subrange(
                    p5 + x,
                    p5 + y,
                ));
            }
            Some(
                LogcatLine {
                    timestamp,
                    level,
                    tag: line.substring_char(p5 + x, p5 + y),
                    message: line.substring_char(n, n),
                },
            )
        },
    }
}

// ---------------------------------------------------------------------------
// Filtering
// ---------------------------------------------------------------------------

#[derive(Debug, Clone, Copy, PartialEq)]
pub enum LogcatEditTarget {
    Tag,
    Search,
}

pub struct LogcatFilter {
    pub tag: String,
    pub search: String,
    pub level: Option<char>,
}

/// Whether a raw line passes the filter: lines that do not decode always
/// pass; otherwise the tag must contain the tag filter and the whole line
/// the search text (both ignoring case), and the level must equal the
/// level filter when one is set.
pub open spec fn filter_accepts(tag: Seq<char>, search: Seq<char>, level: Option<char>, line: Seq<char>) -> bool {
    match parse_line(line) {
        None => true,
        Some((_ts, lv, t, _m)) => {
            &&& (tag.len() == 0 || contains(lowercase(t), lowercase(tag)))
            &&& (search.len() == 0 || contains(lowercase(line), lowercase(search)))
            &&& (level is None || level == Some(lv))
        }
    }
}

impl LogcatFilter {
    pub fn new() -> (r: Self)
        ensures
            r.tag@.len() == 0,
            r.search@.len() == 0,
            r.level is None,
    {
        Self { tag: String::new(), search: String::new(), level: None }
    }

    pub fn matches(&self, line: &str) -> (b: bool)
        ensures
            b == filter_accepts(self.tag@, self.search@, self.level, line@),
    {
        let parsed = match parse(line) {
            Some(p) => p,
            None => return true,
        };
        let tag_ok = self.tag.as_str().is_empty() || {
            let a = chars_of(to_lowercase(parsed.tag).as_str());
            let b = chars_of(to_lowercase(self.tag.as_str()).as_str());
            contains_slice(a.as_slice(), b.as_slice())
        };
        let search_ok = self.search.as_str().is_empty() || {
            let a = chars_of(to_lowercase(line).as_str());
            let b = chars_of(to_lowercase(self.search.as_str()).as_str());
            contains_slice(a.as_slice(), b.as_slice())
        };
        let level_ok = match self.level {
            None => true,
            Some(l) => l == parsed.level,
        };
        tag_ok && search_ok && level_ok
    }
}


// ---------------------------------------------------------------------------
// Panel state
// ---------------------------------------------------------------------------

/// The level filter that cycling visits at position `i`: no filter, then
/// V, D, I, W, E, F.
/// The tag filter ignores case: two tag filters with the same lowercase
/// accept the same lines, and on a decodable line a tag filter holds
/// exactly when the lowercased filter occurs in the lowercased tag.
pub proof fn law_tag_filter_ignores_case(
    tag: Seq<char>,
    other: Seq<char>,
    search: Seq<char>,
    level: Option<char>,
    line: Seq<char>,
)
    requires
        tag.len() > 0,
        other.len() > 0,
    ensures
        lowercase(tag) == lowercase(other) ==> filter_accepts(tag, search, level, line) == filter_accepts(
            other,
            search,
            level,
            line,
        ),
        parse_line(line) matches Some(p) ==> (filter_accepts(tag, search, level, line) <==> (contains(
            lowercase(p.2),
            lowercase(tag),
        ) && filter_accepts(Seq::empty(), search, level, line))),
{
}

pub open spec fn level_at(i: int) -> Option<char> {
    if i == 1 {
        Some('V')
    } else if i == 2 {
        Some('D')
    } else if i == 3 {
        Some('I')
    } else if i == 4 {
        Some('W')
    } else if i == 5 {
        Some('E')
    } else if i == 6 {
        Some('F')
    } else {
        None
    }
}

/// Position of a level filter in the cycle; anything else counts as the
/// first position.
pub open spec fn level_position(l: Option<char>) -> int {
    match l {
        Some('V') => 1,
        Some('D') => 2,
        Some('I') => 3,
        Some('W') => 4,
        Some('E') => 5,
        Some('F') => 6,
        _ => 0,
    }
}

/// The level filter one step forward or back in the cycle.
pub open spec fn cycled_level(l: Option<char>, forward: bool) -> Option<char> {
    if forward {
        level_at((level_position(l) + 1) % 7)
    } else {
        level_at((level_position(l) + 6) % 7)
    }
}

pub fn level_filter_at(i: usize) -> (r: Option<char>)
    ensures
        r == level_at(i as int),
{
    if i == 1 {
        Some('V')
    } else if i == 2 {
        Some('D')
    } else if i == 3 {
        Some('I')
    } else if i == 4 {
        Some('W')
    } else if i == 5 {
        Some('E')
    } else if i == 6 {
        Some('F')
    } else {
        None
    }
}

pub fn level_filter_position(l: Option<char>) -> (r: usize)
    ensures
        r == level_position(l),
{
    match l {
        Some('V') => 1,
        Some('D') => 2,
        Some('I') => 3,
        Some('W') => 4,
        Some('E') => 5,
        Some('F') => 6,
        _ => 0,
    }
}

pub fn next_level(l: Option<char>, forward: bool) -> (r: Option<char>)
    ensures
        r == cycled_level(l, forward),
{
    let current = level_filter_position(l);
    let next = if forward {
        (current + 1) % 7
    } else {
        (current + 6) % 7
    };
    level_filter_at(next)
}

/// Stepping the level filter forward then back, or back then forward,
/// returns to it, for every filter on the cycle.
pub proof fn law_level_cycle_inverse(l: Option<char>, forward: bool)
    requires
        level_at(level_position(l)) == l,
    ensures
        cycled_level(cycled_level(l, forward), !forward) == l,
{
}

pub struct LogcatState {
    pub filter: LogcatFilter,
    pub scroll: usize,
    pub wrap: bool,
    pub editing: Option<LogcatEditTarget>,
}

/// How far one page-scroll key moves.
pub const PAGE_LINES: usize = 20;

pub open spec fn logcat_key_done(a: LogcatState, b: LogcatState, key: KeyEvent, r: Option<Action>) -> bool {
    &&& b.filter.level == (match (a.editing, key.code) {
        (None, KeyCode::Right) => cycled_level(a.filter.level, true),
        (None, KeyCode::Left) => cycled_level(a.filter.level, false),
        (None, KeyCode::Char('r')) => None,
        _ => a.filter.level,
    })
    &&& b.filter.tag@ == (match (a.editing, key.code) {
        (Some(LogcatEditTarget::Tag), KeyCode::Char(c)) => a.filter.tag@.push(c),
        (Some(LogcatEditTarget::Tag), KeyCode::Backspace) => if a.filter.tag@.len() > 0 {
            a.filter.tag@.drop_last()
        } else {
            a.filter.tag@
        },
        (None, KeyCode::Char('r')) => Seq::empty(),
        _ => a.filter.tag@,
    })
    &&& b.filter.search@ == (match (a.editing, key.code) {
        (Some(LogcatEditTarget::Search), KeyCode::Char(c)) => a.filter.search@.push(c),
        (Some(LogcatEditTarget::Search), KeyCode::Backspace) => if a.filter.search@.len() > 0 {
            a.filter.search@.drop_last()
        } else {
            a.filter.search@
        },
        (None, KeyCode::Char('r')) => Seq::empty(),
        _ => a.filter.search@,
    })
    &&& b.editing == (match (a.editing, key.code) {
        (Some(_), KeyCode::Enter) => None,
        (Some(_), KeyCode::Esc) => None,
        (None, KeyCode::Char('t')) => Some(LogcatEditTarget::Tag),
        (None, KeyCode::Char('/')) => Some(LogcatEditTarget::Search),
        _ => a.editing,
    })
    &&& b.scroll == (match (a.editing, key.code) {
        (None, KeyCode::Up) => a.scroll + 1,
        (None, KeyCode::Char('k')) => a.scroll + 1,
        (None, KeyCode::Down) => if a.scroll > 0 {
            a.scroll - 1
        } else {
            0
        },
        (None, KeyCode::Char('j')) => if a.scroll > 0 {
            a.scroll - 1
        } else {
            0
        },
        (None, KeyCode::Char(' ')) => a.scroll + PAGE_LINES,
        (None, KeyCode::Esc) => 0,
        (None, KeyCode::Char('r')) => 0,
        _ => a.scroll as int,
    })
    &&& b.wrap == (match (a.editing, key.code) {
        (None, KeyCode::Char('w')) => !a.wrap,
        (None, KeyCode::Char('r')) => false,
        _ => a.wrap,
    })
    &&& match (a.editing, key.code) {
        (Some(_), _) => r matches Some(Action::Noop),
        (None, KeyCode::Esc) => if a.scroll > 0 {
            r matches Some(Action::Noop)
        } else {
            r matches Some(Action::Unfocus)
        },
        (None, KeyCode::Char('o')) => r matches Some(Action::OpenLogcat),
        (None, KeyCode::Char('r')) => r matches Some(Action::ResetLogcat),
        (None, KeyCode::Up) | (None, KeyCode::Down) | (None, KeyCode::Left) | (
            None,
            KeyCode::Right,
        ) | (None, KeyCode::Char('k')) | (None, KeyCode::Char('j')) | (
            None,
            KeyCode::Char(' '),
        ) | (None, KeyCode::Char('t')) | (None, KeyCode::Char('/')) | (
            None,
            KeyCode::Char('w'),
        ) => r matches Some(Action::Noop),
        _ => r is None,
    }
}

impl LogcatState {
    pub fn new() -> (r: Self)
        ensures
            r.filter.tag@.len() == 0,
            r.filter.search@.len() == 0,
            r.filter.level is None,
            r.scroll == 0,
            !r.wrap,
            r.editing is None,
    {
        Self { filter: LogcatFilter::new(), scroll: 0, wrap: false, editing: None }
    }

    /// Clears the filter, scroll and wrapping; editing mode is kept.
    pub fn reset(&mut self)
        ensures
            final(self).filter.tag@.len() == 0,
            final(self).filter.search@.len() == 0,
            final(self).filter.level is None,
            final(self).scroll == 0,
            !final(self).wrap,
            final(self).editing == old(self).editing,
    {
        self.filter = LogcatFilter::new();
        self.scroll = 0;
        self.wrap = false;
    }

    pub fn cycle_level(&mut self, forward: bool)
        ensures
            final(self).filter.level == cycled_level(old(self).filter.level, forward),
            final(self).filter.tag == old(self).filter.tag,
            final(self).filter.search == old(self).filter.search,
            final(self).scroll == old(self).scroll,
            final(self).wrap == old(self).wrap,
            final(self).editing == old(self).editing,
    {
        self.filter.level = next_level(self.filter.level, forward);
    }

    /// Keeps the scroll offset within `total_lines - visible_height`.
    pub fn clamp_scroll(&mut self, total_lines: usize, visible_height: usize)
        ensures
            final(self).scroll == (if old(self).scroll as int <= total_lines - visible_height {
                old(self).scroll as int
            } else if total_lines > visible_height {
                total_lines - visible_height
            } else {
                0
            }),
            final(self).filter == old(self).filter,
            final(self).wrap == old(self).wrap,
            final(self).editing == old(self).editing,
    {
        let max = if total_lines > visible_height {
            total_lines - visible_height
        } else {
            0
        };
        if self.scroll > max {
            self.scroll = max;
        }
    }

    /// New lines arrived: a scrolled-back view stays on the same lines;
    /// a view following the tail keeps following it.
    pub fn adjust_scroll_for_new_lines(&mut self, count: usize)
        requires
            old(self).scroll + count <= usize::MAX,
        ensures
            final(self).scroll == (if old(self).scroll > 0 {
                old(self).scroll + count
            } else {
                0
            }),
            final(self).filter == old(self).filter,
            final(self).wrap == old(self).wrap,
            final(self).editing == old(self).editing,
    {
        if self.scroll > 0 {
            self.scroll = self.scroll + count;
        }
    }

    /// Applies a key to the focused logcat panel. While a filter field is
    /// being edited, keys edit it; otherwise they scroll, start editing,
    /// cycle the level, toggle wrapping, reset, or unfocus.
    pub fn handle_key(&mut self, key: KeyEvent) -> (r: Option<Action>)
        requires
            old(self).scroll + PAGE_LINES <= usize::MAX,
        ensures
            logcat_key_done(*old(self), *final(self), key, r),
    {
        let code = key.code;
        if let Some(target) = self.editing {
            match code {
                KeyCode::Char(c) => match target {
                    LogcatEditTarget::Tag => string_push(&mut self.filter.tag, c),
                    LogcatEditTarget::Search => string_push(&mut self.filter.search, c),
                },
                KeyCode::Backspace => match target {
                    LogcatEditTarget::Tag => {
                        string_pop(&mut self.filter.tag);
                    },
                    LogcatEditTarget::Search => {
                        string_pop(&mut self.filter.search);
                    },
                },
                KeyCode::Enter | KeyCode::Esc => self.editing = None,
                _ => {},
            }
            return Some(Action::Noop);
        }
        match code {
            KeyCode::Up | KeyCode::Char('k') => {
                self.scroll = self.scroll + 1;
                Some(Action::Noop)
            },
            KeyCode::Down | KeyCode::Char('j') => {
                self.scroll = if self.scroll > 0 {
                    self.scroll - 1
                } else {
                    0
                };
                Some(Action::Noop)
            },
            KeyCode::Char(' ') => {
                self.scroll = self.scroll + PAGE_LINES;
                Some(Action::Noop)
            },
            KeyCode::Esc => {
                if self.scroll > 0 {
                    self.scroll = 0;
                    Some(Action::Noop)
                } else {
                    Some(Action::Unfocus)
                }
            },
            KeyCode::Char('t') => {
                self.editing = Some(LogcatEditTarget::Tag);
                Some(Action::Noop)
            },
            KeyCode::Char('/') => {
                self.editing = Some(LogcatEditTarget::Search);
                Some(Action::Noop)
            },
            KeyCode::Right => {
                self.cycle_level(true);
                Some(Action::Noop)
            },
            KeyCode::Left => {
                self.cycle_level(false);
                Some(Action::Noop)
            },
            KeyCode::Char('o') => Some(Action::OpenLogcat),
            KeyCode::Char('r') => {
                self.reset();
                assert(self.filter.tag@ =~= Seq::<char>::empty());
                assert(self.filter.search@ =~= Seq::<char>::empty());
                Some(Action::ResetLogcat)
            },
            KeyCode::Char('w') => {
                self.wrap = !self.wrap;
                Some(Action::Noop)
            },
            _ => None,
        }
    }
}

} // verus!
