//! Filter and scroll state of the logcat view, as the replay viewer keeps it.

use vstd::prelude::*;
use crate::logcat::{cycled_level, next_level};

verus! {

pub struct LogcatFilter {
    pub tag: String,
    pub search: String,
    pub level: Option<char>,
}

impl LogcatFilter {
    pub fn new() -> (r: Self)
        ensures
            r.tag@.len() == 0,
            r.search@.len() == 0,
            r.level is None,
    {
        Self { tag: String::new(), search: String::new(), level: None }
    }
}

pub struct LogcatState {
    pub filter: LogcatFilter,
    pub scroll: usize,
    pub copied_at: Option<std::time::Instant>,
}

impl LogcatState {
    pub fn new() -> (r: Self)
        ensures
            r.filter.tag@.len() == 0,
            r.filter.search@.len() == 0,
            r.filter.level is None,
            r.scroll == 0,
            r.copied_at is None,
    {
        Self { filter: LogcatFilter::new(), scroll: 0, copied_at: None }
    }

    /// Clears the filter and the scroll offset.
    pub fn reset(&mut self)
        ensures
            final(self).filter.tag@.len() == 0,
            final(self).filter.search@.len() == 0,
            final(self).filter.level is None,
            final(self).scroll == 0,
            final(self).copied_at == old(self).copied_at,
    {
        self.filter = LogcatFilter::new();
        self.scroll = 0;
    }

    pub fn cycle_level(&mut self, forward: bool)
        ensures
            final(self).filter.level == cycled_level(old(self).filter.level, forward),
            final(self).filter.tag == old(self).filter.tag,
            final(self).filter.search == old(self).filter.search,
            final(self).scroll == old(self).scroll,
            final(self).copied_at == old(self).copied_at,
    {
        self.filter.level = next_level(self.filter.level, forward);
    }

    /// Keeps the scroll offset within `total_lines - visible_height`.
    pub fn clamp_scroll(&mut self, total_lines: usize, visible_height: usize)
        ensures
            final(self).scroll == (if old(self).scroll as int <= total_lines - visible_height {
                old(self).scroll as int
            } else if total_lines > visible_height {
                total_lines - visible_height
            } else {
                0
            }),
            final(self).filter == old(self).filter,
            final(self).copied_at == old(self).copied_at,
    {
        let max = if total_lines > visible_height {
            total_lines - visible_height
        } else {
            0
        };
        if self.scroll > max {
            self.scroll = max;
        }
    }

    /// New lines arrived: a scrolled-back view stays on the same lines.
    pub fn adjust_scroll_for_new_lines(&mut self, count: usize)
        requires
            old(self).scroll + count <= usize::MAX,
        ensures
            final(self).scroll == (if old(self).scroll > 0 {
                old(self).scroll + count
            } else {
                0
            }),
            final(self).filter == old(self).filter,
            final(self).copied_at == old(self).copied_at,
    {
        if self.scroll > 0 {
            self.scroll = self.scroll + count;
        }
    }
}

} // verus!
