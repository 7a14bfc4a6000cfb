//! Memory history of the monitored process and its trend.

use vstd::prelude::*;
use crate::adb::MemInfo;

verus! {

/// How many samples the history keeps.
pub const MAX_SAMPLES: usize = 60;

#[derive(Debug, Clone, Copy, PartialEq)]
pub enum Trend {
    Rising,
    Falling,
    Stable,
}

pub struct MemoryState {
    pub history: Vec<MemInfo>,
}

pub open spec fn rss_of(v: Seq<MemInfo>) -> Seq<u64> {
    v.map_values(|m: MemInfo| m.rss_kb)
}

/// The trend from `oldest` to `newest`: stable when the relative change is
/// under 3% (or `oldest` is zero), else rising or falling.
pub open spec fn trend_between(newest: int, oldest: int) -> Trend {
    if oldest == 0 {
        Trend::Stable
    } else if (if newest >= oldest { newest - oldest } else { oldest - newest }) * 100 < 3 * oldest {
        Trend::Stable
    } else if newest > oldest {
        Trend::Rising
    } else {
        Trend::Falling
    }
}

/// A change of at least 3% of the oldest value shows as a rise or a fall,
/// in its direction; a smaller change shows as stable.
pub proof fn law_trend_threshold(newest: int, oldest: int)
    requires
        oldest > 0,
    ensures
        newest * 100 >= oldest * 103 ==> trend_between(newest, oldest) == Trend::Rising,
        newest * 100 <= oldest * 97 ==> trend_between(newest, oldest) == Trend::Falling,
        oldest * 97 < newest * 100 < oldest * 103 ==> trend_between(newest, oldest) == Trend::Stable,
{
}

pub fn trend_of(newest: u64, oldest: u64) -> (r: Trend)
    ensures
        r == trend_between(newest as int, oldest as int),
{
    if oldest == 0 {
        return Trend::Stable;
    }
    let diff: u128 = if newest >= oldest {
        (newest - oldest) as u128
    } else {
        (oldest - newest) as u128
    };
    if diff * 100 < 3 * (oldest as u128) {
        Trend::Stable
    } else if newest > oldest {
        Trend::Rising
    } else {
        Trend::Falling
    }
}

impl MemoryState {
    pub fn new() -> (r: Self)
        ensures
            r.history@.len() == 0,
    {
        Self { history: Vec::new() }
    }

    /// Appends a sample, dropping the oldest beyond the first
    /// `MAX_SAMPLES`.
    /// (Drops one sample per push, so a history that was already longer only
    /// shrinks back gradually.)
    pub fn push(&mut self, sample: MemInfo)
        ensures
            final(self).history@ == (if old(self).history@.len() < MAX_SAMPLES {
                old(self).history@.push(sample)
            } else {
                old(self).history@.push(sample).drop_first()
            }),
    {
        self.history.push(sample);
        if self.history.len() > MAX_SAMPLES {
            self.history.remove(0);
            proof {
                assert(self.history@ =~= old(self).history@.push(sample).drop_first());
            }
        }
    }

    pub fn latest(&self) -> (r: Option<&MemInfo>)
        ensures
            self.history@.len() == 0 ==> r is None,
            self.history@.len() > 0 ==> r == Some(&self.history@.last()),
    {
        if self.history.len() == 0 {
            None
        } else {
            Some(&self.history[self.history.len() - 1])
        }
    }

    pub fn first(&self) -> (r: Option<&MemInfo>)
        ensures
            self.history@.len() == 0 ==> r is None,
            self.history@.len() > 0 ==> r == Some(&self.history@[0]),
    {
        if self.history.len() == 0 {
            None
        } else {
            Some(&self.history[0])
        }
    }

    /// The trend of `extract` over the last five samples (fewer than three
    /// samples: stable).
    pub fn trend<F: Fn(&MemInfo) -> u64>(&self, extract: F) -> (r: Trend)
        requires
            forall|m: &MemInfo| #[trigger] call_requires(extract, (m,)),
        ensures
            self.history@.len() < 3 ==> r == Trend::Stable,
            self.history@.len() >= 3 ==> {
                let n = self.history@.len();
                let k = if n >= 5 { 5int } else { n as int };
                exists|newest: u64, oldest: u64|
                    call_ensures(extract, (&self.history@[n - 1],), newest) && call_ensures(
                        extract,
                        (&self.history@[n - k],),
                        oldest,
                    ) && r == trend_between(newest as int, oldest as int)
            },
    {
        let n = self.history.len();
        if n < 3 {
            return Trend::Stable;
        }
        let k = if n >= 5 {
            5
        } else {
            n
        };
        let newest = extract(&self.history[n - 1]);
        let oldest = extract(&self.history[n - k]);
        trend_of(newest, oldest)
    }

    /// `extract` of every sample, oldest first.
    pub fn sparkline_data<F: Fn(&MemInfo) -> u64>(&self, extract: F) -> (r: Vec<u64>)
        requires
            forall|m: &MemInfo| #[trigger] call_requires(extract, (m,)),
        ensures
            r@.len() == self.history@.len(),
            forall|i: int|
                0 <= i < r@.len() ==> call_ensures(extract, (&self.history@[i],), #[trigger] r@[i]),
    {
        let mut r: Vec<u64> = Vec::new();
        let mut i: usize = 0;
        while i < self.history.len()
            invariant
                i <= self.history@.len(),
                r@.len() == i,
                forall|m: &MemInfo| #[trigger] call_requires(extract, (m,)),
                forall|j: int|
                    0 <= j < i ==> call_ensures(extract, (&self.history@[j],), #[trigger] r@[j]),
            decreases self.history@.len() - i,
        {
            let v = extract(&self.history[i]);
            r.push(v);
            i = i + 1;
        }
        r
    }
}

} // verus!
