//! Monitor panel: disk samples polled through adb, and the memory, CPU and
//! GC streams of the in-app agent, kept to the span the charts show.

use vstd::prelude::*;
use crate::app::Action;
use crate::keys::{KeyCode, KeyEvent};
use crate::memory::{Trend, trend_between, trend_of};
use crate::panel::MONITOR;
use crate::text::{decimal, decimal_chars, extend_chars, string_from_chars};

verus! {

/// Disk is polled when the monitor panel is visible.
pub const POLL_DISK: u8 = 1;
/// How many samples each history keeps.
pub const MAX_SAMPLES: usize = 120;
pub const NS_PER_SEC: i64 = 1_000_000_000;
/// Agent events older than this, relative to the newest agent timestamp,
/// are dropped: the span of the charts.
pub const RETENTION_NS: i64 = 120_000_000_000;

#[derive(Debug, Clone, Copy, Default)]
pub struct MonitorSample {
    pub data_kb: u64,
    pub debuggable: bool,
}

/// A GC pause reported by the agent; `ts_ns` is on the agent's monotonic
/// clock, the same clock as the memory and CPU samples.
#[derive(Debug, Clone, Copy)]
pub struct GcEvent {
    pub ts_ns: i64,
    pub duration_us: u32,
}

#[derive(Debug, Clone, Copy)]
pub struct MemorySample {
    pub ts_ns: i64,
    pub rss_kb: u64,
    pub java_heap_kb: u64,
    pub native_heap_kb: u64,
}

/// A CPU sample of the agent. The percentage is carried as the bits of its
/// `f32` value (`f32::to_bits`); nothing here computes with it.
#[derive(Debug, Clone, Copy)]
pub struct CpuSample {
    pub ts_ns: i64,
    pub cpu_percent_bits: u32,
    pub num_threads: u32,
}

#[derive(Debug, Clone, Copy, PartialEq, Eq)]
pub enum MonitorView {
    All,
    Cpu,
    /// Java heap, with native heap and RSS overlaid in the detail view.
    Memory,
    Disk,
    /// Download and upload rates on one chart.
    Network,
}

/// Position of a view in the cycling order.
pub open spec fn view_index(v: MonitorView) -> int {
    match v {
        MonitorView::All => 0,
        MonitorView::Cpu => 1,
        MonitorView::Memory => 2,
        MonitorView::Disk => 3,
        MonitorView::Network => 4,
    }
}

pub open spec fn view_at(i: int) -> MonitorView {
    if i == 0 {
        MonitorView::All
    } else if i == 1 {
        MonitorView::Cpu
    } else if i == 2 {
        MonitorView::Memory
    } else if i == 3 {
        MonitorView::Disk
    } else {
        MonitorView::Network
    }
}

/// The next view forward or backward, wrapping around the five.
pub open spec fn cycled_view(v: MonitorView, forward: bool) -> MonitorView {
    if forward {
        view_at((view_index(v) + 1) % 5)
    } else {
        view_at((view_index(v) + 4) % 5)
    }
}

impl MonitorView {
    pub fn label(self) -> (r: &'static str)
        ensures
            r@ == match self {
                MonitorView::All => "All"@,
                MonitorView::Cpu => "CPU"@,
                MonitorView::Memory => "Memory"@,
                MonitorView::Disk => "Disk"@,
                MonitorView::Network => "Network"@,
            },
    {
        match self {
            MonitorView::All => "All",
            MonitorView::Cpu => "CPU",
            MonitorView::Memory => "Memory",
            MonitorView::Disk => "Disk",
            MonitorView::Network => "Network",
        }
    }

    pub fn cycle(self, forward: bool) -> (r: Self)
        ensures
            r == cycled_view(self, forward),
    {
        match (self, forward) {
            (MonitorView::All, true) => MonitorView::Cpu,
            (MonitorView::Cpu, true) => MonitorView::Memory,
            (MonitorView::Memory, true) => MonitorView::Disk,
            (MonitorView::Disk, true) => MonitorView::Network,
            (MonitorView::Network, true) => MonitorView::All,
            (MonitorView::All, false) => MonitorView::Network,
            (MonitorView::Cpu, false) => MonitorView::All,
            (MonitorView::Memory, false) => MonitorView::Cpu,
            (MonitorView::Disk, false) => MonitorView::Memory,
            (MonitorView::Network, false) => MonitorView::Disk,
        }
    }
}

/// Cycling forward then backward, or backward then forward, returns to
/// the view you started from.
pub proof fn lemma_cycle_inverse(v: MonitorView, forward: bool)
    ensures
        cycled_view(cycled_view(v, forward), !forward) == v,
{
}

/// Five steps in the same direction visit every view and come back.
pub proof fn lemma_cycle_period(v: MonitorView, forward: bool)
    ensures
        cycled_view(
            cycled_view(cycled_view(cycled_view(cycled_view(v, forward), forward), forward), forward),
            forward,
        ) == v,
{
}

pub struct MonitorState {
    pub history: Vec<MonitorSample>,
    pub gc_events: Vec<GcEvent>,
    pub memory_history: Vec<MemorySample>,
    pub cpu_history: Vec<CpuSample>,
    pub debuggable: bool,
    pub view: MonitorView,
}

/// `now_ns - RETENTION_NS`, held at `i64::MIN`.
pub open spec fn cutoff_for(now_ns: i64) -> int {
    if now_ns - RETENTION_NS < i64::MIN {
        i64::MIN as int
    } else {
        now_ns - RETENTION_NS
    }
}

pub open spec fn gc_kept(s: Seq<GcEvent>, cutoff: int) -> Seq<GcEvent> {
    s.filter(|e: GcEvent| e.ts_ns >= cutoff)
}

pub open spec fn memory_kept(s: Seq<MemorySample>, cutoff: int) -> Seq<MemorySample> {
    s.filter(|e: MemorySample| e.ts_ns >= cutoff)
}

pub open spec fn cpu_kept(s: Seq<CpuSample>, cutoff: int) -> Seq<CpuSample> {
    s.filter(|e: CpuSample| e.ts_ns >= cutoff)
}

/// `s` with `x` appended, minus the oldest one beyond `MAX_SAMPLES`.
pub open spec fn capped_push<A>(s: Seq<A>, x: A) -> Seq<A> {
    if s.len() < MAX_SAMPLES {
        s.push(x)
    } else {
        s.push(x).drop_first()
    }
}

pub open spec fn max_opt(a: Option<i64>, b: Option<i64>) -> Option<i64> {
    match (a, b) {
        (Some(x), Some(y)) => Some(if x >= y {
            x
        } else {
            y
        }),
        (Some(x), None) => Some(x),
        (None, y) => y,
    }
}

pub open spec fn last_ts<A>(s: Seq<A>, ts: spec_fn(A) -> i64) -> Option<i64> {
    if s.len() == 0 {
        None
    } else {
        Some(ts(s.last()))
    }
}

fn cutoff(now_ns: i64) -> (r: i64)
    ensures
        r == cutoff_for(now_ns),
{
    if now_ns >= i64::MIN + RETENTION_NS {
        now_ns - RETENTION_NS
    } else {
        i64::MIN
    }
}

pub open spec fn monitor_key_done(a: MonitorState, b: MonitorState, key: KeyEvent, r: Option<Action>) -> bool {
    &&& match key.code {
        KeyCode::Left | KeyCode::Char('h') | KeyCode::Up | KeyCode::Char('k') => r
            == Some(Action::Noop) && b.view == cycled_view(a.view, false),
        KeyCode::Right | KeyCode::Char('l') | KeyCode::Down | KeyCode::Char('j') => r
            == Some(Action::Noop) && b.view == cycled_view(a.view, true),
        KeyCode::Esc => r == Some(Action::Unfocus) && b.view == a.view,
        _ => r is None && b.view == a.view,
    }
    &&& b.history@ == a.history@
    &&& b.gc_events@ == a.gc_events@
    &&& b.memory_history@ == a.memory_history@
    &&& b.cpu_history@ == a.cpu_history@
    &&& b.debuggable == a.debuggable
}

pub open spec fn sample_pushed(a: MonitorState, b: MonitorState, sample: MonitorSample) -> bool {
    &&& b.debuggable == sample.debuggable
    &&& b.history@ == capped_push(a.history@, sample)
    &&& b.gc_events@ == a.gc_events@
    &&& b.memory_history@ == a.memory_history@
    &&& b.cpu_history@ == a.cpu_history@
    &&& b.view == a.view
}

impl MonitorState {
    pub fn new() -> (r: Self)
        ensures
            r.history@.len() == 0,
            r.gc_events@.len() == 0,
            r.memory_history@.len() == 0,
            r.cpu_history@.len() == 0,
            r.debuggable,
            r.view == MonitorView::All,
    {
        Self {
            history: Vec::new(),
            gc_events: Vec::new(),
            memory_history: Vec::new(),
            cpu_history: Vec::new(),
            debuggable: true,
            view: MonitorView::All,
        }
    }

    /// Arrow keys and `hjkl` cycle the chart view; Esc leaves the panel.
    pub fn handle_key(&mut self, key: KeyEvent) -> (r: Option<Action>)
        ensures
            monitor_key_done(*old(self), *final(self), key, r),
    {
        match key.code {
            KeyCode::Left | KeyCode::Char('h') | KeyCode::Up | KeyCode::Char('k') => {
                self.view = self.view.cycle(false);
                Some(Action::Noop)
            },
            KeyCode::Right | KeyCode::Char('l') | KeyCode::Down | KeyCode::Char('j') => {
                self.view = self.view.cycle(true);
                Some(Action::Noop)
            },
            KeyCode::Esc => Some(Action::Unfocus),
            _ => None,
        }
    }

    /// Records a disk sample and the app's debuggable flag.
    pub fn push(&mut self, sample: MonitorSample)
        ensures
            sample_pushed(*old(self), *final(self), sample),
    {
        self.debuggable = sample.debuggable;
        self.history.push(sample);
        if self.history.len() > MAX_SAMPLES {
            self.history.remove(0);
            proof {
                assert(self.history@ =~= old(self).history@.push(sample).drop_first());
            }
        }
    }

    /// Drops agent events older than the retention span before `now_ns`.
    pub fn evict_at_ns(&mut self, now_ns: i64)
        ensures
            final(self).gc_events@ == gc_kept(old(self).gc_events@, cutoff_for(now_ns)),
            final(self).memory_history@ == memory_kept(old(self).memory_history@, cutoff_for(now_ns)),
            final(self).cpu_history@ == cpu_kept(old(self).cpu_history@, cutoff_for(now_ns)),
            final(self).history@ == old(self).history@,
            final(self).debuggable == old(self).debuggable,
            final(self).view == old(self).view,
    {
        let c = cutoff(now_ns);
        let mut gc: Vec<GcEvent> = Vec::new();
        let mut i: usize = 0;
        while i < self.gc_events.len()
            invariant
                i <= self.gc_events@.len(),
                gc@ == gc_kept(self.gc_events@.take(i as int), c as int),
            decreases self.gc_events@.len() - i,
        {
            let e = self.gc_events[i];
            proof {
                assert(self.gc_events@.take(i + 1).drop_last() =~= self.gc_events@.take(i as int));
                reveal(Seq::filter);
            }
            if e.ts_ns >= c {
                gc.push(e);
            }
            i = i + 1;
        }
        proof {
            assert(self.gc_events@.take(i as int) =~= self.gc_events@);
        }
        let mut mem: Vec<MemorySample> = Vec::new();
        let mut j: usize = 0;
        while j < self.memory_history.len()
            invariant
                j <= self.memory_history@.len(),
                mem@ == memory_kept(self.memory_history@.take(j as int), c as int),
            decreases self.memory_history@.len() - j,
        {
            let e = self.memory_history[j];
            proof {
                assert(self.memory_history@.take(j + 1).drop_last() =~= self.memory_history@.take(
                    j as int,
                ));
                reveal(Seq::filter);
            }
            if e.ts_ns >= c {
                mem.push(e);
            }
            j = j + 1;
        }
        proof {
            assert(self.memory_history@.take(j as int) =~= self.memory_history@);
        }
        let mut cpu: Vec<CpuSample> = Vec::new();
        let mut k: usize = 0;
        while k < self.cpu_history.len()
            invariant
                k <= self.cpu_history@.len(),
                cpu@ == cpu_kept(self.cpu_history@.take(k as int), c as int),
            decreases self.cpu_history@.len() - k,
        {
            let e = self.cpu_history[k];
            proof {
                assert(self.cpu_history@.take(k + 1).drop_last() =~= self.cpu_history@.take(
                    k as int,
                ));
                reveal(Seq::filter);
            }
            if e.ts_ns >= c {
                cpu.push(e);
            }
            k = k + 1;
        }
        proof {
            assert(self.cpu_history@.take(k as int) =~= self.cpu_history@);
        }
        self.gc_events = gc;
        self.memory_history = mem;
        self.cpu_history = cpu;
    }

    /// Records a GC pause and drops agent events it makes stale.
    pub fn push_gc(&mut self, ts_ns: i64, duration_us: u32)
        ensures
            final(self).gc_events@ == gc_kept(
                old(self).gc_events@.push(GcEvent { ts_ns, duration_us }),
                cutoff_for(ts_ns),
            ),
            final(self).memory_history@ == memory_kept(old(self).memory_history@, cutoff_for(ts_ns)),
            final(self).cpu_history@ == cpu_kept(old(self).cpu_history@, cutoff_for(ts_ns)),
            final(self).history@ == old(self).history@,
            final(self).debuggable == old(self).debuggable,
            final(self).view == old(self).view,
    {
        self.gc_events.push(GcEvent { ts_ns, duration_us });
        self.evict_at_ns(ts_ns);
    }

    /// Records a memory sample (capped history) and drops stale events.
    pub fn push_memory(&mut self, ts_ns: i64, rss_kb: u64, java_heap_kb: u64, native_heap_kb: u64)
        ensures
            final(self).memory_history@ == memory_kept(
                capped_push(
                    old(self).memory_history@,
                    MemorySample { ts_ns, rss_kb, java_heap_kb, native_heap_kb },
                ),
                cutoff_for(ts_ns),
            ),
            final(self).gc_events@ == gc_kept(old(self).gc_events@, cutoff_for(ts_ns)),
            final(self).cpu_history@ == cpu_kept(old(self).cpu_history@, cutoff_for(ts_ns)),
            final(self).history@ == old(self).history@,
            final(self).debuggable == old(self).debuggable,
            final(self).view == old(self).view,
    {
        let s = MemorySample { ts_ns, rss_kb, java_heap_kb, native_heap_kb };
        self.memory_history.push(s);
        if self.memory_history.len() > MAX_SAMPLES {
            self.memory_history.remove(0);
            proof {
                assert(self.memory_history@ =~= old(self).memory_history@.push(s).drop_first());
            }
        }
        self.evict_at_ns(ts_ns);
    }

    /// Records a CPU sample (capped history) and drops stale events.
    pub fn push_cpu(&mut self, ts_ns: i64, cpu_percent_bits: u32, num_threads: u32)
        ensures
            final(self).cpu_history@ == cpu_kept(
                capped_push(
                    old(self).cpu_history@,
                    CpuSample { ts_ns, cpu_percent_bits, num_threads },
                ),
                cutoff_for(ts_ns),
            ),
            final(self).gc_events@ == gc_kept(old(self).gc_events@, cutoff_for(ts_ns)),
            final(self).memory_history@ == memory_kept(old(self).memory_history@, cutoff_for(ts_ns)),
            final(self).history@ == old(self).history@,
            final(self).debuggable == old(self).debuggable,
            final(self).view == old(self).view,
    {
        let s = CpuSample { ts_ns, cpu_percent_bits, num_threads };
        self.cpu_history.push(s);
        if self.cpu_history.len() > MAX_SAMPLES {
            self.cpu_history.remove(0);
            proof {
                assert(self.cpu_history@ =~= old(self).cpu_history@.push(s).drop_first());
            }
        }
        self.evict_at_ns(ts_ns);
    }

    /// The newest agent timestamp of the three streams, once there is one.
    pub fn latest_agent_ts_ns(&self) -> (r: Option<i64>)
        ensures
            r == max_opt(
                max_opt(
                    last_ts(self.memory_history@, |s: MemorySample| s.ts_ns),
                    last_ts(self.gc_events@, |e: GcEvent| e.ts_ns),
                ),
                last_ts(self.cpu_history@, |s: CpuSample| s.ts_ns),
            ),
    {
        let mem = if self.memory_history.len() > 0 {
            Some(self.memory_history[self.memory_history.len() - 1].ts_ns)
        } else {
            None
        };
        let gc = if self.gc_events.len() > 0 {
            Some(self.gc_events[self.gc_events.len() - 1].ts_ns)
        } else {
            None
        };
        let cpu = if self.cpu_history.len() > 0 {
            Some(self.cpu_history[self.cpu_history.len() - 1].ts_ns)
        } else {
            None
        };
        max_of(max_of(mem, gc), cpu)
    }

    /// The trend of `extract` over the last five disk samples (fewer than
    /// three samples: stable).
    pub fn trend_u64<F: Fn(&MonitorSample) -> u64>(&self, extract: F) -> (r: Trend)
        requires
            forall|m: &MonitorSample| #[trigger] call_requires(extract, (m,)),
        ensures
            self.history@.len() < 3 ==> r == Trend::Stable,
            self.history@.len() >= 3 ==> {
                let n = self.history@.len();
                let k = if n >= 5 { 5int } else { n as int };
                exists|newest: u64, oldest: u64|
                    call_ensures(extract, (&self.history@[n - 1],), newest) && call_ensures(
                        extract,
                        (&self.history@[n - k],),
                        oldest,
                    ) && r == trend_between(newest as int, oldest as int)
            },
    {
        let n = self.history.len();
        if n < 3 {
            return Trend::Stable;
        }
        let k = if n >= 5 {
            5
        } else {
            n
        };
        let newest = extract(&self.history[n - 1]);
        let oldest = extract(&self.history[n - k]);
        trend_of(newest, oldest)
    }
}

fn max_of(a: Option<i64>, b: Option<i64>) -> (r: Option<i64>)
    ensures
        r == max_opt(a, b),
{
    match (a, b) {
        (Some(x), Some(y)) => Some(
            if x >= y {
                x
            } else {
                y
            },
        ),
        (Some(x), None) => Some(x),
        (None, y) => y,
    }
}

/// Which pollers the visible panels need: disk when the monitor panel is
/// shown (`vis[i]` tells whether panel `i + 1` is visible).
pub fn visibility_mask(vis: &[bool; 8]) -> (r: u8)
    ensures
        r == (if vis@[MONITOR - 1] {
            POLL_DISK
        } else {
            0
        }),
{
    let mut mask: u8 = 0;
    if vis[(MONITOR - 1) as usize] {
        mask = mask | POLL_DISK;
        proof {
            assert(0u8 | 1u8 == 1u8) by (bit_vector);
        }
    }
    mask
}


/// Whole seconds from `ts_ns` back to `now_ns` (0 for a later event), as a
/// `u32` the way `as u32` cuts a larger count.
pub open spec fn secs_ago(now_ns: i64, ts_ns: i64) -> u32 {
    if now_ns > ts_ns {
        (((now_ns - ts_ns) / NS_PER_SEC as int) % 0x1_0000_0000) as u32
    } else {
        0
    }
}

/// How long ago, in seconds, each GC pause happened at `now_ns`: the marks
/// on the monitor's time axis.
pub fn gc_secs_ago_at(now_ns: i64, events: &[GcEvent]) -> (r: Vec<u32>)
    ensures
        r@.len() == events@.len(),
        forall|i: int| 0 <= i < events@.len() ==> r@[i] == secs_ago(now_ns, #[trigger] events@[i].ts_ns),
{
    let mut out: Vec<u32> = Vec::new();
    let mut i: usize = 0;
    while i < events.len()
        invariant
            i <= events@.len(),
            out@.len() == i,
            forall|j: int| 0 <= j < i ==> out@[j] == secs_ago(now_ns, #[trigger] events@[j].ts_ns),
        decreases events@.len() - i,
    {
        let ts = events[i].ts_ns;
        let s: u32 = if now_ns > ts {
            let diff: i128 = now_ns as i128 - ts as i128;
            let secs: i128 = diff / (NS_PER_SEC as i128);
            (secs % 0x1_0000_0000) as u32
        } else {
            0
        };
        out.push(s);
        i = i + 1;
    }
    out
}

/// A span of seconds as the time axis labels it: `45s`, `2m`, `2m5s`.
pub open spec fn ago_text(secs: nat) -> Seq<char> {
    if secs >= 60 {
        let m = secs / 60;
        let s = secs % 60;
        if s == 0 {
            decimal(m).push('m')
        } else {
            decimal(m).push('m') + decimal(s).push('s')
        }
    } else {
        decimal(secs).push('s')
    }
}

pub fn format_ago(secs: u64) -> (r: String)
    ensures
        r@ == ago_text(secs as nat),
{
    let mut out: Vec<char>;
    if secs >= 60 {
        out = decimal_chars(secs / 60);
        out.push('m');
        let s = secs % 60;
        if s != 0 {
            let tail = decimal_chars(s);
            extend_chars(&mut out, tail.as_slice());
            out.push('s');
            proof {
                assert(out@ =~= decimal((secs / 60) as nat).push('m') + decimal(s as nat).push('s'));
            }
        }
    } else {
        out = decimal_chars(secs);
        out.push('s');
    }
    string_from_chars(out.as_slice())
}

/// The smallest non-zero sample, if any.
pub open spec fn positive_min(s: Seq<u64>) -> Option<u64>
    decreases s.len(),
{
    if s.len() == 0 {
        None
    } else {
        let v = s.last();
        match positive_min(s.drop_last()) {
            None => if v == 0 {
                None
            } else {
                Some(v)
            },
            Some(m) => if v != 0 && v < m {
                Some(v)
            } else {
                Some(m)
            },
        }
    }
}

/// The largest sample (`None` when every sample is zero).
pub open spec fn positive_max(s: Seq<u64>) -> Option<u64>
    decreases s.len(),
{
    if s.len() == 0 {
        None
    } else {
        let v = s.last();
        match positive_max(s.drop_last()) {
            None => if v == 0 {
                None
            } else {
                Some(v)
            },
            Some(m) => if v > m {
                Some(v)
            } else {
                Some(m)
            },
        }
    }
}

proof fn lemma_positive_bounds(s: Seq<u64>)
    ensures
        positive_min(s) is None <==> positive_max(s) is None,
        positive_min(s) is None ==> forall|i: int| 0 <= i < s.len() ==> s[i] == 0,
        positive_min(s) matches Some(lo) ==> lo > 0 && forall|i: int|
            0 <= i < s.len() && s[i] != 0 ==> lo <= #[trigger] s[i],
        positive_max(s) matches Some(hi) ==> forall|i: int| 0 <= i < s.len() ==> #[trigger] s[i] <= hi,
        positive_min(s) matches Some(lo) ==> positive_max(s) matches Some(hi) && lo <= hi,
    decreases s.len(),
{
    if s.len() > 0 {
        lemma_positive_bounds(s.drop_last());
        assert forall|i: int| 0 <= i < s.len() - 1 implies s.drop_last()[i] == s[i] by {}
    }
}

/// A series shifted so that its smallest non-zero sample sits at zero: a
/// steady non-zero value draws as a low bar, and a zero sample (the app
/// not running yet) draws as no bar. Also the largest shifted value, the
/// chart's top.
pub open spec fn shifted_bar(s: Seq<u64>, v: u64) -> Option<u64> {
    if v == 0 {
        None
    } else {
        match positive_min(s) {
            Some(lo) => Some((v - lo) as u64),
            None => None,
        }
    }
}

pub fn range_shifted(samples: &[u64]) -> (r: (Vec<Option<u64>>, u64))
    ensures
        r.0@.len() == samples@.len(),
        forall|i: int| 0 <= i < samples@.len() ==> r.0@[i] == shifted_bar(samples@, #[trigger] samples@[i]),
        forall|i: int| 0 <= i < samples@.len() ==> (#[trigger] r.0@[i] matches Some(v) ==> v <= r.1),
        r.1 == match (positive_min(samples@), positive_max(samples@)) {
            (Some(lo), Some(hi)) => (hi - lo) as u64,
            _ => 0,
        },
{
    let mut lo: Option<u64> = None;
    let mut hi: Option<u64> = None;
    let mut i: usize = 0;
    while i < samples.len()
        invariant
            i <= samples@.len(),
            lo == positive_min(samples@.take(i as int)),
            hi == positive_max(samples@.take(i as int)),
        decreases samples@.len() - i,
    {
        let v = samples[i];
        proof {
            let t = samples@.take(i + 1);
            assert(t.drop_last() =~= samples@.take(i as int));
            assert(t.last() == v);
        }
        lo = match lo {
            None => if v == 0 {
                None
            } else {
                Some(v)
            },
            Some(m) => if v != 0 && v < m {
                Some(v)
            } else {
                Some(m)
            },
        };
        hi = match hi {
            None => if v == 0 {
                None
            } else {
                Some(v)
            },
            Some(m) => if v > m {
                Some(v)
            } else {
                Some(m)
            },
        };
        i = i + 1;
    }
    proof {
        assert(samples@.take(samples@.len() as int) =~= samples@);
        lemma_positive_bounds(samples@);
    }
    let mut bars: Vec<Option<u64>> = Vec::new();
    let mut j: usize = 0;
    while j < samples.len()
        invariant
            j <= samples@.len(),
            lo == positive_min(samples@),
            bars@.len() == j,
            positive_min(samples@) matches Some(m) ==> m > 0 && forall|k: int|
                0 <= k < samples@.len() && samples@[k] != 0 ==> m <= #[trigger] samples@[k],
            forall|k: int| 0 <= k < j ==> bars@[k] == shifted_bar(samples@, #[trigger] samples@[k]),
        decreases samples@.len() - j,
    {
        let v = samples[j];
        let b: Option<u64> = if v == 0 {
            None
        } else {
            match lo {
                Some(m) => Some(v - m),
                None => None,
            }
        };
        bars.push(b);
        j = j + 1;
    }
    let top: u64 = match (lo, hi) {
        (Some(l), Some(h)) => h - l,
        _ => 0,
    };
    proof {
        lemma_positive_bounds(samples@);
        assert forall|i: int| 0 <= i < samples@.len() implies (#[trigger] bars@[i] matches Some(v) ==> v <= top) by {
            assert(bars@[i] == shifted_bar(samples@, samples@[i]));
        }
    }
    (bars, top)
}
} // verus!
