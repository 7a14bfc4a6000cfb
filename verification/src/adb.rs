//! Device-side data and the parsers that turn `adb` command output into it.

use vstd::prelude::*;
use crate::order::{lemma_lex_strict_order, insert_sorted, is_strict_order, sorted_by_lt, lemma_insert_keeps_sorted, lex_less, lex_lt, sorted_lex, views_of, lemma_lex_lt_asymmetric,
    lemma_lex_lt_irreflexive, lemma_lex_lt_total, lemma_lex_lt_transitive, lemma_insert_multiset};
use crate::text::{eq_chars, chars_of, copy_chars, contains_slice, ends_with, find, has_prefix, has_suffix, lines,
    matches_at, next_line, parse_bounded, parse_u64, parse_uint, split_once, split_once_slice,
    split_ws, split_ws_bounds, starts_with, string_from_chars, trim, trim_slice, contains};

verus! {

#[derive(Debug, Clone, Default)]
pub struct MemInfo {
    pub rss_kb: u64,
}

#[derive(Debug, Clone, Copy, Default)]
pub struct NetworkBytes {
    pub rx: u64,
    pub tx: u64,
}

#[derive(Debug, Clone)]
pub struct Device {
    pub serial: String,
    pub model: Option<String>,
    pub device: Option<String>,
    pub connected: bool,
}

#[derive(Debug, Clone)]
pub struct FileMeta {
    pub size_bytes: u64,
    pub modified: Option<String>,
    pub mode: String,
}

/// The characters of an optional string.
pub open spec fn opt_chars(o: Option<String>) -> Option<Seq<char>> {
    match o {
        Some(s) => Some(s@),
        None => None,
    }
}

pub ghost struct DeviceView {
    pub serial: Seq<char>,
    pub model: Option<Seq<char>>,
    pub device: Option<Seq<char>>,
    pub connected: bool,
}

impl View for Device {
    type V = DeviceView;

    open spec fn view(&self) -> DeviceView {
        DeviceView {
            serial: self.serial@,
            model: opt_chars(self.model),
            device: opt_chars(self.device),
            connected: self.connected,
        }
    }
}

pub fn clone_opt_string(o: &Option<String>) -> (r: Option<String>)
    ensures
        opt_chars(r) == opt_chars(*o),
        r == *o,
{
    match o {
        Some(s) => Some(s.clone()),
        None => None,
    }
}

impl Device {
    /// A copy of this device with the same contents.
    pub fn duplicate(&self) -> (r: Device)
        ensures
            r@ == self@,
            r == *self,
    {
        Device {
            serial: self.serial.clone(),
            model: clone_opt_string(&self.model),
            device: clone_opt_string(&self.device),
            connected: self.connected,
        }
    }
}

pub open spec fn strings_view(v: Seq<String>) -> Seq<Seq<char>> {
    v.map_values(|s: String| s@)
}

// ---------------------------------------------------------------------------
// Single-value settings
// ---------------------------------------------------------------------------

/// A setting printed by `settings get` is on when its trimmed output is `1`.
pub open spec fn setting_is_on(output: Seq<char>) -> bool {
    trim(output) == "1"@
}

fn trimmed_is_one(output: &str) -> (b: bool)
    ensures
        b == setting_is_on(output@),
{
    let v = chars_of(output);
    let t = trim_slice(v.as_slice());
    let one = chars_of("1");
    if t.len() != one.len() {
        return false;
    }
    let r = matches_at(t, one.as_slice(), 0);
    proof {
        if r {
            assert(t@.subrange(0, one@.len() as int) =~= t@);
        } else if t@ == one@ {
            assert(t@.subrange(0, one@.len() as int) =~= t@);
        }
    }
    r
}

pub fn parse_wifi_enabled(output: &str) -> (b: bool)
    ensures
        b == setting_is_on(output@),
{
    trimmed_is_one(output)
}

pub fn parse_airplane_mode(output: &str) -> (b: bool)
    ensures
        b == setting_is_on(output@),
{
    trimmed_is_one(output)
}

// ---------------------------------------------------------------------------
// Line lists
// ---------------------------------------------------------------------------

/// The trimmed non-blank lines of `ls`.
pub open spec fn nonblank_trimmed(ls: Seq<Seq<char>>) -> Seq<Seq<char>>
    decreases ls.len(),
{
    if ls.len() == 0 {
        Seq::empty()
    } else if trim(ls[0]).len() == 0 {
        nonblank_trimmed(ls.drop_first())
    } else {
        seq![trim(ls[0])] + nonblank_trimmed(ls.drop_first())
    }
}

/// A database file name, as opposed to SQLite's `-journal`, `-wal` and
/// `-shm` side files.
pub open spec fn is_database_file(name: Seq<char>) -> bool {
    !ends_with(name, "-journal"@) && !ends_with(name, "-wal"@) && !ends_with(name, "-shm"@)
}

/// The database names in a directory listing: trimmed non-blank lines
/// that are not SQLite side files, in listing order.
pub open spec fn database_names(ls: Seq<Seq<char>>) -> Seq<Seq<char>>
    decreases ls.len(),
{
    if ls.len() == 0 {
        Seq::empty()
    } else {
        let t = trim(ls[0]);
        if t.len() != 0 && is_database_file(t) {
            seq![t] + database_names(ls.drop_first())
        } else {
            database_names(ls.drop_first())
        }
    }
}

/// Keeps the trimmed non-blank lines of `output` for which `keep` holds,
/// in order; shared by the line-list parsers.
fn trimmed_lines_where(output: &str, db_only: bool) -> (r: Vec<String>)
    ensures
        db_only ==> strings_view(r@) == database_names(lines(output@)),
        !db_only ==> strings_view(r@) == nonblank_trimmed(lines(output@)),
{
    let v = chars_of(output);
    let s = v.as_slice();
    let journal = chars_of("-journal");
    let wal = chars_of("-wal");
    let shm = chars_of("-shm");
    let n = s.len();
    let mut p: usize = 0;
    let mut out: Vec<String> = Vec::new();
    proof {
        assert(s@.skip(0) =~= s@);
    }
    while p < n
        invariant
            p <= n,
            n == s@.len(),
            s@ == output@,
            journal@ == "-journal"@,
            wal@ == "-wal"@,
            shm@ == "-shm"@,
            db_only ==> database_names(lines(s@)) == strings_view(out@) + database_names(
                lines(s@.skip(p as int)),
            ),
            !db_only ==> nonblank_trimmed(lines(s@)) == strings_view(out@) + nonblank_trimmed(
                lines(s@.skip(p as int)),
            ),
        decreases n - p,
    {
        let (b, np) = next_line(s, p);
        let line = &s[p..b];
        let t = trim_slice(line);
        let ghost rest = lines(s@.skip(np as int));
        let ghost ls = lines(s@.skip(p as int));
        proof {
            assert(ls[0] == line@);
            assert(ls.drop_first() =~= rest);
        }
        let keep = t.len() != 0 && (!db_only || (!has_suffix(t, journal.as_slice())
            && !has_suffix(t, wal.as_slice()) && !has_suffix(t, shm.as_slice())));
        if keep {
            let ghost before = out@;
            out.push(string_from_chars(t));
            proof {
                assert(strings_view(out@) =~= strings_view(before).push(t@));
                assert(strings_view(before).push(t@) + database_names(rest) =~= strings_view(
                    before,
                ) + (seq![t@] + database_names(rest)));
                assert(strings_view(before).push(t@) + nonblank_trimmed(rest) =~= strings_view(
                    before,
                ) + (seq![t@] + nonblank_trimmed(rest)));
            }
        }
        p = np;
    }
    proof {
        assert(s@.skip(n as int) =~= Seq::<char>::empty());
        assert(strings_view(out@) + Seq::<Seq<char>>::empty() =~= strings_view(out@));
    }
    out
}

/// Database file names from a `ls` of the app's `databases/` directory.
pub fn parse_database_list(output: &str) -> (r: Vec<String>)
    ensures
        strings_view(r@) == database_names(lines(output@)),
{
    trimmed_lines_where(output, true)
}

/// Emulator names from `emulator -list-avds`: the trimmed non-blank lines.
pub fn parse_avd_list(output: &str) -> (r: Vec<String>)
    ensures
        strings_view(r@) == nonblank_trimmed(lines(output@)),
{
    trimmed_lines_where(output, false)
}


// ---------------------------------------------------------------------------
// Battery and memory
// ---------------------------------------------------------------------------

/// The battery level a `dumpsys battery` line states, if it states one.
pub open spec fn level_on_line(l: Seq<char>) -> Option<int> {
    let t = trim(l);
    if starts_with(t, "level:"@) {
        parse_uint(trim(t.skip("level:"@.len() as int)), 255)
    } else {
        None
    }
}

/// The first battery level stated among `ls`.
pub open spec fn battery_level_in(ls: Seq<Seq<char>>) -> Option<int>
    decreases ls.len(),
{
    if ls.len() == 0 {
        None
    } else {
        match level_on_line(ls[0]) {
            Some(v) => Some(v),
            None => battery_level_in(ls.drop_first()),
        }
    }
}

/// The battery percentage from `dumpsys battery`.
pub fn parse_battery_level(output: &str) -> (r: Option<u8>)
    ensures
        r matches Some(v) ==> battery_level_in(lines(output@)) == Some(v as int),
        r is None ==> battery_level_in(lines(output@)) is None,
{
    let v = chars_of(output);
    let s = v.as_slice();
    let prefix = chars_of("level:");
    let n = s.len();
    let mut p: usize = 0;
    proof {
        assert(s@.skip(0) =~= s@);
    }
    while p < n
        invariant
            p <= n,
            n == s@.len(),
            s@ == output@,
            prefix@ == "level:"@,
            battery_level_in(lines(s@)) == battery_level_in(lines(s@.skip(p as int))),
        decreases n - p,
    {
        let (b, np) = next_line(s, p);
        let line = &s[p..b];
        let ghost ls = lines(s@.skip(p as int));
        proof {
            assert(ls[0] == line@);
            assert(ls.drop_first() =~= lines(s@.skip(np as int)));
        }
        let t = trim_slice(line);
        if has_prefix(t, prefix.as_slice()) {
            let rest = &t[prefix.len()..t.len()];
            proof {
                assert(rest@ =~= t@.skip("level:"@.len() as int));
            }
            let value = trim_slice(rest);
            if let Some(x) = parse_bounded(value, 255) {
                return Some(x as u8);
            }
        }
        p = np;
    }
    proof {
        assert(s@.skip(n as int) =~= Seq::<char>::empty());
    }
    None
}

/// The kilobyte count a `/proc` status line states after `prefix`
/// (`"VmRSS:   128000 kB"`).
pub open spec fn kb_value(line: Seq<char>, prefix: Seq<char>) -> Option<int> {
    if starts_with(line, prefix) {
        let a = trim(line.skip(prefix.len() as int));
        if ends_with(a, "kB"@) {
            parse_uint(trim(a.take(a.len() - "kB"@.len())), u64::MAX as int)
        } else {
            None
        }
    } else {
        None
    }
}

pub fn parse_kb_value(line: &str, prefix: &str) -> (r: Option<u64>)
    ensures
        r matches Some(v) ==> kb_value(line@, prefix@) == Some(v as int),
        r is None ==> kb_value(line@, prefix@) is None,
{
    let lv = chars_of(line);
    let pv = chars_of(prefix);
    kb_value_of(lv.as_slice(), pv.as_slice())
}

fn kb_value_of(l: &[char], p: &[char]) -> (r: Option<u64>)
    ensures
        r matches Some(v) ==> kb_value(l@, p@) == Some(v as int),
        r is None ==> kb_value(l@, p@) is None,
{
    if !has_prefix(l, p) {
        return None;
    }
    let rest = &l[p.len()..l.len()];
    proof {
        assert(rest@ =~= l@.skip(p@.len() as int));
    }
    let a = trim_slice(rest);
    let kb = chars_of("kB");
    if !has_suffix(a, kb.as_slice()) {
        return None;
    }
    let num = &a[0..a.len() - kb.len()];
    proof {
        assert(num@ =~= a@.take(a@.len() - "kB"@.len()));
    }
    parse_u64(trim_slice(num))
}

/// The resident set size stated by the first `VmRSS:` line of `ls` that
/// states one.
pub open spec fn rss_in(ls: Seq<Seq<char>>) -> Option<int>
    decreases ls.len(),
{
    if ls.len() == 0 {
        None
    } else {
        match kb_value(ls[0], "VmRSS:"@) {
            Some(v) => Some(v),
            None => rss_in(ls.drop_first()),
        }
    }
}

/// Memory use from `/proc/<pid>/status`; zero when no `VmRSS:` line parses.
pub fn parse_proc_mem(output: &str) -> (r: MemInfo)
    ensures
        rss_in(lines(output@)) matches Some(v) ==> r.rss_kb == v,
        rss_in(lines(output@)) is None ==> r.rss_kb == 0,
{
    let v = chars_of(output);
    let s = v.as_slice();
    let prefix = chars_of("VmRSS:");
    let n = s.len();
    let mut p: usize = 0;
    proof {
        assert(s@.skip(0) =~= s@);
    }
    while p < n
        invariant
            p <= n,
            n == s@.len(),
            s@ == output@,
            prefix@ == "VmRSS:"@,
            rss_in(lines(s@)) == rss_in(lines(s@.skip(p as int))),
        decreases n - p,
    {
        let (b, np) = next_line(s, p);
        let ghost ls = lines(s@.skip(p as int));
        proof {
            assert(ls[0] == s@.subrange(p as int, b as int));
            assert(ls.drop_first() =~= lines(s@.skip(np as int)));
        }
        if let Some(val) = kb_value_of(&s[p..b], prefix.as_slice()) {
            return MemInfo { rss_kb: val };
        }
        p = np;
    }
    proof {
        assert(s@.skip(n as int) =~= Seq::<char>::empty());
    }
    MemInfo { rss_kb: 0 }
}

// ---------------------------------------------------------------------------
// Disk usage
// ---------------------------------------------------------------------------

/// The first two tab-separated fields of a line, when it has a tab.
pub open spec fn tab_fields(l: Seq<char>) -> Option<(Seq<char>, Seq<char>)> {
    match split_once(l, "\t"@) {
        Some((first, rest)) => match split_once(rest, "\t"@) {
            Some((second, _)) => Some((first, second)),
            None => Some((first, rest)),
        },
        None => None,
    }
}

/// How one `du -s` line changes the `(data, cache)` sizes: a size for
/// `./cache` sets the cache size, one for `.` the data size.
pub open spec fn du_step(acc: (int, int), l: Seq<char>) -> (int, int) {
    match tab_fields(l) {
        Some((size, path)) => match parse_uint(trim(size), u64::MAX as int) {
            Some(v) => if trim(path) == "./cache"@ {
                (acc.0, v)
            } else if trim(path) == "."@ {
                (v, acc.1)
            } else {
                acc
            },
            None => acc,
        },
        None => acc,
    }
}

pub open spec fn du_fold(acc: (int, int), ls: Seq<Seq<char>>) -> (int, int)
    decreases ls.len(),
{
    if ls.len() == 0 {
        acc
    } else {
        du_fold(du_step(acc, ls[0]), ls.drop_first())
    }
}

/// `(data_kb, cache_kb)` from `du -s . ./cache` run in the app's data directory.
pub fn parse_du_output(output: &str) -> (r: (u64, u64))
    ensures
        (r.0 as int, r.1 as int) == du_fold((0, 0), lines(output@)),
{
    let v = chars_of(output);
    let s = v.as_slice();
    let tab = chars_of("\t");
    let cache = chars_of("./cache");
    let dot = chars_of(".");
    let n = s.len();
    let mut p: usize = 0;
    let mut data_kb: u64 = 0;
    let mut cache_kb: u64 = 0;
    proof {
        assert(s@.skip(0) =~= s@);
    }
    while p < n
        invariant
            p <= n,
            n == s@.len(),
            s@ == output@,
            tab@ == "\t"@,
            cache@ == "./cache"@,
            dot@ == "."@,
            du_fold((0, 0), lines(s@)) == du_fold(
                (data_kb as int, cache_kb as int),
                lines(s@.skip(p as int)),
            ),
        decreases n - p,
    {
        let (b, np) = next_line(s, p);
        let line = &s[p..b];
        let ghost ls = lines(s@.skip(p as int));
        proof {
            assert(ls[0] == line@);
            assert(ls.drop_first() =~= lines(s@.skip(np as int)));
        }
        if let Some((first, rest)) = split_once_slice(line, tab.as_slice()) {
            let second = match split_once_slice(rest, tab.as_slice()) {
                Some((x, _)) => x,
                None => rest,
            };
            proof {
                assert(tab_fields(line@) == Some((first@, second@)));
            }
            if let Some(size) = parse_u64(trim_slice(first)) {
                let path = trim_slice(second);
                if eq_chars(path, cache.as_slice()) {
                    cache_kb = size;
                } else if eq_chars(path, dot.as_slice()) {
                    data_kb = size;
                }
            }
        }
        p = np;
    }
    proof {
        assert(s@.skip(n as int) =~= Seq::<char>::empty());
    }
    (data_kb, cache_kb)
}


// ---------------------------------------------------------------------------
// Package version
// ---------------------------------------------------------------------------

/// How one `dumpsys package` line changes the `(versionName, versionCode)`
/// found so far: each keeps its first value.
pub open spec fn version_step(acc: (Seq<char>, Seq<char>), l: Seq<char>) -> (Seq<char>, Seq<char>) {
    let t = trim(l);
    if starts_with(t, "versionName="@) {
        if acc.0.len() == 0 {
            (t.skip("versionName="@.len() as int), acc.1)
        } else {
            acc
        }
    } else if starts_with(t, "versionCode="@) && acc.1.len() == 0 {
        let toks = split_ws(t.skip("versionCode="@.len() as int));
        (acc.0, if toks.len() > 0 { toks[0] } else { Seq::empty() })
    } else {
        acc
    }
}

pub open spec fn version_fold(acc: (Seq<char>, Seq<char>), ls: Seq<Seq<char>>) -> (Seq<char>, Seq<char>)
    decreases ls.len(),
{
    if ls.len() == 0 {
        acc
    } else {
        version_fold(version_step(acc, ls[0]), ls.drop_first())
    }
}

/// `(versionName, versionCode)` from `dumpsys package`, empty when absent.
pub fn parse_app_version(output: &str) -> (r: (String, String))
    ensures
        (r.0@, r.1@) == version_fold((Seq::empty(), Seq::empty()), lines(output@)),
{
    let v = chars_of(output);
    let s = v.as_slice();
    let name_key = chars_of("versionName=");
    let code_key = chars_of("versionCode=");
    let n = s.len();
    let mut p: usize = 0;
    let mut name: Vec<char> = Vec::new();
    let mut code: Vec<char> = Vec::new();
    proof {
        assert(s@.skip(0) =~= s@);
    }
    while p < n
        invariant
            p <= n,
            n == s@.len(),
            s@ == output@,
            name_key@ == "versionName="@,
            code_key@ == "versionCode="@,
            version_fold((Seq::empty(), Seq::empty()), lines(s@)) == version_fold(
                (name@, code@),
                lines(s@.skip(p as int)),
            ),
        decreases n - p,
    {
        let (b, np) = next_line(s, p);
        let line = &s[p..b];
        let ghost ls = lines(s@.skip(p as int));
        proof {
            assert(ls[0] == line@);
            assert(ls.drop_first() =~= lines(s@.skip(np as int)));
        }
        let t = trim_slice(line);
        if has_prefix(t, name_key.as_slice()) {
            if name.len() == 0 {
                let val = &t[name_key.len()..t.len()];
                proof {
                    assert(val@ =~= t@.skip("versionName="@.len() as int));
                }
                name = copy_chars(val);
            }
        } else if has_prefix(t, code_key.as_slice()) && code.len() == 0 {
            let val = &t[code_key.len()..t.len()];
            proof {
                assert(val@ =~= t@.skip("versionCode="@.len() as int));
            }
            let toks = split_ws_bounds(val);
            if toks.len() > 0 {
                let (a, e) = toks[0];
                code = copy_chars(&val[a..e]);
            } else {
                proof {
                    assert(code@ =~= Seq::<char>::empty());
                }
            }
        }
        p = np;
    }
    proof {
        assert(s@.skip(n as int) =~= Seq::<char>::empty());
    }
    (string_from_chars(name.as_slice()), string_from_chars(code.as_slice()))
}

// ---------------------------------------------------------------------------
// Device IP address
// ---------------------------------------------------------------------------

pub open spec fn any_token_starts_with(toks: Seq<Seq<char>>, pre: Seq<char>) -> bool {
    exists|k: int| 0 <= k < toks.len() && starts_with(#[trigger] toks[k], pre)
}

/// First index at or after `i` of a token equal to `x`.
pub open spec fn token_index_from(toks: Seq<Seq<char>>, x: Seq<char>, i: int) -> Option<int>
    decreases toks.len() - i,
{
    if i < 0 || i >= toks.len() {
        None
    } else if toks[i] == x {
        Some(i)
    } else {
        token_index_from(toks, x, i + 1)
    }
}

/// The source address of the first route line of `ls` that names one and
/// does not use a cellular (`rmnet`) interface; a line whose `src` is the
/// last token ends the search with nothing.
pub open spec fn device_ip_in(ls: Seq<Seq<char>>) -> Option<Seq<char>>
    decreases ls.len(),
{
    if ls.len() == 0 {
        None
    } else {
        let toks = split_ws(ls[0]);
        if any_token_starts_with(toks, "rmnet"@) {
            device_ip_in(ls.drop_first())
        } else {
            match token_index_from(toks, "src"@, 0) {
                Some(i) => if i + 1 < toks.len() {
                    Some(toks[i + 1])
                } else {
                    None
                },
                None => device_ip_in(ls.drop_first()),
            }
        }
    }
}

/// The device's LAN address from `ip route`.
pub fn parse_device_ip(output: &str) -> (r: Option<String>)
    ensures
        opt_chars(r) == device_ip_in(lines(output@)),
{
    let v = chars_of(output);
    let s = v.as_slice();
    let rmnet = chars_of("rmnet");
    let src = chars_of("src");
    let n = s.len();
    let mut p: usize = 0;
    proof {
        assert(s@.skip(0) =~= s@);
    }
    while p < n
        invariant
            p <= n,
            n == s@.len(),
            s@ == output@,
            rmnet@ == "rmnet"@,
            src@ == "src"@,
            device_ip_in(lines(s@)) == device_ip_in(lines(s@.skip(p as int))),
        decreases n - p,
    {
        let (b, np) = next_line(s, p);
        let line = &s[p..b];
        let ghost ls = lines(s@.skip(p as int));
        proof {
            assert(ls[0] == line@);
            assert(ls.drop_first() =~= lines(s@.skip(np as int)));
        }
        let toks = split_ws_bounds(line);
        let ghost tv = split_ws(line@);
        proof {
            assert forall|j: int| 0 <= j < toks@.len() implies #[trigger] toks@[j].0 <= toks@[j].1
                <= line@.len() && line@.subrange(toks@[j].0 as int, toks@[j].1 as int)
                == tv[j] by {
                assert(toks@[j].0 <= toks@[j].1);
            }
        }
        let mut cellular = false;
        let mut k: usize = 0;
        while k < toks.len()
            invariant
                k <= toks@.len(),
                toks@.len() == tv.len(),
                forall|j: int|
                    0 <= j < toks@.len() ==> #[trigger] toks@[j].0 <= toks@[j].1 <= line@.len()
                        && line@.subrange(toks@[j].0 as int, toks@[j].1 as int) == tv[j],
                rmnet@ == "rmnet"@,
                cellular == exists|j: int| 0 <= j < k && starts_with(#[trigger] tv[j], "rmnet"@),
            decreases toks@.len() - k,
        {
            let (a, e) = toks[k];
            if has_prefix(&line[a..e], rmnet.as_slice()) {
                cellular = true;
            }
            k = k + 1;
        }
        if !cellular {
            let mut k: usize = 0;
            while k < toks.len()
                invariant
                    k <= toks@.len(),
                    toks@.len() == tv.len(),
                    forall|j: int|
                        0 <= j < toks@.len() ==> #[trigger] toks@[j].0 <= toks@[j].1
                            <= line@.len() && line@.subrange(toks@[j].0 as int, toks@[j].1 as int)
                            == tv[j],
                    src@ == "src"@,
                    token_index_from(tv, "src"@, 0) == token_index_from(tv, "src"@, k as int),
                    ls.len() > 0,
                    ls[0] == line@,
                    tv == split_ws(line@),
                    !any_token_starts_with(tv, "rmnet"@),
                    device_ip_in(lines(s@)) == device_ip_in(ls),
                    s@ == output@,
                decreases toks@.len() - k,
            {
                let (a, e) = toks[k];
                if eq_chars(&line[a..e], src.as_slice()) {
                    proof {
                        assert(tv[k as int] == "src"@);
                        assert(token_index_from(tv, "src"@, k as int) == Some(k as int));
                    }
                    if k + 1 < toks.len() {
                        let (a2, e2) = toks[k + 1];
                        return Some(string_from_chars(&line[a2..e2]));
                    } else {
                        return None;
                    }
                }
                k = k + 1;
            }
        }
        p = np;
    }
    proof {
        assert(s@.skip(n as int) =~= Seq::<char>::empty());
    }
    None
}

// ---------------------------------------------------------------------------
// Device list
// ---------------------------------------------------------------------------

/// The value of the last token of the form `tag<value>` with a non-empty value.
pub open spec fn tagged_value(toks: Seq<Seq<char>>, tag: Seq<char>) -> Option<Seq<char>>
    decreases toks.len(),
{
    if toks.len() == 0 {
        None
    } else if starts_with(toks.last(), tag) && toks.last().len() > tag.len() {
        Some(toks.last().skip(tag.len() as int))
    } else {
        tagged_value(toks.drop_last(), tag)
    }
}

pub open spec fn underscores_to_spaces(s: Seq<char>) -> Seq<char> {
    s.map_values(|c: char| if c == '_' { ' ' } else { c })
}

/// The device a line of `adb devices -l` describes, if it is in the
/// `device` state (offline and unauthorized entries are skipped).
pub open spec fn device_on_line(l: Seq<char>) -> Option<DeviceView> {
    let toks = split_ws(l);
    if toks.len() < 2 || toks[1] != "device"@ {
        None
    } else {
        let attrs = toks.skip(2);
        Some(
            DeviceView {
                serial: toks[0],
                model: match tagged_value(attrs, "model:"@) {
                    Some(m) => Some(underscores_to_spaces(m)),
                    None => None,
                },
                device: tagged_value(attrs, "device:"@),
                connected: true,
            },
        )
    }
}

pub open spec fn devices_in(ls: Seq<Seq<char>>) -> Seq<DeviceView>
    decreases ls.len(),
{
    if ls.len() == 0 {
        Seq::empty()
    } else {
        match device_on_line(ls[0]) {
            Some(d) => seq![d] + devices_in(ls.drop_first()),
            None => devices_in(ls.drop_first()),
        }
    }
}

/// The devices listed by `adb devices -l`, after its header line.
pub open spec fn device_list_of(output: Seq<char>) -> Seq<DeviceView> {
    let ls = lines(output);
    if ls.len() == 0 {
        Seq::empty()
    } else {
        devices_in(ls.drop_first())
    }
}

pub open spec fn devices_view(v: Seq<Device>) -> Seq<DeviceView> {
    v.map_values(|d: Device| d@)
}

fn spaces_for_underscores(s: &[char]) -> (r: Vec<char>)
    ensures
        r@ == underscores_to_spaces(s@),
{
    let mut r: Vec<char> = Vec::new();
    let mut i: usize = 0;
    while i < s.len()
        invariant
            i <= s@.len(),
            r@ == underscores_to_spaces(s@.take(i as int)),
        decreases s@.len() - i,
    {
        let c = s[i];
        r.push(if c == '_' { ' ' } else { c });
        proof {
            assert(underscores_to_spaces(s@.take(i + 1)) =~= underscores_to_spaces(
                s@.take(i as int),
            ).push(if c == '_' { ' ' } else { c }));
        }
        i = i + 1;
    }
    proof {
        assert(s@.take(i as int) =~= s@);
    }
    r
}

/// The device described by one line, parsed from its tokens.
fn device_from_line(line: &[char]) -> (r: Option<Device>)
    ensures
        r matches Some(d) ==> device_on_line(line@) == Some(d@),
        r is None ==> device_on_line(line@) is None,
{
    let toks = split_ws_bounds(line);
    let ghost tv = split_ws(line@);
    let status = chars_of("device");
    if toks.len() < 2 {
        return None;
    }
    let (a0, e0) = toks[0];
    let (a1, e1) = toks[1];
    if !eq_chars(&line[a1..e1], status.as_slice()) {
        return None;
    }
    let model_tag = chars_of("model:");
    let device_tag = chars_of("device:");
    let mut model: Option<Vec<char>> = None;
    let mut device: Option<Vec<char>> = None;
    let ghost attrs = tv.skip(2);
    let mut k: usize = 2;
    while k < toks.len()
        invariant
            2 <= k <= toks@.len(),
            toks@.len() == tv.len(),
            attrs == tv.skip(2),
            forall|j: int|
                0 <= j < toks@.len() ==> #[trigger] toks@[j].0 <= toks@[j].1 <= line@.len()
                    && line@.subrange(toks@[j].0 as int, toks@[j].1 as int) == tv[j],
            model_tag@ == "model:"@,
            device_tag@ == "device:"@,
            tagged_value(attrs.take(k - 2), "model:"@) == (match model {
                Some(m) => Some(m@),
                None => None::<Seq<char>>,
            }),
            tagged_value(attrs.take(k - 2), "device:"@) == (match device {
                Some(m) => Some(m@),
                None => None::<Seq<char>>,
            }),
        decreases toks@.len() - k,
    {
        let (a, e) = toks[k];
        let tok = &line[a..e];
        let ghost pre = attrs.take(k - 2);
        let ghost now = attrs.take(k - 1);
        proof {
            assert(now.drop_last() =~= pre);
            assert(now.last() == tok@);
        }
        if has_prefix(tok, model_tag.as_slice()) && tok.len() > model_tag.len() {
            let val = &tok[model_tag.len()..tok.len()];
            proof {
                assert(val@ =~= tok@.skip("model:"@.len() as int));
                reveal_strlit("model:");
                reveal_strlit("device:");
                assert(tok@.take(6)[0] == tok@[0]);
                if starts_with(tok@, "device:"@) {
                    assert(tok@.take(7)[0] == tok@[0]);
                }
            }
            model = Some(copy_chars(val));
        } else if has_prefix(tok, device_tag.as_slice()) && tok.len() > device_tag.len() {
            let val = &tok[device_tag.len()..tok.len()];
            proof {
                assert(val@ =~= tok@.skip("device:"@.len() as int));
            }
            device = Some(copy_chars(val));
        }
        k = k + 1;
    }
    proof {
        assert(attrs.take(k - 2) =~= attrs);
    }
    let model_s = match model {
        Some(m) => Some(string_from_chars(spaces_for_underscores(m.as_slice()).as_slice())),
        None => None,
    };
    let device_s = match device {
        Some(d) => Some(string_from_chars(d.as_slice())),
        None => None,
    };
    Some(Device { serial: string_from_chars(&line[a0..e0]), model: model_s, device: device_s, connected: true })
}

/// The connected devices from `adb devices -l`.
pub fn parse_device_list(output: &str) -> (r: Vec<Device>)
    ensures
        devices_view(r@) == device_list_of(output@),
{
    let v = chars_of(output);
    let s = v.as_slice();
    let n = s.len();
    let mut out: Vec<Device> = Vec::new();
    if n == 0 {
        proof {
            assert(devices_view(out@) =~= device_list_of(output@));
        }
        return out;
    }
    proof {
        assert(s@.skip(0) =~= s@);
    }
    let (_, first_end) = next_line(s, 0);
    let mut p: usize = first_end;
    proof {
        assert(lines(s@).drop_first() =~= lines(s@.skip(p as int)));
    }
    while p < n
        invariant
            p <= n,
            n == s@.len(),
            s@ == output@,
            device_list_of(s@) == devices_view(out@) + devices_in(lines(s@.skip(p as int))),
        decreases n - p,
    {
        let (b, np) = next_line(s, p);
        let line = &s[p..b];
        let ghost ls = lines(s@.skip(p as int));
        let ghost rest = lines(s@.skip(np as int));
        proof {
            assert(ls[0] == line@);
            assert(ls.drop_first() =~= rest);
        }
        match device_from_line(line) {
            Some(d) => {
                let ghost before = devices_view(out@);
                let ghost dv = d@;
                out.push(d);
                proof {
                    assert(devices_view(out@) =~= before.push(dv));
                    assert(before.push(dv) + devices_in(rest) =~= before + (seq![dv] + devices_in(
                        rest,
                    )));
                }
            },
            None => {},
        }
        p = np;
    }
    proof {
        assert(s@.skip(n as int) =~= Seq::<char>::empty());
        assert(devices_view(out@) + Seq::<DeviceView>::empty() =~= devices_view(out@));
    }
    out
}


// ---------------------------------------------------------------------------
// Package list
// ---------------------------------------------------------------------------

/// The package a `pm list packages` line names (`package:<name>`).
pub open spec fn package_on_line(l: Seq<char>) -> Option<Seq<char>> {
    let t = trim(l);
    if starts_with(t, "package:"@) && t.len() > "package:"@.len() {
        Some(t.skip("package:"@.len() as int))
    } else {
        None
    }
}

pub open spec fn package_names(ls: Seq<Seq<char>>) -> Seq<Seq<char>>
    decreases ls.len(),
{
    if ls.len() == 0 {
        Seq::empty()
    } else {
        match package_on_line(ls[0]) {
            Some(n) => seq![n] + package_names(ls.drop_first()),
            None => package_names(ls.drop_first()),
        }
    }
}

fn strings_from_vecs(v: Vec<Vec<char>>) -> (r: Vec<String>)
    ensures
        strings_view(r@) == views_of(v@),
{
    let mut r: Vec<String> = Vec::new();
    let mut i: usize = 0;
    while i < v.len()
        invariant
            i <= v@.len(),
            strings_view(r@) == views_of(v@).take(i as int),
        decreases v@.len() - i,
    {
        r.push(string_from_chars(v[i].as_slice()));
        proof {
            assert(views_of(v@).take(i + 1) =~= views_of(v@).take(i as int).push(v@[i as int]@));
            assert(strings_view(r@) =~= views_of(v@).take(i + 1));
        }
        i = i + 1;
    }
    proof {
        assert(views_of(v@).take(i as int) =~= views_of(v@));
    }
    r
}

/// The third-party packages from `pm list packages -3`, sorted by name.
pub fn parse_package_list(output: &str) -> (r: Vec<String>)
    ensures
        sorted_lex(strings_view(r@)),
        strings_view(r@).to_multiset() == package_names(lines(output@)).to_multiset(),
{
    broadcast use vstd::seq_lib::group_to_multiset_ensures;

    let v = chars_of(output);
    let s = v.as_slice();
    let prefix = chars_of("package:");
    let n = s.len();
    let mut p: usize = 0;
    let mut out: Vec<Vec<char>> = Vec::new();
    let ghost done: Seq<Seq<char>> = Seq::empty();
    proof {
        assert(s@.skip(0) =~= s@);
        assert(package_names(lines(s@)) =~= done + package_names(lines(s@)));
        assert(views_of(out@) =~= Seq::<Seq<char>>::empty());
    }
    while p < n
        invariant
            p <= n,
            n == s@.len(),
            s@ == output@,
            prefix@ == "package:"@,
            package_names(lines(s@)) == done + package_names(lines(s@.skip(p as int))),
            sorted_lex(views_of(out@)),
            views_of(out@).to_multiset() == done.to_multiset(),
        decreases n - p,
    {
        let (b, np) = next_line(s, p);
        let line = &s[p..b];
        let ghost ls = lines(s@.skip(p as int));
        let ghost rest = lines(s@.skip(np as int));
        proof {
            assert(ls[0] == line@);
            assert(ls.drop_first() =~= rest);
        }
        let t = trim_slice(line);
        if has_prefix(t, prefix.as_slice()) && t.len() > prefix.len() {
            let name = &t[prefix.len()..t.len()];
            proof {
                assert(name@ =~= t@.skip("package:"@.len() as int));
            }
            let owned = copy_chars(name);
            insert_sorted(&mut out, owned);
            proof {
                let old_done = done;
                done = done.push(name@);
                old_done.to_multiset_ensures();
                assert(old_done.push(name@).to_multiset() =~= old_done.to_multiset().insert(name@));
                assert(old_done + (seq![name@] + package_names(rest)) =~= done + package_names(
                    rest,
                ));
            }
        }
        p = np;
    }
    proof {
        assert(s@.skip(n as int) =~= Seq::<char>::empty());
        assert(done + Seq::<Seq<char>>::empty() =~= done);
    }
    strings_from_vecs(out)
}

// ---------------------------------------------------------------------------
// File list
// ---------------------------------------------------------------------------

/// The entry a line of `ls -p` names: a trailing `/` marks a directory.
pub open spec fn file_entry_on_line(l: Seq<char>) -> Option<(Seq<char>, bool)> {
    let t = trim(l);
    if t.len() == 0 {
        None
    } else if ends_with(t, "/"@) {
        Some((t.take(t.len() - "/"@.len()), true))
    } else {
        Some((t, false))
    }
}

pub open spec fn file_entries(ls: Seq<Seq<char>>) -> Seq<(Seq<char>, bool)>
    decreases ls.len(),
{
    if ls.len() == 0 {
        Seq::empty()
    } else {
        match file_entry_on_line(ls[0]) {
            Some(e) => seq![e] + file_entries(ls.drop_first()),
            None => file_entries(ls.drop_first()),
        }
    }
}

/// Directories sort before files; within each group, by name.
pub open spec fn entry_lt(a: (Seq<char>, bool), b: (Seq<char>, bool)) -> bool {
    (a.1 && !b.1) || (a.1 == b.1 && lex_lt(a.0, b.0))
}

pub open spec fn entry_order() -> spec_fn((Seq<char>, bool), (Seq<char>, bool)) -> bool {
    |a: (Seq<char>, bool), b: (Seq<char>, bool)| entry_lt(a, b)
}

pub proof fn lemma_entry_strict_order()
    ensures
        is_strict_order(entry_order()),
{
    assert forall|a: (Seq<char>, bool)| !#[trigger] entry_order()(a, a) by {
        lemma_lex_lt_irreflexive(a.0);
    }
    assert forall|a: (Seq<char>, bool), b: (Seq<char>, bool)| #[trigger] entry_order()(
        a,
        b,
    ) implies !entry_order()(b, a) by {
        lemma_lex_lt_asymmetric(a.0, b.0);
    }
    assert forall|a: (Seq<char>, bool), b: (Seq<char>, bool), c: (Seq<char>, bool)| #[trigger] entry_order()(
        a,
        b,
    ) && #[trigger] entry_order()(b, c) implies entry_order()(a, c) by {
        if a.1 == b.1 && b.1 == c.1 {
            lemma_lex_lt_transitive(a.0, b.0, c.0);
        }
    }
}

pub open spec fn entry_views(v: Seq<(Vec<char>, bool)>) -> Seq<(Seq<char>, bool)> {
    v.map_values(|e: (Vec<char>, bool)| (e.0@, e.1))
}

pub open spec fn named_flags_view(v: Seq<(String, bool)>) -> Seq<(Seq<char>, bool)> {
    v.map_values(|e: (String, bool)| (e.0@, e.1))
}

fn entry_less(a: &(Vec<char>, bool), b: &(Vec<char>, bool)) -> (r: bool)
    ensures
        r == entry_lt((a.0@, a.1), (b.0@, b.1)),
{
    if a.1 && !b.1 {
        true
    } else if a.1 == b.1 {
        lex_less(a.0.as_slice(), b.0.as_slice())
    } else {
        false
    }
}

fn named_flags_from_vecs(v: Vec<(Vec<char>, bool)>) -> (r: Vec<(String, bool)>)
    ensures
        named_flags_view(r@) == entry_views(v@),
{
    let mut r: Vec<(String, bool)> = Vec::new();
    let mut i: usize = 0;
    while i < v.len()
        invariant
            i <= v@.len(),
            named_flags_view(r@) == entry_views(v@).take(i as int),
        decreases v@.len() - i,
    {
        r.push((string_from_chars(v[i].0.as_slice()), v[i].1));
        proof {
            assert(entry_views(v@).take(i + 1) =~= entry_views(v@).take(i as int).push(
                (v@[i as int].0@, v@[i as int].1),
            ));
            assert(named_flags_view(r@) =~= entry_views(v@).take(i + 1));
        }
        i = i + 1;
    }
    proof {
        assert(entry_views(v@).take(i as int) =~= entry_views(v@));
    }
    r
}

/// The entries of a directory from `ls -p`: directories first, each group
/// sorted by name.
pub fn parse_file_list(output: &str) -> (r: Vec<(String, bool)>)
    ensures
        sorted_by_lt(named_flags_view(r@), entry_order()),
        named_flags_view(r@).to_multiset() == file_entries(lines(output@)).to_multiset(),
{
    broadcast use vstd::seq_lib::group_to_multiset_ensures;

    let v = chars_of(output);
    let s = v.as_slice();
    let slash = chars_of("/");
    let n = s.len();
    let mut p: usize = 0;
    let mut out: Vec<(Vec<char>, bool)> = Vec::new();
    let ghost done: Seq<(Seq<char>, bool)> = Seq::empty();
    proof {
        assert(s@.skip(0) =~= s@);
        assert(file_entries(lines(s@)) =~= done + file_entries(lines(s@)));
        assert(entry_views(out@) =~= Seq::<(Seq<char>, bool)>::empty());
        lemma_entry_strict_order();
    }
    while p < n
        invariant
            p <= n,
            n == s@.len(),
            s@ == output@,
            slash@ == "/"@,
            is_strict_order(entry_order()),
            file_entries(lines(s@)) == done + file_entries(lines(s@.skip(p as int))),
            sorted_by_lt(entry_views(out@), entry_order()),
            entry_views(out@).to_multiset() == done.to_multiset(),
        decreases n - p,
    {
        let (b, np) = next_line(s, p);
        let line = &s[p..b];
        let ghost ls = lines(s@.skip(p as int));
        let ghost rest = lines(s@.skip(np as int));
        proof {
            assert(ls[0] == line@);
            assert(ls.drop_first() =~= rest);
        }
        let t = trim_slice(line);
        if t.len() > 0 {
            let entry: (Vec<char>, bool) = if has_suffix(t, slash.as_slice()) {
                let name = &t[0..t.len() - slash.len()];
                proof {
                    assert(name@ =~= t@.take(t@.len() - "/"@.len()));
                }
                (copy_chars(name), true)
            } else {
                (copy_chars(t), false)
            };
            let ghost ev = (entry.0@, entry.1);
            proof {
                assert(file_entry_on_line(line@) == Some(ev));
            }
            let len = out.len();
            let mut k: usize = 0;
            while k < len && !entry_less(&entry, &out[k])
                invariant
                    k <= len,
                    len == out@.len(),
                    forall|i: int|
                        0 <= i < k ==> !entry_lt(ev, #[trigger] entry_views(out@)[i]),
                    ev == (entry.0@, entry.1),
                decreases len - k,
            {
                proof {
                    assert(entry_views(out@)[k as int] == (out@[k as int].0@, out@[k as int].1));
                }
                k = k + 1;
            }
            let ghost before = entry_views(out@);
            proof {
                if k < len {
                    assert(before[k as int] == (out@[k as int].0@, out@[k as int].1));
                }
                lemma_insert_keeps_sorted(before, k as int, ev, entry_order());
                lemma_insert_multiset(before, k as int, ev);
            }
            out.insert(k, entry);
            proof {
                assert(entry_views(out@) =~= before.insert(k as int, ev));
                let old_done = done;
                done = done.push(ev);
                old_done.to_multiset_ensures();
                assert(old_done.push(ev).to_multiset() =~= old_done.to_multiset().insert(ev));
                assert(old_done + (seq![ev] + file_entries(rest)) =~= done + file_entries(rest));
            }
        }
        p = np;
    }
    proof {
        assert(s@.skip(n as int) =~= Seq::<char>::empty());
        assert(done + Seq::<(Seq<char>, bool)>::empty() =~= done);
    }
    named_flags_from_vecs(out)
}


// ---------------------------------------------------------------------------
// Runtime permissions
// ---------------------------------------------------------------------------

/// How one `dumpsys package` line changes the scan state: whether the
/// `runtime permissions:` section is open, and the `(permission, granted)`
/// pairs read so far.
pub open spec fn perm_step(
    st: (bool, Seq<(Seq<char>, bool)>),
    l: Seq<char>,
) -> (bool, Seq<(Seq<char>, bool)>) {
    let t = trim(l);
    if starts_with(t, "runtime permissions:"@) {
        (true, st.1)
    } else if st.0 {
        if t.len() == 0 || (!starts_with(t, "android.permission."@) && !contains(
            t,
            ": granted="@,
        )) {
            (false, st.1)
        } else {
            match split_once(t, ": granted="@) {
                Some((perm, rest)) => (true, st.1.push((perm, starts_with(rest, "true"@)))),
                None => (true, st.1),
            }
        }
    } else {
        st
    }
}

pub open spec fn perm_fold(
    st: (bool, Seq<(Seq<char>, bool)>),
    ls: Seq<Seq<char>>,
) -> (bool, Seq<(Seq<char>, bool)>)
    decreases ls.len(),
{
    if ls.len() == 0 {
        st
    } else {
        perm_fold(perm_step(st, ls[0]), ls.drop_first())
    }
}

/// Every `(permission, granted)` pair listed in the runtime-permissions
/// sections of `output`, in order.
pub open spec fn listed_permissions(output: Seq<char>) -> Seq<(Seq<char>, bool)> {
    perm_fold((false, Seq::empty()), lines(output)).1
}

/// The first pair in `s` for permission `n`.
pub open spec fn first_named(s: Seq<(Seq<char>, bool)>, n: Seq<char>) -> Option<(Seq<char>, bool)>
    decreases s.len(),
{
    if s.len() == 0 {
        None
    } else if s[0].0 == n {
        Some(s[0])
    } else {
        first_named(s.drop_first(), n)
    }
}

pub open spec fn names_strictly_sorted(s: Seq<(Seq<char>, bool)>) -> bool {
    forall|i: int, j: int| 0 <= i < j < s.len() ==> lex_lt(#[trigger] s[i].0, #[trigger] s[j].0)
}

pub open spec fn has_name(s: Seq<(Seq<char>, bool)>, n: Seq<char>) -> bool {
    exists|k: int| 0 <= k < s.len() && #[trigger] s[k].0 == n
}

/// `out` holds, sorted by name, one pair per permission named in `all`:
/// the first one listed for it.
pub open spec fn first_per_name_sorted(
    out: Seq<(Seq<char>, bool)>,
    all: Seq<(Seq<char>, bool)>,
) -> bool {
    &&& names_strictly_sorted(out)
    &&& forall|k: int| 0 <= k < out.len() ==> first_named(all, #[trigger] out[k].0) == Some(out[k])
    &&& forall|i: int| 0 <= i < all.len() ==> has_name(out, #[trigger] all[i].0)
}

proof fn lemma_first_named_push(s: Seq<(Seq<char>, bool)>, x: (Seq<char>, bool), n: Seq<char>)
    ensures
        first_named(s.push(x), n) == (match first_named(s, n) {
            Some(e) => Some(e),
            None => if x.0 == n {
                Some(x)
            } else {
                None
            },
        }),
    decreases s.len(),
{
    if s.len() > 0 {
        assert(s.push(x)[0] == s[0]);
        assert(s.push(x).drop_first() =~= s.drop_first().push(x));
        lemma_first_named_push(s.drop_first(), x, n);
    } else {
        assert(s.push(x)[0] == x);
        let e = Seq::<(Seq<char>, bool)>::empty();
        assert(s.push(x).drop_first() =~= e);
        assert(first_named(e, n) is None);
        assert(first_named(s, n) is None);
    }
}

proof fn lemma_first_named_some(s: Seq<(Seq<char>, bool)>, n: Seq<char>)
    ensures
        first_named(s, n) is Some ==> exists|i: int| 0 <= i < s.len() && #[trigger] s[i].0 == n,
    decreases s.len(),
{
    if s.len() > 0 && s[0].0 != n {
        lemma_first_named_some(s.drop_first(), n);
        if first_named(s, n) is Some {
            let i = choose|i: int| 0 <= i < s.drop_first().len() && #[trigger] s.drop_first()[i].0 == n;
            assert(s[i + 1].0 == n);
        }
    }
}

/// Scans the runtime-permission sections of `output` into pairs, in order.
fn scan_permissions(s: &[char]) -> (r: Vec<(Vec<char>, bool)>)
    ensures
        entry_views(r@) == perm_fold((false, Seq::empty()), lines(s@)).1,
{
    let header = chars_of("runtime permissions:");
    let perm_prefix = chars_of("android.permission.");
    let granted = chars_of(": granted=");
    let yes = chars_of("true");
    let n = s.len();
    let mut p: usize = 0;
    let mut in_section = false;
    let mut out: Vec<(Vec<char>, bool)> = Vec::new();
    proof {
        assert(s@.skip(0) =~= s@);
        assert(entry_views(out@) =~= Seq::<(Seq<char>, bool)>::empty());
    }
    while p < n
        invariant
            p <= n,
            n == s@.len(),
            header@ == "runtime permissions:"@,
            perm_prefix@ == "android.permission."@,
            granted@ == ": granted="@,
            yes@ == "true"@,
            perm_fold((false, Seq::empty()), lines(s@)) == perm_fold(
                (in_section, entry_views(out@)),
                lines(s@.skip(p as int)),
            ),
        decreases n - p,
    {
        let (b, np) = next_line(s, p);
        let line = &s[p..b];
        let ghost ls = lines(s@.skip(p as int));
        proof {
            assert(ls[0] == line@);
            assert(ls.drop_first() =~= lines(s@.skip(np as int)));
        }
        let t = trim_slice(line);
        if has_prefix(t, header.as_slice()) {
            in_section = true;
        } else if in_section {
            if t.len() == 0 || (!has_prefix(t, perm_prefix.as_slice()) && !contains_slice(
                t,
                granted.as_slice(),
            )) {
                in_section = false;
            } else {
                match split_once_slice(t, granted.as_slice()) {
                    Some((perm, rest)) => {
                        let g = has_prefix(rest, yes.as_slice());
                        let ghost before = entry_views(out@);
                        out.push((copy_chars(perm), g));
                        proof {
                            assert(entry_views(out@) =~= before.push((perm@, g)));
                        }
                    },
                    None => {},
                }
            }
        }
        p = np;
    }
    proof {
        assert(s@.skip(n as int) =~= Seq::<char>::empty());
    }
    out
}

fn eq_vec_chars(a: &Vec<char>, b: &Vec<char>) -> (r: bool)
    ensures
        r == (a@ == b@),
{
    eq_chars(a.as_slice(), b.as_slice())
}

/// Granted state of each runtime permission from `dumpsys package`, sorted
/// by permission name; a permission listed twice keeps its first state.
pub fn parse_runtime_permissions(output: &str) -> (r: Vec<(String, bool)>)
    ensures
        first_per_name_sorted(named_flags_view(r@), listed_permissions(output@)),
{
    let v = chars_of(output);
    let raw = scan_permissions(v.as_slice());
    let ghost all = entry_views(raw@);
    let mut out: Vec<(Vec<char>, bool)> = Vec::new();
    let mut i: usize = 0;
    proof {
        assert(entry_views(out@) =~= Seq::<(Seq<char>, bool)>::empty());
        assert(all.take(0) =~= Seq::<(Seq<char>, bool)>::empty());
    }
    while i < raw.len()
        invariant
            i <= raw@.len(),
            all == entry_views(raw@),
            first_per_name_sorted(entry_views(out@), all.take(i as int)),
        decreases raw@.len() - i,
    {
        let x = &raw[i];
        let ghost xv = (x.0@, x.1);
        let ghost pre = all.take(i as int);
        let ghost cur = all.take(i + 1);
        proof {
            assert(cur =~= pre.push(xv));
            assert(all[i as int] == xv);
        }
        let len = out.len();
        let mut k: usize = 0;
        while k < len && lex_less(out[k].0.as_slice(), x.0.as_slice())
            invariant
                k <= len,
                len == out@.len(),
                forall|j: int| 0 <= j < k ==> lex_lt(#[trigger] out@[j].0@, x.0@),
            decreases len - k,
        {
            k = k + 1;
        }
        let ghost ov = entry_views(out@);
        if k < len && eq_vec_chars(&out[k].0, &x.0) {
            proof {
                assert(ov[k as int].0 == xv.0);
                assert forall|m: int| 0 <= m < ov.len() implies first_named(
                    cur,
                    #[trigger] ov[m].0,
                ) == Some(ov[m]) by {
                    lemma_first_named_push(pre, xv, ov[m].0);
                }
                assert forall|j: int| 0 <= j < cur.len() implies has_name(
                    ov,
                    #[trigger] cur[j].0,
                ) by {
                    if j < pre.len() {
                        assert(cur[j] == pre[j]);
                    } else {
                        assert(cur[j] == xv);
                        assert(ov[k as int].0 == xv.0);
                    }
                }
            }
        } else {
            proof {
                lemma_lex_strict_order();
                if k < len {
                    lemma_lex_lt_total(out@[k as int].0@, x.0@);
                    assert(ov[k as int].0 == out@[k as int].0@);
                }
                // the name is not yet present
                assert forall|j: int| 0 <= j < ov.len() implies #[trigger] ov[j].0 != xv.0 by {
                    assert(ov[j].0 == out@[j].0@);
                    if j < k {
                        lemma_lex_lt_irreflexive(xv.0);
                    } else {
                        if j > k {
                            assert(lex_lt(ov[k as int].0, ov[j].0));
                            lemma_lex_lt_transitive(xv.0, ov[k as int].0, ov[j].0);
                        }
                        lemma_lex_lt_irreflexive(xv.0);
                    }
                }
                lemma_first_named_some(pre, xv.0);
                if first_named(pre, xv.0) is Some {
                    let w = choose|w: int| 0 <= w < pre.len() && #[trigger] pre[w].0 == xv.0;
                    assert(has_name(ov, pre[w].0));
                }
                lemma_first_named_push(pre, xv, xv.0);
            }
            let entry = (copy_chars(x.0.as_slice()), x.1);
            out.insert(k, entry);
            proof {
                let nv = entry_views(out@);
                assert(nv =~= ov.insert(k as int, xv));
                assert forall|a: int, b: int| 0 <= a < b < nv.len() implies lex_lt(
                    #[trigger] nv[a].0,
                    #[trigger] nv[b].0,
                ) by {
                    if b < k {
                        assert(nv[a] == ov[a] && nv[b] == ov[b]);
                    } else if b == k {
                        assert(nv[a] == ov[a] && nv[b] == xv);
                        assert(ov[a].0 == out@[a].0@);
                    } else if a < k {
                        assert(nv[a] == ov[a] && nv[b] == ov[b - 1]);
                    } else if a == k {
                        assert(nv[a] == xv && nv[b] == ov[b - 1]);
                        if b - 1 > k {
                            lemma_lex_lt_transitive(xv.0, ov[k as int].0, ov[b - 1].0);
                        }
                    } else {
                        assert(nv[a] == ov[a - 1] && nv[b] == ov[b - 1]);
                    }
                }
                assert forall|m: int| 0 <= m < nv.len() implies first_named(
                    cur,
                    #[trigger] nv[m].0,
                ) == Some(nv[m]) by {
                    if m < k {
                        assert(nv[m] == ov[m]);
                        lemma_first_named_push(pre, xv, ov[m].0);
                    } else if m == k {
                        assert(nv[m] == xv);
                    } else {
                        assert(nv[m] == ov[m - 1]);
                        lemma_first_named_push(pre, xv, ov[m - 1].0);
                    }
                }
                assert forall|j: int| 0 <= j < cur.len() implies has_name(
                    nv,
                    #[trigger] cur[j].0,
                ) by {
                    if j < pre.len() {
                        assert(cur[j] == pre[j]);
                        assert(has_name(ov, pre[j].0));
                        let w = choose|w: int| 0 <= w < ov.len() && #[trigger] ov[w].0 == pre[j].0;
                        if w < k {
                            assert(nv[w] == ov[w]);
                        } else {
                            assert(nv[w + 1] == ov[w]);
                        }
                    } else {
                        assert(cur[j] == xv);
                        assert(nv[k as int] == xv);
                    }
                }
            }
        }
        i = i + 1;
    }
    proof {
        assert(all.take(i as int) =~= all);
    }
    named_flags_from_vecs(out)
}

} // verus!
