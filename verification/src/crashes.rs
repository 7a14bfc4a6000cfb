//! Crash reports for the selected app.

use vstd::prelude::*;
use crate::dropbox::{dropbox_entries, entries_for, exception_in, extract_exception, pairs_view,
    parse_dropbox_entries, splittable};
use crate::text::lines;

verus! {

pub struct CrashEntry {
    pub timestamp: String,
    pub exception: String,
    pub full_text: String,
}

pub open spec fn crash_view(c: CrashEntry) -> (Seq<char>, Seq<char>, Seq<char>) {
    (c.timestamp@, c.exception@, c.full_text@)
}

pub open spec fn crashes_view(v: Seq<CrashEntry>) -> Seq<(Seq<char>, Seq<char>, Seq<char>)> {
    v.map_values(|c: CrashEntry| crash_view(c))
}

/// The entries of one dropbox dump that `crash_entries` reports.
pub open spec fn crash_reports(output: Seq<char>, package: Seq<char>) -> Seq<(Seq<char>, Seq<char>)> {
    if package.len() == 0 {
        dropbox_entries(output, "data_app_crash"@)
    } else {
        entries_for(dropbox_entries(output, "data_app_crash"@), package)
    }
}

/// The app's crashes in a `dumpsys dropbox --print data_app_crash` dump,
/// newest (last listed) first, each with the exception line of its report.
pub fn crash_entries(output: &str, package: &str) -> (r: Vec<CrashEntry>)
    requires
        forall|i: int| 0 <= i < lines(output@).len() ==> splittable(#[trigger] lines(output@)[i]),
    ensures
        r@.len() == crash_reports(output@, package@).len(),
        forall|i: int|
            0 <= i < r@.len() ==> {
                let e = #[trigger] crash_reports(output@, package@)[r@.len() - 1 - i];
                crash_view(r@[i]) == (e.0, exception_in(lines(e.1)), e.1)
            },
{
    let entries = parse_dropbox_entries(output, "data_app_crash", package);
    let ghost es = pairs_view(entries@);
    let mut out: Vec<CrashEntry> = Vec::new();
    let mut i: usize = entries.len();
    while i > 0
        invariant
            i <= entries@.len(),
            es == pairs_view(entries@),
            out@.len() == entries@.len() - i,
            forall|k: int|
                0 <= k < out@.len() ==> {
                    let e = #[trigger] es[es.len() - 1 - k];
                    crash_view(out@[k]) == (e.0, exception_in(lines(e.1)), e.1)
                },
        decreases i,
    {
        i = i - 1;
        let (ts, body) = (&entries[i].0, &entries[i].1);
        let exception = extract_exception(body.as_str());
        let ghost before = out@;
        out.push(CrashEntry { timestamp: ts.clone(), exception, full_text: body.clone() });
        proof {
            assert forall|k: int| 0 <= k < out@.len() implies {
                let e = #[trigger] es[es.len() - 1 - k];
                crash_view(out@[k]) == (e.0, exception_in(lines(e.1)), e.1)
            } by {
                if k < before.len() {
                    assert(out@[k] == before[k]);
                }
            }
        }
    }
    out
}

} // verus!
