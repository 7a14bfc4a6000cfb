//! "Application not responding" reports for the selected app.

use vstd::prelude::*;
use crate::dropbox::{dropbox_entries, entries_for, extract_field, field_in, pairs_view,
    parse_dropbox_entries, splittable};
use crate::text::lines;

verus! {

pub struct AnrEntry {
    pub timestamp: String,
    pub reason: String,
    pub full_text: String,
}

pub open spec fn anr_view(a: AnrEntry) -> (Seq<char>, Seq<char>, Seq<char>) {
    (a.timestamp@, a.reason@, a.full_text@)
}

/// Why the app stopped responding: the report's `Subject:`, else its
/// `Reason:`, else nothing.
pub open spec fn anr_reason(body: Seq<char>) -> Seq<char> {
    match field_in(lines(body), "Subject: "@) {
        Some(s) => s,
        None => match field_in(lines(body), "Reason: "@) {
            Some(s) => s,
            None => Seq::empty(),
        },
    }
}

pub open spec fn anr_reports(output: Seq<char>, package: Seq<char>) -> Seq<(Seq<char>, Seq<char>)> {
    if package.len() == 0 {
        dropbox_entries(output, "data_app_anr"@)
    } else {
        entries_for(dropbox_entries(output, "data_app_anr"@), package)
    }
}

/// The app's ANRs in a `dumpsys dropbox --print data_app_anr` dump, newest
/// (last listed) first, each with the reason its report gives.
pub fn anr_entries(output: &str, package: &str) -> (r: Vec<AnrEntry>)
    requires
        forall|i: int| 0 <= i < lines(output@).len() ==> splittable(#[trigger] lines(output@)[i]),
    ensures
        r@.len() == anr_reports(output@, package@).len(),
        forall|i: int|
            0 <= i < r@.len() ==> {
                let e = #[trigger] anr_reports(output@, package@)[r@.len() - 1 - i];
                anr_view(r@[i]) == (e.0, anr_reason(e.1), e.1)
            },
{
    let entries = parse_dropbox_entries(output, "data_app_anr", package);
    let ghost es = pairs_view(entries@);
    let mut out: Vec<AnrEntry> = Vec::new();
    let mut i: usize = entries.len();
    while i > 0
        invariant
            i <= entries@.len(),
            es == pairs_view(entries@),
            out@.len() == entries@.len() - i,
            forall|k: int|
                0 <= k < out@.len() ==> {
                    let e = #[trigger] es[es.len() - 1 - k];
                    anr_view(out@[k]) == (e.0, anr_reason(e.1), e.1)
                },
        decreases i,
    {
        i = i - 1;
        let (ts, body) = (&entries[i].0, &entries[i].1);
        let reason = match extract_field(body.as_str(), "Subject: ") {
            Some(s) => s,
            None => match extract_field(body.as_str(), "Reason: ") {
                Some(s) => s,
                None => String::new(),
            },
        };
        let ghost before = out@;
        out.push(AnrEntry { timestamp: ts.clone(), reason, full_text: body.clone() });
        proof {
            assert forall|k: int| 0 <= k < out@.len() implies {
                let e = #[trigger] es[es.len() - 1 - k];
                anr_view(out@[k]) == (e.0, anr_reason(e.1), e.1)
            } by {
                if k < before.len() {
                    assert(out@[k] == before[k]);
                }
            }
        }
    }
    out
}

} // verus!
