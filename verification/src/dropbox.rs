//! Crash and ANR reports from `dumpsys dropbox --print`.

use vstd::prelude::*;
use crate::text::{eq_chars, utf8_width, byte_len, char_boundary, chars_of, extend_chars, utf8_len, contains, contains_slice, has_prefix, lines, next_line, starts_with,
    string_from_chars, trim, trim_slice};

verus! {

/// Width in bytes of the `YYYY-MM-DD HH:MM:SS` timestamp that starts a
/// dropbox entry header.
pub open spec fn stamp_bytes() -> int {
    19
}

/// A line whose byte 19 is not a character boundary cannot be split there.
pub open spec fn splittable(l: Seq<char>) -> bool {
    byte_len(l) >= stamp_bytes() ==> char_boundary(l, stamp_bytes()) is Some
}

/// The character length of the timestamp when `l` is a header for
/// entries tagged `tag` (`<timestamp> <tag> ...`).
pub open spec fn header_stamp(l: Seq<char>, tag: Seq<char>) -> Option<int> {
    if byte_len(l) >= stamp_bytes() {
        match char_boundary(l, stamp_bytes()) {
            Some(k) => if starts_with(l.skip(k), " "@ + tag + " "@) {
                Some(k)
            } else {
                None
            },
            None => None,
        }
    } else {
        None
    }
}

/// Scan state: timestamp and body of the entry being read, and the
/// finished entries.
#[verifier::ext_equal]
pub ghost struct ScanState {
    pub stamp: Seq<char>,
    pub body: Seq<char>,
    pub done: Seq<(Seq<char>, Seq<char>)>,
}

/// The entries with the one being read appended, if it has both a
/// timestamp and a body.
pub open spec fn flushed(st: ScanState) -> Seq<(Seq<char>, Seq<char>)> {
    if st.stamp.len() > 0 && st.body.len() > 0 {
        st.done.push((st.stamp, st.body))
    } else {
        st.done
    }
}

pub open spec fn scan_step(st: ScanState, l: Seq<char>, tag: Seq<char>) -> ScanState {
    match header_stamp(l, tag) {
        Some(k) => ScanState { stamp: l.take(k), body: Seq::empty(), done: flushed(st) },
        None => if st.stamp.len() > 0 {
            ScanState {
                stamp: st.stamp,
                body: if st.body.len() > 0 {
                    st.body.push('\n') + l
                } else {
                    l
                },
                done: st.done,
            }
        } else {
            st
        },
    }
}

pub open spec fn scan_fold(st: ScanState, ls: Seq<Seq<char>>, tag: Seq<char>) -> ScanState
    decreases ls.len(),
{
    if ls.len() == 0 {
        st
    } else {
        scan_fold(scan_step(st, ls[0], tag), ls.drop_first(), tag)
    }
}

/// All `(timestamp, body)` entries tagged `tag`, in order.
pub open spec fn dropbox_entries(output: Seq<char>, tag: Seq<char>) -> Seq<(Seq<char>, Seq<char>)> {
    flushed(
        scan_fold(
            ScanState { stamp: Seq::empty(), body: Seq::empty(), done: Seq::empty() },
            lines(output),
            tag,
        ),
    )
}

/// The line reads `Process: <package>` (surrounding whitespace aside).
pub open spec fn is_process_line(l: Seq<char>, package: Seq<char>) -> bool {
    starts_with(trim(l), "Process: "@) && trim(trim(l).skip("Process: "@.len() as int)) == package
}

pub open spec fn any_process_line(ls: Seq<Seq<char>>, package: Seq<char>) -> bool
    decreases ls.len(),
{
    ls.len() > 0 && (is_process_line(ls[0], package) || any_process_line(ls.drop_first(), package))
}

/// A report names `package` as its process (a `Process: <package>` line).
pub open spec fn names_process(body: Seq<char>, package: Seq<char>) -> bool {
    any_process_line(lines(body), package)
}

pub open spec fn entries_for(es: Seq<(Seq<char>, Seq<char>)>, package: Seq<char>) -> Seq<(Seq<char>, Seq<char>)>
    decreases es.len(),
{
    if es.len() == 0 {
        Seq::empty()
    } else if names_process(es.last().1, package) {
        entries_for(es.drop_last(), package).push(es.last())
    } else {
        entries_for(es.drop_last(), package)
    }
}

pub open spec fn pairs_view(v: Seq<(String, String)>) -> Seq<(Seq<char>, Seq<char>)> {
    v.map_values(|e: (String, String)| (e.0@, e.1@))
}

pub open spec fn char_pairs_view(v: Seq<(Vec<char>, Vec<char>)>) -> Seq<(Seq<char>, Seq<char>)> {
    v.map_values(|e: (Vec<char>, Vec<char>)| (e.0@, e.1@))
}

proof fn lemma_char_boundary_step(s: Seq<char>, i: int, acc: int)
    requires
        0 <= i < s.len(),
        0 <= acc,
        char_boundary(s, acc) == Some(i),
    ensures
        char_boundary(s, acc + utf8_len(s[i]) as int) == Some(i + 1),
    decreases i,
{
    if i > 0 {
        let t = s.drop_first();
        assert(utf8_len(s[0]) <= acc);
        assert(t[i - 1] == s[i]);
        lemma_char_boundary_step(t, i - 1, acc - utf8_len(s[0]));
    } else {
        assert(acc == 0) by {
            if acc > 0 {
                lemma_char_boundary_pos(s, acc);
            }
        }
        let t = s.drop_first();
        assert(char_boundary(t, 0) == Some(0int));
    }
}

proof fn lemma_char_boundary_pos(s: Seq<char>, b: int)
    requires
        b > 0,
    ensures
        char_boundary(s, b) matches Some(k) ==> k > 0,
    decreases s.len(),
{
    if s.len() > 0 {
        lemma_char_boundary_nonneg(s.drop_first(), b - utf8_len(s[0]));
    }
}

proof fn lemma_char_boundary_nonneg(s: Seq<char>, b: int)
    ensures
        char_boundary(s, b) matches Some(k) ==> k >= 0,
    decreases s.len(),
{
    if b != 0 && !(s.len() == 0 || b < 0 || utf8_len(s[0]) > b) {
        lemma_char_boundary_nonneg(s.drop_first(), b - utf8_len(s[0]));
    }
}

proof fn lemma_char_boundary_gap(s: Seq<char>, i: int, acc: int, b: int)
    requires
        0 <= i < s.len(),
        0 <= acc < b < acc + utf8_len(s[i]),
        char_boundary(s, acc) == Some(i),
    ensures
        char_boundary(s, b) is None,
    decreases i,
{
    if i > 0 {
        let t = s.drop_first();
        assert(t[i - 1] == s[i]);
        lemma_char_boundary_gap(t, i - 1, acc - utf8_len(s[0]), b - utf8_len(s[0]));
    } else {
        assert(acc == 0) by {
            if acc > 0 {
                lemma_char_boundary_pos(s, acc);
            }
        }
    }
}

proof fn lemma_byte_len_prefix(s: Seq<char>, i: int, acc: int)
    requires
        0 <= i <= s.len(),
        char_boundary(s, acc) == Some(i),
        0 <= acc,
    ensures
        byte_len(s) == acc + byte_len(s.skip(i)),
    decreases i,
{
    if i > 0 {
        let t = s.drop_first();
        lemma_char_boundary_pos(s, acc);
        assert(acc > 0) by {
            if acc == 0 {
                assert(char_boundary(s, 0) == Some(0int));
            }
        }
        assert(t.skip(i - 1) =~= s.skip(i));
        lemma_byte_len_prefix(t, i - 1, acc - utf8_len(s[0]));
    } else {
        assert(s.skip(0) =~= s);
        if acc > 0 {
            lemma_char_boundary_pos(s, acc);
        }
    }
}

/// Where the 19-byte timestamp of `l` ends, when `l` is long enough:
/// `Some(k)` with `k` characters making up exactly 19 bytes.
fn stamp_split(l: &[char]) -> (r: Option<usize>)
    requires
        splittable(l@),
    ensures
        r matches Some(k) ==> byte_len(l@) >= stamp_bytes() && char_boundary(l@, stamp_bytes())
            == Some(k as int) && k <= l@.len(),
        r is None ==> byte_len(l@) < stamp_bytes(),
{
    let mut i: usize = 0;
    let mut acc: usize = 0;
    while i < l.len() && acc < 19
        invariant
            i <= l@.len(),
            acc <= 19,
            splittable(l@),
            char_boundary(l@, acc as int) == Some(i as int),
        decreases l@.len() - i,
    {
        let w = utf8_width(l[i]);
        proof {
            lemma_char_boundary_step(l@, i as int, acc as int);
            if acc + w > 19 {
                lemma_char_boundary_gap(l@, i as int, acc as int, 19);
                lemma_char_boundary_prefix_bytes(l@, i as int, acc as int);
            }
        }
        acc = acc + w;
        i = i + 1;
    }
    proof {
        lemma_byte_len_prefix(l@, i as int, acc as int);
    }
    if acc == 19 {
        Some(i)
    } else {
        proof {
            assert(l@.skip(i as int).len() == 0);
        }
        None
    }
}

proof fn lemma_char_boundary_prefix_bytes(s: Seq<char>, i: int, acc: int)
    requires
        0 <= i < s.len(),
        0 <= acc,
        char_boundary(s, acc) == Some(i),
    ensures
        byte_len(s) >= acc + utf8_len(s[i]),
{
    lemma_byte_len_prefix(s, i, acc);
    let t = s.skip(i);
    assert(t[0] == s[i]);
    lemma_byte_len_nonneg(t.drop_first());
}

proof fn lemma_byte_len_nonneg(s: Seq<char>)
    ensures
        byte_len(s) >= 0,
{
}


/// Whether `body` has a `Process: <package>` line.
fn body_names_process(body: &[char], package: &[char]) -> (r: bool)
    ensures
        r == names_process(body@, package@),
{
    let key = chars_of("Process: ");
    let n = body.len();
    let mut p: usize = 0;
    proof {
        assert(body@.skip(0) =~= body@);
    }
    while p < n
        invariant
            p <= n,
            n == body@.len(),
            key@ == "Process: "@,
            names_process(body@, package@) == any_process_line(lines(body@.skip(p as int)), package@),
        decreases n - p,
    {
        let (b, np) = next_line(body, p);
        let line = &body[p..b];
        let ghost ls = lines(body@.skip(p as int));
        proof {
            assert(ls[0] == line@);
            assert(ls.drop_first() =~= lines(body@.skip(np as int)));
        }
        let t = trim_slice(line);
        if has_prefix(t, key.as_slice()) {
            let rest = &t[key.len()..t.len()];
            proof {
                assert(rest@ =~= t@.skip("Process: "@.len() as int));
            }
            if eq_chars(trim_slice(rest), package) {
                return true;
            }
        }
        p = np;
    }
    proof {
        assert(body@.skip(n as int) =~= Seq::<char>::empty());
    }
    false
}

pub open spec fn scan_view(stamp: Seq<char>, body: Seq<char>, done: Seq<(Vec<char>, Vec<char>)>) -> ScanState {
    ScanState { stamp, body, done: char_pairs_view(done) }
}

/// `(timestamp, body)` for each entry tagged `tag` in `dumpsys dropbox
/// --print` output; when `package` is not empty, only the entries whose
/// report names it as the process.
pub fn parse_dropbox_entries(output: &str, tag: &str, package: &str) -> (r: Vec<(String, String)>)
    requires
        forall|i: int| 0 <= i < lines(output@).len() ==> splittable(#[trigger] lines(output@)[i]),
    ensures
        pairs_view(r@) == (if package@.len() == 0 {
            dropbox_entries(output@, tag@)
        } else {
            entries_for(dropbox_entries(output@, tag@), package@)
        }),
{
    let v = chars_of(output);
    let s = v.as_slice();
    let tv = chars_of(tag);
    let mut pat: Vec<char> = Vec::new();
    pat.push(' ');
    extend_chars(&mut pat, tv.as_slice());
    pat.push(' ');
    proof {
        reveal_strlit(" ");
        assert(pat@ =~= " "@ + tag@ + " "@);
    }
    let n = s.len();
    let mut p: usize = 0;
    let mut stamp: Vec<char> = Vec::new();
    let mut body: Vec<char> = Vec::new();
    let mut done: Vec<(Vec<char>, Vec<char>)> = Vec::new();
    let ghost init = ScanState { stamp: Seq::empty(), body: Seq::empty(), done: Seq::empty() };
    proof {
        assert(s@.skip(0) =~= s@);
        assert(char_pairs_view(done@) =~= Seq::<(Seq<char>, Seq<char>)>::empty());
        assert(stamp@ =~= Seq::<char>::empty());
        assert(body@ =~= Seq::<char>::empty());
        assert(scan_view(stamp@, body@, done@) == init);
    }
    while p < n
        invariant
            p <= n,
            n == s@.len(),
            s@ == output@,
            pat@ == " "@ + tag@ + " "@,
            forall|i: int| 0 <= i < lines(s@.skip(p as int)).len() ==> splittable(
                #[trigger] lines(s@.skip(p as int))[i],
            ),
            scan_fold(init, lines(s@), tag@) == scan_fold(
                scan_view(stamp@, body@, done@),
                lines(s@.skip(p as int)),
                tag@,
            ),
        decreases n - p,
    {
        let (b, np) = next_line(s, p);
        let line = &s[p..b];
        let ghost ls = lines(s@.skip(p as int));
        let ghost rest = lines(s@.skip(np as int));
        proof {
            assert(ls[0] == line@);
            assert(ls.drop_first() =~= rest);
            assert forall|i: int| 0 <= i < rest.len() implies splittable(#[trigger] rest[i]) by {
                assert(rest[i] == ls[i + 1]);
            }
            assert(splittable(ls[0]));
        }
        let ghost st = scan_view(stamp@, body@, done@);
        let header = match stamp_split(line) {
            Some(k) => {
                let after = &line[k..line.len()];
                proof {
                    assert(after@ =~= line@.skip(k as int));
                }
                if has_prefix(after, pat.as_slice()) {
                    Some(k)
                } else {
                    None
                }
            },
            None => None,
        };
        proof {
            match header {
                Some(k) => assert(header_stamp(line@, tag@) == Some(k as int)),
                None => assert(header_stamp(line@, tag@) is None),
            }
        }
        match header {
            Some(k) => {
                if stamp.len() > 0 && body.len() > 0 {
                    let ghost before = done@;
                    done.push((stamp, body));
                    proof {
                        assert(char_pairs_view(done@) =~= char_pairs_view(before).push(
                            (st.stamp, st.body),
                        ));
                    }
                }
                stamp = crate::text::copy_chars(&line[0..k]);
                body = Vec::new();
                proof {
                    assert(stamp@ =~= line@.take(k as int));
                    assert(scan_view(stamp@, body@, done@) =~= scan_step(st, line@, tag@));
                }
            },
            None => {
                if stamp.len() > 0 {
                    if body.len() > 0 {
                        body.push('\n');
                    }
                    extend_chars(&mut body, line);
                }
                proof {
                    assert(scan_view(stamp@, body@, done@) =~= scan_step(st, line@, tag@));
                }
            },
        }
        p = np;
    }
    proof {
        assert(s@.skip(n as int) =~= Seq::<char>::empty());
    }
    let ghost last = scan_view(stamp@, body@, done@);
    if stamp.len() > 0 && body.len() > 0 {
        let ghost before = done@;
        done.push((stamp, body));
        proof {
            assert(char_pairs_view(done@) =~= char_pairs_view(before).push((last.stamp, last.body)));
        }
    }
    proof {
        assert(char_pairs_view(done@) == dropbox_entries(output@, tag@));
    }
    let pv = chars_of(package);
    let keep_all = pv.len() == 0;
    let mut out: Vec<(String, String)> = Vec::new();
    let mut i: usize = 0;
    let ghost all = char_pairs_view(done@);
    while i < done.len()
        invariant
            i <= done@.len(),
            all == char_pairs_view(done@),
            pv@ == package@,
            keep_all == (package@.len() == 0),
            pairs_view(out@) == (if keep_all {
                all.take(i as int)
            } else {
                entries_for(all.take(i as int), package@)
            }),
        decreases done@.len() - i,
    {
        let ghost t = all.take(i + 1);
        proof {
            assert(t.drop_last() =~= all.take(i as int));
            assert(t.last() == (done@[i as int].0@, done@[i as int].1@));
        }
        let keep = keep_all || body_names_process(done[i].1.as_slice(), pv.as_slice());
        if keep {
            let ghost before = pairs_view(out@);
            out.push((string_from_chars(done[i].0.as_slice()), string_from_chars(done[i].1.as_slice())));
            proof {
                assert(pairs_view(out@) =~= before.push((done@[i as int].0@, done@[i as int].1@)));
            }
        }
        proof {
            if keep_all {
                assert(all.take(i + 1) =~= all.take(i as int).push(t.last()));
            }
        }
        i = i + 1;
    }
    proof {
        assert(all.take(i as int) =~= all);
    }
    out
}

/// The value after `prefix` on the first line that starts with it
/// (surrounding whitespace aside).
pub open spec fn field_in(ls: Seq<Seq<char>>, prefix: Seq<char>) -> Option<Seq<char>>
    decreases ls.len(),
{
    if ls.len() == 0 {
        None
    } else if starts_with(trim(ls[0]), prefix) {
        Some(trim(trim(ls[0]).skip(prefix.len() as int)))
    } else {
        field_in(ls.drop_first(), prefix)
    }
}

pub fn extract_field(body: &str, prefix: &str) -> (r: Option<String>)
    ensures
        crate::adb::opt_chars(r) == field_in(lines(body@), prefix@),
{
    let v = chars_of(body);
    let s = v.as_slice();
    let pv = chars_of(prefix);
    let n = s.len();
    let mut p: usize = 0;
    proof {
        assert(s@.skip(0) =~= s@);
    }
    while p < n
        invariant
            p <= n,
            n == s@.len(),
            s@ == body@,
            pv@ == prefix@,
            field_in(lines(s@), prefix@) == field_in(lines(s@.skip(p as int)), prefix@),
        decreases n - p,
    {
        let (b, np) = next_line(s, p);
        let line = &s[p..b];
        let ghost ls = lines(s@.skip(p as int));
        proof {
            assert(ls[0] == line@);
            assert(ls.drop_first() =~= lines(s@.skip(np as int)));
        }
        let t = trim_slice(line);
        if has_prefix(t, pv.as_slice()) {
            let rest = &t[pv.len()..t.len()];
            proof {
                assert(rest@ =~= t@.skip(prefix@.len() as int));
            }
            return Some(string_from_chars(trim_slice(rest)));
        }
        p = np;
    }
    proof {
        assert(s@.skip(n as int) =~= Seq::<char>::empty());
    }
    None
}

/// The first trimmed line that mentions an `Exception:` or `Error:`.
pub open spec fn exception_in(ls: Seq<Seq<char>>) -> Seq<char>
    decreases ls.len(),
{
    if ls.len() == 0 {
        Seq::empty()
    } else if contains(trim(ls[0]), "Exception:"@) || contains(trim(ls[0]), "Error:"@) {
        trim(ls[0])
    } else {
        exception_in(ls.drop_first())
    }
}

/// The exception line of a report is its first line that, trimmed, names
/// an exception or an error (contains `Exception:` or `Error:`), trimmed;
/// with no such line there is none (the empty text).
pub proof fn law_exception_is_first_flagged_line(ls: Seq<Seq<char>>)
    ensures
        forall|i: int|
            #![trigger ls[i]]
            0 <= i < ls.len() && (contains(trim(ls[i]), "Exception:"@) || contains(trim(ls[i]), "Error:"@)) && (
            forall|j: int|
                0 <= j < i ==> !contains(#[trigger] trim(ls[j]), "Exception:"@) && !contains(trim(ls[j]), "Error:"@))
                ==> exception_in(ls) == trim(ls[i]),
        (forall|j: int|
            0 <= j < ls.len() ==> !contains(#[trigger] trim(ls[j]), "Exception:"@) && !contains(trim(ls[j]), "Error:"@))
            ==> exception_in(ls) == Seq::<char>::empty(),
    decreases ls.len(),
{
    if ls.len() > 0 {
        let rest = ls.drop_first();
        law_exception_is_first_flagged_line(rest);
        assert forall|i: int|
            #![trigger ls[i]]
            0 <= i < ls.len() && (contains(trim(ls[i]), "Exception:"@) || contains(trim(ls[i]), "Error:"@)) && (
            forall|j: int|
                0 <= j < i ==> !contains(#[trigger] trim(ls[j]), "Exception:"@) && !contains(trim(ls[j]), "Error:"@))
            implies exception_in(ls) == trim(ls[i]) by {
            if i > 0 {
                assert(!contains(trim(ls[0]), "Exception:"@) && !contains(trim(ls[0]), "Error:"@));
                assert(rest[i - 1] == ls[i]);
                assert forall|j: int| 0 <= j < i - 1 implies !contains(#[trigger] trim(rest[j]), "Exception:"@)
                    && !contains(trim(rest[j]), "Error:"@) by {
                    assert(rest[j] == ls[j + 1]);
                }
            }
        }
        if forall|j: int|
            0 <= j < ls.len() ==> !contains(#[trigger] trim(ls[j]), "Exception:"@) && !contains(trim(ls[j]), "Error:"@) {
            assert(!contains(trim(ls[0]), "Exception:"@) && !contains(trim(ls[0]), "Error:"@));
            assert forall|j: int| 0 <= j < rest.len() implies !contains(#[trigger] trim(rest[j]), "Exception:"@)
                && !contains(trim(rest[j]), "Error:"@) by {
                assert(rest[j] == ls[j + 1]);
            }
        }
    }
}

pub fn extract_exception(body: &str) -> (r: String)
    ensures
        r@ == exception_in(lines(body@)),
{
    let v = chars_of(body);
    let s = v.as_slice();
    let ex = chars_of("Exception:");
    let er = chars_of("Error:");
    let n = s.len();
    let mut p: usize = 0;
    proof {
        assert(s@.skip(0) =~= s@);
    }
    while p < n
        invariant
            p <= n,
            n == s@.len(),
            s@ == body@,
            ex@ == "Exception:"@,
            er@ == "Error:"@,
            exception_in(lines(s@)) == exception_in(lines(s@.skip(p as int))),
        decreases n - p,
    {
        let (b, np) = next_line(s, p);
        let line = &s[p..b];
        let ghost ls = lines(s@.skip(p as int));
        proof {
            assert(ls[0] == line@);
            assert(ls.drop_first() =~= lines(s@.skip(np as int)));
        }
        let t = trim_slice(line);
        if contains_slice(t, ex.as_slice()) || contains_slice(t, er.as_slice()) {
            return string_from_chars(t);
        }
        p = np;
    }
    proof {
        assert(s@.skip(n as int) =~= Seq::<char>::empty());
    }
    String::new()
}


/// Whether the line can be cut after its 19th byte (it is shorter, or that
/// byte ends a character).
pub fn line_splittable(l: &[char]) -> (b: bool)
    ensures
        b == splittable(l@),
{
    let n = l.len();
    let mut i: usize = 0;
    let mut acc: usize = 0;
    while i < n && acc < 19
        invariant
            n == l@.len(),
            i <= n,
            acc <= 19,
            char_boundary(l@, acc as int) == Some(i as int),
        decreases n - i,
    {
        let w = utf8_width(l[i]);
        proof {
            lemma_char_boundary_step(l@, i as int, acc as int);
        }
        if acc + w > 19 {
            proof {
                lemma_char_boundary_gap(l@, i as int, acc as int, 19);
                lemma_byte_len_prefix(l@, i as int, acc as int);
                assert(l@.skip(i as int)[0] == l@[i as int]);
            }
            return false;
        }
        acc = acc + w;
        i = i + 1;
    }
    proof {
        lemma_byte_len_prefix(l@, i as int, acc as int);
        if acc < 19 {
            assert(l@.skip(i as int).len() == 0);
        }
    }
    true
}

/// Whether every line of `output` can be cut after its 19th byte, as the
/// dropbox readers need.
pub fn all_lines_splittable(output: &str) -> (b: bool)
    ensures
        b == forall|i: int| 0 <= i < lines(output@).len() ==> splittable(#[trigger] lines(output@)[i]),
{
    let cv = chars_of(output);
    let s = cv.as_slice();
    let n = s.len();
    let mut p: usize = 0;
    let ghost done: Seq<Seq<char>> = Seq::empty();
    proof {
        assert(s@.skip(0) =~= s@);
    }
    while p < n
        invariant
            n == s@.len(),
            p <= n,
            s@ == output@,
            lines(s@) == done + lines(s@.skip(p as int)),
            forall|i: int| 0 <= i < done.len() ==> splittable(#[trigger] done[i]),
        decreases n - p,
    {
        let (b, np) = next_line(s, p);
        let piece = &s[p..b];
        proof {
            assert(piece@ =~= s@.subrange(p as int, b as int));
        }
        if !line_splittable(piece) {
            proof {
                assert(lines(s@)[done.len() as int] == piece@);
            }
            return false;
        }
        proof {
            assert(done + lines(s@.skip(p as int)) =~= done.push(piece@) + lines(s@.skip(np as int)));
            done = done.push(piece@);
        }
        p = np;
    }
    proof {
        assert(s@.skip(p as int).len() == 0);
        assert(done + Seq::<Seq<char>>::empty() =~= done);
    }
    true
}
} // verus!
