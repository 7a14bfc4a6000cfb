//! Network panel: HTTP calls that the app's monitoring SDK reports through
//! logcat, the list/detail state of the panel, and per-app traffic samples.

use vstd::prelude::*;
use crate::adb::opt_chars;
use crate::app::Action;
use crate::keys::{KeyCode, KeyEvent};
use crate::logcat::{parse, parse_line};
use crate::text::{string_pop, string_push, contains, contains_slice, lowercase, to_lowercase, digit_char, uppercase, to_uppercase, lemma_rfind_upto_range, rfind, rfind_slice, parse_uint, parse_bounded, lemma_find_from_range, occurs_at, all_ascii, byte_len, chars_of, decimal, decimal_chars, ends_with, eq_chars,
    extend_chars, find, has_prefix, has_suffix, find_slice, split_once, split_once_slice,
    starts_with, string_from_chars, trim, trim_slice, utf8_len, utf8_width};

verus! {

// ---------------------------------------------------------------------------
// Rendering header maps and bodies as text
// ---------------------------------------------------------------------------

/// A value the SDK prints for "nothing": empty, `null` or `{}`.
pub open spec fn empty_value(s: Seq<char>) -> bool {
    s.len() == 0 || s == "null"@ || s == "{}"@
}

fn is_empty_value(s: &[char]) -> (b: bool)
    ensures
        b == empty_value(s@),
{
    let null = chars_of("null");
    let braces = chars_of("{}");
    s.len() == 0 || eq_chars(s, null.as_slice()) || eq_chars(s, braces.as_slice())
}

/// Header text is scanned two bytes at a time; that only stays on
/// character boundaries for ASCII text or a single two-byte character.
pub open spec fn pair_scan_safe(s: Seq<char>) -> bool {
    all_ascii(s) || (s.len() == 1 && utf8_len(s[0]) == 2)
}

/// `, ` at `i` separates two header pairs when the segment after it holds
/// an `=`: the text after it has an `=`, and no further `, ` comes first.
pub open spec fn pair_break(s: Seq<char>, i: int) -> bool {
    &&& 0 <= i && i + 2 <= s.len()
    &&& s[i] == ',' && s[i + 1] == ' '
    &&& match (find(s.skip(i + 2), "="@), find(s.skip(i + 2), ", "@)) {
        (Some(a), Some(b)) => a < b,
        (Some(_), None) => true,
        _ => false,
    }
}

/// The pairs of `s` from index `i` on, the current one starting at `start`;
/// every pair is trimmed, and an empty last pair is dropped.
pub open spec fn pairs_from(s: Seq<char>, start: int, i: int) -> Seq<Seq<char>>
    decreases s.len() - i,
{
    if i >= s.len() {
        let last = trim(s.subrange(start, s.len() as int));
        if last.len() > 0 {
            seq![last]
        } else {
            Seq::empty()
        }
    } else if pair_break(s, i) {
        seq![trim(s.subrange(start, i))] + pairs_from(s, i + 2, i + 1)
    } else {
        pairs_from(s, start, i + 1)
    }
}

/// The `key=value` pairs of a header map's inside, split on `, ` only
/// where a new pair starts, so that a date such as
/// `Wed, 15 Apr 2026 09:22:25 GMT` stays one value.
pub open spec fn header_pairs(s: Seq<char>) -> Seq<Seq<char>> {
    pairs_from(s, 0, 0)
}

fn pair_break_at(s: &[char], i: usize) -> (b: bool)
    requires
        i < s@.len(),
    ensures
        b == pair_break(s@, i as int),
{
    if s.len() - i < 2 || s[i] != ',' || s[i + 1] != ' ' {
        return false;
    }
    let rest = &s[i + 2..s.len()];
    proof {
        assert(rest@ =~= s@.skip(i + 2));
    }
    let eq = chars_of("=");
    let sep = chars_of(", ");
    match (find_slice(rest, eq.as_slice()), find_slice(rest, sep.as_slice())) {
        (Some(a), Some(b)) => a < b,
        (Some(_), None) => true,
        _ => false,
    }
}

pub open spec fn char_seqs(v: Seq<Vec<char>>) -> Seq<Seq<char>> {
    v.map_values(|x: Vec<char>| x@)
}

fn split_header_pairs(s: &[char]) -> (r: Vec<Vec<char>>)
    ensures
        char_seqs(r@) == header_pairs(s@),
{
    let mut pairs: Vec<Vec<char>> = Vec::new();
    let mut start: usize = 0;
    let mut i: usize = 0;
    let n = s.len();
    while i < n
        invariant
            n == s@.len(),
            i <= n,
            start <= i + 1,
            start == i + 1 ==> 0 < i && s@[i - 1] == ',' && i < n && s@[i as int] == ' ',
            char_seqs(pairs@) + pairs_from(s@, start as int, i as int) == header_pairs(s@),
        decreases n - i,
    {
        if pair_break_at(s, i) {
            let sub = &s[start..i];
            proof {
                assert(sub@ =~= s@.subrange(start as int, i as int));
            }
            let piece = trim_slice(sub);
            let mut owned: Vec<char> = Vec::new();
            extend_chars(&mut owned, piece);
            let ghost before = char_seqs(pairs@);
            pairs.push(owned);
            proof {
                assert(char_seqs(pairs@) =~= before.push(owned@));
                assert(before + pairs_from(s@, start as int, i as int) =~= before.push(owned@)
                    + pairs_from(s@, i + 2, i + 1));
            }
            start = i + 2;
        }
        i = i + 1;
    }
    let sub = &s[start..n];
    proof {
        assert(sub@ =~= s@.subrange(start as int, n as int));
    }
    let piece = trim_slice(sub);
    if piece.len() > 0 {
        let mut owned: Vec<char> = Vec::new();
        extend_chars(&mut owned, piece);
        let ghost before = char_seqs(pairs@);
        pairs.push(owned);
        proof {
            assert(char_seqs(pairs@) =~= before.push(owned@));
        }
    }
    pairs
}

/// One header pair as a `key: value` line; a pair without `=` stays as it is.
pub open spec fn header_line(pair: Seq<char>) -> Seq<char> {
    match split_once(pair, "="@) {
        Some((k, v)) => k + ": "@ + v,
        None => pair,
    }
}

/// Lines joined with `\n` between them.
pub open spec fn join_lines(ls: Seq<Seq<char>>) -> Seq<char>
    decreases ls.len(),
{
    if ls.len() == 0 {
        Seq::empty()
    } else if ls.len() == 1 {
        ls[0]
    } else {
        join_lines(ls.drop_last()) + "\n"@ + ls.last()
    }
}

/// The inside of a `{key=value, ...}` map: the braces and surrounding
/// whitespace come off. (An opening brace is looked for after trimming;
/// without one, the untrimmed text is kept.)
pub open spec fn header_inner(raw: Seq<char>) -> Seq<char> {
    let t = trim(raw);
    let a = if starts_with(t, "{"@) {
        t.skip(1)
    } else {
        raw
    };
    let b = if ends_with(a, "}"@) {
        a.drop_last()
    } else {
        a
    };
    trim(b)
}

/// A header map as `key: value` lines, or `(empty)`.
pub open spec fn headers_text(raw: Seq<char>) -> Seq<char> {
    if empty_value(raw) || header_inner(raw).len() == 0 {
        "(empty)"@
    } else {
        join_lines(header_pairs(header_inner(raw)).map_values(|p: Seq<char>| header_line(p)))
    }
}

/// The headers of `raw` can be scanned without leaving a character boundary.
pub open spec fn headers_scan_safe(raw: Seq<char>) -> bool {
    empty_value(raw) || pair_scan_safe(header_inner(raw))
}

fn header_inner_slice(raw: &[char]) -> (r: &[char])
    ensures
        r@ == header_inner(raw@),
{
    let t = trim_slice(raw);
    let open = chars_of("{");
    let close = chars_of("}");
    proof {
        reveal_strlit("{");
        reveal_strlit("}");
    }
    let a = if has_prefix(t, open.as_slice()) {
        let x = &t[1..t.len()];
        proof {
            assert(x@ =~= t@.skip(1));
        }
        x
    } else {
        raw
    };
    let b = if has_suffix(a, close.as_slice()) {
        let x = &a[0..a.len() - 1];
        proof {
            assert(x@ =~= a@.drop_last());
        }
        x
    } else {
        a
    };
    trim_slice(b)
}

fn header_line_chars(pair: &[char]) -> (r: Vec<char>)
    ensures
        r@ == header_line(pair@),
{
    let eq = chars_of("=");
    let mut out: Vec<char> = Vec::new();
    match split_once_slice(pair, eq.as_slice()) {
        Some((k, v)) => {
            let sep = chars_of(": ");
            extend_chars(&mut out, k);
            extend_chars(&mut out, sep.as_slice());
            extend_chars(&mut out, v);
        },
        None => {
            extend_chars(&mut out, pair);
        },
    }
    out
}

/// Header map text as `key: value` lines, for exporting to an editor.
pub fn format_headers_text(raw: &str) -> (r: String)
    requires
        headers_scan_safe(raw@),
    ensures
        r@ == headers_text(raw@),
{
    let rv = chars_of(raw);
    if is_empty_value(rv.as_slice()) {
        return "(empty)".to_string();
    }
    let inner = header_inner_slice(rv.as_slice());
    if inner.len() == 0 {
        return "(empty)".to_string();
    }
    let pairs = split_header_pairs(inner);
    let ghost lines = header_pairs(inner@).map_values(|p: Seq<char>| header_line(p));
    let mut out: Vec<char> = Vec::new();
    let mut k: usize = 0;
    while k < pairs.len()
        invariant
            k <= pairs@.len(),
            char_seqs(pairs@) == header_pairs(inner@),
            lines == header_pairs(inner@).map_values(|p: Seq<char>| header_line(p)),
            out@ == join_lines(lines.take(k as int)),
        decreases pairs@.len() - k,
    {
        let line = header_line_chars(pairs[k].as_slice());
        proof {
            assert(pairs@[k as int]@ == char_seqs(pairs@)[k as int]);
            assert(line@ == lines[k as int]);
            assert(lines.take(k + 1).drop_last() =~= lines.take(k as int));
        }
        if k > 0 {
            out.push('\n');
            proof {
                reveal_strlit("\n");
            }
        }
        extend_chars(&mut out, line.as_slice());
        proof {
            if k == 0 {
                assert(out@ =~= lines.take(1)[0]);
            } else {
                assert(out@ =~= join_lines(lines.take(k as int)) + "\n"@ + lines.take(k + 1).last());
            }
        }
        k = k + 1;
    }
    proof {
        assert(lines.take(k as int) =~= lines);
    }
    string_from_chars(out.as_slice())
}

/// `raw` parsed as JSON and printed back indented, as `serde_json` does it;
/// `None` when `raw` is not JSON.
pub uninterp spec fn json_pretty(raw: Seq<char>) -> Option<Seq<char>>;

/// `serde_json::from_str` into a `serde_json::Value`, then
/// `serde_json::to_string_pretty` of that value.
#[verifier::external_body]
fn pretty_json(raw: &str) -> (r: Option<String>)
    ensures
        match r {
            Some(p) => json_pretty(raw@) == Some(p@),
            None => json_pretty(raw@) is None,
        },
{
    match serde_json::from_str::<serde_json::Value>(raw) {
        Ok(v) => match serde_json::to_string_pretty(&v) {
            Ok(p) => Some(p),
            Err(_) => None,
        },
        Err(_) => None,
    }
}

/// A body as indented JSON when it parses, else as it came, or `(empty)`.
pub open spec fn body_text(raw: Seq<char>) -> Seq<char> {
    if empty_value(raw) {
        "(empty)"@
    } else {
        match json_pretty(raw) {
            Some(p) => p,
            None => raw,
        }
    }
}

/// Body text for exporting to an editor.
pub fn format_body_text(raw: &str) -> (r: String)
    ensures
        r@ == body_text(raw@),
{
    let rv = chars_of(raw);
    if is_empty_value(rv.as_slice()) {
        return "(empty)".to_string();
    }
    match pretty_json(raw) {
        Some(p) => p,
        None => raw.to_string(),
    }
}

// ---------------------------------------------------------------------------
// Decoding `HttpData(...)` log lines
// ---------------------------------------------------------------------------

/// One HTTP call the app made.
pub struct NetworkEntry {
    pub url: String,
    pub method: String,
    pub status_code: u16,
    pub latency_ms: u64,
    pub failure_reason: Option<String>,
    pub failure_description: Option<String>,
    pub client: String,
    pub timestamp: String,
    pub request_headers: String,
    pub response_headers: String,
    pub request_body: String,
    pub response_body: String,
}

pub ghost struct EntryView {
    pub url: Seq<char>,
    pub method: Seq<char>,
    pub status_code: u16,
    pub latency_ms: u64,
    pub failure_reason: Option<Seq<char>>,
    pub failure_description: Option<Seq<char>>,
    pub client: Seq<char>,
    pub timestamp: Seq<char>,
    pub request_headers: Seq<char>,
    pub response_headers: Seq<char>,
    pub request_body: Seq<char>,
    pub response_body: Seq<char>,
}

impl View for NetworkEntry {
    type V = EntryView;

    open spec fn view(&self) -> EntryView {
        EntryView {
            url: self.url@,
            method: self.method@,
            status_code: self.status_code,
            latency_ms: self.latency_ms,
            failure_reason: opt_chars(self.failure_reason),
            failure_description: opt_chars(self.failure_description),
            client: self.client@,
            timestamp: self.timestamp@,
            request_headers: self.request_headers@,
            response_headers: self.response_headers@,
            request_body: self.request_body@,
            response_body: self.response_body@,
        }
    }
}

/// What looking up one `key=` field gives: nothing, a value, or a cut that
/// would fall inside a multi-byte character.
pub ghost enum FieldValue {
    Missing,
    Unsliceable,
    Found(Seq<char>),
}

/// Where the text two bytes before index `j` ends, as a character index,
/// when that byte offset is a character boundary.
pub open spec fn two_bytes_back(data: Seq<char>, j: int) -> Option<int> {
    if j >= 1 && utf8_len(data[j - 1]) == 2 {
        Some(j - 1)
    } else if j >= 2 && utf8_len(data[j - 1]) == 1 && utf8_len(data[j - 2]) == 1 {
        Some(j - 2)
    } else {
        None
    }
}

/// The value after `key`: up to the `, ` that precedes `next` (two bytes
/// are cut before where `next` is found), or to the end; trimmed.
pub open spec fn field_value(data: Seq<char>, key: Seq<char>, next: Option<Seq<char>>) -> FieldValue {
    match find(data, key) {
        None => FieldValue::Missing,
        Some(k) => {
            let start = k + key.len();
            match next {
                None => FieldValue::Found(trim(data.skip(start))),
                Some(nk) => match find(data.skip(start), nk) {
                    None => FieldValue::Missing,
                    Some(i) => if byte_len(data.subrange(start, start + i)) <= 2 {
                        FieldValue::Found(Seq::empty())
                    } else {
                        match two_bytes_back(data, start + i) {
                            Some(e) => FieldValue::Found(trim(data.subrange(start, e))),
                            None => FieldValue::Unsliceable,
                        }
                    },
                },
            }
        },
    }
}

enum Field {
    Missing,
    Unsliceable,
    Found(Vec<char>),
}

spec fn field_view(f: Field) -> FieldValue {
    match f {
        Field::Missing => FieldValue::Missing,
        Field::Unsliceable => FieldValue::Unsliceable,
        Field::Found(v) => FieldValue::Found(v@),
    }
}

spec fn opt_slice_view(o: Option<&[char]>) -> Option<Seq<char>> {
    match o {
        Some(s) => Some(s@),
        None => None,
    }
}

/// Whether `s` takes at most `limit` bytes in UTF-8.
fn byte_len_at_most(s: &[char], limit: usize) -> (b: bool)
    ensures
        b == (byte_len(s@) <= limit),
{
    let mut acc: usize = 0;
    let mut i: usize = 0;
    proof {
        assert(s@.skip(0) =~= s@);
    }
    while i < s.len()
        invariant
            i <= s@.len(),
            acc <= limit,
            acc + byte_len(s@.skip(i as int)) == byte_len(s@),
        decreases s@.len() - i,
    {
        proof {
            assert(s@.skip(i as int).drop_first() =~= s@.skip(i + 1));
            assert(s@.skip(i as int)[0] == s@[i as int]);
        }
        let w = utf8_width(s[i]);
        if w > limit - acc {
            return false;
        }
        acc = acc + w;
        i = i + 1;
    }
    proof {
        assert(s@.skip(i as int).len() == 0);
    }
    true
}

fn field_in(data: &[char], key: &[char], next: Option<&[char]>) -> (r: Field)
    ensures
        field_view(r) == field_value(data@, key@, opt_slice_view(next)),
{
    let k = match find_slice(data, key) {
        Some(k) => k,
        None => return Field::Missing,
    };
    proof {
        lemma_find_from_range(data@, key@, 0);
        assert(occurs_at(data@, key@, k as int));
    }
    let n = data.len();
    let start = k + key.len();
    let rest = &data[start..n];
    proof {
        assert(rest@ =~= data@.skip(start as int));
    }
    match next {
        None => {
            let mut v: Vec<char> = Vec::new();
            extend_chars(&mut v, trim_slice(rest));
            Field::Found(v)
        },
        Some(nk) => match find_slice(rest, nk) {
            None => Field::Missing,
            Some(i) => {
                proof {
                    lemma_find_from_range(rest@, nk@, 0);
                }
                let j = start + i;
                let sub = &data[start..j];
                proof {
                    assert(sub@ =~= data@.subrange(start as int, j as int));
                }
                if byte_len_at_most(sub, 2) {
                    return Field::Found(Vec::new());
                }
                proof {
                    if j == start {
                        assert(sub@.len() == 0);
                    }
                }
                let w1 = utf8_width(data[j - 1]);
                let e = if w1 == 2 {
                    j - 1
                } else if w1 == 1 && j >= 2 && utf8_width(data[j - 2]) == 1 {
                    proof {
                        if j - 1 == start {
                            assert(sub@.drop_first().len() == 0);
                            assert(byte_len(sub@.drop_first()) == 0);
                            assert(sub@[0] == data@[j - 1]);
                        }
                    }
                    j - 2
                } else {
                    return Field::Unsliceable;
                };
                let piece = &data[start..e];
                proof {
                    assert(piece@ =~= data@.subrange(start as int, e as int));
                }
                let mut v: Vec<char> = Vec::new();
                extend_chars(&mut v, trim_slice(piece));
                Field::Found(v)
            },
        },
    }
}

/// The host part of a URL: after `://` when present, up to the first
/// `/`, `?` or `#`, after the last `@`, and before the last `:`.
pub open spec fn url_host(url: Seq<char>) -> Seq<char> {
    let after = match split_once(url, "://"@) {
        Some((_, rest)) => rest,
        None => url,
    };
    let h0 = after.take(host_end(after, 0));
    let h1 = match rfind(h0, "@"@) {
        Some(i) => h0.skip(i + 1),
        None => h0,
    };
    match rfind(h1, ":"@) {
        Some(i) => h1.take(i),
        None => h1,
    }
}

/// Index of the first `/`, `?` or `#` at or after `i`, else the length.
pub open spec fn host_end(s: Seq<char>, i: int) -> int
    decreases s.len() - i,
{
    if i < 0 || i >= s.len() {
        s.len() as int
    } else if s[i] == '/' || s[i] == '?' || s[i] == '#' {
        i
    } else {
        host_end(s, i + 1)
    }
}

/// Hosts that mean this machine or the emulator's view of it.
pub open spec fn is_loopback_host(h: Seq<char>) -> bool {
    ||| h == "localhost"@
    ||| h == "127.0.0.1"@
    ||| h == "[::1]"@
    ||| h == "::1"@
    ||| h == "10.0.2.2"@
    ||| h == "10.0.3.2"@
}

fn host_end_at(s: &[char]) -> (r: usize)
    ensures
        r == host_end(s@, 0),
        r <= s@.len(),
{
    let mut i: usize = 0;
    while i < s.len() && s[i] != '/' && s[i] != '?' && s[i] != '#'
        invariant
            i <= s@.len(),
            host_end(s@, i as int) == host_end(s@, 0),
        decreases s@.len() - i,
    {
        i = i + 1;
    }
    i
}

/// Whether a URL points at the development machine (the SDK's own
/// reporting traffic, which the panel leaves out).
pub fn is_localhost_url(url: &str) -> (b: bool)
    ensures
        b == is_loopback_host(url_host(url@)),
{
    let uv = chars_of(url);
    let scheme = chars_of("://");
    let after = match split_once_slice(uv.as_slice(), scheme.as_slice()) {
        Some((_, rest)) => rest,
        None => uv.as_slice(),
    };
    let e = host_end_at(after);
    let h0 = &after[0..e];
    proof {
        assert(h0@ =~= after@.take(e as int));
    }
    let at = chars_of("@");
    let colon = chars_of(":");
    proof {
        reveal_strlit("@");
        reveal_strlit(":");
    }
    let h1 = match rfind_slice(h0, at.as_slice()) {
        Some(i) => {
            proof {
                lemma_rfind_upto_range(h0@, at@, h0@.len() - 1);
            }
            let x = &h0[i + 1..h0.len()];
            proof {
                assert(x@ =~= h0@.skip(i + 1));
            }
            x
        },
        None => h0,
    };
    let h2 = match rfind_slice(h1, colon.as_slice()) {
        Some(i) => {
            proof {
                lemma_rfind_upto_range(h1@, colon@, h1@.len() - 1);
            }
            let x = &h1[0..i];
            proof {
                assert(x@ =~= h1@.take(i as int));
            }
            x
        },
        None => h1,
    };
    let names = vec![
        chars_of("localhost"),
        chars_of("127.0.0.1"),
        chars_of("[::1]"),
        chars_of("::1"),
        chars_of("10.0.2.2"),
        chars_of("10.0.3.2"),
    ];
    let mut k: usize = 0;
    while k < names.len()
        invariant
            names@.len() == 6,
            names@[0]@ == "localhost"@,
            names@[1]@ == "127.0.0.1"@,
            names@[2]@ == "[::1]"@,
            names@[3]@ == "::1"@,
            names@[4]@ == "10.0.2.2"@,
            names@[5]@ == "10.0.3.2"@,
            k <= 6,
            forall|j: int| 0 <= j < k ==> h2@ != #[trigger] names@[j]@,
            h2@ == url_host(url@),
        decreases 6 - k,
    {
        if eq_chars(h2, names[k].as_slice()) {
            proof {
                let h = h2@;
                if k == 0 {
                    assert(h == "localhost"@);
                } else if k == 1 {
                    assert(h == "127.0.0.1"@);
                } else if k == 2 {
                    assert(h == "[::1]"@);
                } else if k == 3 {
                    assert(h == "::1"@);
                } else if k == 4 {
                    assert(h == "10.0.2.2"@);
                } else {
                    assert(h == "10.0.3.2"@);
                }
            }
            return true;
        }
        k = k + 1;
    }
    proof {
        assert(h2@ != names@[0]@);
        assert(h2@ != names@[1]@);
        assert(h2@ != names@[2]@);
        assert(h2@ != names@[3]@);
        assert(h2@ != names@[4]@);
        assert(h2@ != names@[5]@);
    }
    false
}

/// `null` means absent.
pub open spec fn optional_text(v: Seq<char>) -> Option<Seq<char>> {
    if v == "null"@ {
        None
    } else {
        Some(v)
    }
}

fn parse_optional(v: &[char]) -> (r: Option<String>)
    ensures
        opt_chars(r) == optional_text(v@),
{
    let null = chars_of("null");
    if eq_chars(v, null.as_slice()) {
        None
    } else {
        Some(string_from_chars(v))
    }
}

/// The keys of an `HttpData(...)` record, in the order they are printed.
pub open spec fn field_keys() -> Seq<Seq<char>> {
    seq![
        "url="@,
        "method="@,
        "status_code="@,
        "start_time="@,
        "end_time="@,
        "failure_reason="@,
        "failure_description="@,
        "request_headers="@,
        "response_headers="@,
        "request_body="@,
        "response_body="@,
        "client="@,
    ]
}

/// The key printed after key `k`, if any.
pub open spec fn next_key(k: int) -> Option<Seq<char>> {
    if k + 1 < field_keys().len() {
        Some(field_keys()[k + 1])
    } else {
        None
    }
}

pub ghost enum Fields {
    Missing,
    Unsliceable,
    Found(Seq<Seq<char>>),
}

/// The values of keys `k..`, looked up one after the other; the first key
/// that is missing or cannot be cut decides the outcome.
pub open spec fn fields_from(data: Seq<char>, k: int) -> Fields
    decreases field_keys().len() - k,
{
    if k < 0 || k >= field_keys().len() {
        Fields::Found(Seq::empty())
    } else {
        match field_value(data, field_keys()[k], next_key(k)) {
            FieldValue::Missing => Fields::Missing,
            FieldValue::Unsliceable => Fields::Unsliceable,
            FieldValue::Found(v) => match fields_from(data, k + 1) {
                Fields::Found(vs) => Fields::Found(seq![v] + vs),
                other => other,
            },
        }
    }
}

spec fn prefixed(p: Seq<Seq<char>>, f: Fields) -> Fields {
    match f {
        Fields::Found(vs) => Fields::Found(p + vs),
        other => other,
    }
}

/// The text between `EventProcessor: HTTP, HttpData(` and the last `)`.
pub open spec fn http_data(msg: Seq<char>) -> Option<Seq<char>> {
    let marker = "EventProcessor: HTTP, HttpData("@;
    match find(msg, marker) {
        None => None,
        Some(m) => match rfind(msg, ")"@) {
            None => None,
            Some(end) => if end <= m + marker.len() {
                None
            } else {
                Some(msg.subrange(m + marker.len(), end))
            },
        },
    }
}

/// A number field: unparsable text counts as zero.
pub open spec fn number_or_zero(s: Seq<char>, max: int) -> int {
    match parse_uint(s, max) {
        Some(v) => v,
        None => 0,
    }
}

/// The entry built from the line's timestamp, its URL and the values of
/// the remaining keys in order.
pub open spec fn entry_from(ts: Seq<char>, url: Seq<char>, vs: Seq<Seq<char>>) -> EntryView {
    let start = number_or_zero(vs[2], u64::MAX as int);
    let end = number_or_zero(vs[3], u64::MAX as int);
    EntryView {
        url: url,
        method: vs[0],
        status_code: number_or_zero(vs[1], u16::MAX as int) as u16,
        latency_ms: (if end > start {
            end - start
        } else {
            0
        }) as u64,
        failure_reason: optional_text(vs[4]),
        failure_description: optional_text(vs[5]),
        client: vs[10],
        timestamp: ts,
        request_headers: vs[6],
        response_headers: vs[7],
        request_body: vs[8],
        response_body: vs[9],
    }
}

pub ghost enum HttpOutcome {
    /// Not an HTTP record, or one for the development machine.
    Skip,
    /// A field boundary falls inside a multi-byte character.
    Unsliceable,
    Entry(EntryView),
}

/// What a logcat line means to the network panel: an HTTP record logged
/// under the `Measure` tag, other than loopback traffic.
pub open spec fn http_outcome(line: Seq<char>) -> HttpOutcome {
    match parse_line(line) {
        None => HttpOutcome::Skip,
        Some((ts, _level, tag, msg)) => if tag != "Measure"@ {
            HttpOutcome::Skip
        } else {
            match http_data(msg) {
                None => HttpOutcome::Skip,
                Some(data) => match field_value(data, "url="@, Some("method="@)) {
                    FieldValue::Missing => HttpOutcome::Skip,
                    FieldValue::Unsliceable => HttpOutcome::Unsliceable,
                    FieldValue::Found(url) => if is_loopback_host(url_host(url)) {
                        HttpOutcome::Skip
                    } else {
                        match fields_from(data, 1) {
                            Fields::Missing => HttpOutcome::Skip,
                            Fields::Unsliceable => HttpOutcome::Unsliceable,
                            Fields::Found(vs) => HttpOutcome::Entry(entry_from(ts, url, vs)),
                        }
                    },
                },
            }
        },
    }
}

/// A decoded line, with the case of a cut inside a character kept apart.
pub enum HttpLine {
    Skip,
    Unsliceable,
    Entry(NetworkEntry),
}

pub open spec fn http_line_view(h: HttpLine) -> HttpOutcome {
    match h {
        HttpLine::Skip => HttpOutcome::Skip,
        HttpLine::Unsliceable => HttpOutcome::Unsliceable,
        HttpLine::Entry(e) => HttpOutcome::Entry(e@),
    }
}

fn number_field(s: &[char], max: u64) -> (r: u64)
    ensures
        r == number_or_zero(s@, max as int),
{
    match parse_bounded(s, max) {
        Some(v) => v,
        None => 0,
    }
}

enum Collected {
    Missing,
    Unsliceable,
    Found(Vec<Vec<char>>),
}

spec fn collected_view(c: Collected) -> Fields {
    match c {
        Collected::Missing => Fields::Missing,
        Collected::Unsliceable => Fields::Unsliceable,
        Collected::Found(vs) => Fields::Found(char_seqs(vs@)),
    }
}

/// Looks up every key after `url=`, in order.
fn collect_fields(data: &[char]) -> (r: Collected)
    ensures
        collected_view(r) == fields_from(data@, 1),
{
    let keys: Vec<Vec<char>> = vec![
        chars_of("url="),
        chars_of("method="),
        chars_of("status_code="),
        chars_of("start_time="),
        chars_of("end_time="),
        chars_of("failure_reason="),
        chars_of("failure_description="),
        chars_of("request_headers="),
        chars_of("response_headers="),
        chars_of("request_body="),
        chars_of("response_body="),
        chars_of("client="),
    ];
    proof {
        assert(char_seqs(keys@) =~= field_keys());
    }
    let mut vals: Vec<Vec<char>> = Vec::new();
    let mut k: usize = 1;
    proof {
        assert(char_seqs(vals@) =~= Seq::<Seq<char>>::empty());
        assert(prefixed(Seq::empty(), fields_from(data@, 1)) == fields_from(data@, 1)) by {
            match fields_from(data@, 1) {
                Fields::Found(vs) => {
                    assert(Seq::<Seq<char>>::empty() + vs =~= vs);
                },
                _ => {},
            }
        }
    }
    while k < 12
        invariant
            1 <= k <= 12,
            keys@.len() == 12,
            char_seqs(keys@) == field_keys(),
            prefixed(char_seqs(vals@), fields_from(data@, k as int)) == fields_from(data@, 1),
        decreases 12 - k,
    {
        proof {
            assert(keys@[k as int]@ == char_seqs(keys@)[k as int]);
            if k + 1 < 12 {
                assert(keys@[k + 1]@ == char_seqs(keys@)[k + 1]);
            }
        }
        let next: Option<&[char]> = if k + 1 < 12 {
            Some(keys[k + 1].as_slice())
        } else {
            None
        };
        match field_in(data, keys[k].as_slice(), next) {
            Field::Missing => {
                return Collected::Missing;
            },
            Field::Unsliceable => {
                return Collected::Unsliceable;
            },
            Field::Found(v) => {
                let ghost before = char_seqs(vals@);
                let ghost fv = v@;
                vals.push(v);
                proof {
                    assert(char_seqs(vals@) =~= before.push(fv));
                    match fields_from(data@, k + 1) {
                        Fields::Found(vs) => {
                            assert(before + (seq![fv] + vs) =~= before.push(fv) + vs);
                        },
                        _ => {},
                    }
                }
            },
        }
        k = k + 1;
    }
    proof {
        assert(fields_from(data@, 12) == Fields::Found(Seq::<Seq<char>>::empty()));
        assert(char_seqs(vals@) + Seq::<Seq<char>>::empty() =~= char_seqs(vals@));
    }
    Collected::Found(vals)
}

/// Decodes a logcat line as an HTTP record of the monitoring SDK. A line
/// whose fields would have to be cut inside a multi-byte character is
/// reported as such.
pub fn decode_http_line(line: &str) -> (r: HttpLine)
    ensures
        http_line_view(r) == http_outcome(line@),
{
    let parsed = match parse(line) {
        Some(p) => p,
        None => return HttpLine::Skip,
    };
    let tag = chars_of(parsed.tag);
    let measure = chars_of("Measure");
    if !eq_chars(tag.as_slice(), measure.as_slice()) {
        return HttpLine::Skip;
    }
    let msg = chars_of(parsed.message);
    let marker = chars_of("EventProcessor: HTTP, HttpData(");
    let m = match find_slice(msg.as_slice(), marker.as_slice()) {
        Some(m) => m,
        None => return HttpLine::Skip,
    };
    proof {
        lemma_find_from_range(msg@, marker@, 0);
        assert(occurs_at(msg@, marker@, m as int));
    }
    let ml = msg.len();
    let start = m + marker.len();
    let close = chars_of(")");
    let end = match rfind_slice(msg.as_slice(), close.as_slice()) {
        Some(e) => e,
        None => return HttpLine::Skip,
    };
    proof {
        reveal_strlit(")");
        lemma_rfind_upto_range(msg@, close@, msg@.len() - close@.len());
    }
    if end <= start {
        return HttpLine::Skip;
    }
    let data = &msg.as_slice()[start..end];
    proof {
        assert(data@ =~= msg@.subrange(start as int, end as int));
    }
    let url_key = chars_of("url=");
    let method_key = chars_of("method=");
    let url = match field_in(data, url_key.as_slice(), Some(method_key.as_slice())) {
        Field::Missing => return HttpLine::Skip,
        Field::Unsliceable => return HttpLine::Unsliceable,
        Field::Found(v) => v,
    };
    let url_text = string_from_chars(url.as_slice());
    if is_localhost_url(url_text.as_str()) {
        return HttpLine::Skip;
    }
    let vals = match collect_fields(data) {
        Collected::Missing => return HttpLine::Skip,
        Collected::Unsliceable => return HttpLine::Unsliceable,
        Collected::Found(vs) => vs,
    };
    proof {
        assert(vals@.len() == 11) by {
            lemma_fields_from_len(data@, 1);
        }
        assert(forall|j: int| 0 <= j < 11 ==> #[trigger] vals@[j]@ == char_seqs(vals@)[j]);
    }
    let status = number_field(vals[1].as_slice(), 65535);
    let started = number_field(vals[2].as_slice(), u64::MAX);
    let ended = number_field(vals[3].as_slice(), u64::MAX);
    let latency = if ended > started {
        ended - started
    } else {
        0
    };
    let ts = chars_of(parsed.timestamp);
    HttpLine::Entry(
        NetworkEntry {
            url: url_text,
            method: string_from_chars(vals[0].as_slice()),
            status_code: status as u16,
            latency_ms: latency,
            failure_reason: parse_optional(vals[4].as_slice()),
            failure_description: parse_optional(vals[5].as_slice()),
            client: string_from_chars(vals[10].as_slice()),
            timestamp: string_from_chars(ts.as_slice()),
            request_headers: string_from_chars(vals[6].as_slice()),
            response_headers: string_from_chars(vals[7].as_slice()),
            request_body: string_from_chars(vals[8].as_slice()),
            response_body: string_from_chars(vals[9].as_slice()),
        },
    )
}

proof fn lemma_fields_from_len(data: Seq<char>, k: int)
    requires
        0 <= k <= 12,
    ensures
        fields_from(data, k) matches Fields::Found(vs) ==> vs.len() == 12 - k,
    decreases 12 - k,
{
    if k < 12 {
        lemma_fields_from_len(data, k + 1);
    }
}

/// Decodes a logcat line as an HTTP call of the app: `None` for other
/// lines and for calls to the development machine.
pub fn parse_http_data(line: &str) -> (r: Option<NetworkEntry>)
    requires
        !(http_outcome(line@) is Unsliceable),
    ensures
        match http_outcome(line@) {
            HttpOutcome::Entry(e) => r matches Some(x) && x@ == e,
            _ => r is None,
        },
{
    match decode_http_line(line) {
        HttpLine::Entry(e) => Some(e),
        _ => None,
    }
}

// ---------------------------------------------------------------------------
// The detail text of one call
// ---------------------------------------------------------------------------

/// Latency as the list shows it: `850ms` below a second, else seconds to
/// one decimal, rounded half up (`1.2s`).
pub open spec fn latency_text(ms: u64) -> Seq<char> {
    if ms >= 1000 {
        let tenths = ms / 100 + (if ms % 100 >= 50 {
            1int
        } else {
            0int
        });
        decimal((tenths / 10) as nat) + "."@ + seq![digit_char(tenths % 10)] + "s"@
    } else {
        decimal(ms as nat) + "ms"@
    }
}

/// Latency text for one call.
pub fn format_latency(ms: u64) -> (r: String)
    ensures
        r@ == latency_text(ms),
{
    let mut out: Vec<char>;
    if ms >= 1000 {
        let tenths: u64 = ms / 100 + if ms % 100 >= 50 {
            1
        } else {
            0
        };
        out = decimal_chars(tenths / 10);
        let dot = chars_of(".");
        extend_chars(&mut out, dot.as_slice());
        let d = decimal_chars(tenths % 10);
        proof {
            assert(decimal((tenths % 10) as nat) =~= seq![digit_char((tenths % 10) as int)]);
        }
        extend_chars(&mut out, d.as_slice());
        let s = chars_of("s");
        extend_chars(&mut out, s.as_slice());
    } else {
        out = decimal_chars(ms);
        let unit = chars_of("ms");
        extend_chars(&mut out, unit.as_slice());
    }
    string_from_chars(out.as_slice())
}

pub open spec fn optional_line(label: Seq<char>, v: Option<Seq<char>>) -> Seq<char> {
    match v {
        Some(t) => label + t,
        None => Seq::empty(),
    }
}

/// The full text of a call, for reading in an editor: request line,
/// status, latency and client, failure details, then both header maps and
/// both bodies under their own headings.
pub open spec fn detail_text(e: EntryView) -> Seq<char> {
    uppercase(e.method) + " "@ + e.url + "\nStatus: "@ + decimal(e.status_code as nat)
        + " | Latency: "@ + latency_text(e.latency_ms) + " | Client: "@ + e.client
        + optional_line("\nFailure: "@, e.failure_reason)
        + optional_line("\nDescription: "@, e.failure_description)
        + "\n\n--- Request Headers ---\n"@ + headers_text(e.request_headers)
        + "\n\n--- Response Headers ---\n"@ + headers_text(e.response_headers)
        + "\n\n--- Request Body ---\n"@ + body_text(e.request_body)
        + "\n\n--- Response Body ---\n"@ + body_text(e.response_body)
}

/// Both header maps of the call can be scanned.
pub open spec fn exportable(e: EntryView) -> bool {
    headers_scan_safe(e.request_headers) && headers_scan_safe(e.response_headers)
}

fn push_str(out: &mut Vec<char>, s: &str)
    ensures
        final(out)@ == old(out)@ + s@,
{
    let v = chars_of(s);
    extend_chars(out, v.as_slice());
}

/// The detail text of `entry`.
pub fn format_detail(entry: &NetworkEntry) -> (r: String)
    requires
        exportable(entry@),
    ensures
        r@ == detail_text(entry@),
{
    let req_headers = format_headers_text(entry.request_headers.as_str());
    let resp_headers = format_headers_text(entry.response_headers.as_str());
    let req_body = format_body_text(entry.request_body.as_str());
    let resp_body = format_body_text(entry.response_body.as_str());
    let mut out: Vec<char> = Vec::new();
    let method = to_uppercase(entry.method.as_str());
    push_str(&mut out, method.as_str());
    push_str(&mut out, " ");
    push_str(&mut out, entry.url.as_str());
    push_str(&mut out, "\nStatus: ");
    let status = decimal_chars(entry.status_code as u64);
    extend_chars(&mut out, status.as_slice());
    push_str(&mut out, " | Latency: ");
    let latency = format_latency(entry.latency_ms);
    push_str(&mut out, latency.as_str());
    push_str(&mut out, " | Client: ");
    push_str(&mut out, entry.client.as_str());
    let ghost head = out@;
    match &entry.failure_reason {
        Some(reason) => {
            push_str(&mut out, "\nFailure: ");
            push_str(&mut out, reason.as_str());
        },
        None => {},
    }
    proof {
        assert(out@ =~= head + optional_line("\nFailure: "@, entry@.failure_reason));
    }
    let ghost head2 = out@;
    match &entry.failure_description {
        Some(desc) => {
            push_str(&mut out, "\nDescription: ");
            push_str(&mut out, desc.as_str());
        },
        None => {},
    }
    proof {
        assert(out@ =~= head2 + optional_line("\nDescription: "@, entry@.failure_description));
    }
    push_str(&mut out, "\n\n--- Request Headers ---\n");
    push_str(&mut out, req_headers.as_str());
    push_str(&mut out, "\n\n--- Response Headers ---\n");
    push_str(&mut out, resp_headers.as_str());
    push_str(&mut out, "\n\n--- Request Body ---\n");
    push_str(&mut out, req_body.as_str());
    push_str(&mut out, "\n\n--- Response Body ---\n");
    push_str(&mut out, resp_body.as_str());
    proof {
        assert(out@ =~= detail_text(entry@));
    }
    string_from_chars(out.as_slice())
}

// ---------------------------------------------------------------------------
// Panel state
// ---------------------------------------------------------------------------

/// Most calls the panel keeps; older ones are dropped first.
pub const MAX_ENTRIES: usize = 500;
/// Most traffic samples kept for the throughput chart.
pub const MAX_TRAFFIC: usize = 240;

/// Bytes per second received and sent since the previous sample, and the
/// app's running totals.
#[derive(Debug, Clone, Copy, Default, PartialEq, Eq)]
pub struct TrafficSample {
    pub rx_bps: u64,
    pub tx_bps: u64,
    pub rx_total: u64,
    pub tx_total: u64,
}

pub struct NetworkState {
    pub entries: Vec<NetworkEntry>,
    pub selected: usize,
    pub failure_count: usize,
    pub detail_open: bool,
    pub detail_focused: bool,
    pub detail_scroll: usize,
    pub search: String,
    pub editing_search: bool,
    pub traffic: Vec<TrafficSample>,
    pub traffic_baseline: Option<(u64, u64)>,
}

/// A call counts as failed with an HTTP error status or a failure reason.
pub open spec fn failed(e: EntryView) -> bool {
    e.status_code >= 400 || e.failure_reason is Some
}

/// How many of `s` failed.
pub open spec fn failures(s: Seq<EntryView>) -> nat
    decreases s.len(),
{
    if s.len() == 0 {
        0
    } else {
        failures(s.drop_last()) + if failed(s.last()) {
            1nat
        } else {
            0nat
        }
    }
}

pub open spec fn entry_views(v: Seq<NetworkEntry>) -> Seq<EntryView> {
    v.map_values(|e: NetworkEntry| e@)
}

/// The last `n` items of `s` (all of them when there are fewer).
pub open spec fn last_n<A>(s: Seq<A>, n: int) -> Seq<A> {
    if s.len() > n {
        s.skip(s.len() - n)
    } else {
        s
    }
}

/// The items that keeping the last `n` of `s` drops.
pub open spec fn dropped_front<A>(s: Seq<A>, n: int) -> Seq<A> {
    if s.len() > n {
        s.take(s.len() - n)
    } else {
        Seq::empty()
    }
}

pub proof fn lemma_failures_split(a: Seq<EntryView>, b: Seq<EntryView>)
    ensures
        failures(a + b) == failures(a) + failures(b),
    decreases b.len(),
{
    if b.len() == 0 {
        assert(a + b =~= a);
    } else {
        lemma_failures_split(a, b.drop_last());
        assert((a + b).drop_last() =~= a + b.drop_last());
        assert((a + b).last() == b.last());
    }
}

proof fn lemma_failures_bound(s: Seq<EntryView>)
    ensures
        failures(s) <= s.len(),
    decreases s.len(),
{
    if s.len() > 0 {
        lemma_failures_bound(s.drop_last());
    }
}

/// The failure count is the number of failed entries, and the list holds
/// at most `MAX_ENTRIES` of them.
pub open spec fn counts_consistent(s: NetworkState) -> bool {
    &&& s.failure_count == failures(entry_views(s.entries@))
    &&& s.entries@.len() <= MAX_ENTRIES
}

/// On a panel whose failure count matches its entries (which `new` gives
/// and every push keeps, see below), an entry can always be pushed: the
/// count is far from its limit. The push keeps the last `MAX_ENTRIES`
/// entries of the old ones and the new one, the count again matches the
/// entries, and a cursor on an entry stays on one: on the new entry when it
/// was on the last one or the list was empty, else where it was (moved
/// back when entries were dropped).
pub proof fn law_push_keeps_failure_count(a: NetworkState, b: NetworkState, x: NetworkEntry)
    requires
        counts_consistent(a),
        a.entries@.len() == 0 || a.selected < a.entries@.len(),
    ensures
        failed(x@) ==> a.failure_count < usize::MAX,
        entry_pushed(a, b, x) ==> {
            &&& entry_views(b.entries@) == last_n(entry_views(a.entries@).push(x@), MAX_ENTRIES as int)
            &&& counts_consistent(b)
            &&& b.selected < b.entries@.len()
            &&& b.selected == if a.entries@.len() == 0 || a.selected == a.entries@.len() - 1 {
                b.entries@.len() - 1
            } else if a.selected < b.entries@.len() - 1 {
                a.selected as int
            } else {
                b.entries@.len() - 1
            }
        },
{
    lemma_failures_bound(entry_views(a.entries@));
    if entry_pushed(a, b, x) {
        assert(entry_views(b.entries@).len() == last_n(entry_views(a.entries@).push(x@), MAX_ENTRIES as int).len());
    }
}

/// Pushing onto a panel whose count matches its entries, with room left,
/// adds one to the failure count exactly for an entry with an HTTP error
/// status (400 or above) or a failure reason.
pub proof fn law_push_counts_errors(a: NetworkState, b: NetworkState, x: NetworkEntry)
    requires
        counts_consistent(a),
        a.entries@.len() < MAX_ENTRIES,
        entry_pushed(a, b, x),
    ensures
        b.failure_count == a.failure_count + if x.status_code >= 400 || x.failure_reason is Some {
            1int
        } else {
            0int
        },
{
    let all = entry_views(a.entries@).push(x@);
    assert(dropped_front(all, MAX_ENTRIES as int) =~= Seq::<EntryView>::empty());
}

fn entry_failed(e: &NetworkEntry) -> (b: bool)
    ensures
        b == failed(e@),
{
    e.status_code >= 400 || e.failure_reason.is_some()
}

/// `search` appears, ignoring case, in the URL, the method or the status code.
pub open spec fn matches_search_spec(e: EntryView, search: Seq<char>) -> bool {
    ||| search.len() == 0
    ||| contains(lowercase(e.url), lowercase(search))
    ||| contains(lowercase(e.method), lowercase(search))
    ||| contains(decimal(e.status_code as nat), lowercase(search))
}

/// An entry counts as failed exactly when the server answered with an
/// HTTP error status (400 or above) or the call itself failed.
pub proof fn law_failed_is_error_status_or_failure(x: NetworkEntry)
    ensures
        failed(x@) <==> (x.status_code >= 400 || x.failure_reason is Some),
{
}

/// A search finds an entry exactly when, ignoring case, it occurs in the
/// URL, in the method, or in the status code written in decimal; the empty
/// search finds every entry.
pub proof fn law_search_fields(x: NetworkEntry, search: Seq<char>)
    ensures
        search.len() == 0 ==> matches_search_spec(x@, search),
        contains(decimal(x.status_code as nat), lowercase(search)) ==> matches_search_spec(x@, search),
        contains(lowercase(x.url@), lowercase(search)) ==> matches_search_spec(x@, search),
        contains(lowercase(x.method@), lowercase(search)) ==> matches_search_spec(x@, search),
        search.len() > 0 && !contains(decimal(x.status_code as nat), lowercase(search)) && !contains(
            lowercase(x.url@),
            lowercase(search),
        ) && !contains(lowercase(x.method@), lowercase(search)) ==> !matches_search_spec(x@, search),
{
}

/// Indices of the entries among the first `n` that match `search`, in order.
pub open spec fn matching_indices(es: Seq<EntryView>, search: Seq<char>, n: int) -> Seq<int>
    decreases n,
{
    if n <= 0 {
        Seq::empty()
    } else if matches_search_spec(es[n - 1], search) {
        matching_indices(es, search, n - 1).push(n - 1)
    } else {
        matching_indices(es, search, n - 1)
    }
}

pub open spec fn entry_pushed(a: NetworkState, b: NetworkState, entry: NetworkEntry) -> bool {
    &&& entry_views(b.entries@) == last_n(
        entry_views(a.entries@).push(entry@),
        MAX_ENTRIES as int,
    )
    &&& b.entries@.len() <= MAX_ENTRIES
    &&& b.failure_count == ({
        let added = a.failure_count + if failed(entry@) {
            1int
        } else {
            0int
        };
        let gone = failures(
            dropped_front(entry_views(a.entries@).push(entry@), MAX_ENTRIES as int),
        );
        if added >= gone {
            added - gone
        } else {
            0
        }
    })
    &&& a.failure_count == failures(entry_views(a.entries@))
        ==> b.failure_count == failures(entry_views(b.entries@))
    &&& b.selected == (if a.entries@.len() == 0 || a.selected
        == a.entries@.len() - 1 {
        b.entries@.len() - 1
    } else if a.selected < b.entries@.len() - 1 {
        a.selected as int
    } else {
        b.entries@.len() - 1
    })
    &&& b.detail_open == a.detail_open
    &&& b.detail_focused == a.detail_focused
    &&& b.detail_scroll == a.detail_scroll
    &&& b.search@ == a.search@
    &&& b.editing_search == a.editing_search
    &&& b.traffic@ == a.traffic@
    &&& b.traffic_baseline == a.traffic_baseline
}

impl NetworkState {
    pub fn new() -> (r: Self)
        ensures
            r.entries@.len() == 0,
            r.selected == 0,
            r.failure_count == 0,
            !r.detail_open,
            !r.detail_focused,
            r.detail_scroll == 0,
            r.search@.len() == 0,
            !r.editing_search,
            r.traffic@.len() == 0,
            r.traffic_baseline is None,
            counts_consistent(r),
    {
        let r = Self {
            entries: Vec::new(),
            selected: 0,
            failure_count: 0,
            detail_open: false,
            detail_focused: false,
            detail_scroll: 0,
            search: String::new(),
            editing_search: false,
            traffic: Vec::new(),
            traffic_baseline: None,
        };
        proof {
            assert(entry_views(r.entries@) =~= Seq::<EntryView>::empty());
        }
        r
    }

    /// Records a traffic sample; the first one ever recorded also becomes
    /// the baseline that totals are shown against.
    pub fn push_traffic(&mut self, sample: TrafficSample)
        ensures
            final(self).traffic@ == last_n(old(self).traffic@.push(sample), MAX_TRAFFIC as int),
            final(self).traffic@.len() <= MAX_TRAFFIC,
            final(self).traffic_baseline == (match old(self).traffic_baseline {
                Some(b) => Some(b),
                None => Some((sample.rx_total, sample.tx_total)),
            }),
            final(self).entries@ == old(self).entries@,
            final(self).selected == old(self).selected,
            final(self).failure_count == old(self).failure_count,
            final(self).detail_open == old(self).detail_open,
            final(self).detail_focused == old(self).detail_focused,
            final(self).detail_scroll == old(self).detail_scroll,
            final(self).search@ == old(self).search@,
            final(self).editing_search == old(self).editing_search,
    {
        if self.traffic_baseline.is_none() {
            self.traffic_baseline = Some((sample.rx_total, sample.tx_total));
        }
        self.traffic.push(sample);
        if self.traffic.len() > MAX_TRAFFIC {
            let drain = self.traffic.len() - MAX_TRAFFIC;
            let kept = self.traffic.split_off(drain);
            self.traffic = kept;
        }
    }

    pub fn is_failure(entry: &NetworkEntry) -> (b: bool)
        ensures
            b == failed(entry@),
    {
        entry_failed(entry)
    }

    /// Whether `entry` matches the search text (an empty search matches all).
    pub fn matches_search(entry: &NetworkEntry, search: &str) -> (b: bool)
        ensures
            b == matches_search_spec(entry@, search@),
    {
        if search.is_empty() {
            return true;
        }
        let lower = chars_of(to_lowercase(search).as_str());
        let url = chars_of(to_lowercase(entry.url.as_str()).as_str());
        if contains_slice(url.as_slice(), lower.as_slice()) {
            return true;
        }
        let method = chars_of(to_lowercase(entry.method.as_str()).as_str());
        if contains_slice(method.as_slice(), lower.as_slice()) {
            return true;
        }
        let status = decimal_chars(entry.status_code as u64);
        contains_slice(status.as_slice(), lower.as_slice())
    }

    /// The entries that match the search, each with its index.
    pub fn filtered_entries(&self) -> (r: Vec<(usize, &NetworkEntry)>)
        ensures
            r@.len() == matching_indices(entry_views(self.entries@), self.search@, self.entries@.len() as int).len(),
            forall|j: int|
                0 <= j < r@.len() ==> {
                    &&& r@[j].0 as int == matching_indices(
                        entry_views(self.entries@),
                        self.search@,
                        self.entries@.len() as int,
                    )[j]
                    &&& *r@[j].1 == self.entries@[r@[j].0 as int]
                },
    {
        let ghost es = entry_views(self.entries@);
        let mut out: Vec<(usize, &NetworkEntry)> = Vec::new();
        let mut i: usize = 0;
        while i < self.entries.len()
            invariant
                i <= self.entries@.len(),
                es == entry_views(self.entries@),
                out@.len() == matching_indices(es, self.search@, i as int).len(),
                forall|j: int|
                    0 <= j < out@.len() ==> {
                        &&& out@[j].0 as int == matching_indices(es, self.search@, i as int)[j]
                        &&& *out@[j].1 == self.entries@[out@[j].0 as int]
                    },
            decreases self.entries@.len() - i,
        {
            let e = &self.entries[i];
            proof {
                assert(es[i as int] == e@);
            }
            if Self::matches_search(e, self.search.as_str()) {
                out.push((i, e));
            }
            i = i + 1;
        }
        out
    }

    fn close_detail(&mut self)
        ensures
            !final(self).detail_open,
            !final(self).detail_focused,
            final(self).detail_scroll == 0,
            final(self).entries@ == old(self).entries@,
            final(self).selected == old(self).selected,
            final(self).failure_count == old(self).failure_count,
            final(self).search@ == old(self).search@,
            final(self).editing_search == old(self).editing_search,
            final(self).traffic@ == old(self).traffic@,
            final(self).traffic_baseline == old(self).traffic_baseline,
    {
        self.detail_open = false;
        self.detail_focused = false;
        self.detail_scroll = 0;
    }

    /// Keeps the detail scroll within `total_lines - visible_height`.
    pub fn clamp_detail_scroll(&mut self, total_lines: usize, visible_height: usize)
        ensures
            final(self).detail_scroll == (if old(self).detail_scroll as int <= total_lines
                - visible_height {
                old(self).detail_scroll as int
            } else if total_lines > visible_height {
                total_lines - visible_height
            } else {
                0
            }),
            final(self).entries@ == old(self).entries@,
            final(self).selected == old(self).selected,
            final(self).failure_count == old(self).failure_count,
            final(self).detail_open == old(self).detail_open,
            final(self).detail_focused == old(self).detail_focused,
            final(self).search@ == old(self).search@,
            final(self).editing_search == old(self).editing_search,
            final(self).traffic@ == old(self).traffic@,
            final(self).traffic_baseline == old(self).traffic_baseline,
    {
        let max = if total_lines > visible_height {
            total_lines - visible_height
        } else {
            0
        };
        if self.detail_scroll > max {
            self.detail_scroll = max;
        }
    }

    /// Adds a call. The list keeps the newest `MAX_ENTRIES`, the failure
    /// count follows what was added and dropped, and a cursor on the last
    /// call moves on to the new one.
    pub fn push(&mut self, entry: NetworkEntry)
        requires
            failed(entry@) ==> old(self).failure_count < usize::MAX,
        ensures
            entry_pushed(*old(self), *final(self), entry),
    {
        let ghost all = entry_views(old(self).entries@).push(entry@);
        proof {
            assert(all.drop_last() =~= entry_views(old(self).entries@));
            assert(all.last() == entry@);
        }
        let at_last = self.entries.len() == 0 || self.selected == self.entries.len() - 1;
        if entry_failed(&entry) {
            self.failure_count = self.failure_count + 1;
        }
        let ghost added = self.failure_count;
        self.entries.push(entry);
        proof {
            assert(entry_views(self.entries@) =~= all);
        }
        if self.entries.len() > MAX_ENTRIES {
            let cut = self.entries.len() - MAX_ENTRIES;
            let kept = self.entries.split_off(cut);
            let ghost gone = entry_views(self.entries@);
            proof {
                assert(gone =~= all.take(cut as int));
                assert(entry_views(kept@) =~= all.skip(cut as int));
                assert(all =~= gone + all.skip(cut as int));
                lemma_failures_split(gone, all.skip(cut as int));
            }
            let mut fc = self.failure_count;
            let mut k: usize = 0;
            while k < self.entries.len()
                invariant
                    k <= self.entries@.len(),
                    gone == entry_views(self.entries@),
                    fc == (if added >= failures(gone.take(k as int)) {
                        added - failures(gone.take(k as int))
                    } else {
                        0
                    }),
                decreases self.entries@.len() - k,
            {
                proof {
                    assert(gone.take(k + 1).drop_last() =~= gone.take(k as int));
                    assert(gone[k as int] == self.entries@[k as int]@);
                }
                if entry_failed(&self.entries[k]) {
                    fc = if fc > 0 {
                        fc - 1
                    } else {
                        0
                    };
                }
                k = k + 1;
            }
            proof {
                assert(gone.take(k as int) =~= gone);
            }
            self.failure_count = fc;
            self.entries = kept;
        } else {
            proof {
                assert(dropped_front(all, MAX_ENTRIES as int) =~= Seq::<EntryView>::empty());
                lemma_failures_split(all, Seq::empty());
                assert(all + Seq::<EntryView>::empty() =~= all);
            }
        }
        if at_last {
            self.selected = self.entries.len() - 1;
        } else if self.selected > self.entries.len() - 1 {
            self.selected = self.entries.len() - 1;
        }
    }
}

// ---------------------------------------------------------------------------
// Keys
// ---------------------------------------------------------------------------

/// The parts of the panel state that keys change.
pub ghost struct NetworkUi {
    pub selected: int,
    pub detail_open: bool,
    pub detail_focused: bool,
    pub detail_scroll: int,
    pub search: Seq<char>,
    pub editing_search: bool,
}

pub open spec fn is_up(code: KeyCode) -> bool {
    code == KeyCode::Up || code == KeyCode::Char('k')
}

pub open spec fn is_down(code: KeyCode) -> bool {
    code == KeyCode::Down || code == KeyCode::Char('j')
}

pub open spec fn closed_ui(u: NetworkUi) -> NetworkUi {
    NetworkUi { detail_open: false, detail_focused: false, detail_scroll: 0, ..u }
}

/// One step down a list of `len` items, stopping at the last.
pub open spec fn step_down(selected: int, len: int) -> int {
    if selected + 1 < len - 1 {
        selected + 1
    } else {
        len - 1
    }
}

/// The panel after a key: typing edits the search while it is being
/// edited; a focused detail view scrolls; an open detail view moves the
/// cursor (back at the top of the detail); the list moves the cursor,
/// opens the detail, or starts a search.
pub open spec fn ui_after(u: NetworkUi, len: int, code: KeyCode) -> NetworkUi {
    if u.editing_search {
        match code {
            KeyCode::Char(c) => NetworkUi { search: u.search.push(c), ..u },
            KeyCode::Backspace => NetworkUi {
                search: if u.search.len() > 0 {
                    u.search.drop_last()
                } else {
                    u.search
                },
                ..u
            },
            KeyCode::Enter | KeyCode::Esc => NetworkUi { editing_search: false, ..u },
            _ => u,
        }
    } else if u.detail_open && u.detail_focused {
        if is_up(code) {
            NetworkUi {
                detail_scroll: if u.detail_scroll > 0 {
                    u.detail_scroll - 1
                } else {
                    0
                },
                ..u
            }
        } else if is_down(code) {
            NetworkUi { detail_scroll: u.detail_scroll + 1, ..u }
        } else if code == KeyCode::Char(' ') {
            NetworkUi { detail_scroll: u.detail_scroll + 20, ..u }
        } else if code == KeyCode::Tab || code == KeyCode::Esc {
            NetworkUi { detail_focused: false, ..u }
        } else if code == KeyCode::Enter {
            closed_ui(u)
        } else {
            u
        }
    } else if u.detail_open {
        if is_up(code) {
            NetworkUi {
                selected: if u.selected > 0 {
                    u.selected - 1
                } else {
                    0
                },
                detail_scroll: 0,
                ..u
            }
        } else if is_down(code) {
            if len > 0 {
                NetworkUi { selected: step_down(u.selected, len), detail_scroll: 0, ..u }
            } else {
                u
            }
        } else if code == KeyCode::Tab {
            NetworkUi { detail_focused: true, ..u }
        } else if code == KeyCode::Enter || code == KeyCode::Esc {
            closed_ui(u)
        } else {
            u
        }
    } else {
        if is_up(code) {
            NetworkUi {
                selected: if u.selected > 0 {
                    u.selected - 1
                } else {
                    0
                },
                ..u
            }
        } else if is_down(code) {
            if len > 0 {
                NetworkUi { selected: step_down(u.selected, len), ..u }
            } else {
                u
            }
        } else if code == KeyCode::Enter {
            if 0 <= u.selected < len {
                NetworkUi { detail_open: true, ..u }
            } else {
                u
            }
        } else if code == KeyCode::Char('/') {
            NetworkUi { editing_search: true, ..u }
        } else {
            u
        }
    }
}

/// What the panel answers to a key.
pub ghost enum NetworkReply {
    /// The key is not the panel's.
    Ignored,
    Noop,
    Unfocus,
    ZoomIn,
    /// Open the selected call's detail text in an editor.
    OpenSelected,
}

pub open spec fn reply_to(u: NetworkUi, len: int, code: KeyCode) -> NetworkReply {
    if u.editing_search {
        NetworkReply::Noop
    } else if u.detail_open && u.detail_focused {
        if code == KeyCode::Char('o') {
            NetworkReply::OpenSelected
        } else {
            NetworkReply::Noop
        }
    } else if u.detail_open {
        if code == KeyCode::Char('o') {
            NetworkReply::OpenSelected
        } else if code == KeyCode::Esc {
            NetworkReply::Unfocus
        } else {
            NetworkReply::Noop
        }
    } else if is_up(code) || is_down(code) || code == KeyCode::Char('/') {
        NetworkReply::Noop
    } else if code == KeyCode::Enter {
        if 0 <= u.selected < len {
            NetworkReply::ZoomIn
        } else {
            NetworkReply::Noop
        }
    } else if code == KeyCode::Char('o') {
        NetworkReply::OpenSelected
    } else if code == KeyCode::Esc {
        NetworkReply::Unfocus
    } else {
        NetworkReply::Ignored
    }
}

impl NetworkState {
    pub open spec fn ui(&self) -> NetworkUi {
        NetworkUi {
            selected: self.selected as int,
            detail_open: self.detail_open,
            detail_focused: self.detail_focused,
            detail_scroll: self.detail_scroll as int,
            search: self.search@,
            editing_search: self.editing_search,
        }
    }

    /// The selected call, if there is one, can be exported.
    pub open spec fn selected_exportable(&self) -> bool {
        self.selected < self.entries@.len() ==> exportable(self.entries@[self.selected as int]@)
    }

    /// The key can be handled without a counter passing `usize::MAX` or a
    /// header map being cut inside a character.
    pub open spec fn key_in_bounds(&self, code: KeyCode) -> bool {
        if self.editing_search {
            true
        } else if self.detail_open && self.detail_focused {
            &&& is_down(code) ==> self.detail_scroll + 1 <= usize::MAX
            &&& code == KeyCode::Char(' ') ==> self.detail_scroll + 20 <= usize::MAX
            &&& code == KeyCode::Char('o') ==> self.selected_exportable()
        } else {
            &&& is_down(code) && self.entries@.len() > 0 ==> self.selected + 1 <= usize::MAX
            &&& code == KeyCode::Char('o') ==> self.selected_exportable()
        }
    }
}

fn scan_safe(s: &[char]) -> (b: bool)
    ensures
        b == pair_scan_safe(s@),
{
    if s.len() == 1 && utf8_width(s[0]) == 2 {
        return true;
    }
    let mut i: usize = 0;
    while i < s.len()
        invariant
            i <= s@.len(),
            forall|k: int| 0 <= k < i ==> (s@[k] as u32) < 0x80,
            !(s@.len() == 1 && utf8_len(s@[0]) == 2),
        decreases s@.len() - i,
    {
        if (s[i] as u32) >= 0x80 {
            proof {
                assert(!((s@[i as int] as u32) < 0x80));
            }
            return false;
        }
        i = i + 1;
    }
    true
}

fn headers_safe(raw: &str) -> (b: bool)
    ensures
        b == headers_scan_safe(raw@),
{
    let rv = chars_of(raw);
    if is_empty_value(rv.as_slice()) {
        return true;
    }
    scan_safe(header_inner_slice(rv.as_slice()))
}

/// Whether `format_detail` can take the entry: its headers can be split
/// into pairs.
pub fn entry_exportable(e: &NetworkEntry) -> (b: bool)
    ensures
        b == exportable(e@),
{
    headers_safe(e.request_headers.as_str()) && headers_safe(e.response_headers.as_str())
}

pub open spec fn network_key_done(a: NetworkState, b: NetworkState, key: KeyEvent, r: Option<Action>) -> bool {
    &&& b.ui() == ui_after(a.ui(), a.entries@.len() as int, key.code)
    &&& match reply_to(a.ui(), a.entries@.len() as int, key.code) {
        NetworkReply::Ignored => r is None,
        NetworkReply::Noop => r matches Some(Action::Noop),
        NetworkReply::Unfocus => r matches Some(Action::Unfocus),
        NetworkReply::ZoomIn => r matches Some(Action::ZoomIn),
        NetworkReply::OpenSelected => if a.selected < a.entries@.len() {
            r matches Some(Action::OpenInEditor(t)) && t@ == detail_text(
                a.entries@[a.selected as int]@,
            )
        } else {
            r is None
        },
    }
    &&& b.entries@ == a.entries@
    &&& b.failure_count == a.failure_count
    &&& b.traffic@ == a.traffic@
    &&& b.traffic_baseline == a.traffic_baseline
}

impl NetworkState {
    /// Whether `handle_key` can take `key` in the current state.
    pub fn accepts_key(&self, key: KeyEvent) -> (b: bool)
        ensures
            b == self.key_in_bounds(key.code),
    {
        let code = key.code;
        let down = matches!(code, KeyCode::Down | KeyCode::Char('j'));
        let exportable = self.selected >= self.entries.len() || {
            let e = &self.entries[self.selected];
            headers_safe(e.request_headers.as_str()) && headers_safe(e.response_headers.as_str())
        };
        let open = matches!(code, KeyCode::Char('o'));
        if self.editing_search {
            true
        } else if self.detail_open && self.detail_focused {
            (!down || self.detail_scroll < usize::MAX) && (!matches!(code, KeyCode::Char(' '))
                || self.detail_scroll <= usize::MAX - 20) && (!open || exportable)
        } else {
            (!down || self.entries.len() == 0 || self.selected < usize::MAX) && (!open
                || exportable)
        }
    }

    fn open_selected(&self) -> (r: Option<Action>)
        requires
            self.selected_exportable(),
        ensures
            self.selected < self.entries@.len() ==> (r matches Some(Action::OpenInEditor(t))
                && t@ == detail_text(self.entries@[self.selected as int]@)),
            self.selected >= self.entries@.len() ==> r is None,
    {
        if self.selected < self.entries.len() {
            Some(Action::OpenInEditor(format_detail(&self.entries[self.selected])))
        } else {
            None
        }
    }

    /// Applies a key to the focused network panel.
    pub fn handle_key(&mut self, key: KeyEvent) -> (r: Option<Action>)
        requires
            old(self).key_in_bounds(key.code),
        ensures
            network_key_done(*old(self), *final(self), key, r),
    {
        let code = key.code;
        if self.editing_search {
            match code {
                KeyCode::Char(c) => string_push(&mut self.search, c),
                KeyCode::Backspace => {
                    string_pop(&mut self.search);
                },
                KeyCode::Enter | KeyCode::Esc => self.editing_search = false,
                _ => {},
            }
            return Some(Action::Noop);
        }
        let len = self.entries.len();
        if self.detail_open && self.detail_focused {
            return match code {
                KeyCode::Up | KeyCode::Char('k') => {
                    self.detail_scroll = if self.detail_scroll > 0 {
                        self.detail_scroll - 1
                    } else {
                        0
                    };
                    Some(Action::Noop)
                },
                KeyCode::Down | KeyCode::Char('j') => {
                    self.detail_scroll = self.detail_scroll + 1;
                    Some(Action::Noop)
                },
                KeyCode::Char(' ') => {
                    self.detail_scroll = self.detail_scroll + 20;
                    Some(Action::Noop)
                },
                KeyCode::Tab => {
                    self.detail_focused = false;
                    Some(Action::Noop)
                },
                KeyCode::Char('o') => self.open_selected(),
                KeyCode::Enter => {
                    self.close_detail();
                    Some(Action::Noop)
                },
                KeyCode::Esc => {
                    self.detail_focused = false;
                    Some(Action::Noop)
                },
                _ => Some(Action::Noop),
            };
        }
        if self.detail_open {
            return match code {
                KeyCode::Up | KeyCode::Char('k') => {
                    self.selected = if self.selected > 0 {
                        self.selected - 1
                    } else {
                        0
                    };
                    self.detail_scroll = 0;
                    Some(Action::Noop)
                },
                KeyCode::Down | KeyCode::Char('j') => {
                    if len > 0 {
                        self.selected = if self.selected + 1 < len - 1 {
                            self.selected + 1
                        } else {
                            len - 1
                        };
                        self.detail_scroll = 0;
                    }
                    Some(Action::Noop)
                },
                KeyCode::Tab => {
                    self.detail_focused = true;
                    Some(Action::Noop)
                },
                KeyCode::Char('o') => self.open_selected(),
                KeyCode::Enter => {
                    self.close_detail();
                    Some(Action::Noop)
                },
                KeyCode::Esc => {
                    self.close_detail();
                    Some(Action::Unfocus)
                },
                _ => Some(Action::Noop),
            };
        }
        match code {
            KeyCode::Up | KeyCode::Char('k') => {
                self.selected = if self.selected > 0 {
                    self.selected - 1
                } else {
                    0
                };
                Some(Action::Noop)
            },
            KeyCode::Down | KeyCode::Char('j') => {
                if len > 0 {
                    self.selected = if self.selected + 1 < len - 1 {
                        self.selected + 1
                    } else {
                        len - 1
                    };
                }
                Some(Action::Noop)
            },
            KeyCode::Enter => {
                if self.selected < len {
                    self.detail_open = true;
                    Some(Action::ZoomIn)
                } else {
                    Some(Action::Noop)
                }
            },
            KeyCode::Char('o') => self.open_selected(),
            KeyCode::Char('/') => {
                self.editing_search = true;
                Some(Action::Noop)
            },
            KeyCode::Esc => Some(Action::Unfocus),
            _ => None,
        }
    }
}


/// How many metrics the monitor shows: three, and network traffic once
/// there is any.
pub fn metric_count(traffic: &[TrafficSample]) -> (r: usize)
    ensures
        r == if traffic@.len() == 0 {
            3usize
        } else {
            4usize
        },
{
    if traffic.len() == 0 {
        3
    } else {
        4
    }
}
} // verus!
