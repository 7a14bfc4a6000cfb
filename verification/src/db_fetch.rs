//! What the database panel asks the device's `sqlite3` and how it reads
//! the answers: the queries for a table's columns, size and rows, and the
//! parsers for the `|`-separated output.

use vstd::prelude::*;
use crate::database::{FetchKind, TABLE_PAGE_SIZE};
use crate::names::names_of;
use crate::text::{chars_of, decimal, decimal_chars, extend_chars, find, find_slice, has_prefix,
    lines, next_line, parse_bounded, parse_uint, starts_with, string_from_chars, trim, trim_slice};

verus! {

// ---------------------------------------------------------------------------
// Queries
// ---------------------------------------------------------------------------

/// `t` with each `"` doubled, as inside a double-quoted SQL name.
pub open spec fn quoted_name(t: Seq<char>) -> Seq<char>
    decreases t.len(),
{
    if t.len() == 0 {
        Seq::empty()
    } else {
        quoted_name(t.drop_last()) + if t.last() == '"' {
            seq!['"', '"']
        } else {
            seq![t.last()]
        }
    }
}

/// The query that lists the user's tables, by name.
pub fn table_list_query() -> (r: &'static str)
    ensures
        r@ == "SELECT name FROM sqlite_master WHERE type='table' ORDER BY name"@,
{
    "SELECT name FROM sqlite_master WHERE type='table' ORDER BY name"
}

/// Appends `t`, its `"` doubled.
fn push_quoted(out: &mut Vec<char>, t: &[char])
    ensures
        final(out)@ == old(out)@ + quoted_name(t@),
{
    let mut i: usize = 0;
    while i < t.len()
        invariant
            i <= t@.len(),
            out@ == old(out)@ + quoted_name(t@.take(i as int)),
        decreases t@.len() - i,
    {
        let ghost before = out@;
        if t[i] == '"' {
            out.push('"');
            out.push('"');
        } else {
            out.push(t[i]);
        }
        proof {
            assert(t@.take(i + 1).drop_last() =~= t@.take(i as int));
            assert(t@.take(i + 1).last() == t@[i as int]);
            assert(out@ =~= before + if t@[i as int] == '"' {
                seq!['"', '"']
            } else {
                seq![t@[i as int]]
            });
        }
        i = i + 1;
    }
    proof {
        assert(t@.take(i as int) =~= t@);
    }
}

/// `prefix`, the quoted name `table`, then `suffix`.
fn around_name(prefix: &str, table: &str, suffix: &str) -> (r: String)
    ensures
        r@ == prefix@ + quoted_name(table@) + suffix@,
{
    let mut out = chars_of(prefix);
    let t = chars_of(table);
    push_quoted(&mut out, t.as_slice());
    let s = chars_of(suffix);
    extend_chars(&mut out, s.as_slice());
    string_from_chars(out.as_slice())
}

/// The query for a table's columns: `PRAGMA table_info("<table>");`.
pub fn columns_query(table: &str) -> (r: String)
    ensures
        r@ == "PRAGMA table_info(\""@ + quoted_name(table@) + "\");"@,
{
    around_name("PRAGMA table_info(\"", table, "\");")
}

/// The query for a table's size: `SELECT COUNT(*) FROM "<table>";`.
pub fn count_query(table: &str) -> (r: String)
    ensures
        r@ == "SELECT COUNT(*) FROM \""@ + quoted_name(table@) + "\";"@,
{
    around_name("SELECT COUNT(*) FROM \"", table, "\";")
}

/// The query for one page of a table from row `offset`:
/// `SELECT * FROM "<table>" LIMIT 50 OFFSET <offset>;`.
pub fn rows_query(table: &str, offset: usize) -> (r: String)
    ensures
        r@ == "SELECT * FROM \""@ + quoted_name(table@) + "\" LIMIT "@ + decimal(TABLE_PAGE_SIZE as nat)
            + " OFFSET "@ + decimal(offset as nat) + ";"@,
{
    let mut out = chars_of("SELECT * FROM \"");
    let t = chars_of(table);
    push_quoted(&mut out, t.as_slice());
    let a = chars_of("\" LIMIT ");
    extend_chars(&mut out, a.as_slice());
    let n = decimal_chars(TABLE_PAGE_SIZE as u64);
    extend_chars(&mut out, n.as_slice());
    let b = chars_of(" OFFSET ");
    extend_chars(&mut out, b.as_slice());
    let o = decimal_chars(offset as u64);
    extend_chars(&mut out, o.as_slice());
    let c = chars_of(";");
    extend_chars(&mut out, c.as_slice());
    string_from_chars(out.as_slice())
}

/// Where a fetch starts in a table of `row_count` rows: the last page for
/// the tail, else the asked row held to the table's end.
pub open spec fn offset_for(kind: FetchKind, row_count: int) -> int {
    match kind {
        FetchKind::Tail => if row_count > TABLE_PAGE_SIZE {
            row_count - TABLE_PAGE_SIZE
        } else {
            0
        },
        FetchKind::At(n) => if n < row_count {
            n as int
        } else {
            row_count
        },
    }
}

pub fn fetch_offset(kind: FetchKind, row_count: usize) -> (r: usize)
    ensures
        r == offset_for(kind, row_count as int),
{
    match kind {
        FetchKind::Tail => if row_count > TABLE_PAGE_SIZE {
            row_count - TABLE_PAGE_SIZE
        } else {
            0
        },
        FetchKind::At(n) => if n < row_count {
            n
        } else {
            row_count
        },
    }
}

// ---------------------------------------------------------------------------
// Reading the answers
// ---------------------------------------------------------------------------

/// The table names in the answer to the table-list query: each line
/// trimmed, blank lines and sqlite's own `sqlite_` tables left out.
pub open spec fn table_names(ls: Seq<Seq<char>>) -> Seq<Seq<char>>
    decreases ls.len(),
{
    if ls.len() == 0 {
        Seq::empty()
    } else {
        let prev = table_names(ls.drop_last());
        let t = trim(ls.last());
        if t.len() > 0 && !starts_with(t, "sqlite_"@) {
            prev.push(t)
        } else {
            prev
        }
    }
}

pub fn parse_table_names(out: &str) -> (r: Vec<String>)
    ensures
        names_of(r@) == table_names(lines(out@)),
{
    let cv = chars_of(out);
    let s = cv.as_slice();
    let n = s.len();
    let prefix = chars_of("sqlite_");
    let mut names: Vec<String> = Vec::new();
    let mut p: usize = 0;
    let ghost done: Seq<Seq<char>> = Seq::empty();
    proof {
        assert(s@.skip(0) =~= s@);
        assert(names_of(names@) =~= Seq::<Seq<char>>::empty());
    }
    while p < n
        invariant
            n == s@.len(),
            p <= n,
            s@ == out@,
            prefix@ == "sqlite_"@,
            lines(s@) == done + lines(s@.skip(p as int)),
            names_of(names@) == table_names(done),
        decreases n - p,
    {
        let (b, np) = next_line(s, p);
        let piece = &s[p..b];
        proof {
            assert(piece@ =~= s@.subrange(p as int, b as int));
        }
        let t = trim_slice(piece);
        let ghost before = names_of(names@);
        if t.len() > 0 && !has_prefix(t, prefix.as_slice()) {
            names.push(string_from_chars(t));
            proof {
                assert(names_of(names@) =~= before.push(t@));
            }
        }
        proof {
            assert(done.push(piece@).drop_last() =~= done);
            assert(done + lines(s@.skip(p as int)) =~= done.push(piece@) + lines(s@.skip(np as int)));
            done = done.push(piece@);
        }
        p = np;
    }
    proof {
        assert(s@.skip(p as int).len() == 0);
        assert(done + Seq::<Seq<char>>::empty() =~= done);
    }
    names
}

/// The row count in the answer to the count query: the first line, trimmed,
/// read as a number; 0 when there is none or it is no number that fits.
pub open spec fn row_count_in(out: Seq<char>) -> int {
    let ls = lines(out);
    if ls.len() == 0 {
        0
    } else {
        match parse_uint(trim(ls[0]), usize::MAX as int) {
            Some(n) => n,
            None => 0,
        }
    }
}

pub fn parse_row_count(out: &str) -> (r: usize)
    ensures
        r == row_count_in(out@),
{
    let cv = chars_of(out);
    let s = cv.as_slice();
    if s.len() == 0 {
        return 0;
    }
    let (b, _np) = next_line(s, 0);
    let first = &s[0..b];
    proof {
        assert(s@.skip(0) =~= s@);
        assert(first@ =~= s@.subrange(0, b as int));
    }
    let t = trim_slice(first);
    match parse_bounded(t, usize::MAX as u64) {
        Some(v) => v as usize,
        None => 0,
    }
}

/// Where the first `|` of `s` is.
pub open spec fn bar_at(s: Seq<char>) -> Option<int> {
    find(s, seq!['|'])
}

/// `s` split at `|` into at most `n` fields, the last holding the rest,
/// as `str::splitn(n, '|')` gives them.
pub open spec fn split_bar(s: Seq<char>, n: nat) -> Seq<Seq<char>>
    decreases n,
{
    if n == 0 {
        Seq::empty()
    } else if n == 1 {
        seq![s]
    } else {
        match bar_at(s) {
            None => seq![s],
            Some(i) => seq![s.take(i)] + split_bar(s.skip(i + 1), (n - 1) as nat),
        }
    }
}

/// The fields of one output line, missing fields filled with empty text up
/// to `n`.
pub open spec fn row_fields(l: Seq<char>, n: nat) -> Seq<Seq<char>> {
    let f = split_bar(l, n);
    if f.len() < n {
        f + Seq::new((n - f.len()) as nat, |i: int| Seq::<char>::empty())
    } else {
        f
    }
}

/// The rows in the answer to a rows query, empty lines left out.
pub open spec fn table_rows(ls: Seq<Seq<char>>, n: nat) -> Seq<Seq<Seq<char>>>
    decreases ls.len(),
{
    if ls.len() == 0 {
        Seq::empty()
    } else {
        let prev = table_rows(ls.drop_last(), n);
        if ls.last().len() == 0 {
            prev
        } else {
            prev.push(row_fields(ls.last(), n))
        }
    }
}

fn bar() -> (r: Vec<char>)
    ensures
        r@ == seq!['|'],
{
    let mut v: Vec<char> = Vec::new();
    v.push('|');
    v
}

/// Splits `s` at `|` into at most `n` fields.
pub fn split_fields(s: &[char], n: usize) -> (r: Vec<String>)
    ensures
        names_of(r@) == split_bar(s@, n as nat),
{
    let mut out: Vec<String> = Vec::new();
    if n == 0 {
        proof {
            assert(names_of(out@) =~= Seq::<Seq<char>>::empty());
        }
        return out;
    }
    let sep = bar();
    let len = s.len();
    let mut p: usize = 0;
    let mut k: usize = n;
    proof {
        assert(s@.skip(0) =~= s@);
        assert(names_of(out@) + split_bar(s@, n as nat) =~= split_bar(s@, n as nat));
    }
    loop
        invariant_except_break
            names_of(out@) + split_bar(s@.skip(p as int), k as nat) == split_bar(s@, n as nat),
        invariant
            1 <= k <= n,
            p <= len,
            len == s@.len(),
            sep@ == seq!['|'],
        ensures
            names_of(out@) == split_bar(s@, n as nat),
        decreases k,
    {
        let tail = &s[p..len];
        proof {
            assert(tail@ =~= s@.skip(p as int));
        }
        let ghost before = names_of(out@);
        if k == 1 {
            out.push(string_from_chars(tail));
            proof {
                assert(names_of(out@) =~= before.push(tail@));
                assert(names_of(out@) =~= before + seq![tail@]);
            }
            break;
        }
        match find_slice(tail, sep.as_slice()) {
            None => {
                out.push(string_from_chars(tail));
                proof {
                    assert(names_of(out@) =~= before + seq![tail@]);
                }
                break;
            },
            Some(i) => {
                proof {
                    assert(find(tail@, seq!['|']) == Some(i as int));
                    assert(i + 1 <= tail@.len()) by {
                        crate::text::lemma_find_from_range(tail@, seq!['|'], 0);
                    }
                }
                let head = &tail[0..i];
                proof {
                    assert(head@ =~= tail@.take(i as int));
                    assert(tail@.skip(i + 1) =~= s@.skip(p + i + 1));
                }
                out.push(string_from_chars(head));
                proof {
                    assert(names_of(out@) =~= before.push(head@));
                    assert(split_bar(tail@, k as nat) == seq![head@] + split_bar(
                        s@.skip(p + i + 1),
                        (k - 1) as nat,
                    ));
                    assert(before + (seq![head@] + split_bar(s@.skip(p + i + 1), (k - 1) as nat))
                        =~= before.push(head@) + split_bar(s@.skip(p + i + 1), (k - 1) as nat));
                }
                p = p + i + 1;
                k = k - 1;
            },
        }
    }
    out
}

pub proof fn lemma_split_bar_len(s: Seq<char>, n: nat)
    ensures
        n >= 1 ==> 1 <= split_bar(s, n).len() <= n,
        n == 0 ==> split_bar(s, n).len() == 0,
    decreases n,
{
    if n > 1 {
        match bar_at(s) {
            None => {},
            Some(i) => lemma_split_bar_len(s.skip(i + 1), (n - 1) as nat),
        }
    }
}

/// The fields of one line, filled up to `n`.
fn line_fields(l: &[char], n: usize) -> (r: Vec<String>)
    ensures
        names_of(r@) == row_fields(l@, n as nat),
{
    let mut parts = split_fields(l, n);
    proof {
        lemma_split_bar_len(l@, n as nat);
    }
    let ghost f = names_of(parts@);
    while parts.len() < n
        invariant
            f == split_bar(l@, n as nat),
            f.len() <= parts@.len() <= n,
            names_of(parts@) == f + Seq::new((parts@.len() - f.len()) as nat, |i: int| Seq::<char>::empty()),
        decreases n - parts@.len(),
    {
        let ghost before = names_of(parts@);
        parts.push(String::new());
        proof {
            assert(names_of(parts@) =~= before.push(Seq::<char>::empty()));
            assert(names_of(parts@) =~= f + Seq::new((parts@.len() - f.len()) as nat, |i: int| Seq::<char>::empty()));
        }
    }
    proof {
        if f.len() >= n {
            assert(names_of(parts@) =~= f);
        }
    }
    parts
}

/// Reads the rows of a rows query's answer, each with `expected_cols`
/// fields.
pub fn parse_rows(raw: &str, expected_cols: usize) -> (r: Vec<Vec<String>>)
    ensures
        crate::database::rows_view(r@) == table_rows(lines(raw@), expected_cols as nat),
{
    let cv = chars_of(raw);
    let s = cv.as_slice();
    let n = s.len();
    let mut rows: Vec<Vec<String>> = Vec::new();
    let mut p: usize = 0;
    let ghost done: Seq<Seq<char>> = Seq::empty();
    proof {
        assert(s@.skip(0) =~= s@);
        assert(crate::database::rows_view(rows@) =~= Seq::<Seq<Seq<char>>>::empty());
    }
    while p < n
        invariant
            n == s@.len(),
            p <= n,
            s@ == raw@,
            lines(s@) == done + lines(s@.skip(p as int)),
            crate::database::rows_view(rows@) == table_rows(done, expected_cols as nat),
        decreases n - p,
    {
        let (b, np) = next_line(s, p);
        let piece = &s[p..b];
        proof {
            assert(piece@ =~= s@.subrange(p as int, b as int));
        }
        let ghost before = crate::database::rows_view(rows@);
        if piece.len() > 0 {
            rows.push(line_fields(piece, expected_cols));
            proof {
                assert(crate::database::rows_view(rows@) =~= before.push(row_fields(piece@, expected_cols as nat)));
            }
        }
        proof {
            assert(done.push(piece@).drop_last() =~= done);
            assert(done + lines(s@.skip(p as int)) =~= done.push(piece@) + lines(s@.skip(np as int)));
            done = done.push(piece@);
        }
        p = np;
    }
    proof {
        assert(s@.skip(p as int).len() == 0);
        assert(done + Seq::<Seq<char>>::empty() =~= done);
    }
    rows
}

/// The second `|`-separated field of a line, if it has one.
pub open spec fn second_field(l: Seq<char>) -> Option<Seq<char>> {
    match bar_at(l) {
        None => None,
        Some(i) => {
            let rest = l.skip(i + 1);
            match bar_at(rest) {
                None => Some(rest),
                Some(j) => Some(rest.take(j)),
            }
        },
    }
}

/// The column names in the answer to `PRAGMA table_info`: the second field
/// of each line that has one.
pub open spec fn pragma_columns(ls: Seq<Seq<char>>) -> Seq<Seq<char>>
    decreases ls.len(),
{
    if ls.len() == 0 {
        Seq::empty()
    } else {
        let prev = pragma_columns(ls.drop_last());
        match second_field(ls.last()) {
            Some(f) => prev.push(f),
            None => prev,
        }
    }
}

fn second_field_of(l: &[char]) -> (r: Option<Vec<char>>)
    ensures
        match r {
            Some(v) => second_field(l@) == Some(v@),
            None => second_field(l@) is None,
        },
{
    let sep = bar();
    let len = l.len();
    match find_slice(l, sep.as_slice()) {
        None => None,
        Some(i) => {
            proof {
                assert(find(l@, seq!['|']) == Some(i as int));
                crate::text::lemma_find_from_range(l@, seq!['|'], 0);
                assert(i + 1 <= l@.len());
            }
            let rest = &l[i + 1..len];
            proof {
                assert(rest@ =~= l@.skip(i + 1));
            }
            match find_slice(rest, sep.as_slice()) {
                None => Some(crate::text::copy_chars(rest)),
                Some(j) => {
                    proof {
                        assert(find(rest@, seq!['|']) == Some(j as int));
                        crate::text::lemma_find_from_range(rest@, seq!['|'], 0);
                    }
                    let f = &rest[0..j];
                    proof {
                        assert(f@ =~= rest@.take(j as int));
                    }
                    Some(crate::text::copy_chars(f))
                },
            }
        },
    }
}

/// Reads the column names from `PRAGMA table_info` output.
pub fn parse_pragma_columns(raw: &str) -> (r: Vec<String>)
    ensures
        names_of(r@) == pragma_columns(lines(raw@)),
{
    let cv = chars_of(raw);
    let s = cv.as_slice();
    let n = s.len();
    let mut cols: Vec<String> = Vec::new();
    let mut p: usize = 0;
    let ghost done: Seq<Seq<char>> = Seq::empty();
    proof {
        assert(s@.skip(0) =~= s@);
        assert(names_of(cols@) =~= Seq::<Seq<char>>::empty());
    }
    while p < n
        invariant
            n == s@.len(),
            p <= n,
            s@ == raw@,
            lines(s@) == done + lines(s@.skip(p as int)),
            names_of(cols@) == pragma_columns(done),
        decreases n - p,
    {
        let (b, np) = next_line(s, p);
        let piece = &s[p..b];
        proof {
            assert(piece@ =~= s@.subrange(p as int, b as int));
        }
        let ghost before = names_of(cols@);
        match second_field_of(piece) {
            Some(f) => {
                cols.push(string_from_chars(f.as_slice()));
                proof {
                    assert(names_of(cols@) =~= before.push(f@));
                }
            },
            None => {},
        }
        proof {
            assert(done.push(piece@).drop_last() =~= done);
            assert(done + lines(s@.skip(p as int)) =~= done.push(piece@) + lines(s@.skip(np as int)));
            done = done.push(piece@);
        }
        p = np;
    }
    proof {
        assert(s@.skip(p as int).len() == 0);
        assert(done + Seq::<Seq<char>>::empty() =~= done);
    }
    cols
}


/// `t` with each `'` written as `'\''`, to stand inside single quotes in
/// a shell command.
pub open spec fn shell_quoted(t: Seq<char>) -> Seq<char>
    decreases t.len(),
{
    if t.len() == 0 {
        Seq::empty()
    } else {
        shell_quoted(t.drop_last()) + if t.last() == '\'' {
            seq!['\'', '\\', '\'', '\'']
        } else {
            seq![t.last()]
        }
    }
}

fn push_shell_quoted(out: &mut Vec<char>, t: &[char])
    ensures
        final(out)@ == old(out)@ + shell_quoted(t@),
{
    let mut i: usize = 0;
    while i < t.len()
        invariant
            i <= t@.len(),
            out@ == old(out)@ + shell_quoted(t@.take(i as int)),
        decreases t@.len() - i,
    {
        let ghost before = out@;
        if t[i] == '\'' {
            out.push('\'');
            out.push('\\');
            out.push('\'');
            out.push('\'');
        } else {
            out.push(t[i]);
        }
        proof {
            assert(t@.take(i + 1).drop_last() =~= t@.take(i as int));
            assert(out@ =~= before + if t@[i as int] == '\'' {
                seq!['\'', '\\', '\'', '\'']
            } else {
                seq![t@[i as int]]
            });
        }
        i = i + 1;
    }
    proof {
        assert(t@.take(i as int) =~= t@);
    }
}

/// The device shell command that runs `sql` on database `db` of
/// `package`: `run-as <package> sqlite3 databases/<db> '<sql>'`.
pub fn sqlite_command(package: &str, db: &str, sql: &str) -> (r: String)
    ensures
        r@ == "run-as "@ + package@ + " sqlite3 databases/"@ + db@ + " '"@ + shell_quoted(sql@) + "'"@,
{
    let mut out = chars_of("run-as ");
    let p = chars_of(package);
    extend_chars(&mut out, p.as_slice());
    let a = chars_of(" sqlite3 databases/");
    extend_chars(&mut out, a.as_slice());
    let d = chars_of(db);
    extend_chars(&mut out, d.as_slice());
    let b = chars_of(" '");
    extend_chars(&mut out, b.as_slice());
    let q = chars_of(sql);
    push_shell_quoted(&mut out, q.as_slice());
    let c = chars_of("'");
    extend_chars(&mut out, c.as_slice());
    string_from_chars(out.as_slice())
}
} // verus!
