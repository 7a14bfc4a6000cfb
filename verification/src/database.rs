//! Database panel: the app's SQLite databases as a tree of tables, a
//! paged view of one table that follows its tail, and a SQL prompt.

use vstd::prelude::*;
use tui_textarea::Key as K;
use tui_textarea::TextArea;
use crate::app::Action;
use crate::clock::{millis_since, now};
use crate::keys::{KeyCode, KeyEvent, TextKey, text_key, text_key_of};
use crate::keys::TextKey as T;
use crate::names::{NameListMap, NameSet, names_of};
use crate::text::{ascii_lower_seq, ascii_lower_vec, chars_of, eq_chars, extend_chars, lines,
    next_line, string_from_chars, trim, trim_slice};

verus! {

/// Rows fetched per page of a table.
pub const TABLE_PAGE_SIZE: usize = 50;
/// How often a table parked at its tail is fetched again, in milliseconds.
pub const AUTO_REFRESH_MS: u128 = 1000;
/// Rows from the edge of the loaded window at which the next page is
/// fetched.
pub const PREFETCH_MARGIN: usize = 10;

// ---------------------------------------------------------------------------
// The SQL prompt's text area
// ---------------------------------------------------------------------------

/// The prompt's line editor: a `tui_textarea::TextArea`, which holds the
/// lines of the prompt, its cursor and its selection. It sits in a private
/// field and is reached only through the functions below.
#[verifier::external_body]
pub struct Editor {
    area: TextArea<'static>,
}

/// The lines of text in the editor.
pub uninterp spec fn editor_lines(e: Editor) -> Seq<Seq<char>>;

/// The editor's cursor as (row, column), counted in characters, while no
/// text is selected; `None` while a selection is active.
pub uninterp spec fn editor_caret(e: Editor) -> Option<(int, int)>;

/// `s` without one trailing carriage return.
pub open spec fn strip_cr_end(s: Seq<char>) -> Seq<char> {
    if s.len() > 0 && s.last() == '\r' {
        s.drop_last()
    } else {
        s
    }
}

/// The cursor is on a line and at most at that line's end.
pub open spec fn caret_in(lines: Seq<Seq<char>>, caret: Option<(int, int)>) -> bool {
    caret matches Some(p) && 0 <= p.0 < lines.len() && 0 <= p.1 <= lines[p.0].len()
}

/// The cursor's row (0 while text is selected).
pub open spec fn caret_row(caret: Option<(int, int)>) -> int {
    match caret {
        Some(p) => p.0,
        None => 0,
    }
}

/// The cursor's column (0 while text is selected).
pub open spec fn caret_col(caret: Option<(int, int)>) -> int {
    match caret {
        Some(p) => p.1,
        None => 0,
    }
}

/// Line `r` broken in two at column `c`.
pub open spec fn broken_at(lines: Seq<Seq<char>>, r: int, c: int) -> Seq<Seq<char>> {
    lines.take(r) + seq![lines[r].take(c), lines[r].skip(c)] + lines.skip(r + 1)
}

/// What Backspace does at (`r`, `c`): removes the character before the
/// cursor, or at the start of a line joins it to the line above; nothing
/// at the very start. The new lines and cursor.
pub open spec fn backspaced(lines: Seq<Seq<char>>, r: int, c: int) -> (Seq<Seq<char>>, (int, int)) {
    if c > 0 {
        (lines.update(r, lines[r].take(c - 1) + lines[r].skip(c)), (r, c - 1))
    } else if r > 0 {
        (lines.take(r - 1) + seq![lines[r - 1] + lines[r]] + lines.skip(r + 1), (r - 1, lines[r - 1].len() as int))
    } else {
        (lines, (r, c))
    }
}

/// The length of line `r`.
pub open spec fn line_len_at(lines: Seq<Seq<char>>, r: int) -> int {
    lines[r].len() as int
}

/// `c` cut down to the length of line `r`.
pub open spec fn fit_col(lines: Seq<Seq<char>>, r: int, c: int) -> int {
    if c < line_len_at(lines, r) {
        c
    } else {
        line_len_at(lines, r)
    }
}

/// Lines `r` and `r + 1` joined into one.
pub open spec fn joined_with_next(lines: Seq<Seq<char>>, r: int) -> Seq<Seq<char>> {
    lines.take(r) + seq![lines[r] + lines[r + 1]] + lines.skip(r + 2)
}

/// What Delete does at (`r`, `c`): removes the character under the cursor,
/// or at a line's end joins the next line to it; nothing at the very end.
pub open spec fn deleted_forward(lines: Seq<Seq<char>>, r: int, c: int) -> (Seq<Seq<char>>, (int, int)) {
    if c < line_len_at(lines, r) {
        (lines.update(r, lines[r].take(c) + lines[r].skip(c + 1)), (r, c))
    } else if r + 1 < lines.len() {
        (joined_with_next(lines, r), (r, c))
    } else {
        (lines, (r, c))
    }
}

/// Where a cursor move lands, when it moves at all.
pub enum Move {
    Forward,
    Back,
    Up,
    Down,
    Head,
    End,
    Top,
    Bottom,
}

/// The cursor after `m` from (`r`, `c`): `None` when there is nowhere to go
/// (past the first or last character, above the first or below the last
/// line).
pub open spec fn move_target(lines: Seq<Seq<char>>, r: int, c: int, m: Move) -> Option<(int, int)> {
    match m {
        Move::Forward => if c >= line_len_at(lines, r) {
            if r + 1 < lines.len() {
                Some((r + 1, 0))
            } else {
                None
            }
        } else {
            Some((r, c + 1))
        },
        Move::Back => if c == 0 {
            if r > 0 {
                Some((r - 1, line_len_at(lines, r - 1)))
            } else {
                None
            }
        } else {
            Some((r, c - 1))
        },
        Move::Up => if r > 0 {
            Some((r - 1, fit_col(lines, r - 1, c)))
        } else {
            None
        },
        Move::Down => if r + 1 < lines.len() {
            Some((r + 1, fit_col(lines, r + 1, c)))
        } else {
            None
        },
        Move::Head => Some((r, 0)),
        Move::End => Some((r, line_len_at(lines, r))),
        Move::Top => Some((0, fit_col(lines, 0, c))),
        Move::Bottom => Some(((lines.len() - 1) as int, fit_col(lines, lines.len() - 1, c))),
    }
}

/// A cursor move: the text stays; with Shift a selection starts, else the
/// cursor lands on the target; nothing changes when there is no target.
pub open spec fn moved(lines: Seq<Seq<char>>, r: int, c: int, m: Move, shift: bool) -> Option<
    (Seq<Seq<char>>, Option<(int, int)>),
> {
    match move_target(lines, r, c, m) {
        None => Some((lines, Some((r, c)))),
        Some(t) => Some((lines, if shift {
            None
        } else {
            Some(t)
        })),
    }
}

/// An edit: the new lines, the new cursor, nothing selected.
pub open spec fn edit(e: (Seq<Seq<char>>, (int, int))) -> Option<(Seq<Seq<char>>, Option<(int, int)>)> {
    Some((e.0, Some(e.1)))
}

/// The key does nothing.
pub open spec fn unchanged(lines: Seq<Seq<char>>, r: int, c: int) -> Option<(Seq<Seq<char>>, Option<(int, int)>)> {
    Some((lines, Some((r, c))))
}

/// A character typed with Ctrl held.
pub open spec fn ctrl_char_edit(lines: Seq<Seq<char>>, r: int, c: int, ch: char, shift: bool) -> Option<
    (Seq<Seq<char>>, Option<(int, int)>),
> {
    if ch == 'm' {
        edit((broken_at(lines, r, c), (r + 1, 0)))
    } else if ch == 'h' {
        edit(backspaced(lines, r, c))
    } else if ch == 'd' {
        edit(deleted_forward(lines, r, c))
    } else if ch == 'k' {
        if c < line_len_at(lines, r) {
            edit((lines.update(r, lines[r].take(c)), (r, c)))
        } else {
            edit(deleted_forward(lines, r, c))
        }
    } else if ch == 'j' {
        if c > 0 {
            edit((lines.update(r, lines[r].skip(c)), (r, 0)))
        } else {
            edit(backspaced(lines, r, c))
        }
    } else if ch == 'n' {
        moved(lines, r, c, Move::Down, shift)
    } else if ch == 'p' {
        moved(lines, r, c, Move::Up, shift)
    } else if ch == 'f' {
        moved(lines, r, c, Move::Forward, shift)
    } else if ch == 'b' {
        moved(lines, r, c, Move::Back, shift)
    } else if ch == 'a' {
        moved(lines, r, c, Move::Head, shift)
    } else if ch == 'e' {
        moved(lines, r, c, Move::End, shift)
    } else if ch == 'w' || ch == 'u' || ch == 'r' || ch == 'y' || ch == 'x' || ch == 'c' || ch == 'v' {
        None
    } else {
        unchanged(lines, r, c)
    }
}

/// A character typed with Alt held (and not Ctrl).
pub open spec fn alt_char_edit(lines: Seq<Seq<char>>, r: int, c: int, ch: char, shift: bool) -> Option<
    (Seq<Seq<char>>, Option<(int, int)>),
> {
    if ch == '<' {
        moved(lines, r, c, Move::Top, shift)
    } else if ch == '>' {
        moved(lines, r, c, Move::Bottom, shift)
    } else if ch == 'h' || ch == 'd' || ch == 'f' || ch == 'b' || ch == ']' || ch == 'n' || ch == '['
        || ch == 'p' || ch == 'v' {
        None
    } else {
        unchanged(lines, r, c)
    }
}

/// What a key press does to the text and the cursor at (`r`, `c`) with
/// nothing selected, by the editor's default bindings; `None` for the
/// bindings not stated here (tab, word and paragraph moves and deletes,
/// paging, undo and redo, cut, copy and paste).
pub open spec fn key_edit(
    lines: Seq<Seq<char>>,
    r: int,
    c: int,
    key: TextKey,
    ctrl: bool,
    alt: bool,
    shift: bool,
) -> Option<(Seq<Seq<char>>, Option<(int, int)>)> {
    match key {
        TextKey::Enter => edit((broken_at(lines, r, c), (r + 1, 0))),
        TextKey::Char(ch) => if !ctrl && !alt {
            if ch == '\n' || ch == '\r' {
                edit((broken_at(lines, r, c), (r + 1, 0)))
            } else {
                edit((lines.update(r, lines[r].take(c).push(ch) + lines[r].skip(c)), (r, c + 1)))
            }
        } else if ctrl && !alt {
            ctrl_char_edit(lines, r, c, ch, shift)
        } else if alt && !ctrl {
            alt_char_edit(lines, r, c, ch, shift)
        } else if ch == 'b' {
            moved(lines, r, c, Move::Head, shift)
        } else if ch == 'f' {
            moved(lines, r, c, Move::End, shift)
        } else if ch == 'p' {
            moved(lines, r, c, Move::Top, shift)
        } else if ch == 'n' {
            moved(lines, r, c, Move::Bottom, shift)
        } else {
            unchanged(lines, r, c)
        },
        TextKey::Backspace => if !ctrl && !alt {
            edit(backspaced(lines, r, c))
        } else if alt && !ctrl {
            None
        } else {
            unchanged(lines, r, c)
        },
        TextKey::Delete => if !ctrl && !alt {
            edit(deleted_forward(lines, r, c))
        } else if alt && !ctrl {
            None
        } else {
            unchanged(lines, r, c)
        },
        TextKey::Left => if !ctrl && !alt {
            moved(lines, r, c, Move::Back, shift)
        } else if ctrl && alt {
            moved(lines, r, c, Move::Head, shift)
        } else if ctrl {
            None
        } else {
            unchanged(lines, r, c)
        },
        TextKey::Right => if !ctrl && !alt {
            moved(lines, r, c, Move::Forward, shift)
        } else if ctrl && alt {
            moved(lines, r, c, Move::End, shift)
        } else if ctrl {
            None
        } else {
            unchanged(lines, r, c)
        },
        TextKey::Up => if !ctrl && !alt {
            moved(lines, r, c, Move::Up, shift)
        } else if ctrl && alt {
            moved(lines, r, c, Move::Top, shift)
        } else if ctrl {
            None
        } else {
            unchanged(lines, r, c)
        },
        TextKey::Down => if !ctrl && !alt {
            moved(lines, r, c, Move::Down, shift)
        } else if ctrl && alt {
            moved(lines, r, c, Move::Bottom, shift)
        } else if ctrl {
            None
        } else {
            unchanged(lines, r, c)
        },
        TextKey::Home => moved(lines, r, c, Move::Head, shift),
        TextKey::End => moved(lines, r, c, Move::End, shift),
        TextKey::Tab => if !ctrl && !alt {
            None
        } else {
            unchanged(lines, r, c)
        },
        TextKey::PageUp | TextKey::PageDown => None,
        TextKey::Esc | TextKey::F(_) | TextKey::Null => unchanged(lines, r, c),
    }
}

/// `TextArea::default`: one empty line, the cursor at its start, nothing
/// selected (as its source and documentation show).
#[verifier::external_body]
fn editor_default() -> (r: Editor)
    ensures
        editor_lines(r) == seq![Seq::<char>::empty()],
        editor_caret(r) == Some((0int, 0int)),
{
    Editor { area: TextArea::default() }
}

impl Editor {
    /// `TextArea::set_cursor_line_style` with the plain style: only how the
    /// cursor line is drawn changes.
    #[verifier::external_body]
    fn plain_cursor_line(&mut self)
        ensures
            editor_lines(*final(self)) == editor_lines(*old(self)),
            editor_caret(*final(self)) == editor_caret(*old(self)),
    {
        self.area.set_cursor_line_style(ratatui::style::Style::default());
    }

    /// `TextArea::insert_str`. Inserted into an empty editor with the cursor
    /// at its start, text without a line break becomes the one line (less a
    /// trailing carriage return, which the method drops) and the cursor
    /// ends after it. What it does elsewhere is not stated here.
    #[verifier::external_body]
    pub fn insert_str(&mut self, s: &str)
        ensures
            editor_lines(*old(self)) == seq![Seq::<char>::empty()] && editor_caret(*old(self)) == Some((0int, 0int))
                && !s@.contains('\n') ==> editor_lines(*final(self)) == seq![strip_cr_end(s@)] && editor_caret(
                *final(self),
            ) == Some((0int, strip_cr_end(s@).len() as int)),
    {
        self.area.insert_str(s);
    }

    /// `TextArea::input` with a key press. With the cursor on the text and
    /// nothing selected, what the default bindings (`input` and the
    /// methods it calls: `insert_newline`, `insert_char`, `delete_char`,
    /// `delete_next_char`, `delete_line_by_end`, `delete_line_by_head`,
    /// `move_cursor_with_shift`) do to the lines and the cursor is
    /// `key_edit`'s answer; the bindings it leaves open are not stated.
    #[verifier::external_body]
    fn input(&mut self, key: TextKey, ctrl: bool, alt: bool, shift: bool) -> (modified: bool)
        ensures
            caret_in(editor_lines(*old(self)), editor_caret(*old(self))) ==> match key_edit(
                editor_lines(*old(self)),
                caret_row(editor_caret(*old(self))),
                caret_col(editor_caret(*old(self))),
                key,
                ctrl,
                alt,
                shift,
            ) {
                Some(e) => editor_lines(*final(self)) == e.0 && editor_caret(*final(self)) == e.1,
                None => true,
            },
    {
        let key = match key {
            T::Char(c) => K::Char(c), T::F(n) => K::F(n), T::Backspace => K::Backspace,
            T::Enter => K::Enter, T::Left => K::Left, T::Right => K::Right, T::Up => K::Up,
            T::Down => K::Down, T::Tab => K::Tab, T::Delete => K::Delete, T::Home => K::Home,
            T::End => K::End, T::PageUp => K::PageUp, T::PageDown => K::PageDown, T::Esc => K::Esc,
            T::Null => K::Null,
        };
        self.area.input(tui_textarea::Input { key, ctrl, alt, shift })
    }

    /// `TextArea::lines`, as owned strings.
    #[verifier::external_body]
    pub fn lines(&self) -> (r: Vec<String>)
        ensures
            names_of(r@) == editor_lines(*self),
    {
        self.area.lines().to_vec()
    }

    /// `TextArea::cursor`: the (row, column) of the cursor.
    #[verifier::external_body]
    pub fn cursor(&self) -> (r: (usize, usize))
        ensures
            editor_caret(*self) matches Some(p) ==> r.0 as int == p.0 && r.1 as int == p.1,
    {
        self.area.cursor()
    }
}

/// An empty editor whose cursor line is drawn plainly.
pub fn new_textarea() -> (r: Editor)
    ensures
        editor_lines(r) == seq![Seq::<char>::empty()],
        editor_caret(r) == Some((0int, 0int)),
{
    let mut ta = editor_default();
    ta.plain_cursor_line();
    ta
}

/// All lines run together.
pub open spec fn joined(ls: Seq<Seq<char>>) -> Seq<char>
    decreases ls.len(),
{
    if ls.len() == 0 {
        Seq::empty()
    } else {
        joined(ls.drop_last()) + ls.last()
    }
}

// ---------------------------------------------------------------------------
// Data
// ---------------------------------------------------------------------------

#[derive(Debug, Clone, PartialEq)]
pub enum ReplLine {
    Input(String),
    Output(String),
    Error(String),
}

pub ghost enum ReplView {
    Input(Seq<char>),
    Output(Seq<char>),
    Error(Seq<char>),
}

pub open spec fn repl_view(l: ReplLine) -> ReplView {
    match l {
        ReplLine::Input(s) => ReplView::Input(s@),
        ReplLine::Output(s) => ReplView::Output(s@),
        ReplLine::Error(s) => ReplView::Error(s@),
    }
}

pub open spec fn repl_views(v: Seq<ReplLine>) -> Seq<ReplView> {
    v.map_values(|l: ReplLine| repl_view(l))
}

/// One row of the database tree.
#[derive(Debug, Clone, PartialEq)]
pub enum TreeNode {
    Database { name: String, expanded: bool },
    Table { db: String, name: String },
    Loading { db: String },
    NoTables { db: String },
}

pub ghost enum TreeRow {
    Database { name: Seq<char>, expanded: bool },
    Table { db: Seq<char>, name: Seq<char> },
    Loading { db: Seq<char> },
    NoTables { db: Seq<char> },
}

pub open spec fn tree_row(n: TreeNode) -> TreeRow {
    match n {
        TreeNode::Database { name, expanded } => TreeRow::Database { name: name@, expanded },
        TreeNode::Table { db, name } => TreeRow::Table { db: db@, name: name@ },
        TreeNode::Loading { db } => TreeRow::Loading { db: db@ },
        TreeNode::NoTables { db } => TreeRow::NoTables { db: db@ },
    }
}

pub open spec fn tree_rows(v: Seq<TreeNode>) -> Seq<TreeRow> {
    v.map_values(|n: TreeNode| tree_row(n))
}

/// A window of a table's rows: `rows[i]` is row `offset + i` of a table
/// that had `row_count` rows when fetched.
#[derive(Debug, Clone)]
pub struct TableData {
    pub db: String,
    pub table: String,
    pub columns: Vec<String>,
    pub rows: Vec<Vec<String>>,
    pub row_count: usize,
    pub offset: usize,
}

pub ghost struct TableView {
    pub db: Seq<char>,
    pub table: Seq<char>,
    pub columns: Seq<Seq<char>>,
    pub rows: Seq<Seq<Seq<char>>>,
    pub row_count: int,
    pub offset: int,
}

pub open spec fn rows_view(rows: Seq<Vec<String>>) -> Seq<Seq<Seq<char>>> {
    rows.map_values(|r: Vec<String>| names_of(r@))
}

impl View for TableData {
    type V = TableView;

    open spec fn view(&self) -> TableView {
        TableView {
            db: self.db@,
            table: self.table@,
            columns: names_of(self.columns@),
            rows: rows_view(self.rows@),
            row_count: self.row_count as int,
            offset: self.offset as int,
        }
    }
}

/// Which slice of a table a fetch asks for.
#[derive(Debug, Clone, Copy)]
pub enum FetchKind {
    /// The last `TABLE_PAGE_SIZE` rows.
    Tail,
    /// The page starting at this row.
    At(usize),
}

// ---------------------------------------------------------------------------
// Panel state
// ---------------------------------------------------------------------------

pub struct DatabaseState {
    pub databases: Vec<String>,
    pub error: Option<String>,
    pub expanded: NameSet,
    pub tables: NameListMap,
    pub tables_loading: NameSet,
    pub tree_cursor: usize,
    pub detail_open: bool,
    pub detail_focused: bool,
    pub detail_scroll: usize,
    pub detail_h_scroll: usize,
    pub detail_visible_rows: usize,
    pub selected_table: Option<(String, String)>,
    pub table_data: Option<TableData>,
    pub table_loading: bool,
    pub table_error: Option<String>,
    pub last_refresh: Option<std::time::Instant>,
    pub panel_visible: bool,
    pub repl_active: bool,
    pub repl_db: Option<String>,
    pub history: Vec<ReplLine>,
    pub textarea: Editor,
    pub query_history: Vec<String>,
    pub history_index: Option<usize>,
    pub repl_scroll: usize,
    pub editing_query: bool,
    pub confirming_pull: Option<String>,
    pub copied_at: Option<std::time::Instant>,
}

pub ghost struct DbView {
    pub databases: Seq<Seq<char>>,
    pub error: Option<Seq<char>>,
    pub expanded: Set<Seq<char>>,
    pub tables: Map<Seq<char>, Seq<Seq<char>>>,
    pub tables_loading: Set<Seq<char>>,
    pub tree_cursor: int,
    pub detail_open: bool,
    pub detail_focused: bool,
    pub detail_scroll: int,
    pub detail_h_scroll: int,
    pub detail_visible_rows: int,
    pub selected_table: Option<(Seq<char>, Seq<char>)>,
    pub table_data: Option<TableView>,
    pub table_loading: bool,
    pub table_error: Option<Seq<char>>,
    pub last_refresh: Option<std::time::Instant>,
    pub panel_visible: bool,
    pub repl_active: bool,
    pub repl_db: Option<Seq<char>>,
    pub history: Seq<ReplView>,
    pub text: Seq<Seq<char>>,
    /// Where typed text lands: the cursor's row and column, when no text is
    /// selected.
    pub caret: Option<(int, int)>,
    pub query_history: Seq<Seq<char>>,
    pub history_index: Option<int>,
    pub repl_scroll: int,
    pub editing_query: bool,
    pub confirming_pull: Option<Seq<char>>,
    pub copied_at: Option<std::time::Instant>,
}

pub open spec fn opt_text(o: Option<String>) -> Option<Seq<char>> {
    match o {
        Some(s) => Some(s@),
        None => None,
    }
}

pub open spec fn opt_pair(o: Option<(String, String)>) -> Option<(Seq<char>, Seq<char>)> {
    match o {
        Some(p) => Some((p.0@, p.1@)),
        None => None,
    }
}

pub open spec fn opt_table(o: Option<TableData>) -> Option<TableView> {
    match o {
        Some(t) => Some(t@),
        None => None,
    }
}

pub open spec fn opt_index(o: Option<usize>) -> Option<int> {
    match o {
        Some(i) => Some(i as int),
        None => None,
    }
}

impl View for DatabaseState {
    type V = DbView;

    open spec fn view(&self) -> DbView {
        DbView {
            databases: names_of(self.databases@),
            error: opt_text(self.error),
            expanded: self.expanded.view(),
            tables: self.tables.view(),
            tables_loading: self.tables_loading.view(),
            tree_cursor: self.tree_cursor as int,
            detail_open: self.detail_open,
            detail_focused: self.detail_focused,
            detail_scroll: self.detail_scroll as int,
            detail_h_scroll: self.detail_h_scroll as int,
            detail_visible_rows: self.detail_visible_rows as int,
            selected_table: opt_pair(self.selected_table),
            table_data: opt_table(self.table_data),
            table_loading: self.table_loading,
            table_error: opt_text(self.table_error),
            last_refresh: self.last_refresh,
            panel_visible: self.panel_visible,
            repl_active: self.repl_active,
            repl_db: opt_text(self.repl_db),
            history: repl_views(self.history@),
            text: editor_lines(self.textarea),
            caret: editor_caret(self.textarea),
            query_history: names_of(self.query_history@),
            history_index: opt_index(self.history_index),
            repl_scroll: self.repl_scroll as int,
            editing_query: self.editing_query,
            confirming_pull: opt_text(self.confirming_pull),
            copied_at: self.copied_at,
        }
    }
}

/// The state of a panel just opened: nothing loaded, nothing open.
pub open spec fn fresh_view(v: DbView) -> bool {
    &&& v.databases.len() == 0
    &&& v.error is None
    &&& v.expanded == Set::<Seq<char>>::empty()
    &&& v.tables == Map::<Seq<char>, Seq<Seq<char>>>::empty()
    &&& v.tables_loading == Set::<Seq<char>>::empty()
    &&& v.tree_cursor == 0
    &&& !v.detail_open
    &&& !v.detail_focused
    &&& v.detail_scroll == 0
    &&& v.detail_h_scroll == 0
    &&& v.detail_visible_rows == 0
    &&& v.selected_table is None
    &&& v.table_data is None
    &&& !v.table_loading
    &&& v.table_error is None
    &&& v.last_refresh is None
    &&& v.panel_visible
    &&& !v.repl_active
    &&& v.repl_db is None
    &&& v.history.len() == 0
    &&& v.text == seq![Seq::<char>::empty()]
    &&& v.caret == Some((0int, 0int))
    &&& v.query_history.len() == 0
    &&& v.history_index is None
    &&& v.repl_scroll == 0
    &&& !v.editing_query
    &&& v.confirming_pull is None
    &&& v.copied_at is None
}

/// The rows for one database: the database itself and, when expanded,
/// its tables (or a loading or no-tables row).
pub open spec fn db_rows(
    db: Seq<char>,
    expanded: Set<Seq<char>>,
    loading: Set<Seq<char>>,
    tables: Map<Seq<char>, Seq<Seq<char>>>,
) -> Seq<TreeRow> {
    let head = seq![TreeRow::Database { name: db, expanded: expanded.contains(db) }];
    if !expanded.contains(db) {
        head
    } else if loading.contains(db) {
        head.push(TreeRow::Loading { db })
    } else if tables.contains_key(db) {
        if tables[db].len() == 0 {
            head.push(TreeRow::NoTables { db })
        } else {
            head + tables[db].map_values(|t: Seq<char>| TreeRow::Table { db, name: t })
        }
    } else {
        head.push(TreeRow::Loading { db })
    }
}

/// The tree rows of databases `dbs`, in order.
pub open spec fn tree_of(
    dbs: Seq<Seq<char>>,
    expanded: Set<Seq<char>>,
    loading: Set<Seq<char>>,
    tables: Map<Seq<char>, Seq<Seq<char>>>,
) -> Seq<TreeRow>
    decreases dbs.len(),
{
    if dbs.len() == 0 {
        Seq::empty()
    } else {
        tree_of(dbs.drop_last(), expanded, loading, tables) + db_rows(dbs.last(), expanded, loading, tables)
    }
}

pub open spec fn tree_view(v: DbView) -> Seq<TreeRow> {
    tree_of(v.databases, v.expanded, v.tables_loading, v.tables)
}

/// The database a tree row belongs to.
pub open spec fn row_db(r: TreeRow) -> Seq<char> {
    match r {
        TreeRow::Database { name, .. } => name,
        TreeRow::Table { db, .. } => db,
        TreeRow::Loading { db } => db,
        TreeRow::NoTables { db } => db,
    }
}

/// The database under the tree cursor.
pub open spec fn cursor_db_of(v: DbView) -> Option<Seq<char>> {
    if 0 <= v.tree_cursor < tree_view(v).len() {
        Some(row_db(tree_view(v)[v.tree_cursor]))
    } else {
        None
    }
}

/// The cursor kept on a row: the last row if it is past the end, `0` for
/// an empty tree.
pub open spec fn clamped_cursor(cursor: int, len: int) -> int {
    if len == 0 {
        0
    } else if cursor >= len {
        len - 1
    } else {
        cursor
    }
}

fn copy_text(s: &String) -> (r: String)
    ensures
        r@ == s@,
{
    s.clone()
}

fn copy_names(v: &Vec<String>) -> (r: Vec<String>)
    ensures
        names_of(r@) == names_of(v@),
{
    let mut r: Vec<String> = Vec::new();
    let mut i: usize = 0;
    while i < v.len()
        invariant
            i <= v@.len(),
            names_of(r@) == names_of(v@).take(i as int),
        decreases v@.len() - i,
    {
        let ghost before = names_of(r@);
        r.push(v[i].clone());
        proof {
            assert(names_of(r@) =~= before.push(v@[i as int]@));
            assert(names_of(v@).take(i + 1) =~= names_of(v@).take(i as int).push(v@[i as int]@));
        }
        i = i + 1;
    }
    proof {
        assert(names_of(v@).take(i as int) =~= names_of(v@));
    }
    r
}

impl DatabaseState {
    pub fn new() -> (r: Self)
        ensures
            fresh_view(r@),
    {
        let r = Self {
            databases: Vec::new(),
            error: None,
            expanded: NameSet::new(),
            tables: NameListMap::new(),
            tables_loading: NameSet::new(),
            tree_cursor: 0,
            detail_open: false,
            detail_focused: false,
            detail_scroll: 0,
            detail_h_scroll: 0,
            detail_visible_rows: 0,
            selected_table: None,
            table_data: None,
            table_loading: false,
            table_error: None,
            last_refresh: None,
            panel_visible: true,
            repl_active: false,
            repl_db: None,
            history: Vec::new(),
            textarea: new_textarea(),
            query_history: Vec::new(),
            history_index: None,
            repl_scroll: 0,
            editing_query: false,
            confirming_pull: None,
            copied_at: None,
        };
        proof {
            assert(names_of(r.databases@) =~= Seq::<Seq<char>>::empty());
            assert(repl_views(r.history@) =~= Seq::<ReplView>::empty());
            assert(names_of(r.query_history@) =~= Seq::<Seq<char>>::empty());
        }
        r
    }

    /// The rows of the database tree, top to bottom.
    pub fn flatten_tree(&self) -> (r: Vec<TreeNode>)
        ensures
            tree_rows(r@) == tree_view(self@),
    {
        let ghost v = self@;
        let mut out: Vec<TreeNode> = Vec::new();
        let mut i: usize = 0;
        while i < self.databases.len()
            invariant
                v == self@,
                i <= self.databases@.len(),
                tree_rows(out@) == tree_of(names_of(self.databases@).take(i as int), v.expanded, v.tables_loading, v.tables),
            decreases self.databases@.len() - i,
        {
            let db = &self.databases[i];
            let ghost before = tree_rows(out@);
            let ghost d = db@;
            let expanded = self.expanded.contains(db.as_str());
            out.push(TreeNode::Database { name: db.clone(), expanded });
            if expanded {
                if self.tables_loading.contains(db.as_str()) {
                    out.push(TreeNode::Loading { db: db.clone() });
                } else {
                    match self.tables.get(db.as_str()) {
                        Some(tables) => {
                            if tables.len() == 0 {
                                out.push(TreeNode::NoTables { db: db.clone() });
                            } else {
                                let mut k: usize = 0;
                                while k < tables.len()
                                    invariant
                                        k <= tables@.len(),
                                        d == db@,
                                        tree_rows(out@) == before + seq![TreeRow::Database { name: d, expanded: true }]
                                            + names_of(tables@).take(k as int).map_values(|t: Seq<char>| TreeRow::Table { db: d, name: t }),
                                    decreases tables@.len() - k,
                                {
                                    let ghost mid = tree_rows(out@);
                                    out.push(TreeNode::Table { db: db.clone(), name: tables[k].clone() });
                                    proof {
                                        assert(tree_rows(out@) =~= mid.push(TreeRow::Table { db: d, name: tables@[k as int]@ }));
                                        assert(names_of(tables@).take(k + 1) =~= names_of(tables@).take(k as int).push(tables@[k as int]@));
                                        assert(names_of(tables@).take(k + 1).map_values(|t: Seq<char>| TreeRow::Table { db: d, name: t })
                                            =~= names_of(tables@).take(k as int).map_values(|t: Seq<char>| TreeRow::Table { db: d, name: t }).push(TreeRow::Table { db: d, name: tables@[k as int]@ }));
                                    }
                                    k = k + 1;
                                }
                                proof {
                                    assert(names_of(tables@).take(k as int) =~= names_of(tables@));
                                }
                            }
                        },
                        None => {
                            out.push(TreeNode::Loading { db: db.clone() });
                        },
                    }
                }
            }
            proof {
                let dbs = names_of(self.databases@);
                assert(dbs.take(i + 1).drop_last() =~= dbs.take(i as int));
                assert(dbs.take(i + 1).last() == d);
                assert(tree_rows(out@) =~= before + db_rows(d, v.expanded, v.tables_loading, v.tables));
            }
            i = i + 1;
        }
        proof {
            assert(names_of(self.databases@).take(i as int) =~= names_of(self.databases@));
        }
        out
    }
}

/// The REPL opened on database `db`: editing an empty prompt with no
/// history.
pub open spec fn repl_opened(v: DbView, db: Seq<char>) -> DbView {
    DbView {
        repl_active: true,
        repl_db: Some(db),
        editing_query: true,
        history: Seq::empty(),
        text: seq![Seq::<char>::empty()],
        caret: Some((0int, 0int)),
        query_history: Seq::empty(),
        history_index: None,
        repl_scroll: 0,
        ..v
    }
}

/// The table detail closed, with everything about the shown table dropped.
pub open spec fn detail_closed(v: DbView) -> DbView {
    DbView {
        detail_open: false,
        detail_focused: false,
        detail_scroll: 0,
        detail_h_scroll: 0,
        selected_table: None,
        table_data: None,
        table_loading: false,
        table_error: None,
        last_refresh: None,
        ..v
    }
}

/// What Enter on the tree does: a database row opens or closes (asking
/// for its tables when none are known), a table row shows that table in
/// the detail view (zooming in when the view was closed).
pub open spec fn tree_enter(v: DbView) -> (DbView, Option<Seq<char>>, bool) {
    let t = tree_view(v);
    if !(0 <= v.tree_cursor < t.len()) {
        (v, None, false)
    } else {
        match t[v.tree_cursor] {
            TreeRow::Database { name, expanded } => if expanded {
                let w = DbView { expanded: v.expanded.remove(name), ..v };
                (DbView { tree_cursor: clamped_cursor(v.tree_cursor, tree_view(w).len() as int), ..w }, None, false)
            } else if v.tables.contains_key(name) {
                (DbView { expanded: v.expanded.insert(name), ..v }, None, false)
            } else {
                (
                    DbView {
                        expanded: v.expanded.insert(name),
                        tables_loading: v.tables_loading.insert(name),
                        ..v
                    },
                    Some(name),
                    false,
                )
            },
            TreeRow::Table { db, name } => (
                DbView {
                    selected_table: Some((db, name)),
                    table_data: None,
                    table_error: None,
                    table_loading: false,
                    last_refresh: None,
                    detail_scroll: 0,
                    detail_h_scroll: 0,
                    detail_focused: true,
                    detail_open: true,
                    ..v
                },
                None,
                !v.detail_open,
            ),
            _ => (v, None, false),
        }
    }
}

pub open spec fn tables_received(a: DatabaseState, b: DatabaseState, db: String, tables: Vec<String>) -> bool {
    &&& ({
        let w = DbView {
            tables_loading: a@.tables_loading.remove(db@),
            tables: a@.tables.insert(db@, names_of(tables@)),
            ..a@
        };
        b@ == (DbView { tree_cursor: clamped_cursor(w.tree_cursor, tree_view(w).len() as int), ..w })
    })
}

pub open spec fn table_error_received(a: DatabaseState, b: DatabaseState, err: String) -> bool {
    &&& b@ == (DbView { table_error: Some(err@), table_loading: false, ..a@ })
}

impl DatabaseState {
    fn cursor_up(&mut self)
        ensures
            final(self)@ == (DbView { tree_cursor: if old(self).tree_cursor > 0 { old(self).tree_cursor - 1 } else { 0 }, ..old(self)@ }),
    {
        self.tree_cursor = if self.tree_cursor > 0 {
            self.tree_cursor - 1
        } else {
            0
        };
    }

    fn cursor_down(&mut self)
        ensures
            final(self)@ == (DbView {
                tree_cursor: if old(self).tree_cursor + 1 < tree_view(old(self)@).len() {
                    old(self).tree_cursor + 1
                } else {
                    old(self).tree_cursor as int
                },
                ..old(self)@
            }),
    {
        let len = self.flatten_tree().len();
        if len > 0 && self.tree_cursor < len - 1 {
            self.tree_cursor = self.tree_cursor + 1;
        }
    }

    fn clamp_cursor(&mut self)
        ensures
            final(self)@ == (DbView {
                tree_cursor: clamped_cursor(old(self).tree_cursor as int, tree_view(old(self)@).len() as int),
                ..old(self)@
            }),
    {
        let len = self.flatten_tree().len();
        if len == 0 {
            self.tree_cursor = 0;
        } else if self.tree_cursor >= len {
            self.tree_cursor = len - 1;
        }
    }

    /// The database of the row under the cursor.
    pub fn cursor_db(&self) -> (r: Option<String>)
        ensures
            opt_text(r) == cursor_db_of(self@),
    {
        let tree = self.flatten_tree();
        if self.tree_cursor >= tree.len() {
            return None;
        }
        proof {
            assert(tree_rows(tree@)[self.tree_cursor as int] == tree_row(tree@[self.tree_cursor as int]));
        }
        match &tree[self.tree_cursor] {
            TreeNode::Database { name, .. } => Some(copy_text(name)),
            TreeNode::Table { db, .. } => Some(copy_text(db)),
            TreeNode::Loading { db } => Some(copy_text(db)),
            TreeNode::NoTables { db } => Some(copy_text(db)),
        }
    }

    fn close_detail(&mut self)
        ensures
            final(self)@ == detail_closed(old(self)@),
    {
        self.detail_open = false;
        self.detail_focused = false;
        self.detail_scroll = 0;
        self.detail_h_scroll = 0;
        self.selected_table = None;
        self.table_data = None;
        self.table_loading = false;
        self.table_error = None;
        self.last_refresh = None;
    }

    fn start_pull_from_cursor(&mut self)
        ensures
            final(self)@ == match cursor_db_of(old(self)@) {
                Some(db) => (DbView { confirming_pull: Some(db), ..old(self)@ }),
                None => old(self)@,
            },
    {
        match self.cursor_db() {
            Some(db) => {
                self.confirming_pull = Some(db);
            },
            None => {},
        }
    }

    fn open_repl(&mut self, db: String)
        ensures
            final(self)@ == repl_opened(old(self)@, db@),
    {
        self.repl_active = true;
        self.repl_db = Some(db);
        self.editing_query = true;
        self.history = Vec::new();
        self.textarea = new_textarea();
        self.query_history = Vec::new();
        self.history_index = None;
        self.repl_scroll = 0;
        proof {
            assert(repl_views(self.history@) =~= Seq::<ReplView>::empty());
            assert(names_of(self.query_history@) =~= Seq::<Seq<char>>::empty());
        }
    }

    fn activate_repl_from_tree(&mut self)
        ensures
            final(self)@ == match cursor_db_of(old(self)@) {
                Some(db) => repl_opened(old(self)@, db),
                None => old(self)@,
            },
    {
        match self.cursor_db() {
            Some(db) => self.open_repl(db),
            None => {},
        }
    }

    fn activate_repl_for_selected_table(&mut self)
        ensures
            final(self)@ == match old(self)@.selected_table {
                Some(p) => repl_opened(old(self)@, p.0),
                None => old(self)@,
            },
    {
        let db = match &self.selected_table {
            Some((db, _)) => Some(copy_text(db)),
            None => None,
        };
        match db {
            Some(db) => self.open_repl(db),
            None => {},
        }
    }

    fn handle_tree_enter(&mut self) -> (r: Action)
        ensures
            final(self)@ == tree_enter(old(self)@).0,
            match tree_enter(old(self)@).1 {
                Some(db) => r matches Action::DbFetchTables(d) && d@ == db,
                None => if tree_enter(old(self)@).2 { r matches Action::ZoomIn } else { r matches Action::Noop },
            },
    {
        let tree = self.flatten_tree();
        if self.tree_cursor >= tree.len() {
            return Action::Noop;
        }
        proof {
            assert(tree_rows(tree@)[self.tree_cursor as int] == tree_row(tree@[self.tree_cursor as int]));
        }
        match &tree[self.tree_cursor] {
            TreeNode::Database { name, expanded } => {
                if *expanded {
                    self.expanded.remove(name.as_str());
                    self.clamp_cursor();
                    Action::Noop
                } else {
                    self.expanded.insert(copy_text(name));
                    if self.tables.contains_key(name.as_str()) {
                        Action::Noop
                    } else {
                        self.tables_loading.insert(copy_text(name));
                        Action::DbFetchTables(copy_text(name))
                    }
                }
            },
            TreeNode::Table { db, name } => {
                self.selected_table = Some((copy_text(db), copy_text(name)));
                self.table_data = None;
                self.table_error = None;
                self.table_loading = false;
                self.last_refresh = None;
                self.detail_scroll = 0;
                self.detail_h_scroll = 0;
                self.detail_focused = true;
                if self.detail_open {
                    Action::Noop
                } else {
                    self.detail_open = true;
                    Action::ZoomIn
                }
            },
            _ => Action::Noop,
        }
    }

    /// The table list of `db` arrived.
    pub fn receive_tables(&mut self, db: String, tables: Vec<String>)
        ensures
            tables_received(*old(self), *final(self), db, tables),
    {
        self.tables_loading.remove(db.as_str());
        self.tables.insert(db, tables);
        self.clamp_cursor();
    }

    pub fn receive_table_error(&mut self, err: String)
        ensures
            table_error_received(*old(self), *final(self), err),
    {
        self.table_error = Some(err);
        self.table_loading = false;
    }

    /// A tail fetch started now.
    pub fn mark_refresh_started(&mut self)
        ensures
            final(self)@ == (DbView { table_loading: true, last_refresh: final(self)@.last_refresh, ..old(self)@ }),
            final(self)@.last_refresh is Some,
    {
        self.table_loading = true;
        self.last_refresh = Some(now());
    }

    /// A fetch of older or newer rows started.
    pub fn mark_load_more_started(&mut self)
        ensures
            final(self)@ == (DbView { table_loading: true, ..old(self)@ }),
    {
        self.table_loading = true;
    }
}

// ---------------------------------------------------------------------------
// Paging through a table
// ---------------------------------------------------------------------------

/// `a + b`, held at `usize::MAX`.
pub open spec fn sat_add(a: int, b: int) -> int {
    if a + b > usize::MAX {
        usize::MAX as int
    } else {
        a + b
    }
}

/// `a - b`, held at zero.
pub open spec fn sat_sub(a: int, b: int) -> int {
    if a >= b {
        a - b
    } else {
        0
    }
}

fn add_sat(a: usize, b: usize) -> (r: usize)
    ensures
        r == sat_add(a as int, b as int),
{
    if a > usize::MAX - b {
        usize::MAX
    } else {
        a + b
    }
}

fn sub_sat(a: usize, b: usize) -> (r: usize)
    ensures
        r == sat_sub(a as int, b as int),
{
    if a >= b {
        a - b
    } else {
        0
    }
}

/// The loaded window of rows ends at the table's last row.
pub open spec fn at_table_tail(t: TableView) -> bool {
    t.offset + t.rows.len() >= t.row_count
}

/// The view shows the last loaded row (or there is nothing to scroll).
pub open spec fn loaded_bottom(v: DbView) -> bool {
    match v.table_data {
        None => true,
        Some(t) => v.detail_visible_rows == 0 || sat_add(v.detail_scroll, v.detail_visible_rows) >= t.rows.len(),
    }
}

/// The loaded window's end fits in a `usize`.
pub open spec fn window_fits(v: DbView) -> bool {
    match v.table_data {
        None => true,
        Some(t) => t.offset + t.rows.len() <= usize::MAX,
    }
}

/// Fetching is off while the panel is hidden, the prompt is open, a fetch
/// is running, or no table is shown.
pub open spec fn fetch_idle(v: DbView) -> bool {
    v.panel_visible && !v.repl_active && !v.table_loading && v.detail_open
}

/// Whether the tail must be fetched, as far as it does not depend on the
/// time since the last fetch (`None` when only that decides).
pub open spec fn refresh_gate(v: DbView) -> Option<bool> {
    if !fetch_idle(v) || v.selected_table is None {
        Some(false)
    } else {
        match v.table_data {
            None => Some(true),
            Some(t) => if !loaded_bottom(v) || !at_table_tail(t) {
                Some(false)
            } else if v.last_refresh is None {
                Some(true)
            } else {
                None
            },
        }
    }
}

/// The start of the page before the loaded window, when the view is near
/// its top and older rows exist.
pub open spec fn previous_page(v: DbView) -> Option<int> {
    if !fetch_idle(v) {
        None
    } else {
        match v.table_data {
            None => None,
            Some(t) => if t.offset == 0 || v.detail_scroll > PREFETCH_MARGIN {
                None
            } else {
                Some(sat_sub(t.offset, TABLE_PAGE_SIZE as int))
            },
        }
    }
}

/// The start of the page after the loaded window, when the view is near
/// its bottom and newer rows exist.
pub open spec fn next_page(v: DbView) -> Option<int> {
    if !fetch_idle(v) {
        None
    } else {
        match v.table_data {
            None => None,
            Some(t) => if t.offset + t.rows.len() >= t.row_count {
                None
            } else if sat_add(sat_add(v.detail_scroll, v.detail_visible_rows), PREFETCH_MARGIN as int)
                < t.rows.len() {
                None
            } else {
                Some(t.offset + t.rows.len())
            },
        }
    }
}

/// A fetched window `d` joined to the loaded window `ex`, with the detail
/// scroll that goes with it: a window inside the loaded one only updates
/// the row count (dropping rows the table lost); one that continues the
/// loaded rows forward or backward joins them (forward, a view at the
/// bottom stays at the bottom; backward, the view keeps showing the same
/// rows); any other replaces them and is shown from its bottom.
pub open spec fn merge_window(ex: TableView, d: TableView, scroll: int, at_bottom: bool) -> (TableView, int) {
    let ex_start = ex.offset;
    let ex_end = ex.offset + ex.rows.len();
    let in_start = d.offset;
    let in_end = d.offset + d.rows.len();
    if in_start >= ex_start && in_end <= ex_end {
        let max_loaded = sat_sub(d.row_count, ex.offset);
        let rows = if ex.rows.len() > max_loaded {
            ex.rows.take(max_loaded)
        } else {
            ex.rows
        };
        (TableView { row_count: d.row_count, rows, ..ex }, scroll)
    } else if in_start <= ex_end && in_end > ex_end {
        (
            TableView { rows: ex.rows + d.rows.skip(ex_end - in_start), row_count: d.row_count, ..ex },
            if at_bottom {
                usize::MAX as int
            } else {
                scroll
            },
        )
    } else if in_start < ex_start && in_end >= ex_start {
        (
            TableView {
                rows: d.rows.take(ex_start - in_start) + ex.rows,
                offset: in_start,
                row_count: d.row_count,
                ..ex
            },
            sat_add(scroll, ex_start - in_start),
        )
    } else {
        (d, usize::MAX as int)
    }
}

/// A fetched window `d` taken into the state: data for a table other than
/// the shown one is dropped; the first window is shown from its bottom;
/// later ones are joined to the loaded window.
pub open spec fn after_receive(v: DbView, d: TableView) -> DbView {
    let v1 = DbView { table_loading: false, ..v };
    if v.selected_table != Some((d.db, d.table)) {
        v1
    } else {
        let v2 = DbView { table_error: None, ..v1 };
        match v.table_data {
            None => DbView { table_data: Some(d), detail_scroll: usize::MAX as int, ..v2 },
            Some(ex) => {
                let m = merge_window(ex, d, v.detail_scroll, loaded_bottom(v));
                DbView { table_data: Some(m.0), detail_scroll: m.1, ..v2 }
            },
        }
    }
}

/// `t` holds consecutive rows of `table`, starting at its offset.
pub open spec fn is_window(t: TableView, table: Seq<Seq<Seq<char>>>) -> bool {
    &&& 0 <= t.offset
    &&& t.offset + t.rows.len() <= table.len()
    &&& t.rows == table.subrange(t.offset, t.offset + t.rows.len())
}

/// Joining a fetched window to the loaded one keeps the loaded rows a
/// window of the table: when both hold consecutive rows of `table` at
/// their offsets, and the fetch saw the table's current row count, the
/// merged rows are consecutive rows of `table` at the merged offset.
pub proof fn lemma_merge_keeps_window(
    ex: TableView,
    d: TableView,
    table: Seq<Seq<Seq<char>>>,
    scroll: int,
    at_bottom: bool,
)
    requires
        is_window(ex, table),
        is_window(d, table),
        d.row_count == table.len(),
    ensures
        is_window(merge_window(ex, d, scroll, at_bottom).0, table),
{
    let ex_start = ex.offset;
    let ex_end = ex.offset + ex.rows.len();
    let in_start = d.offset;
    let in_end = d.offset + d.rows.len();
    let m = merge_window(ex, d, scroll, at_bottom).0;
    if in_start >= ex_start && in_end <= ex_end {
        let max_loaded = sat_sub(d.row_count, ex.offset);
        if ex.rows.len() > max_loaded {
            assert(m.rows =~= table.subrange(m.offset, m.offset + m.rows.len()));
        }
    } else if in_start <= ex_end && in_end > ex_end {
        assert(m.rows =~= table.subrange(ex_start, in_end));
    } else if in_start < ex_start && in_end >= ex_start {
        assert(m.rows =~= table.subrange(in_start, ex_end));
    }
}

fn merge_rows(existing: TableData, data: TableData, scroll: usize, at_bottom: bool) -> (r: (TableData, usize))
    requires
        existing.offset + existing.rows@.len() <= usize::MAX,
        data.offset + data.rows@.len() <= usize::MAX,
    ensures
        (r.0@, r.1 as int) == merge_window(existing@, data@, scroll as int, at_bottom),
{
    let mut existing = existing;
    let mut data = data;
    let ghost ex = existing@;
    let ghost dv = data@;
    let ex_start = existing.offset;
    let ex_end = ex_start + existing.rows.len();
    let in_start = data.offset;
    let in_end = in_start + data.rows.len();
    if in_start >= ex_start && in_end <= ex_end {
        existing.row_count = data.row_count;
        let max_loaded = sub_sat(data.row_count, existing.offset);
        if existing.rows.len() > max_loaded {
            existing.rows.truncate(max_loaded);
            proof {
                assert(rows_view(existing.rows@) =~= ex.rows.take(max_loaded as int));
            }
        }
        (existing, scroll)
    } else if in_start <= ex_end && in_end > ex_end {
        let skip = ex_end - in_start;
        let ghost old_rows = existing.rows@;
        let mut tail = data.rows.split_off(skip);
        let ghost tail_rows = tail@;
        existing.rows.append(&mut tail);
        proof {
            assert(existing.rows@ =~= old_rows + tail_rows);
            assert(rows_view(existing.rows@) =~= ex.rows + dv.rows.skip(skip as int));
        }
        existing.row_count = data.row_count;
        (existing, if at_bottom { usize::MAX } else { scroll })
    } else if in_start < ex_start && in_end >= ex_start {
        let take = ex_start - in_start;
        let mut head = data.rows;
        head.truncate(take);
        let ghost head_rows = head@;
        let ghost old_rows = existing.rows@;
        head.append(&mut existing.rows);
        proof {
            assert(head@ =~= head_rows + old_rows);
            assert(rows_view(head@) =~= dv.rows.take(take as int) + ex.rows);
        }
        existing.rows = head;
        existing.offset = in_start;
        existing.row_count = data.row_count;
        (existing, add_sat(scroll, take))
    } else {
        (data, usize::MAX)
    }
}

pub open spec fn table_data_received(a: DatabaseState, b: DatabaseState, data: TableData) -> bool {
    &&& b@ == after_receive(a@, data@)
}

impl DatabaseState {
    fn is_at_loaded_bottom(&self) -> (b: bool)
        ensures
            b == loaded_bottom(self@),
    {
        match &self.table_data {
            None => true,
            Some(data) => {
                if self.detail_visible_rows == 0 {
                    return true;
                }
                add_sat(self.detail_scroll, self.detail_visible_rows) >= data.rows.len()
            },
        }
    }

    fn fetching_idle(&self) -> (b: bool)
        ensures
            b == fetch_idle(self@),
    {
        self.panel_visible && !self.repl_active && !self.table_loading && self.detail_open
    }

    /// Whether the tail should be fetched when `elapsed_ms` have passed
    /// since the last fetch.
    pub fn refresh_due_after(&self, elapsed_ms: u128) -> (b: bool)
        requires
            window_fits(self@),
        ensures
            b == match refresh_gate(self@) {
                Some(x) => x,
                None => elapsed_ms >= AUTO_REFRESH_MS,
            },
    {
        if !self.fetching_idle() || self.selected_table.is_none() {
            return false;
        }
        match &self.table_data {
            None => true,
            Some(data) => {
                if !self.is_at_loaded_bottom() || data.offset + data.rows.len() < data.row_count {
                    return false;
                }
                match &self.last_refresh {
                    None => true,
                    Some(_) => elapsed_ms >= AUTO_REFRESH_MS,
                }
            },
        }
    }

    /// Whether the tail should be fetched now: for the first load, and
    /// every second while the view is parked at the table's tail.
    pub fn needs_table_refresh(&self) -> (b: bool)
        requires
            window_fits(self@),
        ensures
            refresh_gate(self@) matches Some(x) ==> b == x,
    {
        let elapsed = match &self.last_refresh {
            Some(t) => millis_since(t),
            None => 0,
        };
        self.refresh_due_after(elapsed)
    }

    pub fn needs_previous_rows(&self) -> (r: Option<usize>)
        ensures
            opt_index(r) == previous_page(self@),
    {
        if !self.fetching_idle() {
            return None;
        }
        match &self.table_data {
            None => None,
            Some(data) => {
                if data.offset == 0 || self.detail_scroll > PREFETCH_MARGIN {
                    None
                } else {
                    Some(sub_sat(data.offset, TABLE_PAGE_SIZE))
                }
            },
        }
    }

    pub fn needs_next_rows(&self) -> (r: Option<usize>)
        requires
            window_fits(self@),
        ensures
            opt_index(r) == next_page(self@),
    {
        if !self.fetching_idle() {
            return None;
        }
        match &self.table_data {
            None => None,
            Some(data) => {
                let ex_end = data.offset + data.rows.len();
                if ex_end >= data.row_count {
                    return None;
                }
                let last_visible = add_sat(self.detail_scroll, self.detail_visible_rows);
                if add_sat(last_visible, PREFETCH_MARGIN) < data.rows.len() {
                    return None;
                }
                Some(ex_end)
            },
        }
    }

    /// A window of table rows arrived.
    pub fn receive_table_data(&mut self, data: TableData)
        requires
            window_fits(old(self)@),
            data.offset + data.rows@.len() <= usize::MAX,
        ensures
            table_data_received(*old(self), *final(self), data),
    {
        let ghost v = self@;
        let ghost dv = data@;
        self.table_loading = false;
        let same = match &self.selected_table {
            Some((db, table)) => {
                let a = chars_of(db.as_str());
                let b = chars_of(data.db.as_str());
                let c = chars_of(table.as_str());
                let e = chars_of(data.table.as_str());
                eq_chars(a.as_slice(), b.as_slice()) && eq_chars(c.as_slice(), e.as_slice())
            },
            None => false,
        };
        if !same {
            return;
        }
        self.table_error = None;
        let was_at_loaded_bottom = self.is_at_loaded_bottom();
        let mut slot: Option<TableData> = None;
        std::mem::swap(&mut slot, &mut self.table_data);
        match slot {
            None => {
                self.table_data = Some(data);
                self.detail_scroll = usize::MAX;
            },
            Some(existing) => {
                let (merged, scroll) = merge_rows(existing, data, self.detail_scroll, was_at_loaded_bottom);
                self.table_data = Some(merged);
                self.detail_scroll = scroll;
            },
        }
    }
}

// ---------------------------------------------------------------------------
// The SQL prompt
// ---------------------------------------------------------------------------

/// What submitting the prompt does: an empty prompt does nothing; `clear`
/// (any case, surrounding spaces ignored) empties the output and is kept in
/// the query history; anything else is echoed to the output, kept in the
/// query history and returned to be run. Both clear the prompt.
pub open spec fn submitted(v: DbView) -> (DbView, Option<Seq<char>>) {
    let sql = joined(v.text);
    if sql.len() == 0 {
        (v, None)
    } else if ascii_lower_seq(trim(sql)) == "clear"@ {
        (
            DbView {
                query_history: v.query_history.push(sql),
                history_index: None,
                text: seq![Seq::<char>::empty()],
                caret: Some((0int, 0int)),
                history: Seq::empty(),
                repl_scroll: 0,
                ..v
            },
            None,
        )
    } else {
        (
            DbView {
                history: v.history.push(ReplView::Input(sql)),
                query_history: v.query_history.push(sql),
                history_index: None,
                text: seq![Seq::<char>::empty()],
                caret: Some((0int, 0int)),
                repl_scroll: 0,
                ..v
            },
            Some(sql),
        )
    }
}

/// The query history entry that Up recalls, if any.
pub open spec fn recall_up(v: DbView) -> Option<int> {
    if v.query_history.len() == 0 {
        None
    } else {
        match v.history_index {
            None => Some(v.query_history.len() - 1),
            Some(i) => if i == 0 {
                None
            } else {
                Some(i - 1)
            },
        }
    }
}

/// `b` is `a` with the prompt showing history entry `idx`: when it has no
/// line break, its text with the cursor at its end.
pub open spec fn showing_entry(a: DbView, b: DbView, idx: int) -> bool {
    &&& b == DbView { text: b.text, caret: b.caret, history_index: Some(idx), ..a }
    &&& !a.query_history[idx].contains('\n') ==> b.text == seq![strip_cr_end(a.query_history[idx])] && b.caret
        == Some((0int, strip_cr_end(a.query_history[idx]).len() as int))
}

/// An output line as the copied transcript shows it.
pub open spec fn transcript_line(l: ReplView) -> Seq<char> {
    match l {
        ReplView::Input(s) => "> "@ + s,
        ReplView::Output(s) => s,
        ReplView::Error(s) => s,
    }
}

/// The output lines joined with line breaks.
pub open spec fn transcript(ls: Seq<ReplView>) -> Seq<char>
    decreases ls.len(),
{
    if ls.len() == 0 {
        Seq::empty()
    } else if ls.len() == 1 {
        transcript_line(ls[0])
    } else {
        transcript(ls.drop_last()) + "\n"@ + transcript_line(ls.last())
    }
}

pub open spec fn result_pushed(a: DatabaseState, b: DatabaseState, output: Seq<char>) -> bool {
    &&& b@ == (DbView {
        history: a@.history + lines(output).map_values(|l: Seq<char>| ReplView::Output(l)),
        ..a@
    })
}

pub open spec fn error_pushed(a: DatabaseState, b: DatabaseState, err: Seq<char>) -> bool {
    &&& b@ == (DbView { history: a@.history.push(ReplView::Error(err)), ..a@ })
}

impl DatabaseState {
    /// The prompt's text, its lines run together.
    pub fn textarea_text(&self) -> (r: String)
        ensures
            r@ == joined(editor_lines(self.textarea)),
    {
        let ls = self.textarea.lines();
        let mut out: Vec<char> = Vec::new();
        let mut i: usize = 0;
        while i < ls.len()
            invariant
                i <= ls@.len(),
                out@ == joined(names_of(ls@).take(i as int)),
            decreases ls@.len() - i,
        {
            let cs = chars_of(ls[i].as_str());
            extend_chars(&mut out, cs.as_slice());
            proof {
                assert(names_of(ls@).take(i + 1).drop_last() =~= names_of(ls@).take(i as int));
            }
            i = i + 1;
        }
        proof {
            assert(names_of(ls@).take(i as int) =~= names_of(ls@));
        }
        string_from_chars(out.as_slice())
    }

    /// Submits the prompt.
    pub fn submit_query(&mut self) -> (r: Option<String>)
        ensures
            final(self)@ == submitted(old(self)@).0,
            opt_text(r) == submitted(old(self)@).1,
    {
        let sql = self.textarea_text();
        if sql.as_str().is_empty() {
            return None;
        }
        let sv = chars_of(sql.as_str());
        let t = trim_slice(sv.as_slice());
        let lowered = ascii_lower_vec(t);
        let clear = chars_of("clear");
        if eq_chars(lowered.as_slice(), clear.as_slice()) {
            let ghost qh = names_of(self.query_history@);
            self.query_history.push(sql);
            self.history_index = None;
            self.textarea = new_textarea();
            self.history = Vec::new();
            self.repl_scroll = 0;
            proof {
                assert(names_of(self.query_history@) =~= qh.push(sv@));
                assert(repl_views(self.history@) =~= Seq::<ReplView>::empty());
            }
            return None;
        }
        self.push_query(sql.as_str());
        let ghost qh = names_of(self.query_history@);
        self.query_history.push(copy_text(&sql));
        self.history_index = None;
        self.textarea = new_textarea();
        self.repl_scroll = 0;
        proof {
            assert(names_of(self.query_history@) =~= qh.push(sv@));
        }
        Some(sql)
    }

    fn set_textarea_text(&mut self, text: &str)
        ensures
            final(self)@ == (DbView { text: final(self)@.text, caret: final(self)@.caret, ..old(self)@ }),
            !text@.contains('\n') ==> final(self)@.text == seq![strip_cr_end(text@)] && final(self)@.caret == Some(
                (0int, strip_cr_end(text@).len() as int),
            ),
    {
        self.textarea = new_textarea();
        self.textarea.insert_str(text);
    }

    /// Up in the prompt: recalls the previous query of the history.
    pub fn history_up(&mut self)
        requires
            old(self)@.history_index matches Some(i) ==> i <= old(self)@.query_history.len(),
        ensures
            match recall_up(old(self)@) {
                None => final(self)@ == old(self)@,
                Some(idx) => showing_entry(old(self)@, final(self)@, idx),
            },
    {
        let n = self.query_history.len();
        if n == 0 {
            return;
        }
        let idx = match self.history_index {
            None => n - 1,
            Some(i) => {
                if i == 0 {
                    return;
                }
                i - 1
            },
        };
        self.history_index = Some(idx);
        let entry = copy_text(&self.query_history[idx]);
        proof {
            assert(names_of(self.query_history@)[idx as int] == entry@);
        }
        self.set_textarea_text(entry.as_str());
    }

    /// Down in the prompt: recalls the next query of the history, or an
    /// empty prompt after the last one.
    pub fn history_down(&mut self)
        requires
            old(self)@.history_index matches Some(i) ==> i < usize::MAX,
        ensures
            match old(self)@.history_index {
                None => final(self)@ == old(self)@,
                Some(i) => if i + 1 >= old(self)@.query_history.len() {
                    final(self)@ == (DbView {
                        history_index: None,
                        text: seq![Seq::<char>::empty()],
                        caret: Some((0int, 0int)),
                        ..old(self)@
                    })
                } else {
                    showing_entry(old(self)@, final(self)@, i + 1)
                },
            },
    {
        let idx = match self.history_index {
            None => return,
            Some(i) => i,
        };
        if idx + 1 >= self.query_history.len() {
            self.history_index = None;
            self.textarea = new_textarea();
        } else {
            self.history_index = Some(idx + 1);
            let entry = copy_text(&self.query_history[idx + 1]);
            proof {
                assert(names_of(self.query_history@)[idx + 1] == entry@);
            }
            self.set_textarea_text(entry.as_str());
        }
    }

    /// Echoes a query to the output.
    pub fn push_query(&mut self, sql: &str)
        ensures
            final(self)@ == (DbView { history: old(self)@.history.push(ReplView::Input(sql@)), ..old(self)@ }),
    {
        let ghost h = repl_views(self.history@);
        self.history.push(ReplLine::Input(sql.to_string()));
        proof {
            assert(repl_views(self.history@) =~= h.push(ReplView::Input(sql@)));
        }
    }

    /// Adds each line of a query's output.
    pub fn push_result(&mut self, output: &str)
        ensures
            result_pushed(*old(self), *final(self), output@),
    {
        let cv = chars_of(output);
        let s = cv.as_slice();
        let n = s.len();
        let ghost base = repl_views(self.history@);
        let mut p: usize = 0;
        proof {
            assert(s@.skip(0) =~= s@);
            assert(lines(s@).take(0).map_values(|l: Seq<char>| ReplView::Output(l)) =~= Seq::<ReplView>::empty());
            assert(base + Seq::<ReplView>::empty() =~= base);
        }
        let ghost done: Seq<Seq<char>> = Seq::empty();
        while p < n
            invariant
                n == s@.len(),
                p <= n,
                s@ == output@,
                lines(s@) == done + lines(s@.skip(p as int)),
                repl_views(self.history@) == base + done.map_values(|l: Seq<char>| ReplView::Output(l)),
                self@ == (DbView { history: repl_views(self.history@), ..old(self)@ }),
            decreases n - p,
        {
            let (b, np) = next_line(s, p);
            let piece = &s[p..b];
            proof {
                assert(piece@ =~= s@.subrange(p as int, b as int));
            }
            let ghost before = repl_views(self.history@);
            self.history.push(ReplLine::Output(string_from_chars(piece)));
            proof {
                assert(repl_views(self.history@) =~= before.push(ReplView::Output(piece@)));
                assert(done.push(piece@).map_values(|l: Seq<char>| ReplView::Output(l)) =~= done.map_values(|l: Seq<char>| ReplView::Output(l)).push(ReplView::Output(piece@)));
                assert(done + lines(s@.skip(p as int)) =~= done.push(piece@) + lines(s@.skip(np as int)));
                done = done.push(piece@);
            }
            p = np;
        }
        proof {
            assert(s@.skip(p as int).len() == 0);
            assert(done + Seq::<Seq<char>>::empty() =~= done);
        }
    }

    pub fn push_error(&mut self, err: &str)
        ensures
            error_pushed(*old(self), *final(self), err@),
    {
        let ghost h = repl_views(self.history@);
        self.history.push(ReplLine::Error(err.to_string()));
        proof {
            assert(repl_views(self.history@) =~= h.push(ReplView::Error(err@)));
        }
    }

    /// Keeps the output scroll within `total - visible`.
    pub fn clamp_repl_scroll(&mut self, total: usize, visible: usize)
        ensures
            final(self)@ == (DbView {
                repl_scroll: if old(self).repl_scroll as int <= sat_sub(total as int, visible as int) {
                    old(self).repl_scroll as int
                } else {
                    sat_sub(total as int, visible as int)
                },
                ..old(self)@
            }),
    {
        let max = sub_sat(total, visible);
        if self.repl_scroll > max {
            self.repl_scroll = max;
        }
    }

    /// Forgets everything: the panel starts over.
    pub fn refresh(&mut self)
        ensures
            fresh_view(final(self)@),
    {
        *self = Self::new();
    }

    /// The output as one text, queries marked with `> `.
    pub fn history_text(&self) -> (r: Option<String>)
        ensures
            match r {
                Some(t) => self@.history.len() > 0 && t@ == transcript(self@.history),
                None => self@.history.len() == 0,
            },
    {
        if self.history.len() == 0 {
            return None;
        }
        let ghost hv = repl_views(self.history@);
        let mut out: Vec<char> = Vec::new();
        let mut i: usize = 0;
        while i < self.history.len()
            invariant
                i <= self.history@.len(),
                hv == repl_views(self.history@),
                out@ == transcript(hv.take(i as int)),
            decreases self.history@.len() - i,
        {
            if i > 0 {
                out.push('\n');
                proof {
                    reveal_strlit("\n");
                }
            }
            let ghost before = out@;
            match &self.history[i] {
                ReplLine::Input(s) => {
                    let p = chars_of("> ");
                    extend_chars(&mut out, p.as_slice());
                    let cs = chars_of(s.as_str());
                    extend_chars(&mut out, cs.as_slice());
                },
                ReplLine::Output(s) => {
                    let cs = chars_of(s.as_str());
                    extend_chars(&mut out, cs.as_slice());
                },
                ReplLine::Error(s) => {
                    let cs = chars_of(s.as_str());
                    extend_chars(&mut out, cs.as_slice());
                },
            }
            proof {
                assert(hv[i as int] == repl_view(self.history@[i as int]));
                assert(out@ =~= before + transcript_line(hv[i as int]));
                assert(hv.take(i + 1).drop_last() =~= hv.take(i as int));
                if i == 0 {
                    assert(hv.take(1).len() == 1);
                }
            }
            i = i + 1;
        }
        proof {
            assert(hv.take(i as int) =~= hv);
        }
        Some(string_from_chars(out.as_slice()))
    }
}


// ---------------------------------------------------------------------------
// Keys
// ---------------------------------------------------------------------------

/// What the panel answers to a key.
pub ghost enum DbReply {
    /// The key is not the panel's: `None`.
    Ignored,
    Noop,
    Unfocus,
    ZoomIn,
    RefreshDb,
    RunQuery(Seq<char>, Seq<char>),
    CopyDbResult(Seq<char>),
    PullDb(Seq<char>),
    FetchTables(Seq<char>),
}

pub open spec fn reply_is(r: Option<Action>, d: DbReply) -> bool {
    match d {
        DbReply::Ignored => r is None,
        DbReply::Noop => r matches Some(Action::Noop),
        DbReply::Unfocus => r matches Some(Action::Unfocus),
        DbReply::ZoomIn => r matches Some(Action::ZoomIn),
        DbReply::RefreshDb => r matches Some(Action::RefreshDb),
        DbReply::RunQuery(db, sql) => r matches Some(Action::RunQuery(a, b)) && a@ == db && b@ == sql,
        DbReply::CopyDbResult(t) => r matches Some(Action::CopyDbResult(a)) && a@ == t,
        DbReply::PullDb(db) => r matches Some(Action::PullDb(a)) && a@ == db,
        DbReply::FetchTables(db) => r matches Some(Action::DbFetchTables(a)) && a@ == db,
    }
}

/// The outcome of a key: the new state and the reply. Where the prompt's
/// editor decides, `text_known` (its lines) or `caret_known` (its cursor
/// at the start) is false and `view` says nothing of that part; `copied`
/// marks the copy of the output, which stamps `copied_at` with the time.
pub ghost struct DbStep {
    pub view: DbView,
    pub reply: DbReply,
    pub text_known: bool,
    pub caret_known: bool,
    pub copied: bool,
}

pub open spec fn db_step(view: DbView, reply: DbReply) -> DbStep {
    DbStep { view, reply, text_known: true, caret_known: true, copied: false }
}

/// The panel after a refresh: nothing loaded, nothing open.
pub open spec fn fresh_db() -> DbView {
    DbView {
        databases: Seq::empty(),
        error: None,
        expanded: Set::empty(),
        tables: Map::empty(),
        tables_loading: Set::empty(),
        tree_cursor: 0,
        detail_open: false,
        detail_focused: false,
        detail_scroll: 0,
        detail_h_scroll: 0,
        detail_visible_rows: 0,
        selected_table: None,
        table_data: None,
        table_loading: false,
        table_error: None,
        last_refresh: None,
        panel_visible: true,
        repl_active: false,
        repl_db: None,
        history: Seq::empty(),
        text: seq![Seq::<char>::empty()],
        caret: Some((0int, 0int)),
        query_history: Seq::empty(),
        history_index: None,
        repl_scroll: 0,
        editing_query: false,
        confirming_pull: None,
        copied_at: None,
    }
}

/// Keys while a query is being typed: Enter runs it, Esc leaves the
/// prompt, Up and Down walk the query history, the rest edit the text.
pub open spec fn prompt_key(v: DbView, key: KeyEvent) -> DbStep {
    match key.code {
        KeyCode::Enter => match v.repl_db {
            Some(db) => {
                let (w, sql) = submitted(v);
                match sql {
                    Some(q) => db_step(w, DbReply::RunQuery(db, q)),
                    None => db_step(w, DbReply::Noop),
                }
            },
            None => db_step(v, DbReply::Noop),
        },
        KeyCode::Esc => db_step(DbView { editing_query: false, ..v }, DbReply::Noop),
        KeyCode::Up => match recall_up(v) {
            None => db_step(v, DbReply::Noop),
            Some(idx) => {
                let e = v.query_history[idx];
                DbStep {
                    view: DbView {
                        history_index: Some(idx),
                        text: seq![strip_cr_end(e)],
                        caret: Some((0int, strip_cr_end(e).len() as int)),
                        ..v
                    },
                    reply: DbReply::Noop,
                    text_known: !e.contains('\n'),
                    caret_known: !e.contains('\n'),
                    copied: false,
                }
            },
        },
        KeyCode::Down => match v.history_index {
            None => db_step(v, DbReply::Noop),
            Some(i) => if i + 1 >= v.query_history.len() {
                db_step(
                    DbView { history_index: None, text: seq![Seq::<char>::empty()], caret: Some((0int, 0int)), ..v },
                    DbReply::Noop,
                )
            } else {
                let e = v.query_history[i + 1];
                DbStep {
                    view: DbView {
                        history_index: Some(i + 1),
                        text: seq![strip_cr_end(e)],
                        caret: Some((0int, strip_cr_end(e).len() as int)),
                        ..v
                    },
                    reply: DbReply::Noop,
                    text_known: !e.contains('\n'),
                    caret_known: !e.contains('\n'),
                    copied: false,
                }
            },
        },
        _ => {
            let change = if caret_in(v.text, v.caret) {
                key_edit(
                    v.text,
                    caret_row(v.caret),
                    caret_col(v.caret),
                    text_key_of(key.code),
                    key.modifiers.has_control(),
                    key.modifiers.has_alt(),
                    key.modifiers.has_shift(),
                )
            } else {
                None
            };
            match change {
                Some(e) => db_step(DbView { text: e.0, caret: e.1, ..v }, DbReply::Noop),
                None => DbStep { view: v, reply: DbReply::Noop, text_known: false, caret_known: false, copied: false },
            }
        },
    }
}

/// Keys while reading the output: `e` edits, Up and Down scroll, `c`
/// copies the output, Esc leaves the prompt.
pub open spec fn output_key(v: DbView, code: KeyCode) -> DbStep {
    match code {
        KeyCode::Char('e') => db_step(DbView { editing_query: true, ..v }, DbReply::Noop),
        KeyCode::Up => db_step(DbView { repl_scroll: v.repl_scroll + 1, ..v }, DbReply::Noop),
        KeyCode::Down => db_step(DbView { repl_scroll: sat_sub(v.repl_scroll, 1), ..v }, DbReply::Noop),
        KeyCode::Char('c') => if v.history.len() > 0 {
            DbStep {
                view: v,
                reply: DbReply::CopyDbResult(transcript(v.history)),
                text_known: true,
                caret_known: true,
                copied: true,
            }
        } else {
            db_step(v, DbReply::Noop)
        },
        KeyCode::Esc => db_step(
            DbView { repl_active: false, editing_query: false, repl_scroll: 0, ..v },
            DbReply::Noop,
        ),
        _ => db_step(v, DbReply::Noop),
    }
}

/// Keys while the table detail has the focus: scrolling, Tab back to the
/// tree, `/` a prompt on the shown table's database, Enter closes it.
pub open spec fn detail_key(v: DbView, code: KeyCode) -> DbStep {
    match code {
        KeyCode::Up | KeyCode::Char('k') => db_step(
            DbView { detail_scroll: sat_sub(v.detail_scroll, 1), ..v },
            DbReply::Noop,
        ),
        KeyCode::Down | KeyCode::Char('j') => db_step(
            DbView { detail_scroll: sat_add(v.detail_scroll, 1), ..v },
            DbReply::Noop,
        ),
        KeyCode::Left | KeyCode::Char('h') => db_step(
            DbView { detail_h_scroll: sat_sub(v.detail_h_scroll, 4), ..v },
            DbReply::Noop,
        ),
        KeyCode::Right | KeyCode::Char('l') => db_step(
            DbView { detail_h_scroll: v.detail_h_scroll + 4, ..v },
            DbReply::Noop,
        ),
        KeyCode::Char(' ') => db_step(
            DbView { detail_scroll: sat_add(v.detail_scroll, 20), ..v },
            DbReply::Noop,
        ),
        KeyCode::Tab | KeyCode::Esc => db_step(DbView { detail_focused: false, ..v }, DbReply::Noop),
        KeyCode::Char('/') => db_step(
            match v.selected_table {
                Some(p) => repl_opened(v, p.0),
                None => v,
            },
            DbReply::Noop,
        ),
        KeyCode::Enter => db_step(detail_closed(v), DbReply::Noop),
        _ => db_step(v, DbReply::Ignored),
    }
}

/// Keys on the tree: moving, Enter, Tab to an open detail, `/` a prompt,
/// `p` a pull of the database under the cursor, `r` starts over, Esc
/// gives the focus away.
pub open spec fn tree_key(v: DbView, code: KeyCode) -> DbStep {
    match code {
        KeyCode::Up | KeyCode::Char('k') => db_step(
            DbView { tree_cursor: if v.tree_cursor > 0 { v.tree_cursor - 1 } else { 0 }, ..v },
            DbReply::Noop,
        ),
        KeyCode::Down | KeyCode::Char('j') => db_step(
            DbView {
                tree_cursor: if v.tree_cursor + 1 < tree_view(v).len() {
                    v.tree_cursor + 1
                } else {
                    v.tree_cursor
                },
                ..v
            },
            DbReply::Noop,
        ),
        KeyCode::Enter => {
            let (w, fetch, zoom) = tree_enter(v);
            db_step(
                w,
                match fetch {
                    Some(db) => DbReply::FetchTables(db),
                    None => if zoom { DbReply::ZoomIn } else { DbReply::Noop },
                },
            )
        },
        KeyCode::Tab => if v.detail_open {
            db_step(DbView { detail_focused: true, ..v }, DbReply::Noop)
        } else {
            db_step(v, DbReply::Ignored)
        },
        KeyCode::Char('/') => db_step(
            match cursor_db_of(v) {
                Some(db) => repl_opened(v, db),
                None => v,
            },
            DbReply::Noop,
        ),
        KeyCode::Char('p') => db_step(
            match cursor_db_of(v) {
                Some(db) => DbView { confirming_pull: Some(db), ..v },
                None => v,
            },
            DbReply::Noop,
        ),
        KeyCode::Char('r') => db_step(fresh_db(), DbReply::RefreshDb),
        KeyCode::Esc => db_step(if v.detail_open { detail_closed(v) } else { v }, DbReply::Unfocus),
        _ => db_step(v, DbReply::Ignored),
    }
}

/// What a key does, by the mode the panel is in: typing a query, reading
/// the output, confirming a pull (`p` pulls, any other key cancels), the
/// detail focused, or the tree.
pub open spec fn db_key(v: DbView, key: KeyEvent) -> DbStep {
    let code = key.code;
    if v.repl_active && v.editing_query {
        prompt_key(v, key)
    } else if v.repl_active {
        output_key(v, code)
    } else if v.confirming_pull is Some {
        db_step(
            DbView { confirming_pull: None, ..v },
            if code == KeyCode::Char('p') {
                DbReply::PullDb(v.confirming_pull->0)
            } else {
                DbReply::Noop
            },
        )
    } else if v.detail_open && v.detail_focused {
        detail_key(v, code)
    } else {
        tree_key(v, code)
    }
}

/// The keys whose counters could pass `usize::MAX`, and a history index
/// past the history's end, are left out.
pub open spec fn db_key_in_bounds(v: DbView, code: KeyCode) -> bool {
    if v.repl_active && v.editing_query {
        &&& code == KeyCode::Up ==> (v.history_index matches Some(i) ==> i <= v.query_history.len())
        &&& code == KeyCode::Down ==> (v.history_index matches Some(i) ==> i < usize::MAX)
    } else if v.repl_active {
        code == KeyCode::Up ==> v.repl_scroll < usize::MAX
    } else if v.confirming_pull is Some {
        true
    } else if v.detail_open && v.detail_focused {
        (code == KeyCode::Right || code == KeyCode::Char('l')) ==> v.detail_h_scroll + 4 <= usize::MAX
    } else {
        true
    }
}

pub proof fn lemma_fresh_db(v: DbView)
    requires
        fresh_view(v),
    ensures
        v == fresh_db(),
{
    assert(v.databases =~= Seq::<Seq<char>>::empty());
    assert(v.history =~= Seq::<ReplView>::empty());
    assert(v.query_history =~= Seq::<Seq<char>>::empty());
}

/// `b` and `r` are what step `s` makes of `a`.
pub open spec fn step_done(a: DbView, b: DbView, s: DbStep, r: Option<Action>) -> bool {
    &&& b == (DbView { text: b.text, caret: b.caret, copied_at: b.copied_at, ..s.view })
    &&& s.text_known ==> b.text == s.view.text
    &&& s.caret_known ==> b.caret == s.view.caret
    &&& if s.copied {
        b.copied_at is Some
    } else {
        b.copied_at == s.view.copied_at
    }
    &&& reply_is(r, s.reply)
}

impl DatabaseState {
    fn prompt_key_in(&mut self, key: KeyEvent) -> (r: Option<Action>)
        requires
            old(self).repl_active && old(self).editing_query,
            db_key_in_bounds(old(self)@, key.code),
        ensures
            step_done(old(self)@, final(self)@, prompt_key(old(self)@, key), r),
    {
        let code = key.code;
        match code {
            KeyCode::Enter => {
                let db = match &self.repl_db {
                    Some(d) => Some(copy_text(d)),
                    None => None,
                };
                if let Some(db) = db {
                    if let Some(sql) = self.submit_query() {
                        return Some(Action::RunQuery(db, sql));
                    }
                }
            },
            KeyCode::Esc => self.editing_query = false,
            KeyCode::Up => self.history_up(),
            KeyCode::Down => self.history_down(),
            _ => {
                let tk = text_key(code);
                let ctrl = key.modifiers.ctrl();
                let alt = key.modifiers.alt();
                let shift = key.modifiers.shift();
                self.textarea.input(tk, ctrl, alt, shift);
            },
        }
        Some(Action::Noop)
    }

    fn output_key_in(&mut self, code: KeyCode) -> (r: Option<Action>)
        requires
            old(self).repl_active && !old(self).editing_query,
            db_key_in_bounds(old(self)@, code),
        ensures
            step_done(old(self)@, final(self)@, output_key(old(self)@, code), r),
    {
        match code {
            KeyCode::Char('e') => self.editing_query = true,
            KeyCode::Up => self.repl_scroll = self.repl_scroll + 1,
            KeyCode::Down => self.repl_scroll = sub_sat(self.repl_scroll, 1),
            KeyCode::Char('c') => {
                if let Some(text) = self.history_text() {
                    self.copied_at = Some(now());
                    return Some(Action::CopyDbResult(text));
                }
            },
            KeyCode::Esc => {
                self.repl_active = false;
                self.editing_query = false;
                self.repl_scroll = 0;
            },
            _ => {},
        }
        Some(Action::Noop)
    }

    fn confirm_key_in(&mut self, code: KeyCode) -> (r: Option<Action>)
        requires
            old(self).confirming_pull is Some,
        ensures
            step_done(
                old(self)@,
                final(self)@,
                db_step(
                    DbView { confirming_pull: None, ..old(self)@ },
                    if code == KeyCode::Char('p') {
                        DbReply::PullDb(old(self)@.confirming_pull->0)
                    } else {
                        DbReply::Noop
                    },
                ),
                r,
            ),
    {
        let mut taken: Option<String> = None;
        std::mem::swap(&mut taken, &mut self.confirming_pull);
        match code {
            KeyCode::Char('p') => match taken {
                Some(db) => Some(Action::PullDb(db)),
                None => Some(Action::Noop),
            },
            _ => Some(Action::Noop),
        }
    }

    fn detail_key_in(&mut self, code: KeyCode) -> (r: Option<Action>)
        requires
            old(self).detail_open && old(self).detail_focused,
            (code == KeyCode::Right || code == KeyCode::Char('l')) ==> old(self).detail_h_scroll + 4 <= usize::MAX,
        ensures
            step_done(old(self)@, final(self)@, detail_key(old(self)@, code), r),
    {
        match code {
            KeyCode::Up | KeyCode::Char('k') => {
                self.detail_scroll = sub_sat(self.detail_scroll, 1);
                Some(Action::Noop)
            },
            KeyCode::Down | KeyCode::Char('j') => {
                self.detail_scroll = add_sat(self.detail_scroll, 1);
                Some(Action::Noop)
            },
            KeyCode::Left | KeyCode::Char('h') => {
                self.detail_h_scroll = sub_sat(self.detail_h_scroll, 4);
                Some(Action::Noop)
            },
            KeyCode::Right | KeyCode::Char('l') => {
                self.detail_h_scroll = self.detail_h_scroll + 4;
                Some(Action::Noop)
            },
            KeyCode::Char(' ') => {
                self.detail_scroll = add_sat(self.detail_scroll, 20);
                Some(Action::Noop)
            },
            KeyCode::Tab | KeyCode::Esc => {
                self.detail_focused = false;
                Some(Action::Noop)
            },
            KeyCode::Char('/') => {
                self.activate_repl_for_selected_table();
                Some(Action::Noop)
            },
            KeyCode::Enter => {
                self.close_detail();
                Some(Action::Noop)
            },
            _ => None,
        }
    }

    fn tree_key_in(&mut self, code: KeyCode) -> (r: Option<Action>)
        ensures
            step_done(old(self)@, final(self)@, tree_key(old(self)@, code), r),
    {
        match code {
            KeyCode::Up | KeyCode::Char('k') => {
                self.cursor_up();
                Some(Action::Noop)
            },
            KeyCode::Down | KeyCode::Char('j') => {
                self.cursor_down();
                Some(Action::Noop)
            },
            KeyCode::Enter => {
                Some(self.handle_tree_enter())
            },
            KeyCode::Tab => {
                if self.detail_open {
                    self.detail_focused = true;
                    Some(Action::Noop)
                } else {
                    None
                }
            },
            KeyCode::Char('/') => {
                self.activate_repl_from_tree();
                Some(Action::Noop)
            },
            KeyCode::Char('p') => {
                self.start_pull_from_cursor();
                Some(Action::Noop)
            },
            KeyCode::Char('r') => {
                self.refresh();
                proof {
                    lemma_fresh_db(self@);
                }
                Some(Action::RefreshDb)
            },
            KeyCode::Esc => {
                if self.detail_open {
                    self.close_detail();
                }
                Some(Action::Unfocus)
            },
            _ => None,
        }
    }

    /// Applies a key to the focused panel.
    pub fn handle_key(&mut self, key: KeyEvent) -> (r: Option<Action>)
        requires
            db_key_in_bounds(old(self)@, key.code),
        ensures
            step_done(old(self)@, final(self)@, db_key(old(self)@, key), r),
    {
        if self.repl_active && self.editing_query {
            self.prompt_key_in(key)
        } else if self.repl_active {
            self.output_key_in(key.code)
        } else if self.confirming_pull.is_some() {
            self.confirm_key_in(key.code)
        } else if self.detail_open && self.detail_focused {
            self.detail_key_in(key.code)
        } else {
            self.tree_key_in(key.code)
        }
    }
}


impl DatabaseState {
    /// Whether `handle_key` can take a key with this code now.
    pub fn accepts_key(&self, code: KeyCode) -> (b: bool)
        ensures
            b == db_key_in_bounds(self@, code),
    {
        if self.repl_active && self.editing_query {
            let up_ok = match code {
                KeyCode::Up => match self.history_index {
                    Some(i) => i <= self.query_history.len(),
                    None => true,
                },
                _ => true,
            };
            let down_ok = match code {
                KeyCode::Down => match self.history_index {
                    Some(i) => i < usize::MAX,
                    None => true,
                },
                _ => true,
            };
            up_ok && down_ok
        } else if self.repl_active {
            match code {
                KeyCode::Up => self.repl_scroll < usize::MAX,
                _ => true,
            }
        } else if self.confirming_pull.is_some() {
            true
        } else if self.detail_open && self.detail_focused {
            match code {
                KeyCode::Right | KeyCode::Char('l') => self.detail_h_scroll <= usize::MAX - 4,
                _ => true,
            }
        } else {
            true
        }
    }
}
} // verus!
