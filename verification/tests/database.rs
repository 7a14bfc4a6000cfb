use holo::app::Action;
use holo::database::{DatabaseState, FetchKind, ReplLine, TableData, TreeNode};
use holo::keys::{KeyCode, KeyEvent, KeyModifiers};

fn key(code: KeyCode) -> KeyEvent {
    KeyEvent::new(code, KeyModifiers::NONE)
}

fn state_with_dbs(dbs: &[&str]) -> DatabaseState {
    let mut s = DatabaseState::new();
    s.databases = dbs.iter().map(|d| d.to_string()).collect();
    s
}

#[test]
fn flatten_tree_collapsed() {
    let s = state_with_dbs(&["a.db", "b.db"]);
    let tree = s.flatten_tree();
    assert_eq!(tree.len(), 2);
    assert!(matches!(&tree[0], TreeNode::Database { name, expanded: false } if name == "a.db"));
}

#[test]
fn flatten_tree_expanded_shows_loading_when_not_cached() {
    let mut s = state_with_dbs(&["a.db"]);
    s.expanded.insert("a.db".into());
    s.tables_loading.insert("a.db".into());
    let tree = s.flatten_tree();
    assert_eq!(tree.len(), 2);
    assert!(matches!(&tree[1], TreeNode::Loading { db } if db == "a.db"));
}

#[test]
fn flatten_tree_expanded_shows_tables() {
    let mut s = state_with_dbs(&["a.db"]);
    s.expanded.insert("a.db".into());
    s.tables.insert("a.db".into(), vec!["users".into(), "posts".into()]);
    let tree = s.flatten_tree();
    assert_eq!(tree.len(), 3);
    assert!(matches!(&tree[1], TreeNode::Table { name, .. } if name == "users"));
    assert!(matches!(&tree[2], TreeNode::Table { name, .. } if name == "posts"));
}

#[test]
fn flatten_tree_expanded_shows_no_tables_when_empty() {
    let mut s = state_with_dbs(&["a.db"]);
    s.expanded.insert("a.db".into());
    s.tables.insert("a.db".into(), vec![]);
    let tree = s.flatten_tree();
    assert_eq!(tree.len(), 2);
    assert!(matches!(&tree[1], TreeNode::NoTables { .. }));
}

#[test]
fn enter_on_db_expands_and_requests_fetch() {
    let mut s = state_with_dbs(&["a.db"]);
    let action = s.handle_key(key(KeyCode::Enter)).unwrap();
    assert!(matches!(action, Action::DbFetchTables(ref d) if d == "a.db"));
    assert!(s.expanded.contains("a.db"));
    assert!(s.tables_loading.contains("a.db"));
}

#[test]
fn enter_on_expanded_db_collapses() {
    let mut s = state_with_dbs(&["a.db"]);
    s.expanded.insert("a.db".into());
    s.tables.insert("a.db".into(), vec!["t".into()]);
    let action = s.handle_key(key(KeyCode::Enter)).unwrap();
    assert!(matches!(action, Action::Noop));
    assert!(!s.expanded.contains("a.db"));
}

#[test]
fn enter_on_expanded_cached_db_only_toggles() {
    let mut s = state_with_dbs(&["a.db"]);
    s.tables.insert("a.db".into(), vec!["t".into()]);
    let action = s.handle_key(key(KeyCode::Enter)).unwrap();
    assert!(matches!(action, Action::Noop));
    assert!(s.expanded.contains("a.db"));
}

#[test]
fn enter_on_table_opens_detail_and_zooms() {
    let mut s = state_with_dbs(&["a.db"]);
    s.expanded.insert("a.db".into());
    s.tables.insert("a.db".into(), vec!["users".into()]);
    s.tree_cursor = 1;
    let action = s.handle_key(key(KeyCode::Enter)).unwrap();
    assert!(matches!(action, Action::ZoomIn));
    assert!(s.detail_open);
    assert_eq!(s.selected_table.as_ref().map(|(_, t)| t.as_str()), Some("users"));
    assert!(s.last_refresh.is_none());
}

#[test]
fn cursor_clamps_at_bounds() {
    let mut s = state_with_dbs(&["a.db", "b.db"]);
    s.handle_key(key(KeyCode::Up));
    assert_eq!(s.tree_cursor, 0);
    s.handle_key(key(KeyCode::Down));
    assert_eq!(s.tree_cursor, 1);
    s.handle_key(key(KeyCode::Down));
    assert_eq!(s.tree_cursor, 1);
}

#[test]
fn p_confirms_pull_for_cursor_db() {
    let mut s = state_with_dbs(&["a.db", "b.db"]);
    s.tree_cursor = 1;
    s.handle_key(key(KeyCode::Char('p')));
    assert_eq!(s.confirming_pull.as_deref(), Some("b.db"));
}

#[test]
fn database_pp_confirms_pull() {
    let mut s = state_with_dbs(&["a.db"]);
    s.handle_key(key(KeyCode::Char('p')));
    let action = s.handle_key(key(KeyCode::Char('p'))).unwrap();
    assert!(matches!(action, Action::PullDb(ref d) if d == "a.db"));
}

#[test]
fn slash_activates_repl() {
    let mut s = state_with_dbs(&["a.db"]);
    s.handle_key(key(KeyCode::Char('/')));
    assert!(s.repl_active);
    assert_eq!(s.repl_db.as_deref(), Some("a.db"));
    assert!(s.editing_query);
}

#[test]
fn repl_enter_runs_query() {
    let mut s = state_with_dbs(&["a.db"]);
    s.handle_key(key(KeyCode::Char('/')));
    s.textarea.insert_str("SELECT 1");
    let action = s.handle_key(key(KeyCode::Enter)).unwrap();
    assert!(matches!(action, Action::RunQuery(ref d, ref q) if d == "a.db" && q == "SELECT 1"));
}

#[test]
fn repl_esc_exits_repl() {
    let mut s = state_with_dbs(&["a.db"]);
    s.handle_key(key(KeyCode::Char('/')));
    // esc exits editing first
    s.handle_key(key(KeyCode::Esc));
    assert!(s.repl_active);
    assert!(!s.editing_query);
    // esc again exits repl
    s.handle_key(key(KeyCode::Esc));
    assert!(!s.repl_active);
}

#[test]
fn needs_table_refresh_initial() {
    let mut s = DatabaseState::new();
    s.detail_open = true;
    s.selected_table = Some(("a.db".into(), "t".into()));
    assert!(s.needs_table_refresh());
}

#[test]
fn needs_table_refresh_skipped_while_loading() {
    let mut s = DatabaseState::new();
    s.detail_open = true;
    s.selected_table = Some(("a.db".into(), "t".into()));
    s.table_loading = true;
    assert!(!s.needs_table_refresh());
}

#[test]
fn needs_table_refresh_skipped_in_repl() {
    let mut s = DatabaseState::new();
    s.detail_open = true;
    s.selected_table = Some(("a.db".into(), "t".into()));
    s.repl_active = true;
    assert!(!s.needs_table_refresh());
}

#[test]
fn receive_table_data_stores_and_clears_loading() {
    let mut s = DatabaseState::new();
    s.selected_table = Some(("a.db".into(), "t".into()));
    s.table_loading = true;
    s.receive_table_data(TableData {
        db: "a.db".into(),
        table: "t".into(),
        columns: vec!["id".into(), "name".into()],
        rows: vec![vec!["1".into(), "alice".into()]],
        row_count: 1,
        offset: 0,
    });
    assert!(!s.table_loading);
    assert!(s.table_data.is_some());
}

#[test]
fn receive_table_data_appends_when_offset_positive() {
    let mut s = DatabaseState::new();
    s.selected_table = Some(("a.db".into(), "t".into()));
    s.table_data = Some(TableData {
        db: "a.db".into(),
        table: "t".into(),
        columns: vec!["id".into()],
        rows: (0..50).map(|i| vec![i.to_string()]).collect(),
        row_count: 100,
        offset: 0,
    });
    s.receive_table_data(TableData {
        db: "a.db".into(),
        table: "t".into(),
        columns: vec!["id".into()],
        rows: (50..60).map(|i| vec![i.to_string()]).collect(),
        row_count: 100,
        offset: 50,
    });
    let data = s.table_data.as_ref().unwrap();
    assert_eq!(data.rows.len(), 60);
    assert_eq!(data.rows[59][0], "59");
}

#[test]
fn receive_table_data_discards_when_stale() {
    let mut s = DatabaseState::new();
    s.selected_table = Some(("a.db".into(), "other".into()));
    s.receive_table_data(TableData {
        db: "a.db".into(),
        table: "t".into(),
        columns: vec![],
        rows: vec![],
        row_count: 0,
        offset: 0,
    });
    assert!(s.table_data.is_none());
}

#[test]
fn receive_tables_clears_loading_and_stores() {
    let mut s = state_with_dbs(&["a.db"]);
    s.tables_loading.insert("a.db".into());
    s.receive_tables("a.db".into(), vec!["t1".into()]);
    assert!(!s.tables_loading.contains("a.db"));
    assert_eq!(s.tables.get("a.db"), Some(&vec!["t1".to_string()]));
}

#[test]
fn esc_from_tree_unfocuses() {
    let mut s = state_with_dbs(&["a.db"]);
    let action = s.handle_key(key(KeyCode::Esc)).unwrap();
    assert!(matches!(action, Action::Unfocus));
}

#[test]
fn esc_from_detail_tree_closes_and_unfocuses() {
    let mut s = state_with_dbs(&["a.db"]);
    s.detail_open = true;
    s.selected_table = Some(("a.db".into(), "t".into()));
    let action = s.handle_key(key(KeyCode::Esc)).unwrap();
    assert!(matches!(action, Action::Unfocus));
    assert!(!s.detail_open);
}

#[test]
fn tab_focuses_detail_when_open() {
    let mut s = state_with_dbs(&["a.db"]);
    s.detail_open = true;
    s.handle_key(key(KeyCode::Tab));
    assert!(s.detail_focused);
}

#[test]
fn detail_focused_up_down_scrolls() {
    let mut s = DatabaseState::new();
    s.detail_open = true;
    s.detail_focused = true;
    s.handle_key(key(KeyCode::Down));
    assert_eq!(s.detail_scroll, 1);
    s.handle_key(key(KeyCode::Up));
    assert_eq!(s.detail_scroll, 0);
}

#[test]
fn needs_previous_rows_when_near_top() {
    let mut s = DatabaseState::new();
    s.detail_open = true;
    s.selected_table = Some(("a.db".into(), "t".into()));
    s.detail_visible_rows = 20;
    s.table_data = Some(TableData {
        db: "a.db".into(),
        table: "t".into(),
        columns: vec![],
        rows: (0..50).map(|_| vec![]).collect(),
        row_count: 200,
        offset: 150,
    });
    s.detail_scroll = 5;
    assert_eq!(s.needs_previous_rows(), Some(100));
}

#[test]
fn needs_previous_rows_none_when_at_start() {
    let mut s = DatabaseState::new();
    s.detail_open = true;
    s.selected_table = Some(("a.db".into(), "t".into()));
    s.detail_visible_rows = 20;
    s.table_data = Some(TableData {
        db: "a.db".into(),
        table: "t".into(),
        columns: vec![],
        rows: (0..100).map(|_| vec![]).collect(),
        row_count: 100,
        offset: 0,
    });
    s.detail_scroll = 0;
    assert!(s.needs_previous_rows().is_none());
}

#[test]
fn needs_next_rows_when_near_loaded_bottom() {
    let mut s = DatabaseState::new();
    s.detail_open = true;
    s.selected_table = Some(("a.db".into(), "t".into()));
    s.detail_visible_rows = 20;
    // Loaded window [0, 50); more rows exist forward.
    s.table_data = Some(TableData {
        db: "a.db".into(),
        table: "t".into(),
        columns: vec![],
        rows: (0..50).map(|_| vec![]).collect(),
        row_count: 500,
        offset: 0,
    });
    // Visible window reaches within PREFETCH_MARGIN of rows.len().
    s.detail_scroll = 25;
    assert_eq!(s.needs_next_rows(), Some(50));
}

#[test]
fn needs_next_rows_none_when_at_table_tail() {
    let mut s = DatabaseState::new();
    s.detail_open = true;
    s.selected_table = Some(("a.db".into(), "t".into()));
    s.detail_visible_rows = 20;
    s.table_data = Some(TableData {
        db: "a.db".into(),
        table: "t".into(),
        columns: vec![],
        rows: (0..50).map(|_| vec![]).collect(),
        row_count: 50,
        offset: 0,
    });
    s.detail_scroll = 25;
    assert!(s.needs_next_rows().is_none());
}

#[test]
fn auto_refresh_skipped_when_not_at_loaded_bottom() {
    let mut s = DatabaseState::new();
    s.detail_open = true;
    s.selected_table = Some(("a.db".into(), "t".into()));
    s.detail_visible_rows = 20;
    s.table_data = Some(TableData {
        db: "a.db".into(),
        table: "t".into(),
        columns: vec![],
        rows: (0..50).map(|_| vec![]).collect(),
        row_count: 500,
        offset: 450,
    });
    s.detail_scroll = 0;
    assert!(!s.needs_table_refresh());
}

#[test]
fn auto_refresh_skipped_when_not_at_table_tail() {
    let mut s = DatabaseState::new();
    s.detail_open = true;
    s.selected_table = Some(("a.db".into(), "t".into()));
    s.detail_visible_rows = 20;
    // Loaded bottom but there are more rows forward in the table.
    s.table_data = Some(TableData {
        db: "a.db".into(),
        table: "t".into(),
        columns: vec![],
        rows: (0..50).map(|_| vec![]).collect(),
        row_count: 500,
        offset: 0,
    });
    s.detail_scroll = 30;
    assert!(!s.needs_table_refresh());
}

#[test]
fn auto_refresh_runs_at_loaded_bottom_and_table_tail() {
    let mut s = DatabaseState::new();
    s.detail_open = true;
    s.selected_table = Some(("a.db".into(), "t".into()));
    s.detail_visible_rows = 20;
    s.table_data = Some(TableData {
        db: "a.db".into(),
        table: "t".into(),
        columns: vec![],
        rows: (0..50).map(|_| vec![]).collect(),
        row_count: 500,
        offset: 450,
    });
    s.detail_scroll = 30;
    assert!(s.needs_table_refresh());
}

#[test]
fn fetches_skipped_when_panel_not_visible() {
    let mut s = DatabaseState::new();
    s.detail_open = true;
    s.selected_table = Some(("a.db".into(), "t".into()));
    s.detail_visible_rows = 20;
    s.table_data = Some(TableData {
        db: "a.db".into(),
        table: "t".into(),
        columns: vec![],
        rows: (0..50).map(|_| vec![]).collect(),
        row_count: 500,
        offset: 0,
    });
    s.detail_scroll = 0;
    s.panel_visible = false;
    assert!(!s.needs_table_refresh());
    assert!(s.needs_previous_rows().is_none());
    assert!(s.needs_next_rows().is_none());
}

#[test]
fn receive_table_data_initial_parks_at_bottom() {
    let mut s = DatabaseState::new();
    s.selected_table = Some(("a.db".into(), "t".into()));
    s.receive_table_data(TableData {
        db: "a.db".into(),
        table: "t".into(),
        columns: vec!["id".into()],
        rows: (0..50).map(|i| vec![i.to_string()]).collect(),
        row_count: 200,
        offset: 150,
    });
    assert_eq!(s.detail_scroll, usize::MAX);
}

#[test]
fn receive_table_data_prepends_older_chunk_exact() {
    let mut s = DatabaseState::new();
    s.selected_table = Some(("a.db".into(), "t".into()));
    s.detail_scroll = 3;
    s.table_data = Some(TableData {
        db: "a.db".into(),
        table: "t".into(),
        columns: vec!["id".into()],
        rows: (50..100).map(|i| vec![i.to_string()]).collect(),
        row_count: 100,
        offset: 50,
    });
    s.receive_table_data(TableData {
        db: "a.db".into(),
        table: "t".into(),
        columns: vec!["id".into()],
        rows: (0..50).map(|i| vec![i.to_string()]).collect(),
        row_count: 100,
        offset: 0,
    });
    let data = s.table_data.as_ref().unwrap();
    assert_eq!(data.offset, 0);
    assert_eq!(data.rows.len(), 100);
    assert_eq!(data.rows[0][0], "0");
    assert_eq!(data.rows[50][0], "50");
    assert_eq!(s.detail_scroll, 53);
}

#[test]
fn receive_extends_backward_with_overlap() {
    // Existing [12, 112); incoming [0, 50) overlaps and should prepend 12 rows.
    let mut s = DatabaseState::new();
    s.selected_table = Some(("a.db".into(), "t".into()));
    s.detail_scroll = 5;
    s.table_data = Some(TableData {
        db: "a.db".into(),
        table: "t".into(),
        columns: vec!["id".into()],
        rows: (12..112).map(|i| vec![i.to_string()]).collect(),
        row_count: 112,
        offset: 12,
    });
    s.receive_table_data(TableData {
        db: "a.db".into(),
        table: "t".into(),
        columns: vec!["id".into()],
        rows: (0..50).map(|i| vec![i.to_string()]).collect(),
        row_count: 112,
        offset: 0,
    });
    let data = s.table_data.as_ref().unwrap();
    assert_eq!(data.offset, 0);
    assert_eq!(data.rows.len(), 112);
    assert_eq!(data.rows[0][0], "0");
    assert_eq!(data.rows[11][0], "11");
    assert_eq!(data.rows[12][0], "12");
    assert_eq!(data.rows[111][0], "111");
    assert_eq!(s.detail_scroll, 17);
}

#[test]
fn receive_extends_forward_with_overlap() {
    // Existing [0, 50); incoming [30, 80) overlaps, should append rows 50..80.
    let mut s = DatabaseState::new();
    s.selected_table = Some(("a.db".into(), "t".into()));
    s.detail_visible_rows = 10;
    s.detail_scroll = 40;
    s.table_data = Some(TableData {
        db: "a.db".into(),
        table: "t".into(),
        columns: vec!["id".into()],
        rows: (0..50).map(|i| vec![i.to_string()]).collect(),
        row_count: 80,
        offset: 0,
    });
    s.receive_table_data(TableData {
        db: "a.db".into(),
        table: "t".into(),
        columns: vec!["id".into()],
        rows: (30..80).map(|i| vec![i.to_string()]).collect(),
        row_count: 80,
        offset: 30,
    });
    let data = s.table_data.as_ref().unwrap();
    assert_eq!(data.offset, 0);
    assert_eq!(data.rows.len(), 80);
    assert_eq!(data.rows[79][0], "79");
}

#[test]
fn receive_disjoint_replaces() {
    let mut s = DatabaseState::new();
    s.selected_table = Some(("a.db".into(), "t".into()));
    s.detail_scroll = 30;
    s.table_data = Some(TableData {
        db: "a.db".into(),
        table: "t".into(),
        columns: vec!["id".into()],
        rows: (0..50).map(|i| vec![i.to_string()]).collect(),
        row_count: 500,
        offset: 0,
    });
    s.receive_table_data(TableData {
        db: "a.db".into(),
        table: "t".into(),
        columns: vec!["id".into()],
        rows: (450..500).map(|i| vec![i.to_string()]).collect(),
        row_count: 500,
        offset: 450,
    });
    let data = s.table_data.as_ref().unwrap();
    assert_eq!(data.offset, 450);
    assert_eq!(data.rows.len(), 50);
    assert_eq!(s.detail_scroll, usize::MAX);
}

#[test]
fn push_query_appends_input_line() {
    let mut s = DatabaseState::new();
    s.push_query("SELECT 1");
    assert_eq!(s.history, vec![ReplLine::Input("SELECT 1".into())]);
}

#[test]
fn push_result_appends_output_lines() {
    let mut s = DatabaseState::new();
    s.push_result("row1\nrow2");
    assert_eq!(s.history, vec![
        ReplLine::Output("row1".into()),
        ReplLine::Output("row2".into()),
    ]);
}

#[test]
fn repl_clear_empties_history() {
    let mut s = DatabaseState::new();
    s.repl_active = true;
    s.repl_db = Some("a.db".into());
    s.push_query("SELECT 1");
    s.push_result("1");
    s.repl_scroll = 2;
    s.textarea.insert_str("clear");
    let out = s.submit_query();
    assert!(out.is_none());
    assert!(s.history.is_empty());
    assert_eq!(s.repl_scroll, 0);
    assert_eq!(s.query_history, vec!["clear".to_string()]);
}

#[test]
fn repl_clear_is_case_insensitive() {
    let mut s = DatabaseState::new();
    s.push_query("SELECT 1");
    s.textarea.insert_str("  CLEAR  ");
    let out = s.submit_query();
    assert!(out.is_none());
    assert!(s.history.is_empty());
}

#[test]
fn history_text_returns_full_history() {
    let mut s = DatabaseState::new();
    s.push_query("SELECT 1");
    s.push_result("1");
    assert_eq!(s.history_text().as_deref(), Some("> SELECT 1\n1"));
}

#[test]
fn history_up_recalls_previous_query() {
    let mut s = state_with_dbs(&["a.db"]);
    s.handle_key(key(KeyCode::Char('/')));
    s.textarea.insert_str("SELECT 1");
    s.handle_key(key(KeyCode::Enter));
    s.textarea.insert_str("SELECT 2");
    s.handle_key(key(KeyCode::Enter));
    s.handle_key(key(KeyCode::Up));
    assert_eq!(s.textarea_text(), "SELECT 2");
    s.handle_key(key(KeyCode::Up));
    assert_eq!(s.textarea_text(), "SELECT 1");
}
#[test]
fn parse_rows_splits_pads_and_keeps_rest_in_last_field() {
    let rows = holo::db_fetch::parse_rows("1|alice|x|y\n\n2\n3|bob\r\n", 3);
    assert_eq!(
        rows,
        vec![
            vec!["1".to_string(), "alice".to_string(), "x|y".to_string()],
            vec!["2".to_string(), String::new(), String::new()],
            vec!["3".to_string(), "bob".to_string(), String::new()],
        ]
    );
}

#[test]
fn parse_rows_single_column_keeps_bars() {
    let rows = holo::db_fetch::parse_rows("a|b\n", 1);
    assert_eq!(rows, vec![vec!["a|b".to_string()]]);
}

#[test]
fn parse_pragma_columns_takes_second_field() {
    let cols = holo::db_fetch::parse_pragma_columns("0|id|INTEGER|0||1\n1|name|TEXT|0||0\nnoise\n2|last");
    assert_eq!(cols, vec!["id".to_string(), "name".to_string(), "last".to_string()]);
}

#[test]
fn parse_table_names_trims_and_skips_internal_tables() {
    let names = holo::db_fetch::parse_table_names("  users \nsqlite_sequence\n\nposts\r\n");
    assert_eq!(names, vec!["users".to_string(), "posts".to_string()]);
}

#[test]
fn parse_row_count_reads_first_line_or_zero() {
    assert_eq!(holo::db_fetch::parse_row_count(" 42 \n7\n"), 42);
    assert_eq!(holo::db_fetch::parse_row_count("+3"), 3);
    assert_eq!(holo::db_fetch::parse_row_count("abc"), 0);
    assert_eq!(holo::db_fetch::parse_row_count(""), 0);
    assert_eq!(holo::db_fetch::parse_row_count("99999999999999999999999"), 0);
}

#[test]
fn table_queries_quote_the_name() {
    assert_eq!(holo::db_fetch::columns_query("a\"b"), "PRAGMA table_info(\"a\"\"b\");");
    assert_eq!(holo::db_fetch::count_query("t"), "SELECT COUNT(*) FROM \"t\";");
    assert_eq!(holo::db_fetch::rows_query("t", 150), "SELECT * FROM \"t\" LIMIT 50 OFFSET 150;");
    assert_eq!(
        holo::db_fetch::table_list_query(),
        "SELECT name FROM sqlite_master WHERE type='table' ORDER BY name"
    );
}

#[test]
fn fetch_offset_tail_and_at() {
    assert_eq!(holo::db_fetch::fetch_offset(FetchKind::Tail, 200), 150);
    assert_eq!(holo::db_fetch::fetch_offset(FetchKind::Tail, 20), 0);
    assert_eq!(holo::db_fetch::fetch_offset(FetchKind::At(70), 200), 70);
    assert_eq!(holo::db_fetch::fetch_offset(FetchKind::At(300), 200), 200);
}

#[test]
fn pull_confirmation_cancelled_by_other_key() {
    let mut s = state_with_dbs(&["a.db"]);
    s.handle_key(key(KeyCode::Char('p')));
    assert_eq!(s.confirming_pull.as_deref(), Some("a.db"));
    let action = s.handle_key(key(KeyCode::Char('x'))).unwrap();
    assert!(matches!(action, Action::Noop));
    assert!(s.confirming_pull.is_none());
}

#[test]
fn repl_output_c_copies_transcript() {
    let mut s = state_with_dbs(&["a.db"]);
    s.handle_key(key(KeyCode::Char('/')));
    s.handle_key(key(KeyCode::Esc));
    s.push_query("SELECT 1");
    s.push_result("1");
    let action = s.handle_key(key(KeyCode::Char('c'))).unwrap();
    assert!(matches!(action, Action::CopyDbResult(ref t) if t == "> SELECT 1\n1"));
    assert!(s.copied_at.is_some());
}

#[test]
fn r_on_tree_starts_over() {
    let mut s = state_with_dbs(&["a.db"]);
    s.tree_cursor = 0;
    let action = s.handle_key(key(KeyCode::Char('r'))).unwrap();
    assert!(matches!(action, Action::RefreshDb));
    assert!(s.databases.is_empty());
}

#[test]
fn unknown_key_on_tree_is_ignored() {
    let mut s = state_with_dbs(&["a.db"]);
    assert!(s.handle_key(key(KeyCode::Char('z'))).is_none());
}

#[test]
fn typing_in_the_prompt_edits_the_query() {
    let mut s = state_with_dbs(&["a.db"]);
    s.handle_key(key(KeyCode::Char('/')));
    assert!(s.repl_active && s.editing_query);
    for c in "SELEC".chars() {
        s.handle_key(key(KeyCode::Char(c)));
    }
    s.handle_key(key(KeyCode::Char('X')));
    s.handle_key(key(KeyCode::Backspace));
    s.handle_key(key(KeyCode::Char('T')));
    assert_eq!(s.textarea.lines(), vec!["SELECT".to_string()]);
    assert_eq!(s.textarea.cursor(), (0, 6));
    let action = s.handle_key(key(KeyCode::Enter));
    assert!(matches!(action, Some(Action::RunQuery(db, sql)) if db == "a.db" && sql == "SELECT"));
    assert_eq!(s.textarea.lines(), vec![String::new()]);
}

#[test]
fn backspace_at_the_start_of_the_prompt_changes_nothing() {
    let mut s = state_with_dbs(&["a.db"]);
    s.handle_key(key(KeyCode::Char('/')));
    s.handle_key(key(KeyCode::Backspace));
    assert_eq!(s.textarea.lines(), vec![String::new()]);
    assert_eq!(s.textarea.cursor(), (0, 0));
}

#[test]
fn prompt_cursor_keys_and_deletes_follow_the_editor_bindings() {
    let mut s = state_with_dbs(&["a.db"]);
    s.handle_key(key(KeyCode::Char('/')));
    for c in "SELECT 1".chars() {
        s.handle_key(key(KeyCode::Char(c)));
    }
    s.handle_key(key(KeyCode::Home));
    assert_eq!(s.textarea.cursor(), (0, 0));
    s.handle_key(key(KeyCode::Delete));
    assert_eq!(s.textarea.lines(), vec!["ELECT 1".to_string()]);
    s.handle_key(key(KeyCode::Right));
    s.handle_key(key(KeyCode::Right));
    assert_eq!(s.textarea.cursor(), (0, 2));
    s.handle_key(key(KeyCode::Left));
    assert_eq!(s.textarea.cursor(), (0, 1));
    s.handle_key(KeyEvent::new(KeyCode::Char('k'), KeyModifiers::CONTROL));
    assert_eq!(s.textarea.lines(), vec!["E".to_string()]);
    s.handle_key(key(KeyCode::End));
    assert_eq!(s.textarea.cursor(), (0, 1));
    s.handle_key(KeyEvent::new(KeyCode::Char('j'), KeyModifiers::CONTROL));
    assert_eq!(s.textarea.lines(), vec![String::new()]);
    assert_eq!(s.textarea.cursor(), (0, 0));
}
