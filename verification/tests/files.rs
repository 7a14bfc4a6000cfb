use holo::files::{classify, find_node_mut, DetailKindHint, FilesState, ToggleResult, MAX_DETAIL_BYTES};

fn make_state_with_children() -> FilesState {
    let mut state = FilesState::new("com.test");
    state.set_root_children(vec![
        ("cache".into(), true),
        ("databases".into(), true),
        ("config.xml".into(), false),
    ]);
    state
}

#[test]
fn flatten_visible_root_only() {
    let state = make_state_with_children();
    let flat = state.flatten_visible();
    assert_eq!(flat.len(), 3);
    assert_eq!(flat[0].name, "cache");
    assert!(flat[0].is_dir);
    assert_eq!(flat[0].depth, 0);
    assert_eq!(flat[1].name, "databases");
    assert_eq!(flat[2].name, "config.xml");
    assert!(!flat[2].is_dir);
}

#[test]
fn flatten_visible_expanded_dir() {
    let mut state = make_state_with_children();
    state.set_children("cache", vec![
        ("images".into(), true),
        ("tmp.dat".into(), false),
    ]);
    find_node_mut(state.root_children.as_mut().unwrap(), "cache").unwrap().expanded = true;

    let flat = state.flatten_visible();
    assert_eq!(flat.len(), 5);
    assert_eq!(flat[0].name, "cache");
    assert_eq!(flat[1].name, "images");
    assert_eq!(flat[1].depth, 1);
    assert_eq!(flat[1].path, "cache/images");
    assert_eq!(flat[2].name, "tmp.dat");
    assert_eq!(flat[2].depth, 1);
    assert_eq!(flat[3].name, "databases");
    assert_eq!(flat[4].name, "config.xml");
}

#[test]
fn flatten_visible_empty_root() {
    let state = FilesState::new("com.test");
    assert!(state.flatten_visible().is_empty());
}

#[test]
fn move_up_saturates_at_zero() {
    let mut state = make_state_with_children();
    state.selected_index = 0;
    state.move_up();
    assert_eq!(state.selected_index, 0);
}

#[test]
fn move_down_clamps_at_end() {
    let mut state = make_state_with_children();
    state.selected_index = 2;
    state.move_down(3);
    assert_eq!(state.selected_index, 2);
}

#[test]
fn move_up_and_down() {
    let mut state = make_state_with_children();
    state.move_down(3);
    assert_eq!(state.selected_index, 1);
    state.move_down(3);
    assert_eq!(state.selected_index, 2);
    state.move_up();
    assert_eq!(state.selected_index, 1);
}

#[test]
fn toggle_expands_dir_needing_load() {
    let mut state = make_state_with_children();
    state.selected_index = 0;
    match state.toggle_selected() {
        Some(ToggleResult::Expand(path)) => assert_eq!(path, "cache"),
        other => panic!("expected Expand, got {:?}", other.is_some()),
    }
    let node = find_node_mut(state.root_children.as_mut().unwrap(), "cache").unwrap();
    assert!(node.expanded);
    assert!(node.loading);
}

#[test]
fn toggle_collapses_expanded_dir() {
    let mut state = make_state_with_children();
    state.set_children("cache", vec![("a.txt".into(), false)]);
    find_node_mut(state.root_children.as_mut().unwrap(), "cache").unwrap().expanded = true;

    state.selected_index = 0;
    assert!(matches!(state.toggle_selected(), Some(ToggleResult::Collapse)));
}

#[test]
fn toggle_expand_cached() {
    let mut state = make_state_with_children();
    state.set_children("cache", vec![("a.txt".into(), false)]);

    state.selected_index = 0;
    assert!(matches!(state.toggle_selected(), Some(ToggleResult::ExpandCached)));
}

#[test]
fn toggle_on_file_returns_none() {
    let mut state = make_state_with_children();
    state.selected_index = 2;
    assert!(state.toggle_selected().is_none());
}

#[test]
fn selected_path_returns_correct_value() {
    let state = make_state_with_children();
    assert_eq!(state.selected_path().as_deref(), Some("cache"));
}

#[test]
fn is_last_sibling_set_correctly() {
    let state = make_state_with_children();
    let flat = state.flatten_visible();
    assert!(!flat[0].is_last_sibling);
    assert!(!flat[1].is_last_sibling);
    assert!(flat[2].is_last_sibling);
}

#[test]
fn collapse_on_child_moves_to_parent() {
    let mut state = make_state_with_children();
    state.set_children("cache", vec![
        ("images".into(), true),
        ("tmp.dat".into(), false),
    ]);
    find_node_mut(state.root_children.as_mut().unwrap(), "cache").unwrap().expanded = true;

    state.selected_index = 2;
    state.collapse_selected();
    assert_eq!(state.selected_index, 0);
    let cache = find_node_mut(state.root_children.as_mut().unwrap(), "cache").unwrap();
    assert!(cache.expanded, "parent should remain expanded on first Left");
}

#[test]
fn collapse_on_expanded_dir_collapses_in_place() {
    let mut state = make_state_with_children();
    state.set_children("cache", vec![("a.txt".into(), false)]);
    find_node_mut(state.root_children.as_mut().unwrap(), "cache").unwrap().expanded = true;

    state.selected_index = 0;
    state.collapse_selected();
    let cache = find_node_mut(state.root_children.as_mut().unwrap(), "cache").unwrap();
    assert!(!cache.expanded);
}

#[test]
fn collapse_on_root_level_file_is_noop() {
    let mut state = make_state_with_children();
    state.selected_index = 2;
    state.collapse_selected();
    assert_eq!(state.selected_index, 2);
}

#[test]
fn classify_json_is_text() {
    assert_eq!(classify("config.json", 1000), DetailKindHint::Text("json"));
}

#[test]
fn classify_xml_and_prefs() {
    assert_eq!(classify("prefs.xml", 1000), DetailKindHint::Text("xml"));
    assert_eq!(classify("notes.md", 50), DetailKindHint::Text("text"));
}

#[test]
fn classify_image_is_binary() {
    assert_eq!(classify("icon.png", 4096), DetailKindHint::Binary("image"));
    assert_eq!(classify("logo.SVG", 4096), DetailKindHint::Binary("image"));
}

#[test]
fn classify_sqlite_is_binary() {
    assert_eq!(classify("app.db", 1000), DetailKindHint::Binary("sqlite database"));
    assert_eq!(classify("cache.sqlite3", 1000), DetailKindHint::Binary("sqlite database"));
}

#[test]
fn classify_unknown_is_binary_unknown() {
    assert_eq!(classify("data.bin", 1000), DetailKindHint::Binary("binary file"));
    assert_eq!(classify("mystery", 1000), DetailKindHint::Binary("unknown format, showing meta only"));
}

#[test]
fn classify_too_large_text_is_too_large() {
    assert_eq!(classify("huge.json", 5_000_000), DetailKindHint::TooLarge);
    assert_eq!(classify("huge.log", MAX_DETAIL_BYTES + 1), DetailKindHint::TooLarge);
}

#[test]
fn classify_at_limit_is_text() {
    assert_eq!(classify("ok.json", MAX_DETAIL_BYTES), DetailKindHint::Text("json"));
}

#[test]
fn ancestor_is_last_propagated() {
    let mut state = make_state_with_children();
    state.set_children("databases", vec![
        ("app.db".into(), false),
    ]);
    find_node_mut(state.root_children.as_mut().unwrap(), "databases").unwrap().expanded = true;

    let flat = state.flatten_visible();
    let db_entry = &flat[2];
    assert_eq!(db_entry.name, "app.db");
    assert_eq!(db_entry.ancestor_is_last, vec![false]);
}
