use holo::permissions::PermissionsState;

#[test]
fn permissions_navigate_list() {
    let mut state = PermissionsState::new();
    state.permissions = vec![
        ("android.permission.CAMERA".into(), true),
        ("android.permission.LOCATION".into(), false),
        ("android.permission.CONTACTS".into(), true),
    ];
    assert_eq!(state.selected_index, 0);
    state.move_down();
    assert_eq!(state.selected_index, 1);
    state.move_down();
    assert_eq!(state.selected_index, 2);
    state.move_down();
    assert_eq!(state.selected_index, 2);
    state.move_up();
    assert_eq!(state.selected_index, 1);
    state.move_up();
    assert_eq!(state.selected_index, 0);
    state.move_up();
    assert_eq!(state.selected_index, 0);
}

#[test]
fn toggle_selected() {
    let mut state = PermissionsState::new();
    state.permissions = vec![
        ("android.permission.CAMERA".into(), false),
    ];
    let result = state.toggle_selected();
    assert_eq!(result, Some(("android.permission.CAMERA".into(), true)));
    assert!(state.permissions[0].1);
}

#[test]
fn toggle_empty_returns_none() {
    let mut state = PermissionsState::new();
    assert_eq!(state.toggle_selected(), None);
}

#[test]
fn short_name_strips_prefix() {
    assert_eq!(PermissionsState::short_name("android.permission.CAMERA"), "camera");
    assert_eq!(PermissionsState::short_name("com.custom.PERM"), "com.custom.perm");
}

#[test]
fn selected_permission_returns_correct() {
    let mut state = PermissionsState::new();
    state.permissions = vec![
        ("android.permission.CAMERA".into(), true),
        ("android.permission.LOCATION".into(), false),
    ];
    state.selected_index = 1;
    assert_eq!(
        state.permissions.get(state.selected_index),
        Some(&("android.permission.LOCATION".into(), false))
    );
}

#[test]
fn navigate_empty_list() {
    let mut state = PermissionsState::new();
    state.move_up();
    state.move_down();
    assert_eq!(state.selected_index, 0);
}
