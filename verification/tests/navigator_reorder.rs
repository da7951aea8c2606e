use herdr::app_state::{
    AgentState, AppState, Mode, NavigatorState, NavigatorStateFilter, PaneId, Tab, Terminal,
    ToastConfig, Workspace, WorktreeSpaceMembership,
};
use herdr::keys::{
    reorder_direction_for_key, KeyCode, KeyModifiers, TerminalKey, WorkspaceReorderDirection,
};
use herdr::navigator::{navigator_reorder_direction_for_key, NavigatorTarget};
use herdr::pane::{PaneState, TerminalId};
use herdr::reorder::WorkspaceReorderCommand;

fn test_workspace(name: &str) -> Workspace {
    Workspace {
        id: format!("id-{name}"),
        name: name.into(),
        parent_workspace_id: None,
        worktree_space: None,
        tabs: vec![Tab { panes: vec![(PaneId(name.len() as u64), PaneState::new(TerminalId(1)))] }],
    }
}

fn empty_state() -> AppState {
    AppState {
        workspaces: Vec::new(),
        terminals: vec![Terminal { id: TerminalId(1), agent_label: None, state: AgentState::Idle }],
        pending_agent_notifications: Vec::new(),
        toast_config: ToastConfig { delay_seconds: 0 },
        active: None,
        selected: 0,
        mode: Mode::Terminal,
        navigator: NavigatorState {
            query: String::new(),
            state_filter: None,
            selected: 0,
            search_focused: false,
            expanded_workspaces: Vec::new(),
        },
    }
}

fn open_navigator(state: &mut AppState) {
    state.active = Some(0);
    state.selected = 0;
    state.mode = Mode::Navigator;
    state.navigator.expanded_workspaces = state.workspaces.iter().map(|ws| ws.id.clone()).collect();
}

fn navigator_state(names: &[&str]) -> AppState {
    let mut state = empty_state();
    state.workspaces = names.iter().map(|name| test_workspace(name)).collect();
    open_navigator(&mut state);
    state
}

fn names(state: &AppState) -> Vec<String> {
    state.workspaces.iter().map(|ws| ws.display_name()).collect()
}

/// Selects the first navigator row that belongs to the named workspace.
fn select_workspace(state: &mut AppState, name: &str) {
    let rows = state.navigator_rows();
    let idx = rows
        .iter()
        .position(|row| {
            matches!(row.target, NavigatorTarget::Workspace { .. })
                && state.workspaces[row.target.ws_idx()].display_name() == name
        })
        .expect("workspace row present");
    state.navigator.selected = idx;
}

fn worktree_member(name: &str, key: &str, is_linked_worktree: bool) -> Workspace {
    let mut ws = test_workspace(name);
    ws.worktree_space = Some(WorktreeSpaceMembership {
        key: key.into(),
        label: "herdr".into(),
        repo_root: "/repo/herdr".into(),
        checkout_path: format!("/repo/{name}"),
        is_linked_worktree,
    });
    ws
}

#[test]
fn move_up_swaps_with_previous_project() {
    let mut state = navigator_state(&["a", "b", "c"]);
    select_workspace(&mut state, "b");
    let command = state
        .plan_navigator_workspace_reorder(WorkspaceReorderDirection::Up)
        .expect("move available");
    state.apply_reorder_command(&command);
    assert_eq!(names(&state), ["b", "a", "c"]);
}

#[test]
fn move_down_swaps_with_next_project() {
    let mut state = navigator_state(&["a", "b", "c"]);
    select_workspace(&mut state, "a");
    let command = state
        .plan_navigator_workspace_reorder(WorkspaceReorderDirection::Down)
        .expect("move available");
    state.apply_reorder_command(&command);
    assert_eq!(names(&state), ["b", "a", "c"]);
}

#[test]
fn move_down_from_second_last_reaches_the_end() {
    let mut state = navigator_state(&["a", "b", "c"]);
    select_workspace(&mut state, "b");
    let command = state
        .plan_navigator_workspace_reorder(WorkspaceReorderDirection::Down)
        .expect("move available");
    state.apply_reorder_command(&command);
    assert_eq!(names(&state), ["a", "c", "b"]);
}

#[test]
fn move_up_at_top_is_noop() {
    let state = navigator_state(&["a", "b", "c"]);
    assert!(state.plan_navigator_workspace_reorder(WorkspaceReorderDirection::Up).is_none());
}

#[test]
fn move_down_at_bottom_is_noop() {
    let mut state = navigator_state(&["a", "b", "c"]);
    select_workspace(&mut state, "c");
    assert!(state.plan_navigator_workspace_reorder(WorkspaceReorderDirection::Down).is_none());
}

#[test]
fn reorder_disabled_while_filtering() {
    let mut state = navigator_state(&["a", "b", "c"]);
    select_workspace(&mut state, "b");
    state.navigator.state_filter = Some(NavigatorStateFilter::Working);
    assert!(state.plan_navigator_workspace_reorder(WorkspaceReorderDirection::Up).is_none());
    state.navigator.state_filter = None;
    state.navigator.query = "a".into();
    assert!(state.plan_navigator_workspace_reorder(WorkspaceReorderDirection::Up).is_none());
}

#[test]
fn move_up_carries_the_whole_worktree_group() {
    let mut state = empty_state();
    state.workspaces = vec![
        test_workspace("solo"),
        worktree_member("main", "repo", false),
        worktree_member("feature", "repo", true),
    ];
    open_navigator(&mut state);
    select_workspace(&mut state, "main");

    let command = state
        .plan_navigator_workspace_reorder(WorkspaceReorderDirection::Up)
        .expect("move available");
    assert!(matches!(command, WorkspaceReorderCommand::Block(_)));
    state.apply_reorder_command(&command);

    assert_eq!(names(&state), ["main", "feature", "solo"]);
}

#[test]
fn move_carries_explicitly_filed_child_without_worktree_metadata() {
    let mut state = empty_state();
    let solo = test_workspace("solo");
    let parent = test_workspace("parent");
    let mut child = test_workspace("child");
    child.parent_workspace_id = Some(parent.id.clone());
    state.workspaces = vec![solo, parent, child];
    open_navigator(&mut state);
    select_workspace(&mut state, "parent");

    let command = state
        .plan_navigator_workspace_reorder(WorkspaceReorderDirection::Up)
        .expect("move available");
    assert!(matches!(command, WorkspaceReorderCommand::Block(_)));
    state.apply_reorder_command(&command);

    // The filed child rides along with its parent to the front.
    assert_eq!(names(&state), ["parent", "child", "solo"]);
}

#[test]
fn direction_from_key_ignores_plain_letters() {
    let state = navigator_state(&["a", "b"]);
    let plain_j = TerminalKey::new(KeyCode::Char('j'), KeyModifiers::empty());
    assert!(navigator_reorder_direction_for_key(&state, &plain_j).is_none());

    let shift_j = TerminalKey::new(KeyCode::Char('J'), KeyModifiers::shift());
    assert_eq!(
        navigator_reorder_direction_for_key(&state, &shift_j),
        Some(WorkspaceReorderDirection::Down)
    );
    let shift_k = TerminalKey::new(KeyCode::Char('k'), KeyModifiers::shift());
    assert_eq!(
        navigator_reorder_direction_for_key(&state, &shift_k),
        Some(WorkspaceReorderDirection::Up)
    );
}

#[test]
fn direction_from_key_ignores_reorder_while_searching() {
    let mut state = navigator_state(&["a", "b"]);
    state.navigator.search_focused = true;
    let shift_j = TerminalKey::new(KeyCode::Char('J'), KeyModifiers::shift());
    assert!(navigator_reorder_direction_for_key(&state, &shift_j).is_none());
}

#[test]
fn plan_workspace_reorder_moves_by_index() {
    let mut state = navigator_state(&["a", "b", "c"]);
    let command = state
        .plan_workspace_reorder(1, WorkspaceReorderDirection::Up)
        .expect("move available");
    state.apply_reorder_command(&command);
    assert_eq!(names(&state), ["b", "a", "c"]);
}

#[test]
fn app_navigate_mode_reorder_moves_and_follows_selection() {
    let mut state = empty_state();
    state.workspaces = ["a", "b", "c"].iter().map(|name| test_workspace(name)).collect();
    state.active = Some(0);
    state.selected = 1;
    state.mode = Mode::Navigate;

    state.reorder_selected_workspace(WorkspaceReorderDirection::Up);

    assert_eq!(names(&state), ["b", "a", "c"]);
    // The highlight tracks the same workspace ("b") to its new slot.
    assert_eq!(state.workspaces[state.selected].display_name(), "b");
}

#[test]
fn navigate_key_shift_j_reorders_without_leaving_navigate_mode() {
    let mut state = empty_state();
    state.workspaces = ["a", "b", "c"].iter().map(|name| test_workspace(name)).collect();
    state.active = Some(0);
    state.selected = 0;
    state.mode = Mode::Navigate;

    let shift_j = TerminalKey::new(KeyCode::Char('J'), KeyModifiers::shift());
    assert!(state.handle_navigate_key_with_reorder(&shift_j));

    assert_eq!(names(&state), ["b", "a", "c"]);
    assert_eq!(state.mode, Mode::Navigate);
    assert_eq!(state.workspaces[state.selected].display_name(), "a");
}

#[test]
fn app_reorder_moves_and_follows_selection() {
    let mut state = empty_state();
    state.workspaces = ["a", "b", "c"].iter().map(|name| test_workspace(name)).collect();
    state.active = Some(0);
    state.selected = 0;
    state.mode = Mode::Navigator;
    select_workspace(&mut state, "b");

    state.reorder_selected_navigator_workspace(WorkspaceReorderDirection::Up);

    assert_eq!(names(&state), ["b", "a", "c"]);
    let rows = state.navigator_rows();
    let selected = &rows[state.navigator.selected];
    assert_eq!(state.workspaces[selected.target.ws_idx()].display_name(), "b");
}

#[test]
fn reorder_keys_accept_both_shift_forms_only() {
    let up = TerminalKey::new(KeyCode::Char('K'), KeyModifiers::empty());
    assert_eq!(reorder_direction_for_key(&up), Some(WorkspaceReorderDirection::Up));
    let down = TerminalKey::new(KeyCode::Char('j'), KeyModifiers::shift());
    assert_eq!(reorder_direction_for_key(&down), Some(WorkspaceReorderDirection::Down));
    let plain = TerminalKey::new(KeyCode::Char('k'), KeyModifiers::empty());
    assert_eq!(reorder_direction_for_key(&plain), None);
    let other = TerminalKey::new(KeyCode::Char('x'), KeyModifiers::shift());
    assert_eq!(reorder_direction_for_key(&other), None);
}

#[test]
fn navigator_key_reorders_and_keeps_the_row_selected() {
    let mut state = navigator_state(&["a", "b", "c"]);
    select_workspace(&mut state, "c");
    let shift_k = TerminalKey::new(KeyCode::Char('K'), KeyModifiers::shift());
    assert!(state.handle_navigator_key_with_reorder(&shift_k));
    assert_eq!(names(&state), ["a", "c", "b"]);
    let rows = state.navigator_rows();
    let selected = &rows[state.navigator.selected];
    assert!(matches!(selected.target, NavigatorTarget::Workspace { .. }));
    assert_eq!(state.workspaces[selected.target.ws_idx()].display_name(), "c");
    // A plain key is left to the navigator.
    let plain = TerminalKey::new(KeyCode::Char('x'), KeyModifiers::empty());
    assert!(!state.handle_navigator_key_with_reorder(&plain));
    assert_eq!(names(&state), ["a", "c", "b"]);
}

#[test]
fn single_move_uses_the_insert_index_of_the_target() {
    let state = navigator_state(&["a", "b", "c"]);
    let command = state
        .plan_workspace_reorder(0, WorkspaceReorderDirection::Down)
        .expect("move available");
    assert!(matches!(command, WorkspaceReorderCommand::Single { source_ws_idx: 0, insert_idx: 2 }));
    let last = state
        .plan_workspace_reorder(1, WorkspaceReorderDirection::Down)
        .expect("move available");
    assert!(matches!(last, WorkspaceReorderCommand::Single { source_ws_idx: 1, insert_idx: 3 }));
    assert!(state.plan_workspace_reorder(7, WorkspaceReorderDirection::Up).is_none());
}

#[test]
fn moving_down_undoes_moving_up() {
    let mut state = navigator_state(&["a", "b", "c", "d"]);
    for w in 1..4 {
        let before = names(&state);
        let up = state.plan_workspace_reorder(w, WorkspaceReorderDirection::Up).expect("move available");
        state.apply_reorder_command(&up);
        assert_eq!(state.workspaces[w - 1].display_name(), before[w]);
        let down = state.plan_workspace_reorder(w - 1, WorkspaceReorderDirection::Down).expect("move available");
        state.apply_reorder_command(&down);
        assert_eq!(names(&state), before);
    }
}

#[test]
fn moving_a_primary_checkout_up_can_regroup_a_worktree() {
    // The worktree nests under the first primary checkout of its repo, so
    // lifting the second checkout above the first regroups it, and moving
    // back down carries it along: down does not undo up here.
    let mut state = empty_state();
    state.workspaces = vec![
        worktree_member("one", "repo", false),
        worktree_member("linked", "repo", true),
        worktree_member("two", "repo", false),
    ];
    open_navigator(&mut state);
    let up = state.plan_workspace_reorder(2, WorkspaceReorderDirection::Up).expect("move available");
    state.apply_reorder_command(&up);
    assert_eq!(names(&state), ["two", "one", "linked"]);
    let down = state.plan_workspace_reorder(0, WorkspaceReorderDirection::Down).expect("move available");
    state.apply_reorder_command(&down);
    assert_eq!(names(&state), ["one", "two", "linked"]);
}

#[test]
fn moving_a_filed_group_down_undoes_moving_it_up() {
    let mut state = empty_state();
    let alpha = test_workspace("alpha");
    let mut alpha_child = test_workspace("alpha-child");
    alpha_child.parent_workspace_id = Some(alpha.id.clone());
    let beta = test_workspace("beta");
    let mut beta_one = test_workspace("beta-one");
    beta_one.parent_workspace_id = Some(beta.id.clone());
    let mut beta_two = test_workspace("beta-two");
    beta_two.parent_workspace_id = Some(beta.id.clone());
    let gamma = test_workspace("gamma");
    state.workspaces = vec![alpha, alpha_child, beta, beta_one, beta_two, gamma];
    open_navigator(&mut state);
    let before = names(&state);

    // Moving the group up from one of its children carries the whole group.
    let up = state.plan_workspace_reorder(4, WorkspaceReorderDirection::Up).expect("move available");
    state.apply_reorder_command(&up);
    assert_eq!(names(&state), ["beta", "beta-one", "beta-two", "alpha", "alpha-child", "gamma"]);

    // Found again by id, the same child moves its group back down.
    let moved = state.workspaces.iter().position(|ws| ws.id == "id-beta-two").unwrap();
    assert_eq!(moved, 2);
    let down = state.plan_workspace_reorder(moved, WorkspaceReorderDirection::Down).expect("move available");
    state.apply_reorder_command(&down);
    assert_eq!(names(&state), before);
}

#[test]
fn moving_the_first_group_up_is_unavailable_from_any_member() {
    let mut state = empty_state();
    let alpha = test_workspace("alpha");
    let mut alpha_child = test_workspace("alpha-child");
    alpha_child.parent_workspace_id = Some(alpha.id.clone());
    let beta = test_workspace("beta");
    state.workspaces = vec![alpha, alpha_child, beta];
    open_navigator(&mut state);
    assert!(state.plan_workspace_reorder(0, WorkspaceReorderDirection::Up).is_none());
    assert!(state.plan_workspace_reorder(1, WorkspaceReorderDirection::Up).is_none());
    // Planning from the child plans from its head.
    assert_eq!(
        state.plan_workspace_reorder(1, WorkspaceReorderDirection::Down),
        state.plan_workspace_reorder(0, WorkspaceReorderDirection::Down)
    );
    assert!(state.plan_workspace_reorder(2, WorkspaceReorderDirection::Down).is_none());
}

#[test]
fn moving_a_worktree_group_down_undoes_moving_it_up_when_the_grouping_stays() {
    let mut state = empty_state();
    state.workspaces = vec![
        test_workspace("other"),
        worktree_member("one", "repo", false),
        worktree_member("linked", "repo", true),
    ];
    open_navigator(&mut state);
    let before = names(&state);
    let up = state.plan_workspace_reorder(2, WorkspaceReorderDirection::Up).expect("move available");
    state.apply_reorder_command(&up);
    assert_eq!(names(&state), ["one", "linked", "other"]);
    let down = state.plan_workspace_reorder(1, WorkspaceReorderDirection::Down).expect("move available");
    state.apply_reorder_command(&down);
    assert_eq!(names(&state), before);
}
