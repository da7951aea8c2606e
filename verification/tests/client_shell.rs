use herdr::client::{
    workspace_move_method, workspace_reorder_method, ClientShellAction, ClientShellInput, ClientShellMode,
    ClientShellOverlay, ClientShellState, PendingEndpointKind,
};
use herdr::grouping::{
    explicit_parent_id, group_collapse_key, top_level_workspace_ids, workspace_entries, workspace_group_block,
    ClientShellSnapshot, ClientShellWorkspace, ClientShellWorktree, WorkspaceGrouping,
};
use herdr::keys::{decode_input_bytes, WorkspaceKeybinds, KeyCode, KeyModifiers, KeybindAction, KeybindMatch, TerminalKey};
use herdr::picker::{ClientMoveWorkspaceOverlay, ClientMoveWorkspaceTarget};
use herdr::protocol::{method_name, AgentStatus, Method, WorkspaceTarget, PARENT_WORKSPACE_TOKEN};
use herdr::text::decimal_string;

fn workspace(id: &str, label: &str) -> ClientShellWorkspace {
    ClientShellWorkspace {
        workspace_id: id.into(),
        active_tab_id: format!("tab_{id}"),
        new_workspace_cwd: "/repo".into(),
        number: 1,
        label: label.into(),
        custom_label: false,
        branch: None,
        git_ahead_behind: None,
        tokens: Vec::new(),
        worktree: None,
        focused: false,
        agent_status: AgentStatus::Idle,
    }
}

fn filed_under(mut w: ClientShellWorkspace, parent: &str) -> ClientShellWorkspace {
    w.tokens.push((PARENT_WORKSPACE_TOKEN.into(), parent.into()));
    w
}

fn snapshot_of(workspaces: Vec<ClientShellWorkspace>, focused: Option<&str>) -> ClientShellSnapshot {
    ClientShellSnapshot { revision: 1, focused_workspace_id: focused.map(|f| f.to_owned()), workspaces }
}

fn state_with(snapshot: ClientShellSnapshot) -> ClientShellState {
    let mut state = ClientShellState::new(WorkspaceKeybinds::default_keybinds());
    state.set_snapshot(snapshot);
    state
}

fn only_request(outcome: &ClientShellInput) -> (String, Method, PendingEndpointKind) {
    match &outcome.actions[..] {
        [ClientShellAction::Endpoint { request, kind }] => (request.id.clone(), request.method.clone(), *kind),
        other => panic!("expected one request, got {other:?}"),
    }
}

#[test]
fn acknowledge_keybind_targets_the_focused_or_picked_workspace_with_fresh_ids() {
    let mut state = state_with(snapshot_of(vec![workspace("ws_1", "a"), workspace("ws_2", "b")], Some("ws_1")));
    let mut first = ClientShellInput::new();
    state.record_binding(KeybindMatch::Action(KeybindAction::AcknowledgeWorkspace), &mut first);
    let (id, method, kind) = only_request(&first);
    assert_eq!(id, "c0");
    assert_eq!(method, Method::WorkspaceAcknowledge(WorkspaceTarget { workspace_id: "ws_1".into() }));
    assert_eq!(kind, PendingEndpointKind::Generic);
    assert!(first.repaint);

    state.navigate_workspace_id = Some("ws_2".into());
    let mut second = ClientShellInput::new();
    state.record_binding(KeybindMatch::Action(KeybindAction::AcknowledgeWorkspace), &mut second);
    let (id, method, _) = only_request(&second);
    assert_eq!(id, "c1");
    assert_eq!(method, Method::WorkspaceAcknowledge(WorkspaceTarget { workspace_id: "ws_2".into() }));
}

#[test]
fn nothing_is_sent_without_a_target_or_with_the_lane_closed() {
    let mut state = state_with(snapshot_of(vec![workspace("ws_1", "a")], None));
    let mut out = ClientShellInput::new();
    state.record_binding(KeybindMatch::Action(KeybindAction::AcknowledgeWorkspace), &mut out);
    assert!(out.actions.is_empty());
    assert!(!out.repaint);

    state.navigate_workspace_id = Some("ws_1".into());
    state.endpoint_lane_open = false;
    state.record_binding(KeybindMatch::Action(KeybindAction::AcknowledgeWorkspace), &mut out);
    assert!(out.actions.is_empty());
    assert_eq!(state.next_request_id, 0);
}

fn picker_state() -> ClientShellState {
    let mut state = state_with(snapshot_of(
        vec![workspace("ws_1", "mine"), workspace("ws_2", "parent"), workspace("ws_3", "other")],
        Some("ws_1"),
    ));
    assert!(state.open_move_workspace_overlay("ws_1".into()));
    state
}

fn picker(state: &ClientShellState) -> &ClientMoveWorkspaceOverlay {
    match state.overlay.as_ref() {
        Some(ClientShellOverlay::MoveWorkspace(picker)) => picker,
        None => panic!("the picker is closed"),
    }
}

#[test]
fn picker_lists_top_level_then_every_other_workspace() {
    let state = picker_state();
    let labels: Vec<&str> = picker(&state).entries.iter().map(|e| e.label.as_str()).collect();
    assert_eq!(labels, vec!["top level", "parent", "other"]);
    assert_eq!(picker(&state).entries[0].target_id, None);
    assert_eq!(picker(&state).entries[2].target_id.as_deref(), Some("ws_3"));
    assert_eq!(picker(&state).selected, 0);
    // An unknown workspace opens nothing.
    let mut other = picker_state();
    other.overlay = None;
    assert!(!other.open_move_workspace_overlay("nope".into()));
    assert!(other.overlay.is_none());
}

#[test]
fn picker_selection_clamps_at_both_ends() {
    let mut state = picker_state();
    state.handle_input_bytes(b"kkk");
    assert_eq!(picker(&state).selected, 0);
    state.handle_input_bytes(b"jjjjjj");
    assert_eq!(picker(&state).selected, 2);
    state.handle_input_bytes(b"\x1b[A");
    assert_eq!(picker(&state).selected, 1);
    let mut overlay = picker(&state).clone();
    overlay.move_selection(-5);
    assert_eq!(overlay.selected, 0);
    overlay.move_selection(isize::MAX);
    assert_eq!(overlay.selected, 2);
    let mut empty = ClientMoveWorkspaceOverlay {
        workspace_id: "x".into(),
        label: "x".into(),
        entries: Vec::new(),
        selected: 0,
        error: None,
        moving: false,
    };
    empty.move_selection(3);
    assert_eq!(empty.selected, 0);
    assert_eq!(empty.selected_target_id(), None);
}

#[test]
fn a_refused_move_keeps_the_picker_open_with_the_message() {
    let mut state = picker_state();
    state.handle_input_bytes(b"j");
    let sent = state.handle_input_bytes(b"\r");
    let (_, method, kind) = only_request(&sent);
    assert_eq!(kind, PendingEndpointKind::MoveWorkspace);
    assert!(matches!(method, Method::WorkspaceReparent(ref p) if p.parent_workspace_id.as_deref() == Some("ws_2")));
    assert!(picker(&state).moving);

    // While the request is in flight, navigation and escape are swallowed,
    // and a second enter sends nothing.
    let swallowed = state.handle_input_bytes(b"j\x1b\r");
    assert!(swallowed.actions.is_empty());
    assert_eq!(picker(&state).selected, 1);
    assert!(state.overlay.is_some());

    state.handle_move_workspace_result(Some("reparenting would create a grouping cycle".into()));
    assert!(!picker(&state).moving);
    assert_eq!(picker(&state).error.as_deref(), Some("reparenting would create a grouping cycle"));
    assert_eq!(picker(&state).selected, 1);

    state.handle_move_workspace_result(None);
    assert!(state.overlay.is_none());
}

#[test]
fn a_closed_lane_leaves_the_picker_ready_to_retry() {
    let mut state = picker_state();
    state.endpoint_lane_open = false;
    let mut out = ClientShellInput::new();
    state.submit_move_workspace(&mut out);
    assert!(out.actions.is_empty());
    assert!(out.repaint);
    assert!(!picker(&state).moving);
    // A click is refused on a row that does not exist.
    state.endpoint_lane_open = true;
    let mut click = ClientShellInput::new();
    state.handle_move_workspace_row_click(9, &mut click);
    assert!(click.actions.is_empty());
    assert_eq!(picker(&state).selected, 0);
}

#[test]
fn prefix_w_opens_the_sidebar_picker_and_escape_leaves_it() {
    let mut state = state_with(snapshot_of(vec![workspace("ws_1", "a"), workspace("ws_2", "b")], Some("ws_2")));
    let prefix = state.keybinds.prefix;
    state.handle_key(prefix);
    assert_eq!(state.mode, ClientShellMode::Prefix);
    state.handle_key(TerminalKey::new(KeyCode::Char('w'), KeyModifiers::empty()));
    assert_eq!(state.mode, ClientShellMode::Navigate);
    assert_eq!(state.navigate_workspace_id.as_deref(), Some("ws_2"));
    // shift+k moves the picked project up.
    let moved = state.handle_key(TerminalKey::new(KeyCode::Char('K'), KeyModifiers::shift()));
    let (_, method, _) = only_request(&moved);
    assert!(matches!(method, Method::WorkspaceMove(ref p) if p.workspace_id == "ws_2" && p.insert_index == 0));
    assert_eq!(state.mode, ClientShellMode::Navigate);
    state.handle_key(TerminalKey::new(KeyCode::Esc, KeyModifiers::empty()));
    assert_eq!(state.mode, ClientShellMode::Terminal);
    assert_eq!(state.navigate_workspace_id, None);
}

#[test]
fn previous_workspace_wraps_around_the_sidebar_order() {
    let mut state = state_with(snapshot_of(
        vec![workspace("ws_1", "a"), workspace("ws_2", "b"), filed_under(workspace("ws_3", "c"), "ws_1")],
        Some("ws_1"),
    ));
    // Sidebar order is ws_1, ws_3 (nested), ws_2.
    assert_eq!(state.focus_target(false).as_deref(), Some("ws_2"));
    assert_eq!(state.focus_target(true).as_deref(), Some("ws_3"));
    let mut out = ClientShellInput::new();
    state.record_binding(KeybindMatch::Action(KeybindAction::PreviousWorkspace), &mut out);
    let (_, method, _) = only_request(&out);
    assert_eq!(method, Method::WorkspaceFocus(WorkspaceTarget { workspace_id: "ws_2".into() }));
}

#[test]
fn grouping_flattens_chains_to_the_topmost_workspace() {
    let snapshot = snapshot_of(
        vec![workspace("a", "a"), filed_under(workspace("b", "b"), "a"), filed_under(workspace("c", "c"), "b")],
        None,
    );
    let grouping = WorkspaceGrouping::compute(&snapshot);
    assert_eq!(grouping.parent_of(0), None);
    assert_eq!(grouping.parent_of(1), Some(0));
    assert_eq!(grouping.parent_of(2), Some(0));
    assert_eq!(grouping.children(0), &[1, 2]);
    assert_eq!(top_level_workspace_ids(&snapshot), vec!["a".to_owned()]);
    assert_eq!(
        workspace_group_block(&snapshot, &"c".to_owned()),
        Some(("a".to_owned(), vec!["a".to_owned(), "b".to_owned(), "c".to_owned()]))
    );
    assert_eq!(group_collapse_key(&snapshot, &"a".to_owned()), Some("a".to_owned()));
    assert_eq!(group_collapse_key(&snapshot, &"b".to_owned()), None);
    assert_eq!(explicit_parent_id(&snapshot.workspaces[2]).map(|p| p.as_str()), Some("b"));
}

#[test]
fn explicit_parent_wins_over_the_inferred_worktree_parent() {
    let repo = |linked: bool| Some(ClientShellWorktree { key: "repo".into(), label: "repo".into(), is_linked_worktree: linked });
    let mut primary = workspace("primary", "p");
    primary.worktree = repo(false);
    let other = workspace("other", "o");
    let mut linked = filed_under(workspace("linked", "l"), "other");
    linked.worktree = repo(true);
    let mut unfiled = workspace("unfiled", "u");
    unfiled.worktree = repo(true);
    let snapshot = snapshot_of(vec![primary, other, linked, unfiled], None);
    let grouping = WorkspaceGrouping::compute(&snapshot);
    assert_eq!(grouping.parent_of(2), Some(1));
    assert_eq!(grouping.parent_of(3), Some(0));
}

#[test]
fn a_grouping_cycle_drops_both_rows_from_the_sidebar() {
    // What the server's cycle check prevents: two workspaces filed under
    // each other leave no top-level row to hang them from.
    let snapshot = snapshot_of(vec![filed_under(workspace("a", "a"), "b"), filed_under(workspace("b", "b"), "a")], None);
    assert!(workspace_entries(&snapshot, &Vec::new()).is_empty());
    assert!(top_level_workspace_ids(&snapshot).is_empty());
}

#[test]
fn a_lone_row_moves_singly_and_a_group_as_a_block() {
    let snapshot = snapshot_of(
        vec![workspace("a", "a"), workspace("b", "b"), filed_under(workspace("c", "c"), "b")],
        None,
    );
    assert_eq!(
        workspace_move_method(&snapshot, &"a".to_owned(), None),
        Some(Method::WorkspaceMove(herdr::protocol::WorkspaceMoveParams { workspace_id: "a".into(), insert_index: 3 }))
    );
    assert_eq!(
        workspace_move_method(&snapshot, &"b".to_owned(), Some(&"a".to_owned())),
        Some(Method::WorkspaceMoveBlock(herdr::protocol::WorkspaceMoveBlockParams {
            workspace_ids: vec!["b".into(), "c".into()],
            before_workspace_id: Some("a".into()),
        }))
    );
    assert_eq!(workspace_move_method(&snapshot, &"zz".to_owned(), None), None);
    // Reordering the nested workspace asks for its group's move.
    assert_eq!(
        workspace_reorder_method(&snapshot, &"c".to_owned(), true),
        workspace_reorder_method(&snapshot, &"b".to_owned(), true)
    );
    assert_eq!(workspace_reorder_method(&snapshot, &"b".to_owned(), false), None);
    assert_eq!(workspace_reorder_method(&snapshot, &"zz".to_owned(), true), None);
}

#[test]
fn raw_bytes_decode_to_keys() {
    let keys = decode_input_bytes(b"\x1b[AJ\x02\x1b\r\tx\x7f");
    assert_eq!(
        keys,
        vec![
            TerminalKey::new(KeyCode::Up, KeyModifiers::empty()),
            TerminalKey::new(KeyCode::Char('J'), KeyModifiers::shift()),
            TerminalKey::new(KeyCode::Char('b'), KeyModifiers::ctrl()),
            TerminalKey::new(KeyCode::Esc, KeyModifiers::empty()),
            TerminalKey::new(KeyCode::Enter, KeyModifiers::empty()),
            TerminalKey::new(KeyCode::Tab, KeyModifiers::empty()),
            TerminalKey::new(KeyCode::Char('x'), KeyModifiers::empty()),
            TerminalKey::new(KeyCode::Backspace, KeyModifiers::empty()),
        ]
    );
    assert_eq!(decode_input_bytes(&[0xff]), vec![TerminalKey::new(KeyCode::Other, KeyModifiers::empty())]);
}

#[test]
fn decimal_strings_and_method_names() {
    assert_eq!(decimal_string(0), "0");
    assert_eq!(decimal_string(12345), "12345");
    assert_eq!(decimal_string(u64::MAX), u64::MAX.to_string());
    assert_eq!(method_name(&Method::WorkspaceList), "workspace.list");
    assert_eq!(
        method_name(&Method::WorkspaceAcknowledge(WorkspaceTarget { workspace_id: "w".into() })),
        "workspace.acknowledge"
    );
}

#[test]
fn picker_entries_targets_round_trip() {
    let target = ClientMoveWorkspaceTarget { target_id: Some("ws_2".into()), label: "p".into() };
    let overlay = ClientMoveWorkspaceOverlay {
        workspace_id: "ws_1".into(),
        label: "m".into(),
        entries: vec![target],
        selected: 0,
        error: None,
        moving: false,
    };
    assert_eq!(overlay.selected_target_id().as_deref(), Some("ws_2"));
}

#[test]
fn sidebar_top_rows_are_the_reorder_roots() {
    let snapshot = snapshot_of(
        vec![
            workspace("a", "a"),
            filed_under(workspace("b", "b"), "c"),
            workspace("c", "c"),
            filed_under(workspace("d", "d"), "a"),
            workspace("e", "e"),
        ],
        None,
    );
    for collapsed in [Vec::new(), vec!["a".to_owned()], vec!["a".to_owned(), "c".to_owned()]] {
        let top_rows: Vec<String> = workspace_entries(&snapshot, &collapsed)
            .iter()
            .filter(|entry| !entry.indented)
            .map(|entry| snapshot.workspaces[entry.index].workspace_id.clone())
            .collect();
        assert_eq!(top_rows, top_level_workspace_ids(&snapshot));
    }
    assert_eq!(top_level_workspace_ids(&snapshot), vec!["a".to_owned(), "c".to_owned(), "e".to_owned()]);
}

#[test]
fn expanded_sidebar_lists_every_workspace_once() {
    let snapshot = snapshot_of(
        vec![
            filed_under(workspace("x", "x"), "c"),
            workspace("a", "a"),
            workspace("c", "c"),
            filed_under(workspace("y", "y"), "a"),
            filed_under(workspace("z", "z"), "c"),
        ],
        None,
    );
    let entries = workspace_entries(&snapshot, &Vec::new());
    assert_eq!(
        entries.iter().map(|e| (e.index, e.indented, e.last_child)).collect::<Vec<_>>(),
        vec![(1, false, false), (3, true, true), (2, false, false), (0, true, false), (4, true, true)]
    );
    let mut seen: Vec<usize> = entries.iter().map(|e| e.index).collect();
    seen.sort();
    assert_eq!(seen, vec![0, 1, 2, 3, 4]);
}

#[test]
fn every_member_of_a_group_names_the_same_block() {
    let snapshot = snapshot_of(
        vec![
            workspace("a", "alpha"),
            filed_under(workspace("b", "beta"), "a"),
            workspace("c", "gamma"),
            filed_under(workspace("d", "delta"), "a"),
        ],
        None,
    );
    let expected = Some(("a".to_owned(), vec!["a".to_owned(), "b".to_owned(), "d".to_owned()]));
    for id in ["a", "b", "d"] {
        assert_eq!(workspace_group_block(&snapshot, &id.to_owned()), expected);
    }
    assert_eq!(workspace_group_block(&snapshot, &"c".to_owned()), Some(("c".to_owned(), vec!["c".to_owned()])));
    assert_eq!(workspace_group_block(&snapshot, &"zz".to_owned()), None);
    assert_eq!(top_level_workspace_ids(&snapshot), vec!["a".to_owned(), "c".to_owned()]);
}
