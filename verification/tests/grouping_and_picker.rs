use herdr::client::{
    workspace_reorder_method, ClientShellAction, ClientShellInput, ClientShellMode, ClientShellOverlay,
    ClientShellState,
};
use herdr::grouping::{workspace_entries, ClientShellSnapshot, ClientShellWorkspace, ClientShellWorktree};
use herdr::keys::{WorkspaceKeybinds, KeyCode, KeyModifiers, KeybindAction, KeybindMatch, TerminalKey};
use herdr::layout::{status_color, Area, Palette, ThemeColor};
use herdr::picker_layout::move_picker_layout;
use herdr::protocol::{AgentStatus, Method, PARENT_WORKSPACE_TOKEN};
use herdr::sidebar_layout::{sidebar_rows_layout, SidebarRowLayout};

/// One focused workspace `ws_1` on branch `main`.
fn snapshot() -> ClientShellSnapshot {
    ClientShellSnapshot {
        revision: 1,
        focused_workspace_id: Some("ws_1".into()),
        workspaces: vec![ClientShellWorkspace {
            workspace_id: "ws_1".into(),
            active_tab_id: "tab_ws1".into(),
            new_workspace_cwd: "/repo".into(),
            number: 1,
            label: "herdr".into(),
            custom_label: false,
            branch: Some("main".into()),
            git_ahead_behind: None,
            tokens: Vec::new(),
            worktree: None,
            focused: true,
            agent_status: AgentStatus::Idle,
        }],
    }
}

fn palette() -> Palette {
    Palette {
        accent: ThemeColor::Blue,
        text: ThemeColor::White,
        subtext0: ThemeColor::Gray,
        overlay0: ThemeColor::DarkGray,
        overlay1: ThemeColor::Indexed(245),
        surface0: ThemeColor::Indexed(236),
        surface1: ThemeColor::Indexed(238),
        surface_dim: ThemeColor::Indexed(234),
        mauve: ThemeColor::Magenta,
        red: ThemeColor::Red,
        yellow: ThemeColor::Yellow,
        green: ThemeColor::Green,
        panel_bg: ThemeColor::Black,
        sidebar_bg: ThemeColor::Black,
        selection_bg: ThemeColor::Indexed(239),
        active_row_bg: ThemeColor::Indexed(237),
    }
}

fn new_state() -> ClientShellState {
    ClientShellState::new(WorkspaceKeybinds::default_keybinds())
}

/// The sidebar's workspace rows for the state's snapshot.
fn layout(state: &ClientShellState) -> Vec<SidebarRowLayout> {
    let snapshot = state.snapshot.as_ref().expect("snapshot");
    sidebar_rows_layout(snapshot, &state.collapsed_groups, None, None, Area::new(0, 2, 26, 16), 0, 0)
}

fn text_of(rows: &[SidebarRowLayout]) -> String {
    rows.iter().flat_map(|row| row.lines.iter().cloned()).collect::<Vec<_>>().join("\n")
}

fn open_picker(state: &mut ClientShellState) {
    let mut out = ClientShellInput::new();
    state.record_binding(KeybindMatch::Action(KeybindAction::MoveWorktreeToWorkspace), &mut out);
}

/// Two workspaces: focused "ws_1" plus a "parent" candidate to file it under.
fn move_picker_state() -> ClientShellState {
    let mut state = new_state();
    let mut snapshot = snapshot();
    let mut second = snapshot.workspaces[0].clone();
    second.workspace_id = "ws_2".into();
    second.number = 2;
    second.label = "parent".into();
    second.focused = false;
    snapshot.workspaces.push(second);
    state.set_snapshot(snapshot);
    state
}

fn reparent_of(actions: &[ClientShellAction]) -> Option<(String, Option<String>)> {
    match actions {
        [ClientShellAction::Endpoint { request, .. }] => match &request.method {
            Method::WorkspaceReparent(params) => {
                Some((params.workspace_id.clone(), params.parent_workspace_id.clone()))
            }
            _ => None,
        },
        _ => None,
    }
}

#[test]
fn grouped_worktrees_render_parent_branch_and_indented_child() {
    let mut state = new_state();
    let mut snapshot = snapshot();
    snapshot.workspaces[0].worktree = Some(ClientShellWorktree {
        key: "repo".into(),
        label: "repo".into(),
        is_linked_worktree: false,
    });
    snapshot.workspaces.push(ClientShellWorkspace {
        workspace_id: "ws_2".into(),
        active_tab_id: "tab_ws2".into(),
        new_workspace_cwd: "/repo/feature".into(),
        number: 2,
        label: "repo-feature".into(),
        custom_label: false,
        branch: Some("worktree/feature".into()),
        git_ahead_behind: None,
        tokens: Vec::new(),
        worktree: Some(ClientShellWorktree {
            key: "repo".into(),
            label: "repo".into(),
            is_linked_worktree: true,
        }),
        focused: false,
        agent_status: AgentStatus::Idle,
    });
    state.set_snapshot(snapshot);
    let text = text_of(&layout(&state));
    assert!(text.contains("main"));
    assert!(text.contains("└─"));
    assert!(text.contains("feature"));

    let mut replacement = state.snapshot.clone().expect("snapshot");
    replacement.revision = 2;
    replacement.focused_workspace_id = Some("ws_2".into());
    replacement.workspaces[0].focused = false;
    replacement.workspaces[1].focused = true;
    replacement.workspaces[1].agent_status = AgentStatus::Blocked;
    // Groups collapse by the parent workspace id (ws_1), not the git repo key.
    state.collapsed_groups.push("ws_1".into());
    state.set_snapshot(replacement);
    let collapsed = layout(&state);
    let parent = &collapsed[0];
    assert_eq!(parent.workspace_id, "ws_1");
    assert_eq!(status_color(parent.status, &palette()), palette().red);

    let mut next = ClientShellInput::new();
    state.record_binding(KeybindMatch::Action(KeybindAction::NextWorkspace), &mut next);
    assert!(matches!(
        &next.actions[..],
        [ClientShellAction::Endpoint { request, .. }]
            if matches!(&request.method, Method::WorkspaceFocus(target) if target.workspace_id == "ws_1")
    ));
}

#[test]
fn same_repo_non_linked_workspaces_stay_separate_top_level() {
    let mut state = new_state();
    let mut snapshot = snapshot();
    snapshot.workspaces[0].label = "odyssey".into();
    snapshot.workspaces[0].worktree = Some(ClientShellWorktree {
        key: "monorepo".into(),
        label: "monorepo".into(),
        is_linked_worktree: false,
    });
    snapshot.workspaces.push(ClientShellWorkspace {
        workspace_id: "ws_2".into(),
        active_tab_id: "tab_ws2".into(),
        new_workspace_cwd: "/repo/bifrost".into(),
        number: 2,
        label: "bifrost".into(),
        custom_label: false,
        branch: Some("main".into()),
        git_ahead_behind: None,
        tokens: Vec::new(),
        worktree: Some(ClientShellWorktree {
            key: "monorepo".into(),
            label: "monorepo".into(),
            is_linked_worktree: false,
        }),
        focused: false,
        agent_status: AgentStatus::Idle,
    });
    state.set_snapshot(snapshot);
    let rows = layout(&state);
    let text = text_of(&rows);
    assert!(text.contains("odyssey"), "odyssey rendered");
    assert!(text.contains("bifrost"), "bifrost rendered");
    assert!(
        !text.contains("└─") && !text.contains("├─"),
        "same-repo non-linked workspaces must not nest:\n{text}"
    );
    // Both are top-level rows.
    assert_eq!(rows.len(), 2);
    assert!(rows.iter().all(|row| !row.entry.indented));
}

#[test]
fn move_workspace_keybind_reorders_focused_project() {
    let mut state = new_state();
    let mut snapshot = snapshot();
    snapshot.workspaces[0].label = "a".into();
    snapshot.workspaces[0].focused = false;
    for (index, label) in [(2, "b"), (3, "c")] {
        let mut workspace = snapshot.workspaces[0].clone();
        workspace.workspace_id = format!("ws_{index}");
        workspace.number = index;
        workspace.label = label.into();
        workspace.focused = index == 2;
        snapshot.workspaces.push(workspace);
    }
    snapshot.focused_workspace_id = Some("ws_2".into());
    state.set_snapshot(snapshot);

    // Move up: "b" lands before "a" via a single WorkspaceMove at index 0.
    let mut up = ClientShellInput::new();
    state.record_binding(KeybindMatch::Action(KeybindAction::MoveWorkspacePrevious), &mut up);
    assert!(
        matches!(
            &up.actions[..],
            [ClientShellAction::Endpoint { request, .. }]
                if matches!(
                    &request.method,
                    Method::WorkspaceMove(params) if params.workspace_id == "ws_2" && params.insert_index == 0
                )
        ),
        "expected WorkspaceMove(ws_2 -> 0), got {:?}",
        up.actions
    );
}

#[test]
fn move_workspace_keybind_at_top_is_noop() {
    let mut state = new_state();
    state.set_snapshot(snapshot()); // single workspace ws_1, focused
    let mut up = ClientShellInput::new();
    state.record_binding(KeybindMatch::Action(KeybindAction::MoveWorkspacePrevious), &mut up);
    assert!(
        !up.actions.iter().any(|action| matches!(
            action,
            ClientShellAction::Endpoint { request, .. }
                if matches!(request.method, Method::WorkspaceMove(_) | Method::WorkspaceMoveBlock(_))
        )),
        "top project must not emit a move: {:?}",
        up.actions
    );
}

#[test]
fn reorder_moves_an_explicit_parent_group_as_one_block() {
    let mut snapshot = snapshot();
    for (index, label) in [(2, "middle"), (3, "child")] {
        let mut extra = snapshot.workspaces[0].clone();
        extra.workspace_id = format!("ws_{index}");
        extra.number = index;
        extra.label = label.into();
        extra.focused = false;
        snapshot.workspaces.push(extra);
    }
    // ws_3 is filed under ws_1, so the top-level rows are ws_1 then ws_2.
    snapshot.workspaces[2].tokens.push((PARENT_WORKSPACE_TOKEN.into(), "ws_1".into()));

    // Moving the parent down carries its child as a block.
    let method = workspace_reorder_method(&snapshot, &"ws_1".to_owned(), false).expect("parent should reorder");
    assert!(
        matches!(
            &method,
            Method::WorkspaceMoveBlock(params)
                if params.workspace_ids == vec!["ws_1".to_owned(), "ws_3".to_owned()]
        ),
        "parent must move with its child: {method:?}"
    );

    // The nested child resolves to its parent rather than moving alone.
    let from_child = workspace_reorder_method(&snapshot, &"ws_3".to_owned(), false)
        .expect("child should reorder its parent group");
    assert!(
        matches!(
            &from_child,
            Method::WorkspaceMoveBlock(params)
                if params.workspace_ids == vec!["ws_1".to_owned(), "ws_3".to_owned()]
        ),
        "child must move its parent's block: {from_child:?}"
    );

    // An ungrouped top-level workspace still moves on its own.
    let lone = workspace_reorder_method(&snapshot, &"ws_2".to_owned(), true).expect("middle workspace should reorder");
    assert!(
        matches!(&lone, Method::WorkspaceMove(params) if params.workspace_id == "ws_2"),
        "lone workspace moves singly: {lone:?}"
    );
}

#[test]
fn move_worktree_keybind_opens_the_move_workspace_picker() {
    let mut state = move_picker_state();
    open_picker(&mut state);

    let Some(ClientShellOverlay::MoveWorkspace(picker)) = state.overlay.as_ref() else {
        panic!("expected the move-to-workspace picker, got {:?}", state.overlay);
    };
    assert_eq!(picker.workspace_id, "ws_1");
    // "top level" plus every other workspace.
    assert_eq!(
        picker.entries.iter().map(|entry| entry.label.as_str()).collect::<Vec<_>>(),
        vec!["top level", "parent"]
    );
}

#[test]
fn move_workspace_picker_renders_a_modal_listing_targets() {
    let mut state = move_picker_state();
    open_picker(&mut state);
    let Some(ClientShellOverlay::MoveWorkspace(picker)) = state.overlay.as_ref() else {
        panic!("expected the move-to-workspace picker, got {:?}", state.overlay);
    };
    let laid_out = move_picker_layout(picker, Area::new(21, 6, 62, 11));
    let mut lines = vec![laid_out.title.clone(), laid_out.subtitle.clone()];
    lines.extend(laid_out.rows.iter().map(|row| row.text.clone()));
    lines.push(laid_out.status_text.clone());
    lines.push(laid_out.primary_button.clone());
    lines.push(laid_out.cancel_button.clone());
    let text = lines.join("\n");
    for expected in ["move", "top level", "parent", "esc cancel"] {
        assert!(text.contains(expected), "picker must render {expected:?}; frame was:\n{text}");
    }
}

#[test]
fn move_workspace_picker_files_under_the_selected_target() {
    let mut state = move_picker_state();
    open_picker(&mut state);

    // j moves off "top level" onto the parent workspace, enter commits.
    state.handle_input_bytes(b"j");
    let filed = state.handle_input_bytes(b"\r");
    assert_eq!(
        reparent_of(&filed.actions),
        Some(("ws_1".to_owned(), Some("ws_2".to_owned()))),
        "expected a reparent endpoint, got {:?}",
        filed.actions
    );
}

#[test]
fn move_workspace_picker_top_level_entry_unfiles() {
    let mut state = move_picker_state();
    open_picker(&mut state);

    // "top level" is selected first, so enter unfiles to the top level.
    let filed = state.handle_input_bytes(b"\r");
    assert_eq!(
        reparent_of(&filed.actions),
        Some(("ws_1".to_owned(), None)),
        "expected a reparent endpoint, got {:?}",
        filed.actions
    );
}

#[test]
fn move_workspace_picker_escape_cancels_without_moving() {
    let mut state = move_picker_state();
    open_picker(&mut state);

    let cancelled = state.handle_input_bytes(b"\x1b");
    assert!(state.overlay.is_none(), "esc must close the picker");
    assert!(cancelled.actions.is_empty(), "esc must not move anything: {:?}", cancelled.actions);
}

#[test]
fn shift_m_opens_the_move_picker_from_inside_the_workspace_picker() {
    let mut state = move_picker_state();

    let prefix = state.keybinds.prefix;
    state.handle_key(prefix);
    state.handle_key(TerminalKey::new(KeyCode::Char('w'), KeyModifiers::empty()));
    assert_eq!(state.mode, ClientShellMode::Navigate);

    state.handle_key(TerminalKey::new(KeyCode::Char('M'), KeyModifiers::shift()));
    let Some(ClientShellOverlay::MoveWorkspace(picker)) = state.overlay.as_ref() else {
        panic!("shift+m inside the workspace picker must open the move picker, got {:?}", state.overlay);
    };
    assert_eq!(picker.workspace_id, "ws_1");
}

#[test]
fn move_workspace_picker_starts_on_the_current_parent() {
    let mut state = move_picker_state();
    // Pretend ws_1 is already filed under ws_2.
    let mut updated = state.snapshot.clone().expect("snapshot");
    updated.revision = 2;
    updated.workspaces[0].tokens.push((PARENT_WORKSPACE_TOKEN.into(), "ws_2".into()));
    state.set_snapshot(updated);

    open_picker(&mut state);
    let Some(ClientShellOverlay::MoveWorkspace(picker)) = state.overlay.as_ref() else {
        panic!("expected the move picker, got {:?}", state.overlay);
    };
    assert_eq!(
        picker.selected_target_id().as_deref(),
        Some("ws_2"),
        "the picker should open on the current parent"
    );
}

#[test]
fn explicit_parent_token_nests_under_chosen_workspace() {
    let mut state = new_state();
    let mut snapshot = snapshot();
    snapshot.workspaces[0].label = "odyssey".into();
    snapshot.workspaces[0].workspace_id = "ws_1".into();
    snapshot.workspaces[0].worktree = Some(ClientShellWorktree {
        key: "monorepo".into(),
        label: "monorepo".into(),
        is_linked_worktree: false,
    });
    for (index, label, linked, parent) in [(2, "bifrost", false, None), (3, "feature", true, Some("ws_2"))] {
        let mut ws = snapshot.workspaces[0].clone();
        ws.workspace_id = format!("ws_{index}");
        ws.number = index;
        ws.label = label.into();
        ws.focused = false;
        ws.worktree = Some(ClientShellWorktree {
            key: "monorepo".into(),
            label: "monorepo".into(),
            is_linked_worktree: linked,
        });
        if let Some(parent) = parent {
            ws.tokens.push((PARENT_WORKSPACE_TOKEN.into(), parent.into()));
        }
        snapshot.workspaces.push(ws);
    }
    state.set_snapshot(snapshot);
    let rows = layout(&state);

    let hit = |id: &str| {
        rows.iter()
            .find(|row| row.workspace_id == id)
            .unwrap_or_else(|| panic!("hit for {id}"))
            .entry
            .indented
    };
    assert!(!hit("ws_1"), "odyssey stays top-level");
    assert!(!hit("ws_2"), "bifrost stays top-level");
    assert!(hit("ws_3"), "the worktree nests under its explicit parent bifrost");
}

#[test]
fn move_workspace_picker_files_a_clicked_target() {
    let mut state = move_picker_state();
    open_picker(&mut state);
    let Some(ClientShellOverlay::MoveWorkspace(picker)) = state.overlay.as_ref() else {
        panic!("expected the move picker, got {:?}", state.overlay);
    };
    let laid_out = move_picker_layout(picker, Area::new(21, 6, 62, 11));

    // Row 1 is the "parent" workspace ("top level" is row 0).
    let row = laid_out
        .rows
        .iter()
        .find(|row| row.index == 1)
        .expect("picker should publish target row hits");

    let mut clicked = ClientShellInput::new();
    state.handle_move_workspace_row_click(row.index, &mut clicked);
    assert_eq!(
        reparent_of(&clicked.actions),
        Some(("ws_1".to_owned(), Some("ws_2".to_owned()))),
        "clicking a target must file it, got {:?}",
        clicked.actions
    );
}

#[test]
fn collapsed_group_shows_only_its_focused_child() {
    let mut snapshot = snapshot();
    for (index, label) in [(2, "one"), (3, "two")] {
        let mut child = snapshot.workspaces[0].clone();
        child.workspace_id = format!("ws_{index}");
        child.label = label.into();
        child.focused = index == 3;
        child.tokens.push((PARENT_WORKSPACE_TOKEN.into(), "ws_1".into()));
        snapshot.workspaces.push(child);
    }
    snapshot.workspaces[0].focused = false;
    let open = workspace_entries(&snapshot, &Vec::new());
    assert_eq!(open.iter().map(|e| (e.index, e.indented, e.last_child)).collect::<Vec<_>>(),
        vec![(0, false, false), (1, true, false), (2, true, true)]);
    let collapsed = workspace_entries(&snapshot, &vec!["ws_1".to_owned()]);
    assert_eq!(collapsed.iter().map(|e| (e.index, e.indented, e.last_child)).collect::<Vec<_>>(),
        vec![(0, false, false), (2, true, true)]);
}
