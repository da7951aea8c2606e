use herdr::app_state::{
    AgentState, AppState, Mode, NavigatorState, PaneId, ReparentFailure, Tab, Terminal, ToastConfig,
    Workspace, WorkspaceApiError, WorktreeSpaceMembership,
};
use herdr::pane::{PaneState, TerminalId};
use herdr::protocol::{WorkspaceReparentParams, WorkspaceTarget, EXPLICIT_TOP_LEVEL_PARENT};

fn workspace(name: &str, number: u64) -> Workspace {
    Workspace {
        id: format!("w{number}"),
        name: name.into(),
        parent_workspace_id: None,
        worktree_space: None,
        tabs: vec![Tab { panes: vec![(PaneId(number), PaneState::new(TerminalId(number)))] }],
    }
}

fn state_with(workspaces: Vec<Workspace>) -> AppState {
    let terminals = workspaces
        .iter()
        .flat_map(|ws| ws.tabs.iter())
        .flat_map(|tab| tab.panes.iter())
        .map(|(_, pane)| Terminal {
            id: pane.attached_terminal_id,
            agent_label: None,
            state: AgentState::Unknown,
        })
        .collect();
    AppState {
        workspaces,
        terminals,
        pending_agent_notifications: Vec::new(),
        toast_config: ToastConfig { delay_seconds: 0 },
        active: Some(0),
        selected: 0,
        mode: Mode::Terminal,
        navigator: NavigatorState {
            query: String::new(),
            state_filter: None,
            selected: 0,
            search_focused: false,
            expanded_workspaces: Vec::new(),
        },
    }
}

fn space(linked: bool) -> WorktreeSpaceMembership {
    WorktreeSpaceMembership {
        key: "repo".into(),
        label: "repo".into(),
        repo_root: "/repo".into(),
        checkout_path: "/repo".into(),
        is_linked_worktree: linked,
    }
}

fn reparent(state: &mut AppState, workspace_id: &str, parent: Option<&str>) -> Result<usize, WorkspaceApiError> {
    state.handle_workspace_reparent(&WorkspaceReparentParams {
        workspace_id: workspace_id.into(),
        parent_workspace_id: parent.map(|p| p.to_owned()),
    })
}

#[test]
fn api_workspace_reparent_files_unfiles_and_rejects_cycles() {
    let mut state = state_with(vec![workspace("child", 1), workspace("parent", 2)]);
    let child = state.workspaces[0].id.clone();
    let parent = state.workspaces[1].id.clone();

    // File child under parent.
    let response = reparent(&mut state, &child, Some(&parent));
    assert_eq!(response, Ok(0));
    assert_eq!(state.workspaces[0].parent_workspace_id.as_deref(), Some(parent.as_str()));

    // Filing parent under child would form a cycle: rejected, state intact.
    let response = reparent(&mut state, &parent, Some(&child));
    let error = response.expect_err("cycle should be rejected");
    assert_eq!(error.code(), "workspace_reparent_failed", "cycle should be rejected: {error:?}");
    assert!(state.workspaces[1].parent_workspace_id.is_none());

    // Unfile child: recorded as an explicit "top level" rather than cleared.
    reparent(&mut state, &child, None).unwrap();
    assert_eq!(
        state.workspaces[0].parent_workspace_id.as_deref(),
        Some(EXPLICIT_TOP_LEVEL_PARENT)
    );
    assert!(state.grouping_parent_index(0).is_none());
}

#[test]
fn api_workspace_reparent_keeps_a_linked_worktree_at_top_level() {
    let mut primary = workspace("repo", 1);
    primary.worktree_space = Some(space(false));
    let mut linked = workspace("repo-feature", 2);
    linked.worktree_space = Some(space(true));
    let mut state = state_with(vec![primary, linked]);
    let linked_id = state.workspaces[1].id.clone();

    // Inferred under its primary checkout before any explicit choice.
    assert_eq!(state.grouping_parent_index(1), Some(0));

    reparent(&mut state, &linked_id, None).unwrap();
    assert!(
        state.grouping_parent_index(1).is_none(),
        "an explicitly unfiled worktree must stay at top level"
    );
}

#[test]
fn api_workspace_reparent_rejects_a_cycle_through_an_inferred_worktree_parent() {
    let mut primary = workspace("repo", 1);
    primary.worktree_space = Some(space(false));
    let mut linked = workspace("repo-feature", 2);
    linked.worktree_space = Some(space(true));
    let mut state = state_with(vec![primary, linked]);
    let primary_id = state.workspaces[0].id.clone();
    let linked_id = state.workspaces[1].id.clone();

    let response = reparent(&mut state, &primary_id, Some(&linked_id));
    assert!(
        matches!(&response, Err(error) if error.code() == "workspace_reparent_failed"),
        "filing a repo under its own worktree must be rejected: {response:?}"
    );
    assert!(state.workspaces[0].parent_workspace_id.is_none());
}

#[test]
fn closing_a_parent_promotes_its_explicit_children_to_top_level() {
    let mut state = state_with(vec![workspace("child", 1), workspace("parent", 2), workspace("other", 3)]);
    let parent_id = state.workspaces[1].id.clone();
    state.workspaces[0].parent_workspace_id = Some(parent_id.clone());

    state.workspaces.remove(1);
    state.promote_orphaned_workspace_children();

    assert!(
        state.workspaces[0].parent_workspace_id.is_none(),
        "the child must be promoted once its parent is gone"
    );
    assert!(
        !state
            .workspaces
            .iter()
            .any(|ws| ws.parent_workspace_id.as_deref() == Some(parent_id.as_str())),
        "no workspace may still reference the closed parent"
    );
}

#[test]
fn promotion_keeps_live_links_and_the_top_level_marker() {
    let mut state = state_with(vec![workspace("a", 1), workspace("b", 2), workspace("c", 3)]);
    state.workspaces[0].parent_workspace_id = Some("w2".into());
    state.workspaces[2].parent_workspace_id = Some(EXPLICIT_TOP_LEVEL_PARENT.into());
    state.promote_orphaned_workspace_children();
    assert_eq!(state.workspaces[0].parent_workspace_id.as_deref(), Some("w2"));
    assert_eq!(state.workspaces[2].parent_workspace_id.as_deref(), Some(EXPLICIT_TOP_LEVEL_PARENT));
}

#[test]
fn reparent_reports_unknown_workspaces_and_self_filing() {
    let mut state = state_with(vec![workspace("a", 1), workspace("b", 2)]);
    assert_eq!(
        reparent(&mut state, "w9", None),
        Err(WorkspaceApiError::WorkspaceNotFound { workspace_id: "w9".into() })
    );
    assert_eq!(
        reparent(&mut state, "w1", Some("w7")),
        Err(WorkspaceApiError::WorkspaceNotFound { workspace_id: "w7".into() })
    );
    let itself = reparent(&mut state, "w1", Some("w1"));
    assert_eq!(itself, Err(WorkspaceApiError::ReparentFailed(ReparentFailure::FiledUnderItself)));
    assert_eq!(itself.unwrap_err().code(), "workspace_reparent_failed");
    assert_eq!(ReparentFailure::FiledUnderItself.message(), "a workspace cannot be filed under itself");
    assert_eq!(ReparentFailure::WouldCreateCycle.message(), "reparenting would create a grouping cycle");
    assert_eq!(
        WorkspaceApiError::WorkspaceNotFound { workspace_id: "x".into() }.code(),
        "workspace_not_found"
    );
    assert!(state.workspaces.iter().all(|ws| ws.parent_workspace_id.is_none()));
}

#[test]
fn reparent_rejects_a_longer_cycle_and_accepts_a_sibling() {
    let mut state = state_with(vec![workspace("a", 1), workspace("b", 2), workspace("c", 3)]);
    reparent(&mut state, "w2", Some("w1")).unwrap();
    reparent(&mut state, "w3", Some("w2")).unwrap();
    // a under c would close a -> c -> b -> a.
    assert_eq!(
        reparent(&mut state, "w1", Some("w3")),
        Err(WorkspaceApiError::ReparentFailed(ReparentFailure::WouldCreateCycle))
    );
    assert!(state.workspaces[0].parent_workspace_id.is_none());
    // Refiling c directly under a is fine.
    assert_eq!(reparent(&mut state, "w3", Some("w1")), Ok(2));
    assert_eq!(state.grouping_parent_index(2), Some(0));
}

#[test]
fn acknowledge_reports_an_unknown_workspace() {
    let mut state = state_with(vec![workspace("a", 1)]);
    let result = state.handle_workspace_acknowledge(&WorkspaceTarget { workspace_id: "nope".into() });
    assert!(matches!(result, Err(WorkspaceApiError::WorkspaceNotFound { ref workspace_id }) if workspace_id == "nope"));
    let ok = state.handle_workspace_acknowledge(&WorkspaceTarget { workspace_id: "w1".into() });
    // The only pane is already seen: nothing flips.
    assert_eq!(ok.map(|updates| updates.len()), Ok(0));
}
