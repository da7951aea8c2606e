use herdr::keys::{
    keybind_help_entries, resolve_workspace_binding, WorkspaceKeybinds, KeyCode, KeyModifiers, KeybindAction,
    TerminalKey,
};
use herdr::protocol::{
    request_changes_ui, supports_client_shell_method_name, Method, Request, WorkspaceReparentParams,
    WorkspaceTarget, EXPLICIT_TOP_LEVEL_PARENT, PARENT_WORKSPACE_TOKEN,
};

#[test]
fn reparent_is_registered_as_a_ui_changing_request() {
    let request = Request {
        id: "guard".into(),
        method: Method::WorkspaceReparent(WorkspaceReparentParams {
            workspace_id: "w1".into(),
            parent_workspace_id: Some("w2".into()),
        }),
    };
    assert!(
        request_changes_ui(&request),
        "workspace.reparent must change the UI, or the sidebar never re-renders after a move"
    );
}

#[test]
fn reparent_is_allowed_on_the_client_shell_lane() {
    assert!(
        supports_client_shell_method_name("workspace.reparent"),
        "workspace.reparent must be allowed on the client-shell lane"
    );
}

#[test]
fn move_worktree_keybind_resolves_from_the_default_config() {
    let keybinds = WorkspaceKeybinds::default_keybinds();
    for key in [
        TerminalKey::new(KeyCode::Char('m'), KeyModifiers::shift()),
        TerminalKey::new(KeyCode::Char('M'), KeyModifiers::empty()),
        TerminalKey::new(KeyCode::Char('M'), KeyModifiers::shift()),
    ] {
        assert_eq!(
            resolve_workspace_binding(&keybinds, &key),
            Some(KeybindAction::MoveWorktreeToWorkspace),
            "prefix+shift+m must resolve to MoveWorktreeToWorkspace for {key:?}"
        );
    }
}

#[test]
fn move_worktree_is_listed_in_keybind_help() {
    let keybinds = WorkspaceKeybinds::default_keybinds();
    let entries = keybind_help_entries(&keybinds);
    let listed = entries
        .iter()
        .any(|(binding, label)| label.contains("move worktree to workspace") && binding != "unset");
    assert!(
        listed,
        "the move_worktree binding must appear in keybind help with a real binding; entries were {entries:?}"
    );
}

#[test]
fn parent_link_token_name_is_stable_and_namespaced() {
    assert_eq!(
        PARENT_WORKSPACE_TOKEN, "herdr:parent",
        "the parent-link token name is a wire value shared by the server and the client sidebar"
    );
}

#[test]
fn acknowledge_is_registered_for_the_ui_and_the_client_lane() {
    let request = Request {
        id: "guard".into(),
        method: Method::WorkspaceAcknowledge(WorkspaceTarget { workspace_id: "w1".into() }),
    };
    assert!(
        request_changes_ui(&request),
        "workspace.acknowledge must change the UI, or acknowledging never re-renders the sidebar"
    );
    assert!(
        supports_client_shell_method_name("workspace.acknowledge"),
        "workspace.acknowledge must be allowed on the client-shell lane"
    );
}

#[test]
fn acknowledge_keybind_resolves_and_is_listed() {
    let keybinds = WorkspaceKeybinds::default_keybinds();
    for key in [
        TerminalKey::new(KeyCode::Char('a'), KeyModifiers::shift()),
        TerminalKey::new(KeyCode::Char('A'), KeyModifiers::empty()),
    ] {
        assert_eq!(
            resolve_workspace_binding(&keybinds, &key),
            Some(KeybindAction::AcknowledgeWorkspace),
            "prefix+shift+a must resolve to AcknowledgeWorkspace for {key:?}"
        );
    }
    let entries = keybind_help_entries(&keybinds);
    assert!(
        entries
            .iter()
            .any(|(binding, label)| label.contains("acknowledge") && binding != "unset"),
        "the acknowledge binding must appear in keybind help"
    );
}

#[test]
fn listing_does_not_change_the_ui_and_is_not_on_the_lane() {
    let request = Request { id: "l".into(), method: Method::WorkspaceList };
    assert!(!request_changes_ui(&request));
    assert!(!supports_client_shell_method_name("workspace.list"));
    assert!(!supports_client_shell_method_name("workspace.reparen"));
    assert!(supports_client_shell_method_name("workspace.move_block"));
}

#[test]
fn top_level_marker_is_namespaced_apart_from_the_token() {
    assert_eq!(EXPLICIT_TOP_LEVEL_PARENT, "herdr:top-level");
    assert_ne!(EXPLICIT_TOP_LEVEL_PARENT, PARENT_WORKSPACE_TOKEN);
}

#[test]
fn plain_letters_and_unset_bindings_resolve_to_nothing() {
    let keybinds = WorkspaceKeybinds::default_keybinds();
    let plain_m = TerminalKey::new(KeyCode::Char('m'), KeyModifiers::empty());
    assert_eq!(resolve_workspace_binding(&keybinds, &plain_m), None);
    let entries = keybind_help_entries(&keybinds);
    assert_eq!(entries.len(), 4);
    assert_eq!(entries[0], ("prefix+shift+m".to_owned(), "move worktree to workspace".to_owned()));
    assert_eq!(entries[1], ("prefix+shift+a".to_owned(), "acknowledge done markers".to_owned()));
    assert_eq!(entries[2], ("unset".to_owned(), "move workspace up".to_owned()));
    assert_eq!(entries[3], ("unset".to_owned(), "move workspace down".to_owned()));
}
