use herdr::app_state::{
    AgentState, AppState, Mode, NavigatorState, PaneId, Tab, Terminal, ToastConfig, Workspace,
};
use herdr::pane::{PaneState, TerminalId};

fn app_with_workspaces(names: &[&str]) -> AppState {
    let workspaces: Vec<Workspace> = names
        .iter()
        .enumerate()
        .map(|(i, name)| Workspace {
            id: format!("w{}", i + 1),
            name: (*name).into(),
            parent_workspace_id: None,
            worktree_space: None,
            tabs: vec![Tab { panes: vec![(PaneId(i as u64 + 1), PaneState::new(TerminalId(i as u64 + 1)))] }],
        })
        .collect();
    let terminals = (0..names.len())
        .map(|i| Terminal { id: TerminalId(i as u64 + 1), agent_label: Some("pi".into()), state: AgentState::Idle })
        .collect();
    AppState {
        workspaces,
        terminals,
        pending_agent_notifications: Vec::new(),
        toast_config: ToastConfig { delay_seconds: 0 },
        active: None,
        selected: 0,
        mode: Mode::Terminal,
        navigator: NavigatorState {
            query: String::new(),
            state_filter: None,
            selected: 0,
            search_focused: false,
            expanded_workspaces: Vec::new(),
        },
    }
}

fn pane_seen(state: &AppState, ws: usize, pane_id: PaneId) -> bool {
    state.workspaces[ws]
        .tabs
        .iter()
        .flat_map(|tab| tab.panes.iter())
        .find(|(id, _)| *id == pane_id)
        .map(|(_, pane)| pane.seen)
        .unwrap()
}

fn set_seen(state: &mut AppState, ws: usize, pane_id: PaneId, seen: bool) {
    for tab in state.workspaces[ws].tabs.iter_mut() {
        for (id, pane) in tab.panes.iter_mut() {
            if *id == pane_id {
                pane.seen = seen;
            }
        }
    }
}

const NOW_MS: u64 = 1_000_000;

#[test]
fn acknowledge_cancels_a_pending_completion_notification() {
    let mut state = app_with_workspaces(&["active", "background"]);
    state.active = Some(0);
    state.toast_config.delay_seconds = 30;
    let (pane_id, pane) = state.workspaces[1].tabs[0].panes[0];
    let terminal = state.terminal_index(pane.attached_terminal_id).unwrap();
    state.terminals[terminal].state = AgentState::Working;
    set_seen(&mut state, 1, pane_id, true);

    // Background completion queues a delayed notification.
    let notify_now = state.record_agent_state(pane_id, AgentState::Idle, NOW_MS);
    assert!(!notify_now);
    assert!(
        state.pending_agent_notifications.iter().any(|p| p.pane_id == pane_id),
        "a delayed completion notification should be queued"
    );

    state.acknowledge_workspace(1);

    assert!(
        !state.pending_agent_notifications.iter().any(|p| p.pane_id == pane_id),
        "acknowledging must cancel the queued notification"
    );
    // Nothing is delivered once the deadline passes.
    let delivered = state.drain_due_agent_notifications(NOW_MS + 120_000);
    assert!(
        delivered.is_empty(),
        "an acknowledged completion must not notify later: {delivered:?}"
    );
}

#[test]
fn done_marker_survives_focus_until_agent_is_addressed() {
    let mut state = app_with_workspaces(&["active", "background"]);
    state.active = Some(0);
    let (pane_id, pane) = state.workspaces[1].tabs[0].panes[0];
    let terminal = state.terminal_index(pane.attached_terminal_id).unwrap();
    state.terminals[terminal].state = AgentState::Working;
    set_seen(&mut state, 1, pane_id, true);

    // Agent finishes in the background -> done marker (unseen).
    state.record_agent_state(pane_id, AgentState::Idle, NOW_MS);
    assert!(!pane_seen(&state, 1, pane_id));

    // Focusing/switching to the pane must not clear the marker.
    state.switch_workspace(1);
    assert!(!pane_seen(&state, 1, pane_id));

    // Addressing the agent (it starts working again) clears it.
    state.record_agent_state(pane_id, AgentState::Working, NOW_MS + 10);
    assert!(pane_seen(&state, 1, pane_id));
}

#[test]
fn delayed_notification_is_delivered_at_its_deadline() {
    let mut state = app_with_workspaces(&["active", "background"]);
    state.active = Some(0);
    state.toast_config.delay_seconds = 30;
    let (pane_id, _) = state.workspaces[1].tabs[0].panes[0];
    state.terminals[1].state = AgentState::Working;
    assert!(!state.record_agent_state(pane_id, AgentState::Idle, NOW_MS));
    assert_eq!(state.pending_agent_notifications.len(), 1);
    assert_eq!(state.pending_agent_notifications[0].due_at_ms, NOW_MS + 30_000);
    // Not yet due.
    assert!(state.drain_due_agent_notifications(NOW_MS + 29_999).is_empty());
    assert_eq!(state.pending_agent_notifications.len(), 1);
    // Due exactly at the deadline, and only once.
    assert_eq!(state.drain_due_agent_notifications(NOW_MS + 30_000), vec![pane_id]);
    assert!(state.pending_agent_notifications.is_empty());
    assert!(state.drain_due_agent_notifications(u64::MAX).is_empty());
}

#[test]
fn completion_notifies_now_without_a_delay_and_not_in_the_active_workspace() {
    let mut state = app_with_workspaces(&["active", "background"]);
    state.active = Some(0);
    let (active_pane, _) = state.workspaces[0].tabs[0].panes[0];
    let (background_pane, _) = state.workspaces[1].tabs[0].panes[0];
    state.terminals[0].state = AgentState::Working;
    state.terminals[1].state = AgentState::Working;
    // Completion in the active workspace: marker set, no notification.
    assert!(!state.record_agent_state(active_pane, AgentState::Idle, NOW_MS));
    assert!(!pane_seen(&state, 0, active_pane));
    // Completion in the background with no delay: deliver now, queue nothing.
    assert!(state.record_agent_state(background_pane, AgentState::Idle, NOW_MS));
    assert!(state.pending_agent_notifications.is_empty());
    // Unknown pane: nothing changes.
    assert!(!state.record_agent_state(PaneId(99), AgentState::Idle, NOW_MS));
}

#[test]
fn acknowledge_flips_only_unseen_panes_and_reports_them() {
    let mut state = app_with_workspaces(&["active", "background"]);
    let (pane_id, _) = state.workspaces[1].tabs[0].panes[0];
    state.workspaces[1].tabs.push(Tab { panes: vec![(PaneId(7), PaneState::new(TerminalId(2)))] });
    set_seen(&mut state, 1, pane_id, false);
    let updates = state.acknowledge_workspace(1);
    assert_eq!(updates.len(), 1);
    assert_eq!(updates[0].pane_id, pane_id);
    assert_eq!(updates[0].ws_idx, 1);
    assert!(!updates[0].previous_seen);
    assert!(updates[0].seen);
    assert!(updates[0].suppress_completion);
    assert_eq!(updates[0].state, AgentState::Idle);
    assert!(pane_seen(&state, 1, pane_id));
    assert!(pane_seen(&state, 1, PaneId(7)));
    // Acknowledging again flips nothing; an out-of-range index is a no-op.
    assert!(state.acknowledge_workspace(1).is_empty());
    assert!(state.acknowledge_workspace(5).is_empty());
}

#[test]
fn one_update_per_acknowledged_pane_in_tab_order() {
    let mut state = app_with_workspaces(&["active", "background"]);
    state.workspaces[1].tabs.push(Tab { panes: vec![(PaneId(8), PaneState::new(TerminalId(2))), (PaneId(9), PaneState::new(TerminalId(42)))] });
    set_seen(&mut state, 1, PaneId(2), false);
    set_seen(&mut state, 1, PaneId(8), false);
    // Pane 9's terminal is gone: it keeps its marker and reports nothing.
    set_seen(&mut state, 1, PaneId(9), false);
    let updates = state.acknowledge_workspace(1);
    assert_eq!(updates.iter().map(|u| u.pane_id).collect::<Vec<_>>(), vec![PaneId(2), PaneId(8)]);
    assert!(!pane_seen(&state, 1, PaneId(9)));
}

#[test]
fn a_second_completion_replaces_the_queued_notification() {
    let mut state = app_with_workspaces(&["active", "background"]);
    state.active = Some(0);
    state.toast_config.delay_seconds = 30;
    let (pane_id, _) = state.workspaces[1].tabs[0].panes[0];
    state.terminals[1].state = AgentState::Working;
    assert!(!state.record_agent_state(pane_id, AgentState::Idle, NOW_MS));
    state.record_agent_state(pane_id, AgentState::Working, NOW_MS + 1_000);
    assert!(!state.record_agent_state(pane_id, AgentState::Idle, NOW_MS + 5_000));
    // One entry per pane, with the later deadline.
    assert_eq!(state.pending_agent_notifications.len(), 1);
    assert_eq!(state.pending_agent_notifications[0].pane_id, pane_id);
    assert_eq!(state.pending_agent_notifications[0].due_at_ms, NOW_MS + 35_000);
    assert!(state.drain_due_agent_notifications(NOW_MS + 30_000).is_empty());
    assert_eq!(state.drain_due_agent_notifications(NOW_MS + 35_000), vec![pane_id]);
}
