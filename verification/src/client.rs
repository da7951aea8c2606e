//! The client shell's workspace actions: the keybind actions (acknowledge,
//! move picker, keyboard reorder), the move-to-workspace picker's input, and
//! the requests they send.

use vstd::prelude::*;
use crate::grouping::{
    first_index_of_id, first_pos, group_block_spec, ids_view, lemma_entries_in_range,
    lemma_first_pos, position_of_id, sidebar_ids, top_level_ids_upto, top_level_workspace_ids,
    workspace_entries, workspace_group_block, ClientShellSnapshot, ClientShellWorkspace,
    entries_spec,
};
use crate::keys::{
    decode_from, decode_input_bytes, workspace_binding_spec, reorder_direction_for_key,
    reorder_direction_spec, resolve_workspace_binding, WorkspaceKeybinds, KeyCode, KeybindAction,
    KeybindMatch, TerminalKey, WorkspaceReorderDirection,
};
use crate::picker::{
    candidates_upto, entries_view, entry_index_from, moved_selection, picker_entries_spec,
    picker_start_spec, target_view, ClientMoveWorkspaceOverlay, ClientMoveWorkspaceTarget,
};
use crate::protocol::{
    method_view, opt_string_view, Method, MethodView, Request, WorkspaceReparentParams,
    WorkspaceTarget,
};
use crate::grouping::explicit_parent_id;
use crate::text::{decimal_spec, decimal_string};

verus! {

/// Input mode of the client shell.
#[derive(Clone, Copy, Debug, PartialEq, Eq, Structural)]
pub enum ClientShellMode {
    Terminal,
    Copy,
    /// The prefix key was pressed; the next key picks a binding.
    Prefix,
    /// The sidebar workspace picker (`prefix+w`).
    Navigate,
}

/// Which in-flight endpoint a request belongs to.
#[derive(Clone, Copy, Debug, PartialEq, Eq, Structural)]
pub enum PendingEndpointKind {
    Generic,
    MoveWorkspace,
}

/// A modal overlay of the client shell.
#[derive(Clone, Debug, PartialEq, Eq)]
pub enum ClientShellOverlay {
    MoveWorkspace(ClientMoveWorkspaceOverlay),
}

/// Something the client shell asks its host to do.
#[derive(Clone, Debug, PartialEq, Eq)]
pub enum ClientShellAction {
    /// Send an API request to the server.
    Endpoint { request: Request, kind: PendingEndpointKind },
}

/// What handling input produced.
#[derive(Clone, Debug, PartialEq, Eq)]
pub struct ClientShellInput {
    pub actions: Vec<ClientShellAction>,
    pub repaint: bool,
}

impl ClientShellInput {
    /// Nothing to do yet.
    pub fn new() -> (input: Self)
        ensures
            input.actions@.len() == 0,
            !input.repaint,
    {
        ClientShellInput { actions: Vec::new(), repaint: false }
    }
}

/// The client shell's state as far as grouping, reordering and acknowledging reach.
pub struct ClientShellState {
    pub snapshot: Option<ClientShellSnapshot>,
    pub overlay: Option<ClientShellOverlay>,
    pub mode: ClientShellMode,
    /// The sidebar picker's selection while in Navigate mode.
    pub navigate_workspace_id: Option<String>,
    /// Collapsed groups, by their root's workspace id.
    pub collapsed_groups: Vec<String>,
    pub keybinds: WorkspaceKeybinds,
    /// Whether leaving a mode returns to copy mode rather than the terminal.
    pub copy_session: bool,
    /// Whether the client-shell command lane can take requests.
    pub endpoint_lane_open: bool,
    pub next_request_id: u64,
}

/// The id of the `n`th request the client shell sends.
pub open spec fn request_id_spec(n: u64) -> Seq<char> {
    "c"@ + decimal_spec(n as nat)
}

/// The request counter after one more request.
pub open spec fn next_id(n: u64) -> u64 {
    if n < u64::MAX { (n + 1) as u64 } else { 0 }
}

/// `after` is `before` except for the request counter.
pub open spec fn same_but_requests(before: ClientShellState, after: ClientShellState) -> bool {
    &&& after.snapshot == before.snapshot
    &&& after.overlay == before.overlay
    &&& after.mode == before.mode
    &&& after.navigate_workspace_id == before.navigate_workspace_id
    &&& after.collapsed_groups == before.collapsed_groups
    &&& after.keybinds == before.keybinds
    &&& after.copy_session == before.copy_session
    &&& after.endpoint_lane_open == before.endpoint_lane_open
}

/// One request asking for `method` was queued when the lane is open (and the
/// counter moved on); nothing was queued otherwise.
pub open spec fn endpoint_pushed(
    s0: ClientShellState,
    s1: ClientShellState,
    before: Seq<ClientShellAction>,
    after: Seq<ClientShellAction>,
    method: MethodView,
    kind: PendingEndpointKind,
) -> bool {
    if s0.endpoint_lane_open {
        &&& after.len() == before.len() + 1
        &&& after.take(before.len() as int) == before
        &&& after.last() matches ClientShellAction::Endpoint { request, kind: k }
            && k == kind && method_view(request.method) == method && request.id@ == request_id_spec(s0.next_request_id)
        &&& s1.next_request_id == next_id(s0.next_request_id)
    } else {
        &&& after == before
        &&& s1.next_request_id == s0.next_request_id
    }
}

/// The workspace a workspace-scoped keybind acts on: the sidebar picker's
/// selection when it is open, else the focused workspace.
pub open spec fn keybind_target_spec(s: ClientShellState) -> Option<Seq<char>> {
    match s.navigate_workspace_id {
        Some(id) => Some(id@),
        None => match s.snapshot {
            Some(snapshot) => opt_string_view(snapshot.focused_workspace_id),
            None => None,
        },
    }
}

/// The mode to return to when a mode or modal ends.
pub open spec fn copy_or_terminal_spec(s: ClientShellState) -> ClientShellMode {
    if s.copy_session { ClientShellMode::Copy } else { ClientShellMode::Terminal }
}

/// Whether `overlay` is the move picker for the workspace with id `id`: its
/// label, "top level" plus every other workspace, opened on the current
/// parent, with nothing in flight.
pub open spec fn is_picker_for(overlay: Option<ClientShellOverlay>, ws: Seq<ClientShellWorkspace>, id: Seq<char>) -> bool {
    match first_index_of_id(ws, id) {
        Some(index) => {
            let entries = picker_entries_spec(ws, id);
            overlay matches Some(ClientShellOverlay::MoveWorkspace(o))
                && o.workspace_id@ == id
                && o.label@ == ws[index as int].label@
                && entries_view(o.entries@) == entries
                && o.selected == picker_start_spec(entries, ws[index as int])
                && o.error is None
                && !o.moving
        },
        None => false,
    }
}

/// Whether the picker can open for `id`: there is a snapshot holding it.
pub open spec fn picker_opens(s: ClientShellState, id: Seq<char>) -> bool {
    s.snapshot matches Some(snapshot) && first_index_of_id(snapshot.workspaces@, id) is Some
}

/// `after` is `before` with only the overlay (and maybe the mode) replaced.
pub open spec fn same_but_overlay(before: ClientShellState, after: ClientShellState) -> bool {
    &&& after.snapshot == before.snapshot
    &&& after.navigate_workspace_id == before.navigate_workspace_id
    &&& after.collapsed_groups == before.collapsed_groups
    &&& after.keybinds == before.keybinds
    &&& after.copy_session == before.copy_session
    &&& after.endpoint_lane_open == before.endpoint_lane_open
    &&& after.next_request_id == before.next_request_id
}

/// The picker, if it is the open overlay.
pub open spec fn open_picker(s: ClientShellState) -> Option<ClientMoveWorkspaceOverlay> {
    match s.overlay {
        Some(ClientShellOverlay::MoveWorkspace(o)) => Some(o),
        None => None,
    }
}

/// The picker with the selection moved by `delta`.
pub open spec fn picker_moved(before: ClientMoveWorkspaceOverlay, after: ClientMoveWorkspaceOverlay, delta: isize) -> bool {
    &&& after.selected == moved_selection(before.selected, delta, before.entries@.len())
    &&& after.workspace_id == before.workspace_id
    &&& after.label == before.label
    &&& after.entries == before.entries
    &&& after.error == before.error
    &&& after.moving == before.moving
}

/// The reparent a picker submits: the moving workspace under the selected
/// target (`None` = top level).
pub open spec fn picker_request(o: ClientMoveWorkspaceOverlay) -> MethodView {
    MethodView::WorkspaceReparent(
        o.workspace_id@,
        if o.selected < o.entries@.len() { opt_string_view(o.entries@[o.selected as int].target_id) } else { None },
    )
}

/// What submitting does: a picker with nothing in flight sends its reparent
/// and marks itself moving (unless the lane is closed, when it stays idle),
/// and the window repaints; otherwise nothing happens. `a0`/`a1` are the
/// queued actions and `r0`/`r1` the repaint flag, before and after.
pub open spec fn submit_effect(
    s0: ClientShellState,
    s1: ClientShellState,
    a0: Seq<ClientShellAction>,
    a1: Seq<ClientShellAction>,
    r0: bool,
    r1: bool,
) -> bool {
    match open_picker(s0) {
        None => s1 == s0 && a1 == a0 && r1 == r0,
        Some(p) => if p.moving {
            s1 == s0 && a1 == a0 && r1 == r0
        } else {
            &&& endpoint_pushed(s0, s1, a0, a1, picker_request(p), PendingEndpointKind::MoveWorkspace)
            &&& r1
            &&& s1.mode == s0.mode
            &&& s1.snapshot == s0.snapshot
            &&& s1.navigate_workspace_id == s0.navigate_workspace_id
            &&& s1.collapsed_groups == s0.collapsed_groups
            &&& s1.keybinds == s0.keybinds
            &&& s1.copy_session == s0.copy_session
            &&& s1.endpoint_lane_open == s0.endpoint_lane_open
            &&& open_picker(s1) matches Some(q) && q.workspace_id == p.workspace_id && q.label == p.label
                && q.entries == p.entries && q.selected == p.selected && q.error is None
                && q.moving == s0.endpoint_lane_open
        },
    }
}

/// Nothing changed but (possibly) the mode, which is now `mode`.
pub open spec fn unchanged_but_mode(
    s0: ClientShellState,
    s1: ClientShellState,
    a0: Seq<ClientShellAction>,
    a1: Seq<ClientShellAction>,
    r0: bool,
    r1: bool,
    mode: ClientShellMode,
) -> bool {
    &&& same_but_requests_and_mode(s0, s1)
    &&& s1.next_request_id == s0.next_request_id
    &&& s1.mode == mode
    &&& a1 == a0
    &&& r1 == r0
}

/// `after` is `before` except for the request counter and the mode.
pub open spec fn same_but_requests_and_mode(before: ClientShellState, after: ClientShellState) -> bool {
    &&& after.snapshot == before.snapshot
    &&& after.overlay == before.overlay
    &&& after.navigate_workspace_id == before.navigate_workspace_id
    &&& after.collapsed_groups == before.collapsed_groups
    &&& after.keybinds == before.keybinds
    &&& after.copy_session == before.copy_session
    &&& after.endpoint_lane_open == before.endpoint_lane_open
}

/// What a key does while the picker is open: Escape cancels, Enter files,
/// arrows and j/k choose; while a request is in flight only Enter gets
/// through (and is ignored). Every other key is swallowed.
pub open spec fn route_effect(
    s0: ClientShellState,
    s1: ClientShellState,
    a0: Seq<ClientShellAction>,
    a1: Seq<ClientShellAction>,
    r0: bool,
    r1: bool,
    code: KeyCode,
) -> bool {
    let moving = open_picker(s0) matches Some(p) && p.moving;
    match code {
        KeyCode::Esc => if !moving {
            &&& s1.overlay is None
            &&& same_but_overlay(s0, s1)
            &&& s1.mode == s0.mode
            &&& a1 == a0
            &&& r1
        } else {
            s1 == s0 && a1 == a0 && r1 == r0
        },
        KeyCode::Enter => submit_effect(s0, s1, a0, a1, r0, r1),
        KeyCode::Up | KeyCode::Char('k') | KeyCode::Down | KeyCode::Char('j') => if !moving {
            let delta: isize = if code == KeyCode::Up || code == KeyCode::Char('k') { -1isize } else { 1isize };
            &&& match open_picker(s0) {
                Some(p) => open_picker(s1) matches Some(q) && picker_moved(p, q, delta),
                None => s1.overlay is None,
            }
            &&& same_but_overlay(s0, s1)
            &&& s1.mode == s0.mode
            &&& a1 == a0
            &&& r1
        } else {
            s1 == s0 && a1 == a0 && r1 == r0
        },
        _ => s1 == s0 && a1 == a0 && r1 == r0,
    }
}

/// What a keybind action does, leaving the mode at `mode` unless the action
/// itself sets one. `a0`/`a1` are the queued actions and `r0`/`r1` the
/// repaint flag, before and after.
pub open spec fn binding_effect(
    s0: ClientShellState,
    s1: ClientShellState,
    a0: Seq<ClientShellAction>,
    a1: Seq<ClientShellAction>,
    r0: bool,
    r1: bool,
    action: KeybindAction,
    mode: ClientShellMode,
) -> bool {
    match action {
        KeybindAction::NextWorkspace | KeybindAction::PreviousWorkspace => {
            match focus_target_spec(s0, action == KeybindAction::NextWorkspace) {
                None => unchanged_but_mode(s0, s1, a0, a1, r0, r1, mode),
                Some(target) => {
                    &&& endpoint_pushed(s0, s1, a0, a1, MethodView::WorkspaceFocus(target), PendingEndpointKind::Generic)
                    &&& same_but_requests_and_mode(s0, s1)
                    &&& s1.mode == mode
                    &&& r1
                },
            }
        },
        KeybindAction::OpenWorkspacePicker => {
            &&& s1.mode == ClientShellMode::Navigate
            &&& opt_string_view(s1.navigate_workspace_id) == match s0.snapshot {
                Some(snapshot) => opt_string_view(snapshot.focused_workspace_id),
                None => None,
            }
            &&& s1.snapshot == s0.snapshot
            &&& s1.overlay == s0.overlay
            &&& s1.collapsed_groups == s0.collapsed_groups
            &&& s1.keybinds == s0.keybinds
            &&& s1.copy_session == s0.copy_session
            &&& s1.endpoint_lane_open == s0.endpoint_lane_open
            &&& s1.next_request_id == s0.next_request_id
            &&& a1 == a0
            &&& r1
        },
        KeybindAction::MoveWorkspacePrevious | KeybindAction::MoveWorkspaceNext => {
            let up = action == KeybindAction::MoveWorkspacePrevious;
            let method = match keybind_target_spec(s0) {
                Some(source) => match s0.snapshot {
                    Some(snapshot) => reorder_method_spec(snapshot.workspaces@, source, up),
                    None => None,
                },
                None => None,
            };
            match method {
                None => unchanged_but_mode(s0, s1, a0, a1, r0, r1, mode),
                Some(m) => {
                    &&& endpoint_pushed(s0, s1, a0, a1, m, PendingEndpointKind::Generic)
                    &&& same_but_requests_and_mode(s0, s1)
                    &&& s1.mode == mode
                    &&& r1
                },
            }
        },
        KeybindAction::MoveWorktreeToWorkspace => match keybind_target_spec(s0) {
            Some(source) => if picker_opens(s0, source) {
                &&& is_picker_for(s1.overlay, s0.snapshot.unwrap().workspaces@, source)
                &&& s1.mode == copy_or_terminal_spec(s0)
                &&& s1.navigate_workspace_id is None
                &&& s1.snapshot == s0.snapshot
                &&& s1.collapsed_groups == s0.collapsed_groups
                &&& s1.keybinds == s0.keybinds
                &&& s1.copy_session == s0.copy_session
                &&& s1.endpoint_lane_open == s0.endpoint_lane_open
                &&& s1.next_request_id == s0.next_request_id
                &&& a1 == a0
                &&& r1
            } else {
                unchanged_but_mode(s0, s1, a0, a1, r0, r1, mode)
            },
            None => unchanged_but_mode(s0, s1, a0, a1, r0, r1, mode),
        },
        KeybindAction::AcknowledgeWorkspace => match keybind_target_spec(s0) {
            None => unchanged_but_mode(s0, s1, a0, a1, r0, r1, mode),
            Some(target) => {
                &&& endpoint_pushed(s0, s1, a0, a1, MethodView::WorkspaceAcknowledge(target), PendingEndpointKind::Generic)
                &&& same_but_requests_and_mode(s0, s1)
                &&& s1.mode == mode
                &&& r1
            },
        },
    }
}

/// The action a key after the prefix picks: `w` opens the workspace picker,
/// otherwise the workspace bindings.
pub open spec fn prefix_action_spec(keybinds: WorkspaceKeybinds, key: TerminalKey) -> Option<KeybindAction> {
    if key.code == KeyCode::Char('w') && !key.modifiers.shift && !key.modifiers.ctrl && !key.modifiers.alt {
        Some(KeybindAction::OpenWorkspacePicker)
    } else {
        workspace_binding_spec(keybinds, key)
    }
}

/// The action a key picks inside the workspace picker: `shift+k`/`shift+j`
/// reorder the highlighted project, otherwise the workspace bindings (so
/// `shift+m` still opens the move picker from there).
pub open spec fn navigate_action_spec(keybinds: WorkspaceKeybinds, key: TerminalKey) -> Option<KeybindAction> {
    match reorder_direction_spec(key) {
        Some(WorkspaceReorderDirection::Up) => Some(KeybindAction::MoveWorkspacePrevious),
        Some(WorkspaceReorderDirection::Down) => Some(KeybindAction::MoveWorkspaceNext),
        None => workspace_binding_spec(keybinds, key),
    }
}

/// What a key press does to the client shell: the open picker takes every
/// key; after the prefix a key picks a binding and the prefix ends; in the
/// workspace picker the reorder keys and workspace bindings act on the
/// highlighted workspace and Escape leaves; otherwise the prefix key starts a
/// binding.
pub open spec fn key_effect(
    s0: ClientShellState,
    s1: ClientShellState,
    a1: Seq<ClientShellAction>,
    r1: bool,
    key: TerminalKey,
) -> bool {
    let a0 = Seq::<ClientShellAction>::empty();
    if open_picker(s0) is Some {
        route_effect(s0, s1, a0, a1, false, r1, key.code)
    } else {
        match s0.mode {
            ClientShellMode::Prefix => match prefix_action_spec(s0.keybinds, key) {
                Some(action) => binding_effect(s0, s1, a0, a1, false, r1, action, copy_or_terminal_spec(s0)),
                None => unchanged_but_mode(s0, s1, a0, a1, false, r1, copy_or_terminal_spec(s0)),
            },
            ClientShellMode::Navigate => match navigate_action_spec(s0.keybinds, key) {
                Some(action) => binding_effect(s0, s1, a0, a1, false, r1, action, ClientShellMode::Navigate),
                None => if key.code == KeyCode::Esc {
                    &&& s1.mode == copy_or_terminal_spec(s0)
                    &&& s1.navigate_workspace_id is None
                    &&& s1.snapshot == s0.snapshot
                    &&& s1.overlay == s0.overlay
                    &&& s1.collapsed_groups == s0.collapsed_groups
                    &&& s1.keybinds == s0.keybinds
                    &&& s1.copy_session == s0.copy_session
                    &&& s1.endpoint_lane_open == s0.endpoint_lane_open
                    &&& s1.next_request_id == s0.next_request_id
                    &&& a1 == a0
                    &&& r1
                } else {
                    unchanged_but_mode(s0, s1, a0, a1, false, r1, ClientShellMode::Navigate)
                },
            },
            _ => if key == s0.keybinds.prefix {
                unchanged_but_mode(s0, s1, a0, a1, false, r1, ClientShellMode::Prefix)
            } else {
                unchanged_but_mode(s0, s1, a0, a1, false, r1, s0.mode)
            },
        }
    }
}

/// The actions of several steps, in order.
pub open spec fn concat_actions(steps: Seq<Seq<ClientShellAction>>) -> Seq<ClientShellAction>
    decreases steps.len(),
{
    if steps.len() == 0 {
        Seq::empty()
    } else {
        concat_actions(steps.drop_last()) + steps.last()
    }
}

/// `states` are the shell states while handling `keys` one after the other,
/// each step queueing `actions[i]` and asking for repaint `repaints[i]`.
pub open spec fn key_trace(
    states: Seq<ClientShellState>,
    actions: Seq<Seq<ClientShellAction>>,
    repaints: Seq<bool>,
    keys: Seq<TerminalKey>,
) -> bool {
    &&& states.len() == keys.len() + 1
    &&& actions.len() == keys.len()
    &&& repaints.len() == keys.len()
    &&& forall|i: int| 0 <= i < keys.len() ==> #[trigger] key_effect(states[i], states[i + 1], actions[i], repaints[i], keys[i])
}

/// What a sequence of key presses does, one after the other: the actions
/// they queue, in order, and whether any asked for a repaint.
pub open spec fn keys_effect(
    s0: ClientShellState,
    s1: ClientShellState,
    a1: Seq<ClientShellAction>,
    r1: bool,
    keys: Seq<TerminalKey>,
) -> bool {
    exists|states: Seq<ClientShellState>, actions: Seq<Seq<ClientShellAction>>, repaints: Seq<bool>|
        #[trigger] key_trace(states, actions, repaints, keys)
            && states[0] == s0
            && states.last() == s1
            && a1 == concat_actions(actions)
            && r1 == repaints.contains(true)
}

/// The move request for the top-level row with id `root` landing before
/// `before` (or at the end): the whole group as a block when it has
/// children, else the lone workspace to the index of `before`.
pub open spec fn move_method_spec(ws: Seq<ClientShellWorkspace>, root: Seq<char>, before: Option<Seq<char>>) -> Option<MethodView> {
    match group_block_spec(ws, root) {
        None => None,
        Some((_, block)) => if block.len() > 1 {
            Some(MethodView::WorkspaceMoveBlock(block, before))
        } else {
            Some(MethodView::WorkspaceMove(
                root,
                match before {
                    Some(b) => match first_index_of_id(ws, b) {
                        Some(p) => p,
                        None => ws.len() as usize,
                    },
                    None => ws.len() as usize,
                },
            ))
        },
    }
}

/// The move for reordering the project owning `source` one slot, `up`
/// toward the front: its top-level row (a nested workspace resolves to the
/// group it belongs to) moves among the top-level rows, as a block when it
/// heads a group, jumping the next group as a unit. None at the ends of the
/// list, or when `source` is unknown.
pub open spec fn reorder_method_spec(ws: Seq<ClientShellWorkspace>, source: Seq<char>, up: bool) -> Option<MethodView> {
    match group_block_spec(ws, source) {
        None => None,
        Some((root_id, _)) => {
            let roots = top_level_ids_upto(ws, ws.len() as int);
            match first_pos(roots, root_id, 0) {
                None => None,
                Some(pos) => if up {
                    if pos >= 1 { move_method_spec(ws, root_id, Some(roots[pos - 1])) } else { None }
                } else {
                    if pos + 1 < roots.len() {
                        move_method_spec(ws, root_id, if pos + 2 < roots.len() { Some(roots[pos + 2]) } else { None })
                    } else {
                        None
                    }
                },
            }
        },
    }
}

/// The workspace a next/previous keybind focuses: the neighbour of the
/// focused workspace in sidebar row order, wrapping around; the first row
/// when nothing focused is listed.
pub open spec fn focus_target_spec(s: ClientShellState, forward: bool) -> Option<Seq<char>> {
    match s.snapshot {
        None => None,
        Some(snapshot) => {
            let ids = sidebar_ids(snapshot.workspaces@, s.collapsed_groups@);
            if ids.len() == 0 {
                None
            } else {
                let current = match snapshot.focused_workspace_id {
                    Some(f) => first_pos(ids, f@, 0),
                    None => None,
                };
                let next = match current {
                    Some(p) => if forward {
                        if p + 1 < ids.len() { p + 1 } else { 0 }
                    } else {
                        if p > 0 { p - 1 } else { ids.len() - 1 }
                    },
                    None => 0,
                };
                Some(ids[next])
            }
        },
    }
}

/// Makes an owned copy of an optional string.
fn copy_opt(value: &Option<String>) -> (copy: Option<String>)
    ensures
        copy == *value,
{
    match value {
        Some(s) => Some(s.clone()),
        None => None,
    }
}

impl ClientShellState {
    /// A client shell with nothing projected yet.
    pub fn new(keybinds: WorkspaceKeybinds) -> (state: Self)
        ensures
            state.snapshot is None,
            state.overlay is None,
            state.mode == ClientShellMode::Terminal,
            state.navigate_workspace_id is None,
            state.collapsed_groups@.len() == 0,
            state.keybinds == keybinds,
            !state.copy_session,
            state.endpoint_lane_open,
            state.next_request_id == 0,
    {
        ClientShellState {
            snapshot: None,
            overlay: None,
            mode: ClientShellMode::Terminal,
            navigate_workspace_id: None,
            collapsed_groups: Vec::new(),
            keybinds,
            copy_session: false,
            endpoint_lane_open: true,
            next_request_id: 0,
        }
    }

    /// Installs a new projection from the server.
    pub fn set_snapshot(&mut self, snapshot: ClientShellSnapshot)
        ensures
            final(self).snapshot == Some(snapshot),
            final(self).overlay == old(self).overlay,
            final(self).mode == old(self).mode,
            final(self).navigate_workspace_id == old(self).navigate_workspace_id,
            final(self).collapsed_groups == old(self).collapsed_groups,
            final(self).keybinds == old(self).keybinds,
            final(self).copy_session == old(self).copy_session,
            final(self).endpoint_lane_open == old(self).endpoint_lane_open,
            final(self).next_request_id == old(self).next_request_id,
    {
        self.snapshot = Some(snapshot);
    }

    /// The mode to return to when a mode or modal ends.
    pub fn copy_or_terminal_mode(&self) -> (mode: ClientShellMode)
        ensures
            mode == copy_or_terminal_spec(*self),
    {
        if self.copy_session { ClientShellMode::Copy } else { ClientShellMode::Terminal }
    }

    /// Queues `method` as a request of `kind` on the command lane. Returns
    /// whether it was queued (the lane may be closed).
    pub fn push_endpoint_method_with_kind(&mut self, method: Method, kind: PendingEndpointKind, outcome: &mut ClientShellInput) -> (pushed: bool)
        ensures
            pushed == old(self).endpoint_lane_open,
            endpoint_pushed(*old(self), *final(self), old(outcome).actions@, final(outcome).actions@, method_view(method), kind),
            same_but_requests(*old(self), *final(self)),
            final(outcome).repaint == old(outcome).repaint,
    {
        if !self.endpoint_lane_open {
            return false;
        }
        let mut id = "c".to_owned();
        let number = decimal_string(self.next_request_id);
        id.append(number.as_str());
        let ghost before = outcome.actions@;
        outcome.actions.push(ClientShellAction::Endpoint { request: Request { id, method }, kind });
        assert(outcome.actions@.take(before.len() as int) =~= before);
        self.next_request_id = if self.next_request_id < u64::MAX { self.next_request_id + 1 } else { 0 };
        true
    }

    /// Queues `method` as an ordinary request.
    pub fn push_endpoint_method(&mut self, method: Method, outcome: &mut ClientShellInput)
        ensures
            endpoint_pushed(*old(self), *final(self), old(outcome).actions@, final(outcome).actions@, method_view(method), PendingEndpointKind::Generic),
            same_but_requests(*old(self), *final(self)),
            final(outcome).repaint == old(outcome).repaint,
    {
        self.push_endpoint_method_with_kind(method, PendingEndpointKind::Generic, outcome);
    }

    /// The workspace a workspace-scoped keybind acts on: the sidebar picker's
    /// selection when it is open, else the focused workspace.
    pub fn keybind_target_workspace(&self) -> (target: Option<String>)
        ensures
            opt_string_view(target) == keybind_target_spec(*self),
    {
        match &self.navigate_workspace_id {
            Some(id) => Some(id.clone()),
            None => match &self.snapshot {
                Some(snapshot) => copy_opt(&snapshot.focused_workspace_id),
                None => None,
            },
        }
    }

    /// Marks the target workspace's finished agents as read: its "done"
    /// agents go back to idle without being re-run.
    pub fn acknowledge_target_workspace(&mut self, outcome: &mut ClientShellInput)
        ensures
            match keybind_target_spec(*old(self)) {
                None => *final(self) == *old(self) && *final(outcome) == *old(outcome),
                Some(target) => {
                    &&& endpoint_pushed(*old(self), *final(self), old(outcome).actions@, final(outcome).actions@,
                        MethodView::WorkspaceAcknowledge(target), PendingEndpointKind::Generic)
                    &&& same_but_requests(*old(self), *final(self))
                    &&& final(outcome).repaint
                },
            },
    {
        let workspace_id = match self.keybind_target_workspace() {
            Some(id) => id,
            None => return,
        };
        self.push_endpoint_method(Method::WorkspaceAcknowledge(WorkspaceTarget { workspace_id }), outcome);
        outcome.repaint = true;
    }

    /// Opens the "move to workspace" picker for `workspace_id`: "top level"
    /// (unfile) plus every other workspace, starting on the current parent.
    /// The server rejects cycles, and its message is shown in the picker.
    /// Returns whether the picker opened (the workspace must be in the
    /// snapshot); otherwise nothing changes.
    pub fn open_move_workspace_overlay(&mut self, workspace_id: String) -> (opened: bool)
        ensures
            opened == picker_opens(*old(self), workspace_id@),
            opened ==> is_picker_for(final(self).overlay, old(self).snapshot.unwrap().workspaces@, workspace_id@)
                && same_but_overlay(*old(self), *final(self)) && final(self).mode == old(self).mode,
            !opened ==> *final(self) == *old(self),
    {
        let snapshot = match &self.snapshot {
            Some(snapshot) => snapshot,
            None => return false,
        };
        let ws = &snapshot.workspaces;
        let index = match position_of_id(ws, &workspace_id) {
            Some(index) => index,
            None => return false,
        };
        let moving = &ws[index];
        let label = moving.label.clone();
        let mut entries: Vec<ClientMoveWorkspaceTarget> = Vec::new();
        entries.push(ClientMoveWorkspaceTarget { target_id: None, label: "top level".to_owned() });
        let mut k: usize = 0;
        while k < ws.len()
            invariant
                k <= ws@.len(),
                entries_view(entries@) == seq![(None::<Seq<char>>, "top level"@)] + candidates_upto(ws@, workspace_id@, k as int),
            decreases ws@.len() - k,
        {
            if ws[k].workspace_id != workspace_id {
                let ghost before = entries@;
                let target = ClientMoveWorkspaceTarget {
                    target_id: Some(ws[k].workspace_id.clone()),
                    label: ws[k].label.clone(),
                };
                entries.push(target);
                assert(entries_view(entries@) =~= entries_view(before).push(target_view(target)));
            }
            k += 1;
        }
        let ghost all = entries_view(entries@);
        // Start on the current parent so the picker shows where it is filed now.
        let selected = match explicit_parent_id(moving) {
            Some(parent) => {
                let mut i: usize = 0;
                let mut found: Option<usize> = None;
                while i < entries.len() && found.is_none()
                    invariant
                        i <= entries@.len(),
                        all == entries_view(entries@),
                        found is None ==> entry_index_from(all, parent@, 0) == entry_index_from(all, parent@, i as int),
                        found matches Some(f) ==> entry_index_from(all, parent@, 0) == Some(f),
                    decreases entries@.len() - i,
                {
                    let matches = match &entries[i].target_id {
                        Some(id) => *id == *parent,
                        None => false,
                    };
                    assert(matches == (all[i as int].0 == Some(parent@)));
                    if matches {
                        found = Some(i);
                    }
                    i += 1;
                }
                match found {
                    Some(f) => f,
                    None => 0,
                }
            },
            None => 0,
        };
        self.overlay = Some(ClientShellOverlay::MoveWorkspace(ClientMoveWorkspaceOverlay {
            workspace_id,
            label,
            entries,
            selected,
            error: None,
            moving: false,
        }));
        true
    }

    /// Opens the modal move picker for the keybind target. Leaving Navigate
    /// mode is deliberate: the modal owns input from here on.
    pub fn open_move_picker_for_target(&mut self, outcome: &mut ClientShellInput)
        ensures
            match keybind_target_spec(*old(self)) {
                Some(source) if picker_opens(*old(self), source) => {
                    &&& is_picker_for(final(self).overlay, old(self).snapshot.unwrap().workspaces@, source)
                    &&& final(self).mode == copy_or_terminal_spec(*old(self))
                    &&& final(self).navigate_workspace_id is None
                    &&& final(self).snapshot == old(self).snapshot
                    &&& final(self).collapsed_groups == old(self).collapsed_groups
                    &&& final(self).keybinds == old(self).keybinds
                    &&& final(self).copy_session == old(self).copy_session
                    &&& final(self).endpoint_lane_open == old(self).endpoint_lane_open
                    &&& final(self).next_request_id == old(self).next_request_id
                    &&& final(outcome).actions == old(outcome).actions
                    &&& final(outcome).repaint
                },
                _ => *final(self) == *old(self) && *final(outcome) == *old(outcome),
            },
    {
        let source = match self.keybind_target_workspace() {
            Some(source) => source,
            None => return,
        };
        if self.open_move_workspace_overlay(source) {
            self.mode = self.copy_or_terminal_mode();
            self.navigate_workspace_id = None;
            outcome.repaint = true;
        }
    }

    /// Sends the picker's choice as a `workspace.reparent`. A picker with a
    /// request in flight ignores further submits.
    pub fn submit_move_workspace(&mut self, outcome: &mut ClientShellInput)
        ensures
            submit_effect(*old(self), *final(self), old(outcome).actions@, final(outcome).actions@,
                old(outcome).repaint, final(outcome).repaint),
    {
        let mut picker = match self.overlay.take() {
            Some(ClientShellOverlay::MoveWorkspace(picker)) => picker,
            None => return,
        };
        if picker.moving {
            self.overlay = Some(ClientShellOverlay::MoveWorkspace(picker));
            return;
        }
        let workspace_id = picker.workspace_id.clone();
        let parent_workspace_id = picker.selected_target_id();
        picker.moving = true;
        picker.error = None;
        self.overlay = Some(ClientShellOverlay::MoveWorkspace(picker));
        let pushed = self.push_endpoint_method_with_kind(
            Method::WorkspaceReparent(WorkspaceReparentParams { workspace_id, parent_workspace_id }),
            PendingEndpointKind::MoveWorkspace,
            outcome,
        );
        if !pushed {
            let mut picker = match self.overlay.take() {
                Some(ClientShellOverlay::MoveWorkspace(picker)) => picker,
                None => return,
            };
            picker.moving = false;
            self.overlay = Some(ClientShellOverlay::MoveWorkspace(picker));
        }
        outcome.repaint = true;
    }

    /// Moves the picker's selection by `delta`, if the picker is open.
    fn move_picker_selection(&mut self, delta: isize)
        ensures
            match open_picker(*old(self)) {
                Some(p) => open_picker(*final(self)) matches Some(q) && picker_moved(p, q, delta),
                None => final(self).overlay is None,
            },
            same_but_overlay(*old(self), *final(self)),
            final(self).mode == old(self).mode,
    {
        match self.overlay.take() {
            Some(ClientShellOverlay::MoveWorkspace(mut picker)) => {
                picker.move_selection(delta);
                self.overlay = Some(ClientShellOverlay::MoveWorkspace(picker));
            },
            None => {},
        }
    }

    /// Key routing while the picker is open. Every key is consumed: a modal
    /// swallows input. Escape cancels, Enter files, arrows and j/k choose;
    /// while a request is in flight only Enter (ignored) gets through.
    pub fn route_move_workspace_key(&mut self, code: KeyCode, outcome: &mut ClientShellInput)
        ensures
            route_effect(*old(self), *final(self), old(outcome).actions@, final(outcome).actions@,
                old(outcome).repaint, final(outcome).repaint, code),
    {
        let moving = match &self.overlay {
            Some(ClientShellOverlay::MoveWorkspace(picker)) => picker.moving,
            None => false,
        };
        match code {
            KeyCode::Esc => {
                if !moving {
                    self.overlay = None;
                    outcome.repaint = true;
                }
            },
            KeyCode::Enter => self.submit_move_workspace(outcome),
            KeyCode::Up | KeyCode::Char('k') => {
                if !moving {
                    self.move_picker_selection(-1);
                    outcome.repaint = true;
                }
            },
            KeyCode::Down | KeyCode::Char('j') => {
                if !moving {
                    self.move_picker_selection(1);
                    outcome.repaint = true;
                }
            },
            _ => {},
        }
    }

    /// Settles a `workspace.reparent` response. Success closes the picker; a
    /// rejection (a cycle, say) keeps it open and shows the server's message.
    pub fn handle_move_workspace_result(&mut self, error: Option<String>)
        ensures
            same_but_overlay(*old(self), *final(self)),
            final(self).mode == old(self).mode,
            match error {
                None => final(self).overlay is None,
                Some(message) => match open_picker(*old(self)) {
                    Some(p) => open_picker(*final(self)) matches Some(q)
                        && q.workspace_id == p.workspace_id && q.label == p.label && q.entries == p.entries
                        && q.selected == p.selected && !q.moving && q.error == Some(message),
                    None => final(self).overlay is None,
                },
            },
    {
        match error {
            None => {
                self.overlay = None;
            },
            Some(message) => {
                match self.overlay.take() {
                    Some(ClientShellOverlay::MoveWorkspace(mut picker)) => {
                        picker.moving = false;
                        picker.error = Some(message);
                        self.overlay = Some(ClientShellOverlay::MoveWorkspace(picker));
                    },
                    None => {},
                }
            },
        }
    }

    /// A click on picker row `index` selects that target and files under it.
    /// Ignored while a request is in flight or when no such row exists.
    pub fn handle_move_workspace_row_click(&mut self, index: usize, outcome: &mut ClientShellInput)
        ensures
            match open_picker(*old(self)) {
                Some(p) => if !p.moving && index < p.entries@.len() {
                    &&& endpoint_pushed(*old(self), *final(self), old(outcome).actions@, final(outcome).actions@,
                        MethodView::WorkspaceReparent(p.workspace_id@, opt_string_view(p.entries@[index as int].target_id)),
                        PendingEndpointKind::MoveWorkspace)
                    &&& open_picker(*final(self)) matches Some(q) && q.selected == index && q.entries == p.entries
                        && q.workspace_id == p.workspace_id && q.moving == old(self).endpoint_lane_open
                    &&& final(self).mode == old(self).mode
                    &&& final(outcome).repaint
                } else {
                    *final(self) == *old(self) && *final(outcome) == *old(outcome)
                },
                None => *final(self) == *old(self) && *final(outcome) == *old(outcome),
            },
    {
        let selectable = match &self.overlay {
            Some(ClientShellOverlay::MoveWorkspace(picker)) => !picker.moving && index < picker.entries.len(),
            None => false,
        };
        if !selectable {
            return;
        }
        match self.overlay.take() {
            Some(ClientShellOverlay::MoveWorkspace(mut picker)) => {
                picker.selected = index;
                self.overlay = Some(ClientShellOverlay::MoveWorkspace(picker));
            },
            None => {},
        }
        self.submit_move_workspace(outcome);
    }
}

/// The first position of `id` in `ids`.
fn string_position(ids: &Vec<String>, id: &String) -> (pos: Option<usize>)
    ensures
        match pos {
            Some(p) => first_pos(ids_view(ids@), id@, 0) == Some(p as int),
            None => first_pos(ids_view(ids@), id@, 0) is None,
        },
{
    let ghost view = ids_view(ids@);
    let mut i: usize = 0;
    while i < ids.len()
        invariant
            i <= ids@.len(),
            view == ids_view(ids@),
            first_pos(view, id@, 0) == first_pos(view, id@, i as int),
        decreases ids@.len() - i,
    {
        if ids[i] == *id {
            return Some(i);
        }
        i += 1;
    }
    None
}

/// Builds the move for the top-level row `source_root` landing before
/// `before` (or at the end): a block move when the row heads a group, else a
/// single move. Shared by keyboard reorder and the sidebar drag.
pub fn workspace_move_method(snapshot: &ClientShellSnapshot, source_root: &String, before: Option<&String>) -> (method: Option<Method>)
    ensures
        match method {
            Some(m) => move_method_spec(snapshot.workspaces@, source_root@, match before { Some(b) => Some(b@), None => None })
                == Some(method_view(m)),
            None => move_method_spec(snapshot.workspaces@, source_root@, match before { Some(b) => Some(b@), None => None }) is None,
        },
{
    let (_, block) = match workspace_group_block(snapshot, source_root) {
        Some(found) => found,
        None => return None,
    };
    assert(ids_view(block@).len() == block@.len());
    let before_workspace_id = match before {
        Some(b) => Some(b.clone()),
        None => None,
    };
    if block.len() > 1 {
        return Some(Method::WorkspaceMoveBlock(crate::protocol::WorkspaceMoveBlockParams { workspace_ids: block, before_workspace_id }));
    }
    let insert_index = match before {
        Some(b) => match position_of_id(&snapshot.workspaces, b) {
            Some(p) => p,
            None => snapshot.workspaces.len(),
        },
        None => snapshot.workspaces.len(),
    };
    Some(Method::WorkspaceMove(crate::protocol::WorkspaceMoveParams { workspace_id: source_root.clone(), insert_index }))
}

/// Builds the move for reordering the project owning `source_workspace_id`
/// one slot among the top-level rows, `up` toward the front. A nested
/// workspace moves its whole group, through the row that heads it. None at
/// the list ends.
pub fn workspace_reorder_method(snapshot: &ClientShellSnapshot, source_workspace_id: &String, up: bool) -> (method: Option<Method>)
    ensures
        match method {
            Some(m) => reorder_method_spec(snapshot.workspaces@, source_workspace_id@, up) == Some(method_view(m)),
            None => reorder_method_spec(snapshot.workspaces@, source_workspace_id@, up) is None,
        },
{
    // Reorder the top-level row this workspace belongs to, using the same
    // grouping the sidebar renders.
    let (source_root, _) = match workspace_group_block(snapshot, source_workspace_id) {
        Some(found) => found,
        None => return None,
    };
    let roots = top_level_workspace_ids(snapshot);
    let position = match string_position(&roots, &source_root) {
        Some(p) => p,
        None => return None,
    };
    proof {
        lemma_first_pos(ids_view(roots@), source_root@, 0);
    }
    if up {
        // Land before the previous root. No-op at the top.
        if position == 0 {
            return None;
        }
        workspace_move_method(snapshot, &source_root, Some(&roots[position - 1]))
    } else {
        // Jump the next root; land before the one after it, or append when
        // the next root is last. No-op at the bottom.
        if position >= roots.len() - 1 {
            return None;
        }
        if position < roots.len() - 2 {
            workspace_move_method(snapshot, &source_root, Some(&roots[position + 2]))
        } else {
            workspace_move_method(snapshot, &source_root, None)
        }
    }
}

impl ClientShellState {
    /// Carries out a keybind action.
    pub fn record_binding(&mut self, binding: KeybindMatch, outcome: &mut ClientShellInput)
        ensures
            match binding {
                KeybindMatch::Action(action) => binding_effect(*old(self), *final(self), old(outcome).actions@,
                    final(outcome).actions@, old(outcome).repaint, final(outcome).repaint, action, old(self).mode),
            },
    {
        let KeybindMatch::Action(action) = binding;
        match action {
            KeybindAction::NextWorkspace | KeybindAction::PreviousWorkspace => {
                if let Some(target) = self.focus_target(action == KeybindAction::NextWorkspace) {
                    self.push_endpoint_method(Method::WorkspaceFocus(WorkspaceTarget { workspace_id: target }), outcome);
                    outcome.repaint = true;
                }
            },
            KeybindAction::OpenWorkspacePicker => {
                self.navigate_workspace_id = match &self.snapshot {
                    Some(snapshot) => copy_opt(&snapshot.focused_workspace_id),
                    None => None,
                };
                self.mode = ClientShellMode::Navigate;
                outcome.repaint = true;
            },
            KeybindAction::MoveWorkspacePrevious | KeybindAction::MoveWorkspaceNext => {
                let up = action == KeybindAction::MoveWorkspacePrevious;
                let source = match self.keybind_target_workspace() {
                    Some(source) => source,
                    None => return,
                };
                let method = match &self.snapshot {
                    Some(snapshot) => workspace_reorder_method(snapshot, &source, up),
                    None => None,
                };
                if let Some(method) = method {
                    self.push_endpoint_method(method, outcome);
                    outcome.repaint = true;
                }
            },
            KeybindAction::MoveWorktreeToWorkspace => self.open_move_picker_for_target(outcome),
            KeybindAction::AcknowledgeWorkspace => self.acknowledge_target_workspace(outcome),
        }
    }

    /// Handles one key press.
    pub fn handle_key(&mut self, key: TerminalKey) -> (outcome: ClientShellInput)
        ensures
            key_effect(*old(self), *final(self), outcome.actions@, outcome.repaint, key),
    {
        let mut outcome = ClientShellInput::new();
        assert(outcome.actions@ =~= Seq::<ClientShellAction>::empty());
        if let Some(ClientShellOverlay::MoveWorkspace(_)) = &self.overlay {
            self.route_move_workspace_key(key.code, &mut outcome);
            return outcome;
        }
        match self.mode {
            ClientShellMode::Prefix => {
                self.mode = self.copy_or_terminal_mode();
                let plain_w = key.code == KeyCode::Char('w') && !key.modifiers.shift && !key.modifiers.ctrl
                    && !key.modifiers.alt;
                if plain_w {
                    self.record_binding(KeybindMatch::Action(KeybindAction::OpenWorkspacePicker), &mut outcome);
                } else if let Some(action) = resolve_workspace_binding(&self.keybinds, &key) {
                    self.record_binding(KeybindMatch::Action(action), &mut outcome);
                }
            },
            ClientShellMode::Navigate => {
                let action = match reorder_direction_for_key(&key) {
                    Some(WorkspaceReorderDirection::Up) => Some(KeybindAction::MoveWorkspacePrevious),
                    Some(WorkspaceReorderDirection::Down) => Some(KeybindAction::MoveWorkspaceNext),
                    None => resolve_workspace_binding(&self.keybinds, &key),
                };
                match action {
                    Some(action) => self.record_binding(KeybindMatch::Action(action), &mut outcome),
                    None => {
                        if key.code == KeyCode::Esc {
                            self.mode = self.copy_or_terminal_mode();
                            self.navigate_workspace_id = None;
                            outcome.repaint = true;
                        }
                    },
                }
            },
            _ => {
                if key == self.keybinds.prefix {
                    self.mode = ClientShellMode::Prefix;
                }
            },
        }
        outcome
    }

    /// Handles raw terminal input: the decoded key presses, one after the other.
    pub fn handle_input_bytes(&mut self, bytes: &[u8]) -> (outcome: ClientShellInput)
        ensures
            keys_effect(*old(self), *final(self), outcome.actions@, outcome.repaint, decode_from(bytes@, 0)),
    {
        let keys = decode_input_bytes(bytes);
        let mut outcome = ClientShellInput::new();
        let ghost mut states: Seq<ClientShellState> = seq![*self];
        let ghost mut actions: Seq<Seq<ClientShellAction>> = Seq::empty();
        let ghost mut repaints: Seq<bool> = Seq::empty();
        assert(outcome.actions@ =~= Seq::<ClientShellAction>::empty());
        let mut i: usize = 0;
        while i < keys.len()
            invariant
                i <= keys@.len(),
                keys@ == decode_from(bytes@, 0),
                key_trace(states, actions, repaints, keys@.take(i as int)),
                states[0] == *old(self),
                states.last() == *self,
                outcome.actions@ == concat_actions(actions),
                outcome.repaint == repaints.contains(true),
            decreases keys@.len() - i,
        {
            let mut step = self.handle_key(keys[i]);
            let ghost a_last = step.actions@;
            let ghost r_last = step.repaint;
            outcome.actions.append(&mut step.actions);
            outcome.repaint = outcome.repaint || step.repaint;
            proof {
                let old_actions = actions;
                let old_repaints = repaints;
                let old_states = states;
                states = states.push(*self);
                actions = actions.push(a_last);
                repaints = repaints.push(r_last);
                let prefix = keys@.take(i + 1);
                assert(concat_actions(actions) == concat_actions(old_actions) + a_last) by {
                    assert(actions.drop_last() =~= old_actions);
                }
                assert(repaints.contains(true) == (old_repaints.contains(true) || r_last)) by {
                    if r_last {
                        assert(repaints[repaints.len() - 1] == true);
                    }
                    if old_repaints.contains(true) {
                        let k = choose|k: int| 0 <= k < old_repaints.len() && old_repaints[k] == true;
                        assert(repaints[k] == true);
                    }
                    if repaints.contains(true) {
                        let k = choose|k: int| 0 <= k < repaints.len() && repaints[k] == true;
                        if k < old_repaints.len() {
                            assert(old_repaints[k] == true);
                        }
                    }
                }
                assert forall|k: int| 0 <= k < prefix.len() implies
                    #[trigger] key_effect(states[k], states[k + 1], actions[k], repaints[k], prefix[k]) by {
                    if k < i {
                        assert(prefix[k] == keys@.take(i as int)[k]);
                        assert(key_effect(old_states[k], old_states[k + 1], old_actions[k], old_repaints[k], keys@.take(i as int)[k]));
                    }
                }
            }
            i += 1;
        }
        assert(keys@.take(i as int) =~= keys@);
        assert(key_trace(states, actions, repaints, keys@));
        outcome
    }

    /// The workspace a next/previous keybind focuses.
    pub fn focus_target(&self, forward: bool) -> (target: Option<String>)
        ensures
            opt_string_view(target) == focus_target_spec(*self, forward),
    {
        let snapshot = match &self.snapshot {
            Some(snapshot) => snapshot,
            None => return None,
        };
        let ws = &snapshot.workspaces;
        let entries = workspace_entries(snapshot, &self.collapsed_groups);
        proof {
            assert(ws.len() == ws@.len());
            lemma_entries_in_range(ws@, self.collapsed_groups@, ws@.len() as int);
        }
        let ghost ids = sidebar_ids(ws@, self.collapsed_groups@);
        let n = entries.len();
        if n == 0 {
            return None;
        }
        let mut current: Option<usize> = None;
        if let Some(focused) = &snapshot.focused_workspace_id {
            let mut i: usize = 0;
            while i < n && current.is_none()
                invariant
                    n == entries@.len(),
                    i <= n,
                    entries@ == entries_spec(ws@, self.collapsed_groups@),
                    ids == sidebar_ids(ws@, self.collapsed_groups@),
                    forall|j: int| 0 <= j < n ==> (#[trigger] entries@[j]).index < ws@.len(),
                    current is None ==> first_pos(ids, focused@, 0) == first_pos(ids, focused@, i as int),
                    current matches Some(p) ==> first_pos(ids, focused@, 0) == Some(p as int) && p < n,
                decreases n - i,
            {
                assert(ids[i as int] == ws@[entries@[i as int].index as int].workspace_id@);
                if ws[entries[i].index].workspace_id == *focused {
                    current = Some(i);
                }
                i += 1;
            }
        }
        let next = match current {
            Some(p) => if forward {
                if p + 1 < n { p + 1 } else { 0 }
            } else {
                if p > 0 { p - 1 } else { n - 1 }
            },
            None => 0,
        };
        assert(ids[next as int] == ws@[entries@[next as int].index as int].workspace_id@);
        Some(ws[entries[next].index].workspace_id.clone())
    }
}

} // verus!
