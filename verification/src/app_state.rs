//! Server-side workspace state: explicit grouping (`workspace.reparent`),
//! orphan repair after a parent closes, and "done" markers that behave like
//! an inbox until acknowledged (`workspace.acknowledge`).

use vstd::prelude::*;
use crate::pane::{PaneState, TerminalId};
use crate::protocol::{
    top_level_marker, top_level_marker_view, WorkspaceReparentParams, WorkspaceTarget,
};

verus! {

/// Identity of a pane.
#[derive(Clone, Copy, Debug, PartialEq, Eq, Structural)]
pub struct PaneId(pub u64);

/// What an agent in a terminal is doing.
#[derive(Clone, Copy, Debug, PartialEq, Eq, Structural)]
pub enum AgentState {
    Unknown,
    Idle,
    Working,
    Blocked,
}

/// Git worktree membership of a workspace.
#[derive(Clone, Debug, PartialEq, Eq)]
pub struct WorktreeSpaceMembership {
    pub key: String,
    pub label: String,
    pub repo_root: String,
    pub checkout_path: String,
    pub is_linked_worktree: bool,
}

/// A tab: its panes, in order.
#[derive(Clone, Debug, PartialEq, Eq)]
pub struct Tab {
    pub panes: Vec<(PaneId, PaneState)>,
}

/// A workspace. `id` is its public workspace id.
#[derive(Clone, Debug, PartialEq, Eq)]
pub struct Workspace {
    pub id: String,
    pub name: String,
    pub parent_workspace_id: Option<String>,
    pub worktree_space: Option<WorktreeSpaceMembership>,
    pub tabs: Vec<Tab>,
}

impl Workspace {
    /// The name shown for the workspace.
    pub fn display_name(&self) -> (name: String)
        ensures
            name@ == self.name@,
    {
        self.name.clone()
    }
}

/// A terminal and the effective state of the agent running in it.
#[derive(Clone, Debug, PartialEq, Eq)]
pub struct Terminal {
    pub id: TerminalId,
    pub agent_label: Option<String>,
    pub state: AgentState,
}

/// A completion notification waiting for its toast deadline.
#[derive(Clone, Copy, Debug, PartialEq, Eq, Structural)]
pub struct PendingAgentNotification {
    pub pane_id: PaneId,
    pub due_at_ms: u64,
}

/// Toast settings.
#[derive(Clone, Copy, Debug, PartialEq, Eq, Structural)]
pub struct ToastConfig {
    pub delay_seconds: u64,
}

/// A change of a pane's agent status, for `pane.agent_status_changed`.
#[derive(Clone, Debug, PartialEq, Eq)]
pub struct PaneStateUpdate {
    pub pane_id: PaneId,
    pub ws_idx: usize,
    pub previous_agent_label: Option<String>,
    pub previous_state: AgentState,
    pub previous_seen: bool,
    pub agent_label: Option<String>,
    pub state: AgentState,
    pub seen: bool,
    pub agent_name_changed: bool,
    pub agent_released: bool,
    /// Set when no completion occurred, so no done notification may fire.
    pub suppress_completion: bool,
}

/// Why a `workspace.reparent` was refused.
#[derive(Clone, Copy, Debug, PartialEq, Eq, Structural)]
pub enum ReparentFailure {
    FiledUnderItself,
    WouldCreateCycle,
}

/// An API error of the grouping and acknowledge methods.
#[derive(Clone, Debug, PartialEq, Eq)]
pub enum WorkspaceApiError {
    WorkspaceNotFound { workspace_id: String },
    ReparentFailed(ReparentFailure),
}

impl WorkspaceApiError {
    /// The error code sent to API clients.
    pub fn code(&self) -> (code: &'static str)
        ensures
            code@ == (match self {
                WorkspaceApiError::WorkspaceNotFound { .. } => "workspace_not_found"@,
                WorkspaceApiError::ReparentFailed(_) => "workspace_reparent_failed"@,
            }),
    {
        match self {
            WorkspaceApiError::WorkspaceNotFound { .. } => "workspace_not_found",
            WorkspaceApiError::ReparentFailed(_) => "workspace_reparent_failed",
        }
    }
}

impl ReparentFailure {
    /// The human-readable reason sent with the error.
    pub fn message(&self) -> (message: &'static str)
        ensures
            message@ == (match self {
                ReparentFailure::FiledUnderItself => "a workspace cannot be filed under itself"@,
                ReparentFailure::WouldCreateCycle => "reparenting would create a grouping cycle"@,
            }),
    {
        match self {
            ReparentFailure::FiledUnderItself => "a workspace cannot be filed under itself",
            ReparentFailure::WouldCreateCycle => "reparenting would create a grouping cycle",
        }
    }
}

/// The first workspace at or after `i` whose id is `id`.
pub open spec fn ws_index_from(ws: Seq<Workspace>, id: Seq<char>, i: int) -> Option<usize>
    decreases ws.len() - i,
{
    if i < 0 || i >= ws.len() {
        None
    } else if ws[i].id@ == id {
        Some(i as usize)
    } else {
        ws_index_from(ws, id, i + 1)
    }
}

/// The first workspace whose id is `id`.
pub open spec fn ws_index_of(ws: Seq<Workspace>, id: Seq<char>) -> Option<usize> {
    ws_index_from(ws, id, 0)
}

/// Whether `w` is the primary (non-linked) checkout of repo `key`.
pub open spec fn is_primary_checkout(w: Workspace, key: Seq<char>) -> bool {
    match w.worktree_space {
        Some(space) => !space.is_linked_worktree && space.key@ == key,
        None => false,
    }
}

/// The first primary checkout of repo `key` at or after `i`.
pub open spec fn primary_checkout_from(ws: Seq<Workspace>, key: Seq<char>, i: int) -> Option<usize>
    decreases ws.len() - i,
{
    if i < 0 || i >= ws.len() {
        None
    } else if is_primary_checkout(ws[i], key) {
        Some(i as usize)
    } else {
        primary_checkout_from(ws, key, i + 1)
    }
}

/// The workspace `index` groups under, mirroring the sidebar: an explicit
/// parent wins (the top-level marker means none), otherwise a linked git
/// worktree sits under its repo's first primary checkout.
pub open spec fn grouping_parent_spec(ws: Seq<Workspace>, index: int) -> Option<usize> {
    if index < 0 || index >= ws.len() {
        None
    } else {
        match ws[index].parent_workspace_id {
            Some(parent_id) => if parent_id@ == top_level_marker_view() {
                None
            } else {
                ws_index_of(ws, parent_id@)
            },
            None => match ws[index].worktree_space {
                Some(space) => if space.is_linked_worktree {
                    primary_checkout_from(ws, space.key@, 0)
                } else {
                    None
                },
                None => None,
            },
        }
    }
}

/// Whether walking grouping parents from `cursor`, for at most `steps`
/// workspaces, meets a workspace whose id is `id`.
pub open spec fn walk_reaches(ws: Seq<Workspace>, cursor: Option<usize>, id: Seq<char>, steps: nat) -> bool
    decreases steps,
{
    if steps == 0 {
        false
    } else {
        match cursor {
            None => false,
            Some(c) => c < ws.len() && (ws[c as int].id@ == id
                || walk_reaches(ws, grouping_parent_spec(ws, c as int), id, (steps - 1) as nat)),
        }
    }
}

/// `after` is `before` with only the parent link changed.
pub open spec fn same_but_parent(before: Workspace, after: Workspace) -> bool {
    &&& after.id == before.id
    &&& after.name == before.name
    &&& after.worktree_space == before.worktree_space
    &&& after.tabs == before.tabs
}

/// `after` is `before` with workspace `index` filed under `parent`, and
/// nothing else changed.
pub open spec fn reparented(before: Seq<Workspace>, after: Seq<Workspace>, index: int, parent: Seq<char>) -> bool {
    &&& after.len() == before.len()
    &&& 0 <= index < before.len()
    &&& forall|j: int| 0 <= j < before.len() && j != index ==> after[j] == before[j]
    &&& same_but_parent(before[index], after[index])
    &&& after[index].parent_workspace_id matches Some(p) && p@ == parent
}

/// Looking ids up gives the same answer in two lists with the same ids.
pub proof fn lemma_ids_unchanged_index(before: Seq<Workspace>, after: Seq<Workspace>)
    requires
        after.len() == before.len(),
        forall|j: int| 0 <= j < before.len() ==> (#[trigger] after[j]).id == before[j].id,
    ensures
        forall|id: Seq<char>| #[trigger] ws_index_of(after, id) == ws_index_of(before, id),
{
    assert forall|id: Seq<char>| #[trigger] ws_index_of(after, id) == ws_index_of(before, id) by {
        lemma_ids_unchanged_from(before, after, id, 0);
    }
}

proof fn lemma_ids_unchanged_from(before: Seq<Workspace>, after: Seq<Workspace>, id: Seq<char>, i: int)
    requires
        after.len() == before.len(),
        forall|j: int| 0 <= j < before.len() ==> (#[trigger] after[j]).id == before[j].id,
    ensures
        ws_index_from(after, id, i) == ws_index_from(before, id, i),
    decreases before.len() - i,
{
    if 0 <= i < before.len() {
        assert(after[i].id == before[i].id);
        lemma_ids_unchanged_from(before, after, id, i + 1);
    }
}

/// Group parents lie inside the workspace list.
pub proof fn lemma_grouping_parent_in_range(ws: Seq<Workspace>, index: int)
    requires
        ws.len() <= usize::MAX,
    ensures
        grouping_parent_spec(ws, index) matches Some(p) ==> p < ws.len(),
{
    if 0 <= index < ws.len() {
        match ws[index].parent_workspace_id {
            Some(parent_id) => lemma_ws_index_from_in_range(ws, parent_id@, 0),
            None => match ws[index].worktree_space {
                Some(space) => lemma_primary_checkout_in_range(ws, space.key@, 0),
                None => {},
            },
        }
    }
}

/// A found id lies inside the list and names that workspace.
pub proof fn lemma_ws_index_from_in_range(ws: Seq<Workspace>, id: Seq<char>, i: int)
    requires
        ws.len() <= usize::MAX,
    ensures
        ws_index_from(ws, id, i) matches Some(p) ==> i <= p < ws.len() && ws[p as int].id@ == id,
    decreases ws.len() - i,
{
    if 0 <= i < ws.len() && ws[i].id@ != id {
        lemma_ws_index_from_in_range(ws, id, i + 1);
    }
}

proof fn lemma_primary_checkout_in_range(ws: Seq<Workspace>, key: Seq<char>, i: int)
    requires
        ws.len() <= usize::MAX,
    ensures
        primary_checkout_from(ws, key, i) matches Some(p) ==> i <= p < ws.len(),
    decreases ws.len() - i,
{
    if 0 <= i < ws.len() && !is_primary_checkout(ws[i], key) {
        lemma_primary_checkout_in_range(ws, key, i + 1);
    }
}

/// The first terminal at or after `i` with id `id`.
pub open spec fn terminal_index_from(terms: Seq<Terminal>, id: TerminalId, i: int) -> Option<usize>
    decreases terms.len() - i,
{
    if i < 0 || i >= terms.len() {
        None
    } else if terms[i].id == id {
        Some(i as usize)
    } else {
        terminal_index_from(terms, id, i + 1)
    }
}

/// The first terminal with id `id`.
pub open spec fn terminal_index_of(terms: Seq<Terminal>, id: TerminalId) -> Option<usize> {
    terminal_index_from(terms, id, 0)
}

/// A pane is acknowledged when it shows a "done" marker and its terminal exists.
pub open spec fn acknowledges(pane: PaneState, terms: Seq<Terminal>) -> bool {
    !pane.seen && terminal_index_of(terms, pane.attached_terminal_id) is Some
}

/// A pane after acknowledgement.
pub open spec fn acknowledged_pane(entry: (PaneId, PaneState), terms: Seq<Terminal>) -> (PaneId, PaneState) {
    (entry.0, PaneState { attached_terminal_id: entry.1.attached_terminal_id, seen: entry.1.seen || acknowledges(entry.1, terms) })
}

/// The panes of a tab after acknowledgement.
pub open spec fn acknowledged_panes(panes: Seq<(PaneId, PaneState)>, terms: Seq<Terminal>) -> Seq<(PaneId, PaneState)> {
    panes.map_values(|entry: (PaneId, PaneState)| acknowledged_pane(entry, terms))
}

/// The update reported for an acknowledged pane: only `seen` flips, the
/// agent state and label stay as they are, and no completion fires.
pub open spec fn acknowledge_update(pane_id: PaneId, pane: PaneState, terms: Seq<Terminal>, ws_idx: usize) -> PaneStateUpdate {
    let t = terms[terminal_index_of(terms, pane.attached_terminal_id).unwrap() as int];
    PaneStateUpdate {
        pane_id,
        ws_idx,
        previous_agent_label: t.agent_label,
        previous_state: t.state,
        previous_seen: false,
        agent_label: t.agent_label,
        state: t.state,
        seen: true,
        agent_name_changed: false,
        agent_released: false,
        suppress_completion: true,
    }
}

/// Updates for the acknowledged panes among the first `k` of a tab.
pub open spec fn pane_updates(panes: Seq<(PaneId, PaneState)>, terms: Seq<Terminal>, ws_idx: usize, k: int) -> Seq<PaneStateUpdate>
    decreases k,
{
    if k <= 0 {
        Seq::empty()
    } else if acknowledges(panes[k - 1].1, terms) {
        pane_updates(panes, terms, ws_idx, k - 1).push(acknowledge_update(panes[k - 1].0, panes[k - 1].1, terms, ws_idx))
    } else {
        pane_updates(panes, terms, ws_idx, k - 1)
    }
}

/// Updates for the acknowledged panes of the first `t` tabs, tab by tab.
pub open spec fn tab_updates(tabs: Seq<Tab>, terms: Seq<Terminal>, ws_idx: usize, t: int) -> Seq<PaneStateUpdate>
    decreases t,
{
    if t <= 0 {
        Seq::empty()
    } else {
        tab_updates(tabs, terms, ws_idx, t - 1)
            + pane_updates(tabs[t - 1].panes@, terms, ws_idx, tabs[t - 1].panes@.len() as int)
    }
}

/// Whether a pane id is among the updates.
pub open spec fn updates_pane(updates: Seq<PaneStateUpdate>, pane_id: PaneId) -> bool {
    exists|u: int| 0 <= u < updates.len() && (#[trigger] updates[u]).pane_id == pane_id
}

/// The queued notifications among the first `k` that are not for a pane in
/// `updates`.
pub open spec fn pending_kept(pending: Seq<PendingAgentNotification>, updates: Seq<PaneStateUpdate>, k: int) -> Seq<PendingAgentNotification>
    decreases k,
{
    if k <= 0 {
        Seq::empty()
    } else if updates_pane(updates, pending[k - 1].pane_id) {
        pending_kept(pending, updates, k - 1)
    } else {
        pending_kept(pending, updates, k - 1).push(pending[k - 1])
    }
}

/// `after` is workspace `before` with every tab acknowledged.
pub open spec fn workspace_acknowledged(before: Workspace, after: Workspace, terms: Seq<Terminal>) -> bool {
    &&& after.id == before.id
    &&& after.name == before.name
    &&& after.parent_workspace_id == before.parent_workspace_id
    &&& after.worktree_space == before.worktree_space
    &&& after.tabs@.len() == before.tabs@.len()
    &&& forall|t: int| 0 <= t < before.tabs@.len() ==>
        (#[trigger] after.tabs@[t]).panes@ == acknowledged_panes(before.tabs@[t].panes@, terms)
}

/// Workspace `i` is orphaned when its parent link names a workspace that no
/// longer exists (the top-level marker is no such link).
pub open spec fn is_orphaned(ws: Seq<Workspace>, i: int) -> bool {
    ws[i].parent_workspace_id matches Some(pid) && pid@ != top_level_marker_view() && ws_index_of(ws, pid@) is None
}

/// The first queued notification at or after `i` for pane `pane_id`.
pub open spec fn pending_index_from(pending: Seq<PendingAgentNotification>, pane_id: PaneId, i: int) -> Option<int>
    decreases pending.len() - i,
{
    if i < 0 || i >= pending.len() {
        None
    } else if pending[i].pane_id == pane_id {
        Some(i)
    } else {
        pending_index_from(pending, pane_id, i + 1)
    }
}

/// The queue with `n` queued: one notification per pane, so a pane that
/// already waits has its entry replaced in place, and a new one goes last.
pub open spec fn queue_notification(pending: Seq<PendingAgentNotification>, n: PendingAgentNotification) -> Seq<PendingAgentNotification> {
    match pending_index_from(pending, n.pane_id, 0) {
        Some(p) => pending.update(p, n),
        None => pending.push(n),
    }
}

fn queue(pending: &mut Vec<PendingAgentNotification>, n: PendingAgentNotification)
    ensures
        final(pending)@ == queue_notification(old(pending)@, n),
{
    let mut i: usize = 0;
    while i < pending.len()
        invariant
            i <= pending@.len(),
            pending@ == old(pending)@,
            pending_index_from(pending@, n.pane_id, 0) == pending_index_from(pending@, n.pane_id, i as int),
        decreases pending@.len() - i,
    {
        if pending[i].pane_id == n.pane_id {
            pending.set(i, n);
            return;
        }
        i += 1;
    }
    pending.push(n);
}

/// The first terminal with id `id`.
fn find_terminal(terminals: &Vec<Terminal>, id: TerminalId) -> (index: Option<usize>)
    ensures
        index == terminal_index_of(terminals@, id),
        index matches Some(i) ==> i < terminals@.len() && terminals@[i as int].id == id,
{
    let mut i: usize = 0;
    while i < terminals.len()
        invariant
            i <= terminals@.len(),
            terminal_index_of(terminals@, id) == terminal_index_from(terminals@, id, i as int),
        decreases terminals@.len() - i,
    {
        if terminals[i].id == id {
            return Some(i);
        }
        i += 1;
    }
    None
}

/// Acknowledges the panes of one tab, reporting each that flipped.
fn acknowledge_panes(
    panes: &mut Vec<(PaneId, PaneState)>,
    terminals: &Vec<Terminal>,
    ws_idx: usize,
    updates: &mut Vec<PaneStateUpdate>,
)
    ensures
        final(panes)@ == acknowledged_panes(old(panes)@, terminals@),
        final(updates)@ == old(updates)@ + pane_updates(old(panes)@, terminals@, ws_idx, old(panes)@.len() as int),
{
    let ghost before = panes@;
    let ghost start = updates@;
    let n = panes.len();
    let mut k: usize = 0;
    while k < n
        invariant
            n == before.len(),
            k <= n,
            panes@.len() == n,
            forall|j: int| 0 <= j < n ==> (#[trigger] panes@[j]) == if j < k {
                acknowledged_pane(before[j], terminals@)
            } else {
                before[j]
            },
            updates@ == start + pane_updates(before, terminals@, ws_idx, k as int),
        decreases n - k,
    {
        let (pane_id, pane) = panes[k];
        if !pane.seen {
            if let Some(ti) = find_terminal(terminals, pane.attached_terminal_id) {
                let terminal = &terminals[ti];
                updates.push(PaneStateUpdate {
                    pane_id,
                    ws_idx,
                    previous_agent_label: copy_opt_string(&terminal.agent_label),
                    previous_state: terminal.state,
                    previous_seen: false,
                    agent_label: copy_opt_string(&terminal.agent_label),
                    state: terminal.state,
                    seen: true,
                    agent_name_changed: false,
                    agent_released: false,
                    suppress_completion: true,
                });
                panes[k].1.seen = true;
            }
        }
        proof {
            assert(start + pane_updates(before, terminals@, ws_idx, k + 1) == updates@);
        }
        k += 1;
    }
    assert(panes@ == acknowledged_panes(before, terminals@));
}

/// Whether a pane id is among the updates.
fn has_update_for(updates: &Vec<PaneStateUpdate>, pane_id: PaneId) -> (found: bool)
    ensures
        found == updates_pane(updates@, pane_id),
{
    let mut u: usize = 0;
    while u < updates.len()
        invariant
            u <= updates@.len(),
            forall|j: int| 0 <= j < u ==> updates@[j].pane_id != pane_id,
        decreases updates@.len() - u,
    {
        if updates[u].pane_id == pane_id {
            return true;
        }
        u += 1;
    }
    false
}

/// The first position at or after `k` of pane `id` in a tab.
pub open spec fn pane_pos_from(panes: Seq<(PaneId, PaneState)>, id: PaneId, k: int) -> Option<usize>
    decreases panes.len() - k,
{
    if k < 0 || k >= panes.len() {
        None
    } else if panes[k].0 == id {
        Some(k as usize)
    } else {
        pane_pos_from(panes, id, k + 1)
    }
}

/// The first (tab, position) at or after tab `t` holding pane `id`.
pub open spec fn pane_in_tabs_from(tabs: Seq<Tab>, id: PaneId, t: int) -> Option<(usize, usize)>
    decreases tabs.len() - t,
{
    if t < 0 || t >= tabs.len() {
        None
    } else {
        match pane_pos_from(tabs[t].panes@, id, 0) {
            Some(k) => Some((t as usize, k)),
            None => pane_in_tabs_from(tabs, id, t + 1),
        }
    }
}

/// The first (workspace, tab, position) at or after workspace `w` holding pane `id`.
pub open spec fn pane_location_from(ws: Seq<Workspace>, id: PaneId, w: int) -> Option<(usize, usize, usize)>
    decreases ws.len() - w,
{
    if w < 0 || w >= ws.len() {
        None
    } else {
        match pane_in_tabs_from(ws[w].tabs@, id, 0) {
            Some((t, k)) => Some((w as usize, t, k)),
            None => pane_location_from(ws, id, w + 1),
        }
    }
}

/// Where pane `id` lives.
pub open spec fn pane_location(ws: Seq<Workspace>, id: PaneId) -> Option<(usize, usize, usize)> {
    pane_location_from(ws, id, 0)
}

/// An agent finishing its work: it was working and is now idle.
pub open spec fn is_completion(previous: AgentState, next: AgentState) -> bool {
    previous == AgentState::Working && next == AgentState::Idle
}

/// The seen flag a pane has after its agent moves from `previous` to `next`.
/// Only a completion sets the "done" marker, and only the agent being
/// addressed again (working) clears it; nothing else touches it.
pub open spec fn seen_after(seen: bool, previous: AgentState, next: AgentState) -> bool {
    if next == AgentState::Working {
        true
    } else if is_completion(previous, next) {
        false
    } else {
        seen
    }
}

/// `after` is `before` with only the seen flag of pane (w, t, k) set to `seen`.
pub open spec fn pane_seen_set(before: Seq<Workspace>, after: Seq<Workspace>, w: int, t: int, k: int, seen: bool) -> bool {
    &&& after.len() == before.len()
    &&& forall|j: int| 0 <= j < before.len() && j != w ==> #[trigger] after[j] == before[j]
    &&& after[w].id == before[w].id
    &&& after[w].name == before[w].name
    &&& after[w].parent_workspace_id == before[w].parent_workspace_id
    &&& after[w].worktree_space == before[w].worktree_space
    &&& after[w].tabs@.len() == before[w].tabs@.len()
    &&& forall|u: int| 0 <= u < before[w].tabs@.len() && u != t ==> #[trigger] after[w].tabs@[u] == before[w].tabs@[u]
    &&& after[w].tabs@[t].panes@ == before[w].tabs@[t].panes@.update(
        k,
        (before[w].tabs@[t].panes@[k].0, PaneState { attached_terminal_id: before[w].tabs@[t].panes@[k].1.attached_terminal_id, seen }),
    )
}

/// The pane ids of the notifications among the first `k` that are due at `now`.
pub open spec fn due_ids(pending: Seq<PendingAgentNotification>, now_ms: u64, k: int) -> Seq<PaneId>
    decreases k,
{
    if k <= 0 {
        Seq::empty()
    } else if pending[k - 1].due_at_ms <= now_ms {
        due_ids(pending, now_ms, k - 1).push(pending[k - 1].pane_id)
    } else {
        due_ids(pending, now_ms, k - 1)
    }
}

/// The notifications among the first `k` that are not yet due at `now`.
pub open spec fn not_due(pending: Seq<PendingAgentNotification>, now_ms: u64, k: int) -> Seq<PendingAgentNotification>
    decreases k,
{
    if k <= 0 {
        Seq::empty()
    } else if pending[k - 1].due_at_ms <= now_ms {
        not_due(pending, now_ms, k - 1)
    } else {
        not_due(pending, now_ms, k - 1).push(pending[k - 1])
    }
}

/// No two panes of the workspace share an id (its panes were a map by id).
pub open spec fn pane_ids_distinct(w: Workspace) -> bool {
    forall|t1: int, k1: int, t2: int, k2: int|
        0 <= t1 < w.tabs@.len() && 0 <= k1 < w.tabs@[t1].panes@.len()
        && 0 <= t2 < w.tabs@.len() && 0 <= k2 < w.tabs@[t2].panes@.len() && (t1 != t2 || k1 != k2) ==>
        (#[trigger] w.tabs@[t1].panes@[k1]).0 != (#[trigger] w.tabs@[t2].panes@[k2]).0
}

/// At most one notification is queued per pane (the queue was a map by pane).
pub open spec fn pending_ids_distinct(pending: Seq<PendingAgentNotification>) -> bool {
    forall|a: int, b: int| 0 <= a < pending.len() && 0 <= b < pending.len() && a != b ==>
        (#[trigger] pending[a]).pane_id != (#[trigger] pending[b]).pane_id
}

/// The panes of `after` are those of `before`, position for position, with
/// the same ids (only their state may differ).
pub open spec fn same_pane_ids(before: Workspace, after: Workspace) -> bool {
    &&& after.tabs@.len() == before.tabs@.len()
    &&& forall|t: int| 0 <= t < before.tabs@.len() ==> (#[trigger] after.tabs@[t]).panes@.len() == before.tabs@[t].panes@.len()
    &&& forall|t: int, k: int| 0 <= t < before.tabs@.len() && 0 <= k < before.tabs@[t].panes@.len() ==>
        (#[trigger] after.tabs@[t].panes@[k]).0 == before.tabs@[t].panes@[k].0
}

proof fn lemma_same_pane_ids_distinct(before: Workspace, after: Workspace)
    requires
        same_pane_ids(before, after),
        pane_ids_distinct(before),
    ensures
        pane_ids_distinct(after),
{
    assert forall|t1: int, k1: int, t2: int, k2: int|
        0 <= t1 < after.tabs@.len() && 0 <= k1 < after.tabs@[t1].panes@.len()
        && 0 <= t2 < after.tabs@.len() && 0 <= k2 < after.tabs@[t2].panes@.len() && (t1 != t2 || k1 != k2) implies
        (#[trigger] after.tabs@[t1].panes@[k1]).0 != (#[trigger] after.tabs@[t2].panes@[k2]).0 by {
        assert(after.tabs@[t1].panes@[k1].0 == before.tabs@[t1].panes@[k1].0);
        assert(after.tabs@[t2].panes@[k2].0 == before.tabs@[t2].panes@[k2].0);
        assert(before.tabs@[t1].panes@[k1].0 != before.tabs@[t2].panes@[k2].0);
    }
}

proof fn lemma_pending_index_found(pending: Seq<PendingAgentNotification>, pane_id: PaneId, i: int)
    requires
        0 <= i,
    ensures
        pending_index_from(pending, pane_id, i) matches Some(p) ==> i <= p < pending.len() && pending[p].pane_id == pane_id,
        pending_index_from(pending, pane_id, i) is None ==> forall|j: int| i <= j < pending.len() ==> (#[trigger] pending[j]).pane_id != pane_id,
    decreases pending.len() - i,
{
    if i < pending.len() && pending[i].pane_id != pane_id {
        lemma_pending_index_found(pending, pane_id, i + 1);
    }
}

/// Queuing keeps one notification per pane.
pub proof fn lemma_queue_distinct(pending: Seq<PendingAgentNotification>, n: PendingAgentNotification)
    requires
        pending_ids_distinct(pending),
    ensures
        pending_ids_distinct(queue_notification(pending, n)),
{
    lemma_pending_index_found(pending, n.pane_id, 0);
    let q = queue_notification(pending, n);
    assert forall|a: int, b: int| 0 <= a < q.len() && 0 <= b < q.len() && a != b implies
        (#[trigger] q[a]).pane_id != (#[trigger] q[b]).pane_id by {
        match pending_index_from(pending, n.pane_id, 0) {
            Some(p) => {
                assert(pending[p].pane_id == n.pane_id);
            },
            None => {},
        }
    }
}

/// Keeping a subsequence keeps one notification per pane.
pub proof fn lemma_kept_distinct(pending: Seq<PendingAgentNotification>, updates: Seq<PaneStateUpdate>, now_ms: u64, k: int)
    requires
        pending_ids_distinct(pending),
        0 <= k <= pending.len(),
    ensures
        pending_ids_distinct(pending_kept(pending, updates, k)),
        pending_ids_distinct(not_due(pending, now_ms, k)),
        forall|x: int| #![trigger pending_kept(pending, updates, k)[x]] 0 <= x < pending_kept(pending, updates, k).len() ==>
            exists|j: int| 0 <= j < k && #[trigger] pending[j] == pending_kept(pending, updates, k)[x],
        forall|x: int| #![trigger not_due(pending, now_ms, k)[x]] 0 <= x < not_due(pending, now_ms, k).len() ==>
            exists|j: int| 0 <= j < k && #[trigger] pending[j] == not_due(pending, now_ms, k)[x],
    decreases k,
{
    if k > 0 {
        lemma_kept_distinct(pending, updates, now_ms, k - 1);
        let a0 = pending_kept(pending, updates, k - 1);
        let a1 = pending_kept(pending, updates, k);
        let b0 = not_due(pending, now_ms, k - 1);
        let b1 = not_due(pending, now_ms, k);
        let x = pending[k - 1];
        assert forall|m: int| #![trigger a1[m]] 0 <= m < a1.len() implies exists|j: int| 0 <= j < k && #[trigger] pending[j] == a1[m] by {
            if m < a0.len() {
                assert(a1[m] == a0[m]);
            } else {
                assert(a1[m] == x);
            }
        }
        assert forall|m: int| #![trigger b1[m]] 0 <= m < b1.len() implies exists|j: int| 0 <= j < k && #[trigger] pending[j] == b1[m] by {
            if m < b0.len() {
                assert(b1[m] == b0[m]);
            } else {
                assert(b1[m] == x);
            }
        }
        assert forall|a: int, b: int| 0 <= a < a1.len() && 0 <= b < a1.len() && a != b implies
            (#[trigger] a1[a]).pane_id != (#[trigger] a1[b]).pane_id by {
            if a < a0.len() && b < a0.len() {
                assert(a1[a] == a0[a] && a1[b] == a0[b]);
            } else if a < a0.len() {
                assert(a1[a] == a0[a]);
                let j = choose|j: int| 0 <= j < k - 1 && #[trigger] pending[j] == a0[a];
                assert(pending[j].pane_id != pending[k - 1].pane_id);
            } else if b < a0.len() {
                assert(a1[b] == a0[b]);
                let j = choose|j: int| 0 <= j < k - 1 && #[trigger] pending[j] == a0[b];
                assert(pending[j].pane_id != pending[k - 1].pane_id);
            }
        }
        assert forall|a: int, b: int| 0 <= a < b1.len() && 0 <= b < b1.len() && a != b implies
            (#[trigger] b1[a]).pane_id != (#[trigger] b1[b]).pane_id by {
            if a < b0.len() && b < b0.len() {
                assert(b1[a] == b0[a] && b1[b] == b0[b]);
            } else if a < b0.len() {
                assert(b1[a] == b0[a]);
                let j = choose|j: int| 0 <= j < k - 1 && #[trigger] pending[j] == b0[a];
                assert(pending[j].pane_id != pending[k - 1].pane_id);
            } else if b < b0.len() {
                assert(b1[b] == b0[b]);
                let j = choose|j: int| 0 <= j < k - 1 && #[trigger] pending[j] == b0[b];
                assert(pending[j].pane_id != pending[k - 1].pane_id);
            }
        }
    }
}

/// Input mode of the server-side UI.
#[derive(Clone, Copy, Debug, PartialEq, Eq, Structural)]
pub enum Mode {
    Terminal,
    /// The sidebar workspace picker (`prefix+w`).
    Navigate,
    /// The session navigator overlay (`prefix+g`).
    Navigator,
}

/// A state filter of the session navigator.
#[derive(Clone, Copy, Debug, PartialEq, Eq, Structural)]
pub enum NavigatorStateFilter {
    Working,
    Blocked,
    Done,
}

/// The session navigator overlay.
#[derive(Clone, Debug, PartialEq, Eq)]
pub struct NavigatorState {
    pub query: String,
    pub state_filter: Option<NavigatorStateFilter>,
    pub selected: usize,
    pub search_focused: bool,
    /// Ids of the workspaces whose tabs and panes are listed.
    pub expanded_workspaces: Vec<String>,
}

/// The server's application state.
pub struct AppState {
    pub workspaces: Vec<Workspace>,
    pub terminals: Vec<Terminal>,
    pub pending_agent_notifications: Vec<PendingAgentNotification>,
    pub toast_config: ToastConfig,
    pub active: Option<usize>,
    pub selected: usize,
    pub mode: Mode,
    pub navigator: NavigatorState,
}

impl AppState {
    /// The keys the state's maps kept unique: workspace ids, terminal ids,
    /// each workspace's pane ids, and the panes with a queued notification.
    pub open spec fn keys_unique(&self) -> bool {
        &&& forall|a: int, b: int| 0 <= a < self.workspaces@.len() && 0 <= b < self.workspaces@.len() && a != b ==>
            (#[trigger] self.workspaces@[a]).id@ != (#[trigger] self.workspaces@[b]).id@
        &&& forall|a: int, b: int| 0 <= a < self.terminals@.len() && 0 <= b < self.terminals@.len() && a != b ==>
            (#[trigger] self.terminals@[a]).id != (#[trigger] self.terminals@[b]).id
        &&& forall|w: int| 0 <= w < self.workspaces@.len() ==> pane_ids_distinct(#[trigger] self.workspaces@[w])
        &&& pending_ids_distinct(self.pending_agent_notifications@)
    }
}

/// Makes an owned copy of an optional string.
fn copy_opt_string(value: &Option<String>) -> (copy: Option<String>)
    ensures
        copy == *value,
{
    match value {
        Some(s) => Some(s.clone()),
        None => None,
    }
}

impl AppState {
    /// The first workspace whose id is `id`.
    pub fn parse_workspace_id(&self, id: &String) -> (index: Option<usize>)
        ensures
            index == ws_index_of(self.workspaces@, id@),
            index matches Some(i) ==> i < self.workspaces@.len() && self.workspaces@[i as int].id@ == id@,
    {
        let mut i: usize = 0;
        while i < self.workspaces.len()
            invariant
                i <= self.workspaces@.len(),
                ws_index_of(self.workspaces@, id@) == ws_index_from(self.workspaces@, id@, i as int),
            decreases self.workspaces@.len() - i,
        {
            if self.workspaces[i].id == *id {
                return Some(i);
            }
            i += 1;
        }
        None
    }

    /// The first primary checkout of repo `key`.
    fn primary_checkout(&self, key: &String) -> (index: Option<usize>)
        ensures
            index == primary_checkout_from(self.workspaces@, key@, 0),
    {
        let mut i: usize = 0;
        while i < self.workspaces.len()
            invariant
                i <= self.workspaces@.len(),
                primary_checkout_from(self.workspaces@, key@, 0) == primary_checkout_from(self.workspaces@, key@, i as int),
            decreases self.workspaces@.len() - i,
        {
            let found = match &self.workspaces[i].worktree_space {
                Some(space) => !space.is_linked_worktree && space.key == *key,
                None => false,
            };
            if found {
                return Some(i);
            }
            i += 1;
        }
        None
    }

    /// The workspace `index` groups under, mirroring the sidebar: an explicit
    /// parent wins, otherwise a linked git worktree is inferred to sit under
    /// its repo's primary checkout.
    pub fn grouping_parent_index(&self, index: usize) -> (parent: Option<usize>)
        ensures
            parent == grouping_parent_spec(self.workspaces@, index as int),
    {
        if index >= self.workspaces.len() {
            return None;
        }
        let workspace = &self.workspaces[index];
        if let Some(parent_id) = &workspace.parent_workspace_id {
            let marker = top_level_marker();
            if *parent_id == marker {
                // Explicitly top level: suppress the inferred worktree parent.
                return None;
            }
            return self.parse_workspace_id(parent_id);
        }
        let space = match &workspace.worktree_space {
            Some(space) => space,
            None => return None,
        };
        if !space.is_linked_worktree {
            return None;
        }
        self.primary_checkout(&space.key)
    }

    /// Files workspace `params.workspace_id` under `params.parent_workspace_id`,
    /// or at the top level when that is `None`. The top-level choice is
    /// recorded rather than cleared, so a linked worktree is not re-nested
    /// under its primary checkout. Filing a workspace under itself, or under
    /// anything that already groups beneath it (explicitly or through an
    /// inferred worktree link), is refused and changes nothing. Returns the
    /// index of the refiled workspace.
    pub fn handle_workspace_reparent(&mut self, params: &WorkspaceReparentParams) -> (result: Result<usize, WorkspaceApiError>)
        ensures
            old(self).keys_unique() ==> final(self).keys_unique(),
            ({
                let ws = old(self).workspaces@;
                match ws_index_of(ws, params.workspace_id@) {
                    None => result matches Err(WorkspaceApiError::WorkspaceNotFound { workspace_id })
                        && workspace_id@ == params.workspace_id@,
                    Some(index) => match params.parent_workspace_id {
                        None => result == Ok::<usize, WorkspaceApiError>(index)
                            && reparented(ws, final(self).workspaces@, index as int, top_level_marker_view()),
                        Some(requested) => match ws_index_of(ws, requested@) {
                            None => result matches Err(WorkspaceApiError::WorkspaceNotFound { workspace_id })
                                && workspace_id@ == requested@,
                            Some(parent) => if parent == index {
                                result == Err::<usize, WorkspaceApiError>(
                                    WorkspaceApiError::ReparentFailed(ReparentFailure::FiledUnderItself))
                            } else if walk_reaches(ws, Some(parent), ws[index as int].id@, ws.len()) {
                                result == Err::<usize, WorkspaceApiError>(
                                    WorkspaceApiError::ReparentFailed(ReparentFailure::WouldCreateCycle))
                            } else {
                                result == Ok::<usize, WorkspaceApiError>(index)
                                    && reparented(ws, final(self).workspaces@, index as int, requested@)
                            },
                        },
                    },
                }
            }),
            result is Err ==> *final(self) == *old(self),
            final(self).terminals == old(self).terminals,
            final(self).pending_agent_notifications == old(self).pending_agent_notifications,
            final(self).toast_config == old(self).toast_config,
            final(self).active == old(self).active,
            final(self).selected == old(self).selected,
            final(self).mode == old(self).mode,
            final(self).navigator == old(self).navigator,
    {
        let index = match self.parse_workspace_id(&params.workspace_id) {
            Some(index) => index,
            None => return Err(WorkspaceApiError::WorkspaceNotFound { workspace_id: params.workspace_id.clone() }),
        };
        let parent_id: String = match &params.parent_workspace_id {
            None => top_level_marker(),
            Some(requested) => {
                let parent_index = match self.parse_workspace_id(requested) {
                    Some(parent_index) => parent_index,
                    None => return Err(WorkspaceApiError::WorkspaceNotFound { workspace_id: requested.clone() }),
                };
                if parent_index == index {
                    return Err(WorkspaceApiError::ReparentFailed(ReparentFailure::FiledUnderItself));
                }
                // Reject cycles against the same combined graph the sidebar
                // groups by: an explicit parent, else the primary checkout a
                // linked worktree is inferred to sit under.
                let ghost ws = self.workspaces@;
                let n = self.workspaces.len();
                let mut cursor = Some(parent_index);
                let mut k: usize = 0;
                while k < n && cursor.is_some()
                    invariant
                        *self == *old(self),
                        self.workspaces@ == ws,
                        ws_index_of(ws, params.workspace_id@) == Some(index),
                        params.parent_workspace_id == Some(*requested),
                        ws_index_of(ws, requested@) == Some(parent_index),
                        parent_index != index,
                        n == ws.len(),
                        k <= n,
                        index < n,
                        cursor matches Some(c) ==> c < n,
                        walk_reaches(ws, Some(parent_index), ws[index as int].id@, n as nat)
                            == walk_reaches(ws, cursor, ws[index as int].id@, (n - k) as nat),
                    decreases n - k,
                {
                    let current = cursor.unwrap();
                    if self.workspaces[current].id == self.workspaces[index].id {
                        assert(walk_reaches(ws, cursor, ws[index as int].id@, (n - k) as nat));
                        return Err(WorkspaceApiError::ReparentFailed(ReparentFailure::WouldCreateCycle));
                    }
                    proof {
                        lemma_grouping_parent_in_range(ws, current as int);
                    }
                    cursor = self.grouping_parent_index(current);
                    k += 1;
                }
                self.workspaces[parent_index].id.clone()
            },
        };
        let ghost before = self.workspaces@;
        self.workspaces[index].parent_workspace_id = Some(parent_id);
        proof {
            assert(self.workspaces@ =~= before.update(index as int, self.workspaces@[index as int]));
        }
        Ok(index)
    }

    /// The first terminal with id `id`.
    pub fn terminal_index(&self, id: TerminalId) -> (index: Option<usize>)
        ensures
            index == terminal_index_of(self.terminals@, id),
            index matches Some(i) ==> i < self.terminals@.len() && self.terminals@[i as int].id == id,
    {
        find_terminal(&self.terminals, id)
    }

    /// Marks every pane of workspace `ws_idx` as seen ("acknowledged"), turning
    /// each finished "done" agent back to idle without changing its agent
    /// state or re-running it. Any queued completion notification for those
    /// panes is dropped, so an acknowledged item never toasts later. Returns an
    /// update for each pane whose seen flag actually flipped.
    pub fn acknowledge_workspace(&mut self, ws_idx: usize) -> (updates: Vec<PaneStateUpdate>)
        ensures
            old(self).keys_unique() ==> final(self).keys_unique(),
            ws_idx >= old(self).workspaces@.len() ==> updates@.len() == 0 && *final(self) == *old(self),
            ws_idx < old(self).workspaces@.len() ==> {
                let before = old(self).workspaces@[ws_idx as int];
                &&& updates@ == tab_updates(before.tabs@, old(self).terminals@, ws_idx, before.tabs@.len() as int)
                &&& final(self).workspaces@.len() == old(self).workspaces@.len()
                &&& forall|j: int| 0 <= j < old(self).workspaces@.len() && j != ws_idx ==>
                    #[trigger] final(self).workspaces@[j] == old(self).workspaces@[j]
                &&& workspace_acknowledged(before, final(self).workspaces@[ws_idx as int], old(self).terminals@)
                &&& final(self).pending_agent_notifications@ == pending_kept(
                    old(self).pending_agent_notifications@,
                    updates@,
                    old(self).pending_agent_notifications@.len() as int,
                )
            },
            final(self).terminals == old(self).terminals,
            final(self).toast_config == old(self).toast_config,
            final(self).active == old(self).active,
            final(self).selected == old(self).selected,
            final(self).mode == old(self).mode,
            final(self).navigator == old(self).navigator,
    {
        let mut updates: Vec<PaneStateUpdate> = Vec::new();
        if ws_idx >= self.workspaces.len() {
            return updates;
        }
        let ghost before = self.workspaces@;
        let ntabs = self.workspaces[ws_idx].tabs.len();
        let mut t: usize = 0;
        while t < ntabs
            invariant
                ws_idx < before.len(),
                ntabs == before[ws_idx as int].tabs@.len(),
                t <= ntabs,
                before == old(self).workspaces@,
                self.workspaces@.len() == before.len(),
                self.terminals == old(self).terminals,
                self.pending_agent_notifications == old(self).pending_agent_notifications,
                self.toast_config == old(self).toast_config,
                self.active == old(self).active,
                self.selected == old(self).selected,
                self.mode == old(self).mode,
                self.navigator == old(self).navigator,
                forall|j: int| 0 <= j < before.len() && j != ws_idx ==> #[trigger] self.workspaces@[j] == before[j],
                self.workspaces@[ws_idx as int].id == before[ws_idx as int].id,
                self.workspaces@[ws_idx as int].name == before[ws_idx as int].name,
                self.workspaces@[ws_idx as int].parent_workspace_id == before[ws_idx as int].parent_workspace_id,
                self.workspaces@[ws_idx as int].worktree_space == before[ws_idx as int].worktree_space,
                self.workspaces@[ws_idx as int].tabs@.len() == ntabs,
                forall|u: int| 0 <= u < ntabs ==> (#[trigger] self.workspaces@[ws_idx as int].tabs@[u]).panes@ == if u < t {
                    acknowledged_panes(before[ws_idx as int].tabs@[u].panes@, self.terminals@)
                } else {
                    before[ws_idx as int].tabs@[u].panes@
                },
                updates@ == tab_updates(before[ws_idx as int].tabs@, self.terminals@, ws_idx, t as int),
            decreases ntabs - t,
        {
            acknowledge_panes(&mut self.workspaces[ws_idx].tabs[t].panes, &self.terminals, ws_idx, &mut updates);
            t += 1;
        }
        let mut kept: Vec<PendingAgentNotification> = Vec::new();
        let mut p: usize = 0;
        while p < self.pending_agent_notifications.len()
            invariant
                p <= self.pending_agent_notifications@.len(),
                kept@ == pending_kept(self.pending_agent_notifications@, updates@, p as int),
            decreases self.pending_agent_notifications@.len() - p,
        {
            let pending = self.pending_agent_notifications[p];
            if !has_update_for(&updates, pending.pane_id) {
                kept.push(pending);
            }
            p += 1;
        }
        proof {
            if old(self).keys_unique() {
                let wi = ws_idx as int;
                let after = self.workspaces@[wi];
                assert(same_pane_ids(before[wi], after)) by {
                    assert forall|u: int, m: int| 0 <= u < before[wi].tabs@.len() && 0 <= m < before[wi].tabs@[u].panes@.len() implies
                        (#[trigger] after.tabs@[u].panes@[m]).0 == before[wi].tabs@[u].panes@[m].0 by {
                        assert(after.tabs@[u].panes@ == acknowledged_panes(before[wi].tabs@[u].panes@, self.terminals@));
                    }
                    assert forall|u: int| 0 <= u < before[wi].tabs@.len() implies
                        (#[trigger] after.tabs@[u]).panes@.len() == before[wi].tabs@[u].panes@.len() by {
                        assert(after.tabs@[u].panes@ == acknowledged_panes(before[wi].tabs@[u].panes@, self.terminals@));
                    }
                }
                lemma_same_pane_ids_distinct(before[wi], after);
                assert forall|j: int| 0 <= j < self.workspaces@.len() implies pane_ids_distinct(#[trigger] self.workspaces@[j]) by {
                    if j != wi {
                        assert(self.workspaces@[j] == before[j]);
                    }
                }
                assert forall|a: int, b: int| 0 <= a < self.workspaces@.len() && 0 <= b < self.workspaces@.len() && a != b implies
                    (#[trigger] self.workspaces@[a]).id@ != (#[trigger] self.workspaces@[b]).id@ by {
                    if a != wi {
                        assert(self.workspaces@[a] == before[a]);
                    }
                    if b != wi {
                        assert(self.workspaces@[b] == before[b]);
                    }
                }
                lemma_kept_distinct(self.pending_agent_notifications@, updates@, 0, self.pending_agent_notifications@.len() as int);
            }
        }
        self.pending_agent_notifications = kept;
        updates
    }

    /// Where pane `pane_id` lives: (workspace, tab, position in tab).
    pub fn locate_pane(&self, pane_id: PaneId) -> (location: Option<(usize, usize, usize)>)
        ensures
            location == pane_location(self.workspaces@, pane_id),
            location matches Some((w, t, k)) ==> {
                &&& w < self.workspaces@.len()
                &&& t < self.workspaces@[w as int].tabs@.len()
                &&& k < self.workspaces@[w as int].tabs@[t as int].panes@.len()
                &&& self.workspaces@[w as int].tabs@[t as int].panes@[k as int].0 == pane_id
            },
    {
        let mut w: usize = 0;
        while w < self.workspaces.len()
            invariant
                w <= self.workspaces@.len(),
                pane_location(self.workspaces@, pane_id) == pane_location_from(self.workspaces@, pane_id, w as int),
            decreases self.workspaces@.len() - w,
        {
            let tabs = &self.workspaces[w].tabs;
            let mut t: usize = 0;
            while t < tabs.len()
                invariant
                    t <= tabs@.len(),
                    w < self.workspaces@.len(),
                    tabs@ == self.workspaces@[w as int].tabs@,
                    pane_location(self.workspaces@, pane_id) == pane_location_from(self.workspaces@, pane_id, w as int),
                    pane_in_tabs_from(tabs@, pane_id, 0) == pane_in_tabs_from(tabs@, pane_id, t as int),
                decreases tabs@.len() - t,
            {
                let panes = &tabs[t].panes;
                let mut k: usize = 0;
                while k < panes.len()
                    invariant
                        k <= panes@.len(),
                        t < tabs@.len(),
                        w < self.workspaces@.len(),
                        tabs@ == self.workspaces@[w as int].tabs@,
                        panes@ == tabs@[t as int].panes@,
                        pane_location(self.workspaces@, pane_id) == pane_location_from(self.workspaces@, pane_id, w as int),
                        pane_in_tabs_from(tabs@, pane_id, 0) == pane_in_tabs_from(tabs@, pane_id, t as int),
                        pane_pos_from(panes@, pane_id, 0) == pane_pos_from(panes@, pane_id, k as int),
                    decreases panes@.len() - k,
                {
                    if panes[k].0 == pane_id {
                        return Some((w, t, k));
                    }
                    k += 1;
                }
                t += 1;
            }
            w += 1;
        }
        None
    }

    /// Records that the agent in pane `pane_id` is now in `state` (observed at
    /// `now_ms` milliseconds). A completion (working, then idle) sets the
    /// pane's "done" marker unconditionally; the agent being addressed again
    /// (working) clears it; focus never does. A completion outside the active
    /// workspace asks for a notification: with a toast delay it is queued
    /// until its deadline, otherwise the result says to deliver it now.
    pub fn record_agent_state(&mut self, pane_id: PaneId, state: AgentState, now_ms: u64) -> (notify_now: bool)
        ensures
            old(self).keys_unique() ==> final(self).keys_unique(),
            final(self).toast_config == old(self).toast_config,
            final(self).active == old(self).active,
            final(self).selected == old(self).selected,
            final(self).mode == old(self).mode,
            final(self).navigator == old(self).navigator,
            match pane_location(old(self).workspaces@, pane_id) {
                None => *final(self) == *old(self) && !notify_now,
                Some((w, t, k)) => {
                    let pane = old(self).workspaces@[w as int].tabs@[t as int].panes@[k as int].1;
                    match terminal_index_of(old(self).terminals@, pane.attached_terminal_id) {
                        None => *final(self) == *old(self) && !notify_now,
                        Some(ti) => {
                            let previous = old(self).terminals@[ti as int].state;
                            let background = old(self).active != Some(w);
                            let notify = is_completion(previous, state) && background;
                            let queued = notify && old(self).toast_config.delay_seconds > 0;
                            &&& pane_seen_set(old(self).workspaces@, final(self).workspaces@, w as int, t as int, k as int,
                                seen_after(pane.seen, previous, state))
                            &&& final(self).terminals@.len() == old(self).terminals@.len()
                            &&& forall|j: int| 0 <= j < old(self).terminals@.len() && j != ti ==>
                                #[trigger] final(self).terminals@[j] == old(self).terminals@[j]
                            &&& final(self).terminals@[ti as int].id == old(self).terminals@[ti as int].id
                            &&& final(self).terminals@[ti as int].agent_label == old(self).terminals@[ti as int].agent_label
                            &&& final(self).terminals@[ti as int].state == state
                            &&& final(self).pending_agent_notifications@ == if queued {
                                queue_notification(old(self).pending_agent_notifications@, PendingAgentNotification {
                                    pane_id,
                                    due_at_ms: if now_ms + old(self).toast_config.delay_seconds * 1000 <= u64::MAX {
                                        (now_ms + old(self).toast_config.delay_seconds * 1000) as u64
                                    } else {
                                        u64::MAX
                                    },
                                })
                            } else {
                                old(self).pending_agent_notifications@
                            }
                            &&& notify_now == (notify && !queued)
                        },
                    }
                },
            },
    {
        let (w, t, k) = match self.locate_pane(pane_id) {
            Some(location) => location,
            None => return false,
        };
        let pane = self.workspaces[w].tabs[t].panes[k].1;
        let ti = match self.terminal_index(pane.attached_terminal_id) {
            Some(ti) => ti,
            None => return false,
        };
        let ghost before = self.workspaces@;
        let previous = self.terminals[ti].state;
        self.terminals[ti].state = state;
        let completion = previous == AgentState::Working && state == AgentState::Idle;
        if state == AgentState::Working {
            self.workspaces[w].tabs[t].panes[k].1.seen = true;
        } else if completion {
            self.workspaces[w].tabs[t].panes[k].1.seen = false;
        }
        proof {
            let entry = before[w as int].tabs@[t as int].panes@[k as int];
            let updated = (entry.0, PaneState { attached_terminal_id: entry.1.attached_terminal_id, seen: seen_after(entry.1.seen, previous, state) });
            assert(self.workspaces@[w as int].tabs@[t as int].panes@ =~= before[w as int].tabs@[t as int].panes@.update(k as int, updated));
            assert(pane_seen_set(before, self.workspaces@, w as int, t as int, k as int, seen_after(entry.1.seen, previous, state)));
            if old(self).keys_unique() {
                let wi = w as int;
                assert(same_pane_ids(before[wi], self.workspaces@[wi])) by {
                    assert forall|u: int, m: int| 0 <= u < before[wi].tabs@.len() && 0 <= m < before[wi].tabs@[u].panes@.len() implies
                        (#[trigger] self.workspaces@[wi].tabs@[u].panes@[m]).0 == before[wi].tabs@[u].panes@[m].0 by {
                        if u != t as int {
                            assert(self.workspaces@[wi].tabs@[u] == before[wi].tabs@[u]);
                        }
                    }
                    assert forall|u: int| 0 <= u < before[wi].tabs@.len() implies
                        (#[trigger] self.workspaces@[wi].tabs@[u]).panes@.len() == before[wi].tabs@[u].panes@.len() by {
                        if u != t as int {
                            assert(self.workspaces@[wi].tabs@[u] == before[wi].tabs@[u]);
                        }
                    }
                }
                lemma_same_pane_ids_distinct(before[wi], self.workspaces@[wi]);
                assert forall|j: int| 0 <= j < self.workspaces@.len() implies pane_ids_distinct(#[trigger] self.workspaces@[j]) by {
                    if j != wi {
                        assert(self.workspaces@[j] == before[j]);
                    }
                }
                assert forall|a: int, b: int| 0 <= a < self.workspaces@.len() && 0 <= b < self.workspaces@.len() && a != b implies
                    (#[trigger] self.workspaces@[a]).id@ != (#[trigger] self.workspaces@[b]).id@ by {
                    assert(self.workspaces@[a].id == before[a].id);
                    assert(self.workspaces@[b].id == before[b].id);
                }
                assert forall|a: int, b: int| 0 <= a < self.terminals@.len() && 0 <= b < self.terminals@.len() && a != b implies
                    (#[trigger] self.terminals@[a]).id != (#[trigger] self.terminals@[b]).id by {
                    assert(self.terminals@[a].id == old(self).terminals@[a].id);
                    assert(self.terminals@[b].id == old(self).terminals@[b].id);
                }
                assert(self.keys_unique());
            }
        }
        let background = match self.active {
            Some(active) => active != w,
            None => true,
        };
        if !(completion && background) {
            return false;
        }
        if self.toast_config.delay_seconds > 0 {
            let due_at_ms = match self.toast_config.delay_seconds.checked_mul(1000) {
                Some(delay_ms) => match now_ms.checked_add(delay_ms) {
                    Some(due) => due,
                    None => u64::MAX,
                },
                None => u64::MAX,
            };
            let ghost queued_before = self.pending_agent_notifications@;
            let n = PendingAgentNotification { pane_id, due_at_ms };
            queue(&mut self.pending_agent_notifications, n);
            proof {
                if old(self).keys_unique() {
                    lemma_queue_distinct(queued_before, n);
                }
            }
            false
        } else {
            true
        }
    }

    /// Removes and returns (in queue order) the notifications due at `now_ms`.
    pub fn drain_due_agent_notifications(&mut self, now_ms: u64) -> (due: Vec<PaneId>)
        ensures
            old(self).keys_unique() ==> final(self).keys_unique(),
            due@ == due_ids(old(self).pending_agent_notifications@, now_ms, old(self).pending_agent_notifications@.len() as int),
            final(self).pending_agent_notifications@ == not_due(
                old(self).pending_agent_notifications@,
                now_ms,
                old(self).pending_agent_notifications@.len() as int,
            ),
            final(self).workspaces == old(self).workspaces,
            final(self).terminals == old(self).terminals,
            final(self).toast_config == old(self).toast_config,
            final(self).active == old(self).active,
            final(self).selected == old(self).selected,
            final(self).mode == old(self).mode,
            final(self).navigator == old(self).navigator,
    {
        let mut due: Vec<PaneId> = Vec::new();
        let mut kept: Vec<PendingAgentNotification> = Vec::new();
        let mut p: usize = 0;
        while p < self.pending_agent_notifications.len()
            invariant
                p <= self.pending_agent_notifications@.len(),
                due@ == due_ids(self.pending_agent_notifications@, now_ms, p as int),
                kept@ == not_due(self.pending_agent_notifications@, now_ms, p as int),
            decreases self.pending_agent_notifications@.len() - p,
        {
            let pending = self.pending_agent_notifications[p];
            if pending.due_at_ms <= now_ms {
                due.push(pending.pane_id);
            } else {
                kept.push(pending);
            }
            p += 1;
        }
        proof {
            if old(self).keys_unique() {
                lemma_kept_distinct(self.pending_agent_notifications@, Seq::empty(), now_ms, self.pending_agent_notifications@.len() as int);
            }
        }
        self.pending_agent_notifications = kept;
        due
    }

    /// Focuses workspace `index`. Switching workspaces never clears a "done"
    /// marker: the panes are left exactly as they were.
    pub fn switch_workspace(&mut self, index: usize)
        ensures
            old(self).keys_unique() ==> final(self).keys_unique(),
            final(self).workspaces == old(self).workspaces,
            final(self).terminals == old(self).terminals,
            final(self).pending_agent_notifications == old(self).pending_agent_notifications,
            final(self).toast_config == old(self).toast_config,
            final(self).mode == old(self).mode,
            final(self).navigator == old(self).navigator,
            index < old(self).workspaces@.len() ==> final(self).active == Some(index) && final(self).selected == index,
            index >= old(self).workspaces@.len() ==> final(self).active == old(self).active
                && final(self).selected == old(self).selected,
            final(self).mode == old(self).mode,
            final(self).navigator == old(self).navigator,
    {
        if index < self.workspaces.len() {
            self.active = Some(index);
            self.selected = index;
        }
    }

    /// `workspace.acknowledge`: acknowledges the workspace with the given id.
    pub fn handle_workspace_acknowledge(&mut self, target: &WorkspaceTarget) -> (result: Result<Vec<PaneStateUpdate>, WorkspaceApiError>)
        ensures
            old(self).keys_unique() ==> final(self).keys_unique(),
            match ws_index_of(old(self).workspaces@, target.workspace_id@) {
                None => (result matches Err(WorkspaceApiError::WorkspaceNotFound { workspace_id })
                    && workspace_id@ == target.workspace_id@) && *final(self) == *old(self),
                Some(index) => result matches Ok(updates) && {
                    let before = old(self).workspaces@[index as int];
                    &&& updates@ == tab_updates(before.tabs@, old(self).terminals@, index, before.tabs@.len() as int)
                    &&& final(self).workspaces@.len() == old(self).workspaces@.len()
                    &&& forall|j: int| 0 <= j < old(self).workspaces@.len() && j != index ==>
                        #[trigger] final(self).workspaces@[j] == old(self).workspaces@[j]
                    &&& workspace_acknowledged(before, final(self).workspaces@[index as int], old(self).terminals@)
                    &&& final(self).pending_agent_notifications@ == pending_kept(
                        old(self).pending_agent_notifications@,
                        updates@,
                        old(self).pending_agent_notifications@.len() as int,
                    )
                    &&& final(self).terminals == old(self).terminals
                    &&& final(self).toast_config == old(self).toast_config
                    &&& final(self).active == old(self).active
                    &&& final(self).selected == old(self).selected
                    &&& final(self).mode == old(self).mode
                    &&& final(self).navigator == old(self).navigator
                },
            },
    {
        let index = match self.parse_workspace_id(&target.workspace_id) {
            Some(index) => index,
            None => return Err(WorkspaceApiError::WorkspaceNotFound { workspace_id: target.workspace_id.clone() }),
        };
        Ok(self.acknowledge_workspace(index))
    }

    /// Clears explicit grouping links that point at workspaces which no longer
    /// exist, promoting those children back to the top level. A dangling link
    /// would otherwise be persisted, and a later workspace reusing the closed
    /// id would silently adopt the orphan.
    pub fn promote_orphaned_workspace_children(&mut self)
        ensures
            old(self).keys_unique() ==> final(self).keys_unique(),
            final(self).workspaces@.len() == old(self).workspaces@.len(),
            forall|i: int| 0 <= i < old(self).workspaces@.len() ==> {
                &&& same_but_parent(old(self).workspaces@[i], #[trigger] final(self).workspaces@[i])
                &&& final(self).workspaces@[i].parent_workspace_id == if is_orphaned(old(self).workspaces@, i) {
                    None
                } else {
                    old(self).workspaces@[i].parent_workspace_id
                }
            },
            final(self).terminals == old(self).terminals,
            final(self).pending_agent_notifications == old(self).pending_agent_notifications,
            final(self).toast_config == old(self).toast_config,
            final(self).active == old(self).active,
            final(self).selected == old(self).selected,
            final(self).mode == old(self).mode,
            final(self).navigator == old(self).navigator,
    {
        let ghost before = self.workspaces@;
        let marker = top_level_marker();
        let n = self.workspaces.len();
        let mut i: usize = 0;
        while i < n
            invariant
                n == before.len(),
                i <= n,
                marker@ == top_level_marker_view(),
                self.workspaces@.len() == n,
                self.terminals == old(self).terminals,
                self.pending_agent_notifications == old(self).pending_agent_notifications,
                self.toast_config == old(self).toast_config,
                self.active == old(self).active,
                self.selected == old(self).selected,
                self.mode == old(self).mode,
                self.navigator == old(self).navigator,
                before == old(self).workspaces@,
                forall|j: int| 0 <= j < n ==> {
                    &&& same_but_parent(before[j], #[trigger] self.workspaces@[j])
                    &&& self.workspaces@[j].parent_workspace_id == if j < i && is_orphaned(before, j) {
                        None
                    } else {
                        before[j].parent_workspace_id
                    }
                },
            decreases n - i,
        {
            proof {
                lemma_ids_unchanged_index(before, self.workspaces@);
            }
            let orphan = match &self.workspaces[i].parent_workspace_id {
                Some(parent_id) => *parent_id != marker && self.parse_workspace_id(parent_id).is_none(),
                None => false,
            };
            if orphan {
                self.workspaces[i].parent_workspace_id = None;
            }
            i += 1;
        }
    }
}

} // verus!
