//! The session navigator's rows and the keyboard reorder entry points of the
//! navigator (`prefix+g`) and the sidebar picker (`prefix+w`).

use vstd::prelude::*;
use crate::app_state::{AppState, PaneId, Tab, Workspace};
use crate::grouping::{contains_id, contains_string};
use crate::keys::{
    reorder_direction_for_key, reorder_direction_spec, TerminalKey, WorkspaceReorderDirection,
};
use crate::reorder::{
    block_indices, block_moved, follow_index, follow_opt, group_heads_spec, members_upto,
    moved_seq, reorder_plan_spec, target_id_spec, ws_ids_at, WorkspaceDropTarget,
    WorkspaceReorderCommand,
};
use crate::app_state::ws_index_of;

verus! {

/// What a navigator row stands for.
#[derive(Clone, Copy, Debug, PartialEq, Eq, Structural)]
pub enum NavigatorTarget {
    Workspace { ws_idx: usize },
    Tab { ws_idx: usize, tab_idx: usize },
    Pane { ws_idx: usize, tab_idx: usize, pane_id: PaneId },
}

impl NavigatorTarget {
    pub open spec fn ws_idx_spec(&self) -> usize {
        match *self {
            NavigatorTarget::Workspace { ws_idx } => ws_idx,
            NavigatorTarget::Tab { ws_idx, .. } => ws_idx,
            NavigatorTarget::Pane { ws_idx, .. } => ws_idx,
        }
    }

    /// The workspace a row belongs to.
    #[verifier::when_used_as_spec(ws_idx_spec)]
    pub fn ws_idx(&self) -> (ws_idx: usize)
        ensures
            ws_idx == self.ws_idx_spec(),
    {
        match self {
            NavigatorTarget::Workspace { ws_idx } => *ws_idx,
            NavigatorTarget::Tab { ws_idx, .. } => *ws_idx,
            NavigatorTarget::Pane { ws_idx, .. } => *ws_idx,
        }
    }
}

/// One navigator row.
#[derive(Clone, Copy, Debug, PartialEq, Eq, Structural)]
pub struct NavigatorRow {
    pub target: NavigatorTarget,
}

/// Whether `c` is a Unicode `White_Space` character.
pub open spec fn is_whitespace_spec(c: char) -> bool {
    let u = c as u32;
    (0x09 <= u && u <= 0x0d) || u == 0x20 || u == 0x85 || u == 0xa0 || u == 0x1680
        || (0x2000 <= u && u <= 0x200a) || u == 0x2028 || u == 0x2029 || u == 0x202f || u == 0x205f
        || u == 0x3000
}

/// Whether `c` is a Unicode `White_Space` character.
pub fn is_whitespace(c: char) -> (ws: bool)
    ensures
        ws == is_whitespace_spec(c),
{
    let u = c as u32;
    (0x09 <= u && u <= 0x0d) || u == 0x20 || u == 0x85 || u == 0xa0 || u == 0x1680
        || (0x2000 <= u && u <= 0x200a) || u == 0x2028 || u == 0x2029 || u == 0x202f || u == 0x205f
        || u == 0x3000
}

/// Whether a string is empty once trimmed: every character is whitespace.
pub open spec fn is_blank_spec(s: Seq<char>) -> bool {
    forall|i: int| 0 <= i < s.len() ==> is_whitespace_spec(#[trigger] s[i])
}

/// Whether a string is empty once trimmed.
pub fn is_blank(s: &str) -> (blank: bool)
    ensures
        blank == is_blank_spec(s@),
{
    let n = vstd::string::StrSliceExecFns::unicode_len(s);
    let mut i: usize = 0;
    while i < n
        invariant
            n == s@.len(),
            i <= n,
            forall|j: int| 0 <= j < i ==> is_whitespace_spec(#[trigger] s@[j]),
        decreases n - i,
    {
        if !is_whitespace(vstd::string::StrSliceExecFns::get_char(s, i)) {
            return false;
        }
        i += 1;
    }
    true
}

/// The grouped display order below workspace `k`: each top-level workspace
/// followed by the workspaces nested under it.
pub open spec fn visible_order_upto(heads: Seq<Option<usize>>, k: int) -> Seq<usize>
    decreases k,
{
    if k <= 0 {
        Seq::empty()
    } else if heads[k - 1] is None {
        visible_order_upto(heads, k - 1) + (seq![(k - 1) as usize] + members_upto(heads, k - 1, heads.len() as int))
    } else {
        visible_order_upto(heads, k - 1)
    }
}

/// The grouped display order of all workspaces.
pub open spec fn visible_order_spec(ws: Seq<Workspace>) -> Seq<usize> {
    visible_order_upto(group_heads_spec(ws), ws.len() as int)
}

/// Rows for the panes of tab `t` of workspace `w`.
pub open spec fn pane_rows(panes: Seq<(PaneId, crate::pane::PaneState)>, w: usize, t: usize) -> Seq<NavigatorRow> {
    Seq::new(panes.len(), |k: int| NavigatorRow { target: NavigatorTarget::Pane { ws_idx: w, tab_idx: t, pane_id: panes[k].0 } })
}

/// Rows for the first `t` tabs of workspace `w`: each tab, then its panes.
pub open spec fn tab_rows_upto(tabs: Seq<Tab>, w: usize, t: int) -> Seq<NavigatorRow>
    decreases t,
{
    if t <= 0 {
        Seq::empty()
    } else {
        tab_rows_upto(tabs, w, t - 1) + seq![NavigatorRow { target: NavigatorTarget::Tab { ws_idx: w, tab_idx: (t - 1) as usize } }]
            + pane_rows(tabs[t - 1].panes@, w, (t - 1) as usize)
    }
}

/// Rows for workspace `w`: its own row, then its tabs and panes when expanded.
pub open spec fn workspace_rows_spec(ws: Seq<Workspace>, expanded: Seq<String>, w: usize) -> Seq<NavigatorRow> {
    seq![NavigatorRow { target: NavigatorTarget::Workspace { ws_idx: w } }] + if contains_id(expanded, ws[w as int].id@) {
        tab_rows_upto(ws[w as int].tabs@, w, ws[w as int].tabs@.len() as int)
    } else {
        Seq::empty()
    }
}

/// Rows for the first `m` workspaces of `order`.
pub open spec fn rows_upto(ws: Seq<Workspace>, expanded: Seq<String>, order: Seq<usize>, m: int) -> Seq<NavigatorRow>
    decreases m,
{
    if m <= 0 {
        Seq::empty()
    } else {
        rows_upto(ws, expanded, order, m - 1) + workspace_rows_spec(ws, expanded, order[m - 1])
    }
}

/// The full, unfiltered navigator tree in grouped display order.
pub open spec fn navigator_rows_spec(ws: Seq<Workspace>, expanded: Seq<String>) -> Seq<NavigatorRow> {
    let order = visible_order_spec(ws);
    rows_upto(ws, expanded, order, order.len() as int)
}

/// Whether two targets are the same kind of row for the same tab or pane.
pub open spec fn same_row_kind(a: NavigatorTarget, b: NavigatorTarget) -> bool {
    match (a, b) {
        (NavigatorTarget::Workspace { .. }, NavigatorTarget::Workspace { .. }) => true,
        (NavigatorTarget::Tab { tab_idx: x, .. }, NavigatorTarget::Tab { tab_idx: y, .. }) => x == y,
        (NavigatorTarget::Pane { pane_id: x, .. }, NavigatorTarget::Pane { pane_id: y, .. }) => x == y,
        _ => false,
    }
}

/// Whether `row` is the row `target` of the workspace with id `ws_id`.
pub open spec fn row_matches(ws: Seq<Workspace>, row: NavigatorRow, ws_id: Seq<char>, target: NavigatorTarget) -> bool {
    row.target.ws_idx() < ws.len() && ws[row.target.ws_idx() as int].id@ == ws_id && same_row_kind(row.target, target)
}

/// The first row at or after `r` that matches.
pub open spec fn row_index_from(ws: Seq<Workspace>, rows: Seq<NavigatorRow>, ws_id: Seq<char>, target: NavigatorTarget, r: int) -> Option<usize>
    decreases rows.len() - r,
{
    if r < 0 || r >= rows.len() {
        None
    } else if row_matches(ws, rows[r], ws_id, target) {
        Some(r as usize)
    } else {
        row_index_from(ws, rows, ws_id, target, r + 1)
    }
}

/// A selection index kept inside `len` rows.
pub open spec fn clamped(selected: usize, len: nat) -> usize {
    if len == 0 {
        0
    } else if selected >= len {
        (len - 1) as usize
    } else {
        selected
    }
}

/// The workspace list after carrying out the plan (`head`, `target`).
pub open spec fn planned_workspaces(ws: Seq<Workspace>, head: usize, target: WorkspaceDropTarget) -> Seq<Workspace> {
    let block = block_indices(ws, head as int);
    if block.len() > 1 {
        block_moved(ws, ws_ids_at(ws, block), target_id_spec(ws, target))
    } else {
        let insert = match target {
            WorkspaceDropTarget::Before(i) => match ws_index_of(ws, ws[i as int].id@) {
                Some(p) => p,
                None => ws.len() as usize,
            },
            WorkspaceDropTarget::End => ws.len() as usize,
        };
        if head < ws.len() && insert <= ws.len() { moved_seq(ws, head as int, insert as int) } else { ws }
    }
}

/// Whether the navigator filters its rows (a query or a state filter).
pub open spec fn navigator_filtered(state: AppState) -> bool {
    !is_blank_spec(state.navigator.query@) || state.navigator.state_filter is Some
}

/// The workspace of the selected navigator row, when not filtered.
pub open spec fn navigator_selected_ws(state: AppState) -> Option<usize> {
    let rows = navigator_rows_spec(state.workspaces@, state.navigator.expanded_workspaces@);
    if navigator_filtered(state) || state.navigator.selected >= rows.len() {
        None
    } else {
        Some(rows[state.navigator.selected as int].target.ws_idx())
    }
}

/// The navigator reorder plan: the sidebar plan for the selected row's
/// workspace, unavailable while a search or state filter narrows the rows.
pub open spec fn navigator_plan_spec(state: AppState, direction: WorkspaceReorderDirection) -> Option<(usize, WorkspaceDropTarget)> {
    match navigator_selected_ws(state) {
        Some(w) => reorder_plan_spec(state.workspaces@, w as int, direction),
        None => None,
    }
}

/// The navigator selection after the workspaces changed from `before` to
/// `after`: the row that matches the previously selected row (same workspace
/// by id, same kind of row), kept inside the new rows.
pub open spec fn followed_selection(before: AppState, after_ws: Seq<Workspace>) -> usize {
    let old_rows = navigator_rows_spec(before.workspaces@, before.navigator.expanded_workspaces@);
    let row = old_rows[before.navigator.selected as int];
    let w = row.target.ws_idx();
    if w < before.workspaces@.len() {
        let new_rows = navigator_rows_spec(after_ws, before.navigator.expanded_workspaces@);
        let found = match row_index_from(after_ws, new_rows, before.workspaces@[w as int].id@, row.target, 0) {
            Some(idx) => idx,
            None => before.navigator.selected,
        };
        clamped(found, new_rows.len())
    } else {
        before.navigator.selected
    }
}

/// `after` differs from `before` only in the navigator selection.
pub open spec fn navigator_same_but_selected(before: crate::app_state::NavigatorState, after: crate::app_state::NavigatorState) -> bool {
    &&& after.query == before.query
    &&& after.state_filter == before.state_filter
    &&& after.search_focused == before.search_focused
    &&& after.expanded_workspaces == before.expanded_workspaces
}

/// Reorder direction for the navigator: like `reorder_direction_spec` but
/// never while the search box has focus, so shifted letters still type.
pub open spec fn navigator_direction_spec(state: AppState, key: TerminalKey) -> Option<WorkspaceReorderDirection> {
    if state.navigator.search_focused { None } else { reorder_direction_spec(key) }
}

/// Reorder direction for the session navigator overlay: never while the
/// search box is focused.
pub fn navigator_reorder_direction_for_key(state: &AppState, key: &TerminalKey) -> (direction: Option<WorkspaceReorderDirection>)
    ensures
        direction == navigator_direction_spec(*state, *key),
{
    if state.navigator.search_focused {
        return None;
    }
    reorder_direction_for_key(key)
}

proof fn lemma_members_in_range(heads: Seq<Option<usize>>, head: int, k: int)
    requires
        k <= heads.len() <= usize::MAX,
    ensures
        forall|j: int| 0 <= j < members_upto(heads, head, k).len() ==> (#[trigger] members_upto(heads, head, k)[j]) < heads.len(),
    decreases k,
{
    if k > 0 {
        lemma_members_in_range(heads, head, k - 1);
        let m = members_upto(heads, head, k - 1);
        assert forall|j: int| 0 <= j < members_upto(heads, head, k).len() implies (#[trigger] members_upto(heads, head, k)[j]) < heads.len() by {
            if j < m.len() {
                assert(members_upto(heads, head, k)[j] == m[j]);
            }
        }
    }
}

proof fn lemma_order_in_range(heads: Seq<Option<usize>>, k: int)
    requires
        k <= heads.len() <= usize::MAX,
    ensures
        forall|j: int| 0 <= j < visible_order_upto(heads, k).len() ==> (#[trigger] visible_order_upto(heads, k)[j]) < heads.len(),
    decreases k,
{
    if k > 0 {
        lemma_order_in_range(heads, k - 1);
        let prev = visible_order_upto(heads, k - 1);
        if heads[k - 1] is None {
            let block = seq![(k - 1) as usize] + members_upto(heads, k - 1, heads.len() as int);
            lemma_members_in_range(heads, k - 1, heads.len() as int);
            assert forall|j: int| 0 <= j < visible_order_upto(heads, k).len() implies (#[trigger] visible_order_upto(heads, k)[j]) < heads.len() by {
                if j < prev.len() {
                    assert(visible_order_upto(heads, k)[j] == prev[j]);
                } else {
                    assert(visible_order_upto(heads, k)[j] == block[j - prev.len()]);
                    if j - prev.len() >= 1 {
                        assert(block[j - prev.len()] == members_upto(heads, k - 1, heads.len() as int)[j - prev.len() - 1]);
                    }
                }
            }
        }
    }
}

/// What moving the selected navigator project one slot does: nothing when
/// no move is available; otherwise the planned move, with the application
/// selection, the active workspace and the navigator row following the
/// moved rows by id.
pub open spec fn navigator_reorder_effect(s0: AppState, s1: AppState, direction: WorkspaceReorderDirection) -> bool {
    match navigator_plan_spec(s0, direction) {
        None => s1 == s0,
        Some((head, target)) => {
            &&& s1.workspaces@ == planned_workspaces(s0.workspaces@, head, target)
            &&& s1.selected == follow_index(s0.workspaces@, s1.workspaces@, s0.selected)
            &&& s1.active == follow_opt(s0.workspaces@, s1.workspaces@, s0.active)
            &&& s1.navigator.selected == followed_selection(s0, s1.workspaces@)
            &&& navigator_same_but_selected(s0.navigator, s1.navigator)
            &&& s1.terminals == s0.terminals
            &&& s1.pending_agent_notifications == s0.pending_agent_notifications
            &&& s1.toast_config == s0.toast_config
            &&& s1.mode == s0.mode
        },
    }
}

/// What moving the sidebar picker's highlighted project one slot does:
/// nothing when no move is available; otherwise the planned move, with the
/// highlight and the active workspace following the moved rows by id.
pub open spec fn picker_reorder_effect(s0: AppState, s1: AppState, direction: WorkspaceReorderDirection) -> bool {
    match reorder_plan_spec(s0.workspaces@, s0.selected as int, direction) {
        None => s1 == s0,
        Some((head, target)) => {
            &&& s1.workspaces@ == planned_workspaces(s0.workspaces@, head, target)
            &&& s1.selected == follow_index(s0.workspaces@, s1.workspaces@, s0.selected)
            &&& s1.active == follow_opt(s0.workspaces@, s1.workspaces@, s0.active)
            &&& s1.navigator == s0.navigator
            &&& s1.terminals == s0.terminals
            &&& s1.pending_agent_notifications == s0.pending_agent_notifications
            &&& s1.toast_config == s0.toast_config
            &&& s1.mode == s0.mode
        },
    }
}

impl AppState {
    /// The grouped display order of the workspaces.
    pub fn visible_workspace_order(&self) -> (order: Vec<usize>)
        ensures
            order@ == visible_order_spec(self.workspaces@),
            forall|j: int| 0 <= j < order@.len() ==> (#[trigger] order@[j]) < self.workspaces@.len(),
    {
        let n = self.workspaces.len();
        let heads = self.group_heads_vec();
        let mut order: Vec<usize> = Vec::new();
        let mut k: usize = 0;
        while k < n
            invariant
                n == heads@.len(),
                heads@ == group_heads_spec(self.workspaces@),
                k <= n,
                order@ == visible_order_upto(heads@, k as int),
            decreases n - k,
        {
            if heads[k].is_none() {
                let ghost before = order@;
                order.push(k);
                let mut j: usize = 0;
                while j < n
                    invariant
                        n == heads@.len(),
                        k < n,
                        j <= n,
                        order@ == before + (seq![k] + members_upto(heads@, k as int, j as int)),
                    decreases n - j,
                {
                    if heads[j] == Some(k) {
                        order.push(j);
                        assert(seq![k] + members_upto(heads@, k as int, j + 1) == (seq![k] + members_upto(heads@, k as int, j as int)).push(j));
                    }
                    j += 1;
                }
            }
            k += 1;
        }
        proof {
            lemma_order_in_range(heads@, n as int);
        }
        order
    }

    /// Group heads of all workspaces.
    fn group_heads_vec(&self) -> (heads: Vec<Option<usize>>)
        ensures
            heads@ == group_heads_spec(self.workspaces@),
    {
        let n = self.workspaces.len();
        let mut heads: Vec<Option<usize>> = Vec::new();
        let mut i: usize = 0;
        while i < n
            invariant
                n == self.workspaces@.len(),
                i <= n,
                heads@.len() == i,
                forall|j: int| 0 <= j < i ==> heads@[j] == crate::reorder::group_head_spec(self.workspaces@, j),
            decreases n - i,
        {
            heads.push(self.workspace_parent_index(i));
            i += 1;
        }
        assert(heads@ == group_heads_spec(self.workspaces@));
        heads
    }

    /// The full, unfiltered navigator tree.
    pub fn navigator_rows(&self) -> (rows: Vec<NavigatorRow>)
        ensures
            rows@ == navigator_rows_spec(self.workspaces@, self.navigator.expanded_workspaces@),
    {
        let order = self.visible_workspace_order();
        let mut rows: Vec<NavigatorRow> = Vec::new();
        let mut m: usize = 0;
        while m < order.len()
            invariant
                m <= order@.len(),
                order@ == visible_order_spec(self.workspaces@),
                forall|j: int| 0 <= j < order@.len() ==> (#[trigger] order@[j]) < self.workspaces@.len(),
                rows@ == rows_upto(self.workspaces@, self.navigator.expanded_workspaces@, order@, m as int),
            decreases order@.len() - m,
        {
            let w = order[m];
            let ghost before = rows@;
            rows.push(NavigatorRow { target: NavigatorTarget::Workspace { ws_idx: w } });
            if contains_string(&self.navigator.expanded_workspaces, &self.workspaces[w].id) {
                let tabs = &self.workspaces[w].tabs;
                let mut t: usize = 0;
                while t < tabs.len()
                    invariant
                        t <= tabs@.len(),
                        rows@ == before + seq![NavigatorRow { target: NavigatorTarget::Workspace { ws_idx: w } }]
                            + tab_rows_upto(tabs@, w, t as int),
                    decreases tabs@.len() - t,
                {
                    let ghost mid = rows@;
                    rows.push(NavigatorRow { target: NavigatorTarget::Tab { ws_idx: w, tab_idx: t } });
                    let panes = &tabs[t].panes;
                    let mut k: usize = 0;
                    while k < panes.len()
                        invariant
                            k <= panes@.len(),
                            rows@ == mid + seq![NavigatorRow { target: NavigatorTarget::Tab { ws_idx: w, tab_idx: t } }]
                                + pane_rows(panes@, w, t).take(k as int),
                        decreases panes@.len() - k,
                    {
                        rows.push(NavigatorRow { target: NavigatorTarget::Pane { ws_idx: w, tab_idx: t, pane_id: panes[k].0 } });
                        assert(pane_rows(panes@, w, t).take(k + 1) == pane_rows(panes@, w, t).take(k as int).push(pane_rows(panes@, w, t)[k as int]));
                        k += 1;
                    }
                    assert(pane_rows(panes@, w, t).take(k as int) == pane_rows(panes@, w, t));
                    assert(rows@ == before + seq![NavigatorRow { target: NavigatorTarget::Workspace { ws_idx: w } }] + tab_rows_upto(tabs@, w, t + 1));
                    t += 1;
                }
            }
            assert(rows@ == rows_upto(self.workspaces@, self.navigator.expanded_workspaces@, order@, m + 1));
            m += 1;
        }
        rows
    }

    /// The index of the row that logically matches `target` for the
    /// workspace whose id is `ws_id`. Used to keep the same row selected
    /// across a move.
    pub fn navigator_row_index_for(&self, ws_id: &String, target: &NavigatorTarget) -> (index: Option<usize>)
        ensures
            index == row_index_from(
                self.workspaces@,
                navigator_rows_spec(self.workspaces@, self.navigator.expanded_workspaces@),
                ws_id@,
                *target,
                0,
            ),
    {
        let rows = self.navigator_rows();
        let mut r: usize = 0;
        while r < rows.len()
            invariant
                r <= rows@.len(),
                rows@ == navigator_rows_spec(self.workspaces@, self.navigator.expanded_workspaces@),
                row_index_from(self.workspaces@, rows@, ws_id@, *target, 0)
                    == row_index_from(self.workspaces@, rows@, ws_id@, *target, r as int),
            decreases rows@.len() - r,
        {
            let row_target = rows[r].target;
            let w = row_target.ws_idx();
            let same_kind = match (row_target, *target) {
                (NavigatorTarget::Workspace { .. }, NavigatorTarget::Workspace { .. }) => true,
                (NavigatorTarget::Tab { tab_idx: a, .. }, NavigatorTarget::Tab { tab_idx: b, .. }) => a == b,
                (NavigatorTarget::Pane { pane_id: a, .. }, NavigatorTarget::Pane { pane_id: b, .. }) => a == b,
                _ => false,
            };
            assert(same_kind == same_row_kind(row_target, *target));
            if w < self.workspaces.len() && self.workspaces[w].id == *ws_id && same_kind {
                assert(row_matches(self.workspaces@, rows@[r as int], ws_id@, *target));
                return Some(r);
            }
            r += 1;
        }
        None
    }

    /// Keeps the navigator selection inside the rows.
    pub fn clamp_navigator_selection(&mut self)
        ensures
            final(self).navigator.selected == clamped(
                old(self).navigator.selected,
                navigator_rows_spec(old(self).workspaces@, old(self).navigator.expanded_workspaces@).len(),
            ),
            navigator_same_but_selected(old(self).navigator, final(self).navigator),
            final(self).workspaces == old(self).workspaces,
            final(self).terminals == old(self).terminals,
            final(self).pending_agent_notifications == old(self).pending_agent_notifications,
            final(self).toast_config == old(self).toast_config,
            final(self).active == old(self).active,
            final(self).selected == old(self).selected,
            final(self).mode == old(self).mode,
    {
        let len = self.navigator_rows().len();
        if len == 0 {
            self.navigator.selected = 0;
        } else if self.navigator.selected >= len {
            self.navigator.selected = len - 1;
        }
    }

    /// Resolves the selected navigator row into the move that shifts its
    /// project one slot in `direction`, or `None` when unavailable: a search
    /// or state filter is active (the rows are then a reordered subset), the
    /// selection is missing, or the project is already at the end.
    pub fn plan_navigator_workspace_reorder(&self, direction: WorkspaceReorderDirection) -> (command: Option<WorkspaceReorderCommand>)
        ensures
            match navigator_plan_spec(*self, direction) {
                None => command is None,
                Some((head, target)) => command matches Some(c) && crate::reorder::command_for_plan(self.workspaces@, head, target, c),
            },
    {
        if !is_blank(self.navigator.query.as_str()) || self.navigator.state_filter.is_some() {
            return None;
        }
        let rows = self.navigator_rows();
        if self.navigator.selected >= rows.len() {
            return None;
        }
        let selected_ws_idx = rows[self.navigator.selected].target.ws_idx();
        self.plan_workspace_reorder(selected_ws_idx, direction)
    }

    /// Moves the selected navigator project one slot in `direction`, keeping
    /// the same row selected at its new position. No-op when no move is
    /// available.
    pub fn reorder_selected_navigator_workspace(&mut self, direction: WorkspaceReorderDirection)
        ensures
            navigator_reorder_effect(*old(self), *final(self), direction),
            old(self).keys_unique() ==> final(self).keys_unique(),
    {
        let command = match self.plan_navigator_workspace_reorder(direction) {
            Some(command) => command,
            None => return,
        };
        // Capture the selected row's identity before the move so the
        // selection can follow the project to its new position.
        let rows = self.navigator_rows();
        let row_target = rows[self.navigator.selected].target;
        let w = row_target.ws_idx();
        let restore = if w < self.workspaces.len() {
            Some((self.workspaces[w].id.clone(), row_target))
        } else {
            None
        };
        self.apply_reorder_command(&command);
        if let Some((ws_id, target)) = restore {
            if let Some(idx) = self.navigator_row_index_for(&ws_id, &target) {
                self.navigator.selected = idx;
            }
            self.clamp_navigator_selection();
        }
    }

    /// Sidebar-picker reorder: moves the highlighted project one slot in
    /// `direction`; the highlight follows the project by id. No-op when no
    /// move is available.
    pub fn reorder_selected_workspace(&mut self, direction: WorkspaceReorderDirection)
        ensures
            picker_reorder_effect(*old(self), *final(self), direction),
            old(self).keys_unique() ==> final(self).keys_unique(),
    {
        let command = match self.plan_workspace_reorder(self.selected, direction) {
            Some(command) => command,
            None => return,
        };
        self.apply_reorder_command(&command);
    }

    /// Navigator key entry point: a reorder shortcut moves the selected
    /// project and is consumed (`true`); any other key is left to the
    /// navigator's own handling (`false`).
    pub fn handle_navigator_key_with_reorder(&mut self, key: &TerminalKey) -> (consumed: bool)
        ensures
            match navigator_direction_spec(*old(self), *key) {
                Some(direction) => consumed && navigator_reorder_effect(*old(self), *final(self), direction),
                None => !consumed && *final(self) == *old(self),
            },
            old(self).keys_unique() ==> final(self).keys_unique(),
    {
        match navigator_reorder_direction_for_key(self, key) {
            Some(direction) => {
                self.reorder_selected_navigator_workspace(direction);
                true
            },
            None => false,
        }
    }

    /// Navigate-mode (sidebar picker) key entry point: `shift+k` / `shift+j`
    /// reorder the highlighted project and are consumed, so the picker stays
    /// open; any other key is left to the picker (`false`).
    pub fn handle_navigate_key_with_reorder(&mut self, key: &TerminalKey) -> (consumed: bool)
        ensures
            match reorder_direction_spec(*key) {
                Some(direction) => consumed && picker_reorder_effect(*old(self), *final(self), direction),
                None => !consumed && *final(self) == *old(self),
            },
            old(self).keys_unique() ==> final(self).keys_unique(),
    {
        match reorder_direction_for_key(key) {
            Some(direction) => {
                self.reorder_selected_workspace(direction);
                true
            },
            None => false,
        }
    }
}

} // verus!
