//! Keyboard reordering of workspaces (projects) in the workspace list.
//!
//! `shift+k` / `shift+j` move the selected project up or down one slot, from
//! the sidebar picker and from the session navigator. A group (a root and
//! the workspaces nested under it) moves as one atomic block, and an adjacent
//! group is jumped over as a unit.

use vstd::prelude::*;
use crate::app_state::{
    grouping_parent_spec, lemma_grouping_parent_in_range, lemma_ws_index_from_in_range, pane_ids_distinct,
    ws_index_of, AppState, Workspace,
};
use crate::grouping::ids_view;
use crate::protocol::WorkspaceMoveBlockParams;
use crate::keys::WorkspaceReorderDirection;

verus! {

/// One step up the server grouping; a top-level workspace stays put.
pub open spec fn head_step(ws: Seq<Workspace>, node: int) -> int {
    match grouping_parent_spec(ws, node) {
        Some(p) => p as int,
        None => node,
    }
}

/// Where `steps` grouping steps lead from `start`.
pub open spec fn head_walk(ws: Seq<Workspace>, start: int, steps: nat) -> int
    decreases steps,
{
    if steps == 0 {
        start
    } else {
        head_step(ws, head_walk(ws, start, (steps - 1) as nat))
    }
}

/// The top-level group head workspace `i` belongs under, if it is nested:
/// its grouping parent followed up as far as there are workspaces.
pub open spec fn group_head_spec(ws: Seq<Workspace>, i: int) -> Option<usize> {
    match grouping_parent_spec(ws, i) {
        Some(d) => {
            let root = head_walk(ws, d as int, ws.len() as nat);
            if root != i { Some(root as usize) } else { None }
        },
        None => None,
    }
}

/// Group heads of all workspaces.
pub open spec fn group_heads_spec(ws: Seq<Workspace>) -> Seq<Option<usize>> {
    Seq::new(ws.len(), |i: int| group_head_spec(ws, i))
}

/// The top-level workspaces below `k`, in order.
pub open spec fn top_heads_upto(heads: Seq<Option<usize>>, k: int) -> Seq<usize>
    decreases k,
{
    if k <= 0 {
        Seq::empty()
    } else if heads[k - 1] is None {
        top_heads_upto(heads, k - 1).push((k - 1) as usize)
    } else {
        top_heads_upto(heads, k - 1)
    }
}

/// The workspaces below `k` nested under `head`, in order.
pub open spec fn members_upto(heads: Seq<Option<usize>>, head: int, k: int) -> Seq<usize>
    decreases k,
{
    if k <= 0 {
        Seq::empty()
    } else if heads[k - 1] == Some(head as usize) {
        members_upto(heads, head, k - 1).push((k - 1) as usize)
    } else {
        members_upto(heads, head, k - 1)
    }
}

/// Ordered top-level workspace indices, one per group: the heads of the
/// grouped display order. Reordering steps through these, so a whole group
/// counts as a single slot.
pub open spec fn top_level_group_heads_spec(ws: Seq<Workspace>) -> Seq<usize> {
    top_heads_upto(group_heads_spec(ws), ws.len() as int)
}

/// The block that moves with group head `head`: the head, then its members.
pub open spec fn block_indices(ws: Seq<Workspace>, head: int) -> Seq<usize> {
    seq![head as usize] + members_upto(group_heads_spec(ws), head, ws.len() as int)
}

/// Where a moved block lands.
#[derive(Clone, Copy, Debug, PartialEq, Eq, Structural)]
pub enum WorkspaceDropTarget {
    /// Before the workspace at this index.
    Before(usize),
    /// After the last workspace.
    End,
}

/// A resolved reorder, ready to dispatch through the workspace-move API: a
/// lone workspace moves singly, a group moves as a block.
#[derive(Clone, Debug, PartialEq, Eq)]
pub enum WorkspaceReorderCommand {
    Single { source_ws_idx: usize, insert_idx: usize },
    Block(WorkspaceMoveBlockParams),
}

/// The first position at or after `k` of `x` in `s`.
pub open spec fn position_in(s: Seq<usize>, x: usize, k: int) -> Option<int>
    decreases s.len() - k,
{
    if k < 0 || k >= s.len() {
        None
    } else if s[k] == x {
        Some(k)
    } else {
        position_in(s, x, k + 1)
    }
}

/// The drop target for moving the head at `pos` one slot: before the
/// previous head going up; going down, before the head after the next one,
/// or the end when the next one is last. None at the ends of the list.
pub open spec fn drop_target_spec(heads: Seq<usize>, pos: int, direction: WorkspaceReorderDirection) -> Option<WorkspaceDropTarget> {
    match direction {
        WorkspaceReorderDirection::Up => if pos >= 1 {
            Some(WorkspaceDropTarget::Before(heads[pos - 1]))
        } else {
            None
        },
        WorkspaceReorderDirection::Down => if pos + 1 < heads.len() {
            if pos + 2 < heads.len() {
                Some(WorkspaceDropTarget::Before(heads[pos + 2]))
            } else {
                Some(WorkspaceDropTarget::End)
            }
        } else {
            None
        },
    }
}

/// The group head to move and where it lands, for moving the project that
/// owns workspace `ws_idx` one slot in `direction`.
pub open spec fn reorder_plan_spec(ws: Seq<Workspace>, ws_idx: int, direction: WorkspaceReorderDirection) -> Option<(usize, WorkspaceDropTarget)> {
    if ws_idx < 0 || ws_idx >= ws.len() {
        None
    } else {
        let head = match group_head_spec(ws, ws_idx) {
            Some(h) => h,
            None => ws_idx as usize,
        };
        let heads = top_level_group_heads_spec(ws);
        match position_in(heads, head, 0) {
            None => None,
            Some(pos) => match drop_target_spec(heads, pos, direction) {
                None => None,
                Some(target) => Some((head, target)),
            },
        }
    }
}

/// The ids of the workspaces at `indices`.
pub open spec fn ws_ids_at(ws: Seq<Workspace>, indices: Seq<usize>) -> Seq<Seq<char>> {
    indices.map_values(|i: usize| ws[i as int].id@)
}

/// The id of the workspace a block lands before, if any.
pub open spec fn target_id_spec(ws: Seq<Workspace>, target: WorkspaceDropTarget) -> Option<Seq<char>> {
    match target {
        WorkspaceDropTarget::Before(i) => Some(ws[i as int].id@),
        WorkspaceDropTarget::End => None,
    }
}

/// The view of an optional string.
pub open spec fn opt_view(value: Option<String>) -> Option<Seq<char>> {
    match value {
        Some(s) => Some(s@),
        None => None,
    }
}

/// The command that carries out a plan: a block move when the group holds
/// more than one workspace, however it was grouped; else a single move to
/// the index of the target (or the end).
pub open spec fn command_for_plan(ws: Seq<Workspace>, head: usize, target: WorkspaceDropTarget, command: WorkspaceReorderCommand) -> bool {
    let block = block_indices(ws, head as int);
    if block.len() > 1 {
        command matches WorkspaceReorderCommand::Block(params)
            && ids_view(params.workspace_ids@) == ws_ids_at(ws, block)
            && opt_view(params.before_workspace_id) == target_id_spec(ws, target)
    } else {
        command == WorkspaceReorderCommand::Single {
            source_ws_idx: head,
            insert_idx: match target {
                WorkspaceDropTarget::Before(i) => match ws_index_of(ws, ws[i as int].id@) {
                    Some(p) => p,
                    None => ws.len() as usize,
                },
                WorkspaceDropTarget::End => ws.len() as usize,
            },
        }
    }
}

/// Walking grouping parents from a workspace stays inside the list.
pub proof fn lemma_head_walk_in_range(ws: Seq<Workspace>, start: int, steps: nat)
    requires
        ws.len() <= usize::MAX,
        0 <= start < ws.len(),
    ensures
        0 <= head_walk(ws, start, steps) < ws.len(),
    decreases steps,
{
    if steps > 0 {
        lemma_head_walk_in_range(ws, start, (steps - 1) as nat);
        lemma_grouping_parent_in_range(ws, head_walk(ws, start, (steps - 1) as nat));
    }
}

/// Group heads lie inside the workspace list, and no workspace heads itself.
pub proof fn lemma_group_head_in_range(ws: Seq<Workspace>, i: int)
    requires
        ws.len() <= usize::MAX,
    ensures
        group_head_spec(ws, i) matches Some(h) ==> h < ws.len() && h != i,
{
    lemma_grouping_parent_in_range(ws, i);
    if let Some(d) = grouping_parent_spec(ws, i) {
        lemma_head_walk_in_range(ws, d as int, ws.len() as nat);
    }
}

/// Indices collected by `top_heads_upto` and `members_upto` lie below `k`.
proof fn lemma_collected_in_range(heads: Seq<Option<usize>>, head: int, k: int)
    requires
        k <= heads.len() <= usize::MAX,
    ensures
        forall|j: int| 0 <= j < top_heads_upto(heads, k).len() ==> (#[trigger] top_heads_upto(heads, k)[j]) < k,
        forall|j: int| 0 <= j < members_upto(heads, head, k).len() ==> (#[trigger] members_upto(heads, head, k)[j]) < k,
    decreases k,
{
    if k > 0 {
        lemma_collected_in_range(heads, head, k - 1);
        let t = top_heads_upto(heads, k - 1);
        let m = members_upto(heads, head, k - 1);
        assert forall|j: int| 0 <= j < top_heads_upto(heads, k).len() implies (#[trigger] top_heads_upto(heads, k)[j]) < k by {
            if j < t.len() {
                assert(top_heads_upto(heads, k)[j] == t[j]);
            }
        }
        assert forall|j: int| 0 <= j < members_upto(heads, head, k).len() implies (#[trigger] members_upto(heads, head, k)[j]) < k by {
            if j < m.len() {
                assert(members_upto(heads, head, k)[j] == m[j]);
            }
        }
    }
}

/// `s` with the element at `from` moved to land before the element
/// currently at `to` (or at the end when `to` is the length).
pub open spec fn moved_seq<T>(s: Seq<T>, from: int, to: int) -> Seq<T> {
    let rest = s.remove(from);
    let at = if to > from { to - 1 } else { to };
    rest.insert(at, s[from])
}

/// Where the workspace at `i` is after the list changed from `before` to
/// `after`, found again by its id.
pub open spec fn follow_index(before: Seq<Workspace>, after: Seq<Workspace>, i: usize) -> usize {
    if i < before.len() {
        match ws_index_of(after, before[i as int].id@) {
            Some(p) => p,
            None => i,
        }
    } else {
        i
    }
}

/// `follow_index` for an optional index.
pub open spec fn follow_opt(before: Seq<Workspace>, after: Seq<Workspace>, i: Option<usize>) -> Option<usize> {
    match i {
        Some(i) => Some(follow_index(before, after, i)),
        None => None,
    }
}

/// Takes the workspaces named by the first `k` ids out of `ws`, in id order
/// (each id takes its first remaining holder): (what remains, what was taken).
pub open spec fn extract_block(ws: Seq<Workspace>, ids: Seq<Seq<char>>, k: int) -> (Seq<Workspace>, Seq<Workspace>)
    decreases k,
{
    if k <= 0 {
        (ws, Seq::empty())
    } else {
        let (rest, moved) = extract_block(ws, ids, k - 1);
        match ws_index_of(rest, ids[k - 1]) {
            Some(p) => (rest.remove(p as int), moved.push(rest[p as int])),
            None => (rest, moved),
        }
    }
}

/// `ws` with the workspaces named by `ids` moved, as one contiguous block in
/// id order, before the remaining workspace with id `before` (or to the end).
pub open spec fn block_moved(ws: Seq<Workspace>, ids: Seq<Seq<char>>, before: Option<Seq<char>>) -> Seq<Workspace> {
    let (rest, moved) = extract_block(ws, ids, ids.len() as int);
    let at = match before {
        Some(b) => match ws_index_of(rest, b) {
            Some(p) => p as int,
            None => rest.len() as int,
        },
        None => rest.len() as int,
    };
    rest.take(at) + moved + rest.skip(at)
}

/// Workspace ids are distinct, and so are each workspace's pane ids.
pub open spec fn workspaces_keyed(ws: Seq<Workspace>) -> bool {
    &&& forall|a: int, b: int| 0 <= a < ws.len() && 0 <= b < ws.len() && a != b ==>
        (#[trigger] ws[a]).id@ != (#[trigger] ws[b]).id@
    &&& forall|w: int| 0 <= w < ws.len() ==> pane_ids_distinct(#[trigger] ws[w])
}

/// A list that takes each workspace of a keyed list at most once is keyed.
proof fn lemma_rearranged_keyed(ws: Seq<Workspace>, ws2: Seq<Workspace>, f: spec_fn(int) -> int)
    requires
        workspaces_keyed(ws),
        forall|x: int| 0 <= x < ws2.len() ==> 0 <= #[trigger] f(x) < ws.len() && ws2[x] == ws[f(x)],
        forall|x: int, y: int| 0 <= x < ws2.len() && 0 <= y < ws2.len() && x != y ==> #[trigger] f(x) != #[trigger] f(y),
    ensures
        workspaces_keyed(ws2),
{
    assert forall|a: int, b: int| 0 <= a < ws2.len() && 0 <= b < ws2.len() && a != b implies
        (#[trigger] ws2[a]).id@ != (#[trigger] ws2[b]).id@ by {
        assert(f(a) != f(b));
        assert(ws2[a] == ws[f(a)] && ws2[b] == ws[f(b)]);
    }
    assert forall|w: int| 0 <= w < ws2.len() implies pane_ids_distinct(#[trigger] ws2[w]) by {
        assert(ws2[w] == ws[f(w)]);
    }
}

/// Moving one workspace keeps a list keyed.
proof fn lemma_moved_keyed(ws: Seq<Workspace>, from: int, to: int)
    requires
        workspaces_keyed(ws),
        0 <= from < ws.len(),
        0 <= to <= ws.len(),
    ensures
        workspaces_keyed(moved_seq(ws, from, to)),
{
    let at = if to > from { to - 1 } else { to };
    let f = |x: int| if x == at { from } else {
        let r = if x < at { x } else { x - 1 };
        if r < from { r } else { r + 1 }
    };
    let m = moved_seq(ws, from, to);
    assert forall|x: int| 0 <= x < m.len() implies 0 <= #[trigger] f(x) < ws.len() && m[x] == ws[f(x)] by {
        if x != at {
            let r = if x < at { x } else { x - 1 };
            assert(m[x] == ws.remove(from)[r]);
        }
    }
    lemma_rearranged_keyed(ws, m, f);
}

/// Taking a block out keeps the remaining workspaces and the taken ones,
/// together, keyed.
proof fn lemma_extract_keyed(ws: Seq<Workspace>, ids: Seq<Seq<char>>, k: int)
    requires
        workspaces_keyed(ws),
        ws.len() <= usize::MAX,
        0 <= k <= ids.len(),
    ensures
        workspaces_keyed(extract_block(ws, ids, k).0 + extract_block(ws, ids, k).1),
    decreases k,
{
    if k == 0 {
        assert(ws + Seq::<Workspace>::empty() =~= ws);
    } else {
        lemma_extract_keyed(ws, ids, k - 1);
        let (rest, moved) = extract_block(ws, ids, k - 1);
        let both = rest + moved;
        lemma_extract_len(ws, ids, k - 1);
        lemma_ws_index_from_in_range(rest, ids[k - 1], 0);
        if let Some(p) = ws_index_of(rest, ids[k - 1]) {
            lemma_moved_keyed(both, p as int, both.len() as int);
            assert(moved_seq(both, p as int, both.len() as int) =~= rest.remove(p as int) + moved.push(rest[p as int]));
        }
    }
}

proof fn lemma_extract_len(ws: Seq<Workspace>, ids: Seq<Seq<char>>, k: int)
    requires
        ws.len() <= usize::MAX,
        0 <= k <= ids.len(),
    ensures
        extract_block(ws, ids, k).0.len() <= ws.len(),
    decreases k,
{
    if k > 0 {
        lemma_extract_len(ws, ids, k - 1);
        lemma_ws_index_from_in_range(extract_block(ws, ids, k - 1).0, ids[k - 1], 0);
    }
}

/// A block move keeps a list keyed.
pub proof fn lemma_block_moved_keyed(ws: Seq<Workspace>, ids: Seq<Seq<char>>, before: Option<Seq<char>>)
    requires
        workspaces_keyed(ws),
        ws.len() <= usize::MAX,
    ensures
        workspaces_keyed(block_moved(ws, ids, before)),
{
    let (rest, moved) = extract_block(ws, ids, ids.len() as int);
    lemma_extract_keyed(ws, ids, ids.len() as int);
    lemma_extract_len(ws, ids, ids.len() as int);
    let both = rest + moved;
    let at = match before {
        Some(b) => match ws_index_of(rest, b) {
            Some(p) => p as int,
            None => rest.len() as int,
        },
        None => rest.len() as int,
    };
    if let Some(b) = before {
        lemma_ws_index_from_in_range(rest, b, 0);
    }
    let l = rest.len() as int;
    let m = moved.len() as int;
    let f = |x: int| if x < at { x } else if x < at + m { l + (x - at) } else { x - m };
    let r = block_moved(ws, ids, before);
    assert(r == rest.take(at) + moved + rest.skip(at));
    assert forall|x: int| 0 <= x < r.len() implies 0 <= #[trigger] f(x) < both.len() && r[x] == both[f(x)] by {
    }
    lemma_rearranged_keyed(both, r, f);
}

/// A reorder command keeps a list keyed.
pub proof fn lemma_command_keyed(ws: Seq<Workspace>, command: WorkspaceReorderCommand)
    requires
        workspaces_keyed(ws),
        ws.len() <= usize::MAX,
    ensures
        workspaces_keyed(command_applied(ws, command)),
{
    match command {
        WorkspaceReorderCommand::Single { source_ws_idx, insert_idx } => {
            if source_ws_idx < ws.len() && insert_idx <= ws.len() {
                lemma_moved_keyed(ws, source_ws_idx as int, insert_idx as int);
            }
        },
        WorkspaceReorderCommand::Block(params) => {
            lemma_block_moved_keyed(ws, ids_view(params.workspace_ids@), opt_view(params.before_workspace_id));
        },
    }
}

/// The workspace list after a reorder command.
pub open spec fn command_applied(ws: Seq<Workspace>, command: WorkspaceReorderCommand) -> Seq<Workspace> {
    match command {
        WorkspaceReorderCommand::Single { source_ws_idx, insert_idx } => if source_ws_idx < ws.len() && insert_idx <= ws.len() {
            moved_seq(ws, source_ws_idx as int, insert_idx as int)
        } else {
            ws
        },
        WorkspaceReorderCommand::Block(params) => block_moved(
            ws,
            ids_view(params.workspace_ids@),
            opt_view(params.before_workspace_id),
        ),
    }
}

/// The first workspace in `ws` with id `id`.
fn ws_position(ws: &Vec<Workspace>, id: &String) -> (index: Option<usize>)
    ensures
        index == ws_index_of(ws@, id@),
        index matches Some(i) ==> i < ws@.len() && ws@[i as int].id@ == id@,
{
    let mut i: usize = 0;
    while i < ws.len()
        invariant
            i <= ws@.len(),
            ws_index_of(ws@, id@) == crate::app_state::ws_index_from(ws@, id@, i as int),
        decreases ws@.len() - i,
    {
        if ws[i].id == *id {
            return Some(i);
        }
        i += 1;
    }
    None
}

/// The first position of `x` in `s`.
fn position_of(s: &Vec<usize>, x: usize) -> (pos: Option<usize>)
    ensures
        match pos {
            Some(p) => position_in(s@, x, 0) == Some(p as int) && p < s@.len(),
            None => position_in(s@, x, 0) is None,
        },
{
    let mut i: usize = 0;
    while i < s.len()
        invariant
            i <= s@.len(),
            position_in(s@, x, 0) == position_in(s@, x, i as int),
        decreases s@.len() - i,
    {
        if s[i] == x {
            return Some(i);
        }
        i += 1;
    }
    None
}

impl AppState {
    /// Resolves the workspace owning `ws_idx` into the concrete move needed
    /// to shift its project one slot in `direction`, or `None` when
    /// unavailable: the project is already at the end of the list. A nested
    /// workspace moves its whole group.
    pub fn plan_workspace_reorder(&self, ws_idx: usize, direction: WorkspaceReorderDirection) -> (command: Option<WorkspaceReorderCommand>)
        ensures
            match reorder_plan_spec(self.workspaces@, ws_idx as int, direction) {
                None => command is None,
                Some((head, target)) => command matches Some(c) && command_for_plan(self.workspaces@, head, target, c),
            },
    {
        let ghost ws = self.workspaces@;
        let n = self.workspaces.len();
        if ws_idx >= n {
            return None;
        }
        let head_idx = match self.workspace_parent_index(ws_idx) {
            Some(head) => head,
            None => ws_idx,
        };
        proof {
            lemma_group_head_in_range(ws, ws_idx as int);
        }
        let heads = self.top_level_group_heads();
        proof {
            lemma_collected_in_range(group_heads_spec(ws), 0, n as int);
        }
        let pos = match position_of(&heads, head_idx) {
            Some(pos) => pos,
            None => return None,
        };
        let drop_target = match direction {
            WorkspaceReorderDirection::Up => {
                if pos == 0 {
                    return None;
                }
                WorkspaceDropTarget::Before(heads[pos - 1])
            },
            WorkspaceReorderDirection::Down => {
                let len = heads.len();
                if pos >= len - 1 {
                    return None;
                }
                if pos < len - 2 {
                    WorkspaceDropTarget::Before(heads[pos + 2])
                } else {
                    WorkspaceDropTarget::End
                }
            },
        };
        let params = match self.workspace_move_block_params(head_idx, drop_target) {
            Some(params) => params,
            None => return None,
        };
        assert(ids_view(params.workspace_ids@).len() == params.workspace_ids@.len());
        // Move as an atomic block whenever the group holds more than one
        // workspace, however the grouping was established.
        if params.workspace_ids.len() > 1 {
            Some(WorkspaceReorderCommand::Block(params))
        } else {
            let insert_idx = match &params.before_workspace_id {
                Some(id) => match self.parse_workspace_id(id) {
                    Some(p) => p,
                    None => n,
                },
                None => n,
            };
            Some(WorkspaceReorderCommand::Single { source_ws_idx: head_idx, insert_idx })
        }
    }

    /// Points `selected` and `active` at the workspaces with the given ids.
    fn follow_ids(&mut self, selected_id: Option<String>, active_id: Option<String>)
        ensures
            final(self).workspaces == old(self).workspaces,
            final(self).selected == match selected_id {
                Some(id) => match ws_index_of(old(self).workspaces@, id@) {
                    Some(p) => p,
                    None => old(self).selected,
                },
                None => old(self).selected,
            },
            final(self).active == match active_id {
                Some(id) => match ws_index_of(old(self).workspaces@, id@) {
                    Some(p) => Some(p),
                    None => old(self).active,
                },
                None => old(self).active,
            },
            final(self).terminals == old(self).terminals,
            final(self).pending_agent_notifications == old(self).pending_agent_notifications,
            final(self).toast_config == old(self).toast_config,
            final(self).mode == old(self).mode,
            final(self).navigator == old(self).navigator,
    {
        if let Some(id) = selected_id {
            if let Some(p) = self.parse_workspace_id(&id) {
                self.selected = p;
            }
        }
        if let Some(id) = active_id {
            if let Some(p) = self.parse_workspace_id(&id) {
                self.active = Some(p);
            }
        }
    }

    /// The ids of the selected and the active workspace.
    fn tracked_ids(&self) -> (ids: (Option<String>, Option<String>))
        ensures
            ids.0 == (if self.selected < self.workspaces@.len() { Some(self.workspaces@[self.selected as int].id) } else { None }),
            ids.1 == (match self.active {
                Some(a) => if a < self.workspaces@.len() { Some(self.workspaces@[a as int].id) } else { None },
                None => None,
            }),
    {
        let selected_id = if self.selected < self.workspaces.len() {
            Some(self.workspaces[self.selected].id.clone())
        } else {
            None
        };
        let active_id = match self.active {
            Some(a) => if a < self.workspaces.len() {
                Some(self.workspaces[a].id.clone())
            } else {
                None
            },
            None => None,
        };
        (selected_id, active_id)
    }

    /// Moves the workspace at `source_ws_idx` to land before the workspace
    /// currently at `insert_idx` (or at the end). The selected and active
    /// workspaces are followed to their new positions by id. Out-of-range
    /// indices change nothing.
    pub fn move_workspace(&mut self, source_ws_idx: usize, insert_idx: usize)
        ensures
            final(self).workspaces@ == command_applied(
                old(self).workspaces@,
                WorkspaceReorderCommand::Single { source_ws_idx, insert_idx },
            ),
            final(self).selected == follow_index(old(self).workspaces@, final(self).workspaces@, old(self).selected),
            final(self).active == follow_opt(old(self).workspaces@, final(self).workspaces@, old(self).active),
            final(self).terminals == old(self).terminals,
            final(self).pending_agent_notifications == old(self).pending_agent_notifications,
            final(self).toast_config == old(self).toast_config,
            final(self).mode == old(self).mode,
            final(self).navigator == old(self).navigator,
            old(self).keys_unique() ==> final(self).keys_unique(),
    {
        let ghost before = self.workspaces@;
        let n = self.workspaces.len();
        let (selected_id, active_id) = self.tracked_ids();
        if source_ws_idx < n && insert_idx <= n {
            let workspace = self.workspaces.remove(source_ws_idx);
            let at = if insert_idx > source_ws_idx { insert_idx - 1 } else { insert_idx };
            self.workspaces.insert(at, workspace);
        }
        self.follow_ids(selected_id, active_id);
        proof {
            if workspaces_keyed(before) {
                lemma_command_keyed(before, WorkspaceReorderCommand::Single { source_ws_idx, insert_idx });
            }
        }
    }

    /// Moves the workspaces named by `workspace_ids` as one contiguous block,
    /// in that order, before the workspace `before_workspace_id` (or to the
    /// end). The selected and active workspaces are followed by id.
    pub fn move_workspace_block(&mut self, workspace_ids: &Vec<String>, before_workspace_id: &Option<String>)
        ensures
            final(self).workspaces@ == block_moved(old(self).workspaces@, ids_view(workspace_ids@), opt_view(*before_workspace_id)),
            final(self).selected == follow_index(old(self).workspaces@, final(self).workspaces@, old(self).selected),
            final(self).active == follow_opt(old(self).workspaces@, final(self).workspaces@, old(self).active),
            final(self).terminals == old(self).terminals,
            final(self).pending_agent_notifications == old(self).pending_agent_notifications,
            final(self).toast_config == old(self).toast_config,
            final(self).mode == old(self).mode,
            final(self).navigator == old(self).navigator,
            old(self).keys_unique() ==> final(self).keys_unique(),
    {
        let (selected_id, active_id) = self.tracked_ids();
        let count = self.workspaces.len();
        let mut rest: Vec<Workspace> = Vec::new();
        std::mem::swap(&mut rest, &mut self.workspaces);
        let ghost original = rest@;
        let mut moved: Vec<Workspace> = Vec::new();
        let mut k: usize = 0;
        while k < workspace_ids.len()
            invariant
                k <= workspace_ids@.len(),
                (rest@, moved@) == extract_block(original, ids_view(workspace_ids@), k as int),
            decreases workspace_ids@.len() - k,
        {
            if let Some(p) = ws_position(&rest, &workspace_ids[k]) {
                let workspace = rest.remove(p);
                moved.push(workspace);
            }
            k += 1;
        }
        let at = match before_workspace_id {
            Some(before) => match ws_position(&rest, before) {
                Some(p) => p,
                None => rest.len(),
            },
            None => rest.len(),
        };
        let ghost remaining = rest@;
        let ghost taken = moved@;
        let mut tail = rest.split_off(at);
        rest.append(&mut moved);
        rest.append(&mut tail);
        assert(rest@ =~= remaining.take(at as int) + taken + remaining.skip(at as int));
        self.workspaces = rest;
        self.follow_ids(selected_id, active_id);
        proof {
            assert(original.len() == count);
            if workspaces_keyed(original) {
                lemma_block_moved_keyed(original, ids_view(workspace_ids@), opt_view(*before_workspace_id));
            }
        }
    }

    /// Carries out a reorder command.
    pub fn apply_reorder_command(&mut self, command: &WorkspaceReorderCommand)
        ensures
            final(self).workspaces@ == command_applied(old(self).workspaces@, *command),
            final(self).selected == follow_index(old(self).workspaces@, final(self).workspaces@, old(self).selected),
            final(self).active == follow_opt(old(self).workspaces@, final(self).workspaces@, old(self).active),
            final(self).terminals == old(self).terminals,
            final(self).pending_agent_notifications == old(self).pending_agent_notifications,
            final(self).toast_config == old(self).toast_config,
            final(self).mode == old(self).mode,
            final(self).navigator == old(self).navigator,
            old(self).keys_unique() ==> final(self).keys_unique(),
    {
        match command {
            WorkspaceReorderCommand::Single { source_ws_idx, insert_idx } => {
                self.move_workspace(*source_ws_idx, *insert_idx);
            },
            WorkspaceReorderCommand::Block(params) => {
                self.move_workspace_block(&params.workspace_ids, &params.before_workspace_id);
            },
        }
    }

    /// Group heads of all workspaces.
    fn group_heads(&self) -> (heads: Vec<Option<usize>>)
        ensures
            heads@ == group_heads_spec(self.workspaces@),
    {
        let n = self.workspaces.len();
        let mut heads: Vec<Option<usize>> = Vec::new();
        let mut i: usize = 0;
        while i < n
            invariant
                n == self.workspaces@.len(),
                i <= n,
                heads@.len() == i,
                forall|j: int| 0 <= j < i ==> heads@[j] == group_head_spec(self.workspaces@, j),
            decreases n - i,
        {
            heads.push(self.workspace_parent_index(i));
            i += 1;
        }
        assert(heads@ == group_heads_spec(self.workspaces@));
        heads
    }

    /// The top-level group head that workspace `index` nests under, if any.
    pub fn workspace_parent_index(&self, index: usize) -> (head: Option<usize>)
        ensures
            head == group_head_spec(self.workspaces@, index as int),
    {
        let ghost ws = self.workspaces@;
        let n = self.workspaces.len();
        let direct = match self.grouping_parent_index(index) {
            Some(d) => d,
            None => return None,
        };
        proof {
            lemma_grouping_parent_in_range(ws, index as int);
        }
        let mut node = direct;
        let mut k: usize = 0;
        while k < n
            invariant
                ws == self.workspaces@,
                n == ws.len(),
                k <= n,
                node < n,
                node as int == head_walk(ws, direct as int, k as nat),
            decreases n - k,
        {
            proof {
                lemma_grouping_parent_in_range(ws, node as int);
            }
            match self.grouping_parent_index(node) {
                Some(parent) => {
                    node = parent;
                },
                None => {},
            }
            k += 1;
        }
        if node != index { Some(node) } else { None }
    }

    /// Ordered top-level workspace indices, one per group (its head).
    pub fn top_level_group_heads(&self) -> (heads: Vec<usize>)
        ensures
            heads@ == top_level_group_heads_spec(self.workspaces@),
    {
        let group_heads = self.group_heads();
        let mut heads: Vec<usize> = Vec::new();
        let mut i: usize = 0;
        while i < group_heads.len()
            invariant
                i <= group_heads@.len(),
                group_heads@ == group_heads_spec(self.workspaces@),
                heads@ == top_heads_upto(group_heads@, i as int),
            decreases group_heads@.len() - i,
        {
            if group_heads[i].is_none() {
                heads.push(i);
            }
            i += 1;
        }
        heads
    }

    /// The move parameters for the block headed by `head_idx` landing at
    /// `drop_target`: the head followed by its members, and the id of the
    /// workspace it lands before (none at the end).
    pub fn workspace_move_block_params(&self, head_idx: usize, drop_target: WorkspaceDropTarget) -> (params: Option<WorkspaceMoveBlockParams>)
        ensures
            match params {
                Some(p) => {
                    &&& head_idx < self.workspaces@.len()
                    &&& ids_view(p.workspace_ids@) == ws_ids_at(self.workspaces@, block_indices(self.workspaces@, head_idx as int))
                    &&& opt_view(p.before_workspace_id) == target_id_spec(self.workspaces@, drop_target)
                },
                None => head_idx >= self.workspaces@.len()
                    || (drop_target matches WorkspaceDropTarget::Before(i) && i >= self.workspaces@.len()),
            },
    {
        let ghost ws = self.workspaces@;
        let n = self.workspaces.len();
        if head_idx >= n {
            return None;
        }
        let before_workspace_id = match drop_target {
            WorkspaceDropTarget::Before(i) => {
                if i >= n {
                    return None;
                }
                Some(self.workspaces[i].id.clone())
            },
            WorkspaceDropTarget::End => None,
        };
        let group_heads = self.group_heads();
        let mut workspace_ids: Vec<String> = Vec::new();
        workspace_ids.push(self.workspaces[head_idx].id.clone());
        let ghost members = members_upto(group_heads@, head_idx as int, n as int);
        proof {
            lemma_collected_in_range(group_heads@, head_idx as int, n as int);
        }
        let mut j: usize = 0;
        while j < n
            invariant
                ws == self.workspaces@,
                n == ws.len(),
                j <= n,
                head_idx < n,
                group_heads@ == group_heads_spec(ws),
                ids_view(workspace_ids@) == ws_ids_at(ws, seq![head_idx] + members_upto(group_heads@, head_idx as int, j as int)),
            decreases n - j,
        {
            let ghost before = workspace_ids@;
            let ghost prev = seq![head_idx] + members_upto(group_heads@, head_idx as int, j as int);
            if group_heads[j] == Some(head_idx) {
                let id = self.workspaces[j].id.clone();
                workspace_ids.push(id);
                assert(seq![head_idx] + members_upto(group_heads@, head_idx as int, j + 1) == prev.push(j));
                assert(ids_view(workspace_ids@) =~= ids_view(before).push(id@));
                assert(ws_ids_at(ws, prev.push(j)) =~= ws_ids_at(ws, prev).push(ws[j as int].id@));
            }
            j += 1;
        }
        Some(WorkspaceMoveBlockParams { workspace_ids, before_workspace_id })
    }
}

} // verus!
