//! What the server's grouping keeps across a `workspace.reparent`.

use vstd::prelude::*;
use crate::app_state::{
    acknowledged_pane, acknowledged_panes, workspace_acknowledged,
    lemma_grouping_parent_in_range, lemma_ws_index_from_in_range,
    acknowledge_update, acknowledges,
    grouping_parent_spec, is_orphaned, is_primary_checkout, lemma_ids_unchanged_index,
    pane_updates, pending_kept, primary_checkout_from, reparented, same_but_parent, seen_after,
    tab_updates, updates_pane, walk_reaches, ws_index_from, ws_index_of, AgentState, PaneId,
    PaneStateUpdate, PendingAgentNotification, Tab, Terminal, Workspace,
};
use crate::pane::PaneState;
use crate::reorder::{head_walk, lemma_head_walk_in_range};
use crate::protocol::top_level_marker_view;

verus! {

/// `after` keeps the ids and worktree memberships of `before`.
pub open spec fn same_ids_and_spaces(before: Seq<Workspace>, after: Seq<Workspace>) -> bool {
    &&& after.len() == before.len()
    &&& forall|j: int| 0 <= j < before.len() ==> (#[trigger] after[j]).id == before[j].id
        && after[j].worktree_space == before[j].worktree_space
}

proof fn lemma_index_of_unchanged(before: Seq<Workspace>, after: Seq<Workspace>, id: Seq<char>, i: int)
    requires
        same_ids_and_spaces(before, after),
    ensures
        ws_index_from(after, id, i) == ws_index_from(before, id, i),
    decreases before.len() - i,
{
    if 0 <= i < before.len() {
        assert(after[i].id == before[i].id);
        lemma_index_of_unchanged(before, after, id, i + 1);
    }
}

proof fn lemma_primary_unchanged(before: Seq<Workspace>, after: Seq<Workspace>, key: Seq<char>, i: int)
    requires
        same_ids_and_spaces(before, after),
    ensures
        primary_checkout_from(after, key, i) == primary_checkout_from(before, key, i),
    decreases before.len() - i,
{
    if 0 <= i < before.len() {
        assert(after[i].worktree_space == before[i].worktree_space);
        assert(is_primary_checkout(after[i], key) == is_primary_checkout(before[i], key));
        lemma_primary_unchanged(before, after, key, i + 1);
    }
}

/// A workspace whose own fields are unchanged keeps its grouping parent
/// when no id or worktree membership changes.
proof fn lemma_grouping_parent_unchanged(before: Seq<Workspace>, after: Seq<Workspace>, c: int)
    requires
        same_ids_and_spaces(before, after),
        0 <= c < before.len(),
        after[c] == before[c],
    ensures
        grouping_parent_spec(after, c) == grouping_parent_spec(before, c),
{
    match before[c].parent_workspace_id {
        Some(parent_id) => lemma_index_of_unchanged(before, after, parent_id@, 0),
        None => match before[c].worktree_space {
            Some(space) => lemma_primary_unchanged(before, after, space.key@, 0),
            None => {},
        },
    }
}

proof fn lemma_walk_unchanged(
    before: Seq<Workspace>,
    after: Seq<Workspace>,
    index: int,
    cursor: Option<usize>,
    steps: nat,
)
    requires
        same_ids_and_spaces(before, after),
        0 <= index < before.len(),
        forall|j: int| 0 <= j < before.len() && j != index ==> after[j] == before[j],
        !walk_reaches(before, cursor, before[index].id@, steps),
    ensures
        !walk_reaches(after, cursor, before[index].id@, steps),
    decreases steps,
{
    if steps > 0 {
        if let Some(c) = cursor {
            if c < before.len() {
                assert(before[c as int].id@ != before[index].id@);
                assert(c as int != index);
                lemma_grouping_parent_unchanged(before, after, c as int);
                lemma_walk_unchanged(before, after, index, grouping_parent_spec(before, c as int), (steps - 1) as nat);
            }
        }
    }
}

/// An accepted `workspace.reparent` closes no grouping cycle: walking up from
/// the refiled workspace's new parent, for as many steps as there are
/// workspaces, never comes back to it. Its new parent is the requested one.
pub proof fn law_accepted_reparent_closes_no_cycle(
    before: Seq<Workspace>,
    after: Seq<Workspace>,
    index: int,
    requested: Seq<char>,
    parent: usize,
)
    requires
        ws_index_of(before, requested) == Some(parent),
        parent as int != index,
        !walk_reaches(before, Some(parent), before[index].id@, before.len()),
        reparented(before, after, index, requested),
        requested != top_level_marker_view(),
    ensures
        grouping_parent_spec(after, index) == Some(parent),
        !walk_reaches(after, grouping_parent_spec(after, index), after[index].id@, after.len()),
{
    assert(same_ids_and_spaces(before, after));
    let p = after[index].parent_workspace_id.unwrap();
    lemma_index_of_unchanged(before, after, requested, 0);
    assert(p@ == requested);
    lemma_walk_unchanged(before, after, index, Some(parent), before.len());
}

/// Filing a workspace at the top level sticks: it no longer groups under
/// anything, not even the primary checkout of its repository.
pub proof fn law_unfiling_sticks(before: Seq<Workspace>, after: Seq<Workspace>, index: int)
    requires
        reparented(before, after, index, top_level_marker_view()),
    ensures
        grouping_parent_spec(after, index) is None,
{
}

/// Closing a parent leaves no dangling link: after orphan promotion every
/// parent link names a live workspace or the explicit top-level marker.
pub proof fn law_no_dangling_parent_after_promotion(before: Seq<Workspace>, after: Seq<Workspace>)
    requires
        after.len() == before.len(),
        forall|i: int| 0 <= i < before.len() ==> {
            &&& same_but_parent(before[i], #[trigger] after[i])
            &&& after[i].parent_workspace_id == if is_orphaned(before, i) { None } else { before[i].parent_workspace_id }
        },
    ensures
        forall|i: int| 0 <= i < after.len() && (#[trigger] after[i].parent_workspace_id) is Some ==> {
            let pid = after[i].parent_workspace_id.unwrap();
            pid@ == top_level_marker_view() || ws_index_of(after, pid@) is Some
        },
{
    assert forall|j: int| 0 <= j < before.len() implies (#[trigger] after[j]).id == before[j].id by {
        assert(same_but_parent(before[j], after[j]));
    }
    lemma_ids_unchanged_index(before, after);
}

proof fn lemma_pane_updates_report_seen(panes: Seq<(PaneId, PaneState)>, terms: Seq<Terminal>, ws_idx: usize, k: int)
    ensures
        forall|u: int| 0 <= u < pane_updates(panes, terms, ws_idx, k).len() ==> {
            let update = #[trigger] pane_updates(panes, terms, ws_idx, k)[u];
            &&& update.seen && !update.previous_seen && update.suppress_completion
            &&& update.state == update.previous_state
            &&& update.agent_label == update.previous_agent_label
            &&& update.ws_idx == ws_idx
        },
    decreases k,
{
    if k > 0 {
        lemma_pane_updates_report_seen(panes, terms, ws_idx, k - 1);
    }
}

/// Acknowledging only flips `seen`: every reported update turns a "done"
/// marker into seen, leaves the agent's state and label as they were, and
/// suppresses the completion notification.
pub proof fn law_acknowledge_only_flips_seen(tabs: Seq<Tab>, terms: Seq<Terminal>, ws_idx: usize, t: int)
    ensures
        forall|u: int| 0 <= u < tab_updates(tabs, terms, ws_idx, t).len() ==> {
            let update = #[trigger] tab_updates(tabs, terms, ws_idx, t)[u];
            &&& update.seen && !update.previous_seen && update.suppress_completion
            &&& update.state == update.previous_state
            &&& update.agent_label == update.previous_agent_label
            &&& update.ws_idx == ws_idx
        },
    decreases t,
{
    if t > 0 {
        law_acknowledge_only_flips_seen(tabs, terms, ws_idx, t - 1);
        let prev = tab_updates(tabs, terms, ws_idx, t - 1);
        let last = pane_updates(tabs[t - 1].panes@, terms, ws_idx, tabs[t - 1].panes@.len() as int);
        lemma_pane_updates_report_seen(tabs[t - 1].panes@, terms, ws_idx, tabs[t - 1].panes@.len() as int);
        assert forall|u: int| 0 <= u < (prev + last).len() implies {
            let update = #[trigger] (prev + last)[u];
            &&& update.seen && !update.previous_seen && update.suppress_completion
            &&& update.state == update.previous_state
            &&& update.agent_label == update.previous_agent_label
            &&& update.ws_idx == ws_idx
        } by {
            if u >= prev.len() {
                assert((prev + last)[u] == last[u - prev.len()]);
            }
        }
    }
}

/// An acknowledged item never toasts later: no queued notification is left
/// for a pane that was acknowledged, and the others stay queued.
pub proof fn law_acknowledge_cancels_queued_notifications(
    pending: Seq<PendingAgentNotification>,
    updates: Seq<PaneStateUpdate>,
    k: int,
)
    requires
        0 <= k <= pending.len(),
    ensures
        forall|q: int| 0 <= q < pending_kept(pending, updates, k).len() ==>
            !updates_pane(updates, (#[trigger] pending_kept(pending, updates, k)[q]).pane_id),
        forall|q: int| 0 <= q < k && !updates_pane(updates, pending[q].pane_id) ==>
            pending_kept(pending, updates, k).contains(#[trigger] pending[q]),
    decreases k,
{
    if k > 0 {
        law_acknowledge_cancels_queued_notifications(pending, updates, k - 1);
        let prev = pending_kept(pending, updates, k - 1);
        if !updates_pane(updates, pending[k - 1].pane_id) {
            assert forall|q: int| 0 <= q < k && !updates_pane(updates, pending[q].pane_id) implies
                pending_kept(pending, updates, k).contains(#[trigger] pending[q]) by {
                if q < k - 1 {
                    let m = choose|m: int| 0 <= m < prev.len() && prev[m] == pending[q];
                    assert(pending_kept(pending, updates, k)[m] == pending[q]);
                } else {
                    assert(pending_kept(pending, updates, k)[prev.len() as int] == pending[q]);
                }
            }
        }
    }
}

/// Done markers behave like an inbox: a completion always sets the marker,
/// and once set only the agent being addressed again (working) clears it.
pub proof fn law_done_marker_is_sticky(seen: bool, previous: AgentState, next: AgentState)
    ensures
        previous == AgentState::Working && next == AgentState::Idle ==> !seen_after(seen, previous, next),
        !seen ==> (seen_after(seen, previous, next) <==> next == AgentState::Working),
{
}

/// The panes of the first `t` tabs, tab after tab.
pub open spec fn flat_panes(tabs: Seq<Tab>, t: int) -> Seq<(PaneId, PaneState)>
    decreases t,
{
    if t <= 0 {
        Seq::empty()
    } else {
        flat_panes(tabs, t - 1) + tabs[t - 1].panes@
    }
}

/// The ids of the panes among the first `k` that acknowledging flips: those
/// showing a "done" marker whose terminal exists.
pub open spec fn acked_ids(panes: Seq<(PaneId, PaneState)>, terms: Seq<Terminal>, k: int) -> Seq<PaneId>
    decreases k,
{
    if k <= 0 {
        Seq::empty()
    } else if acknowledges(panes[k - 1].1, terms) {
        acked_ids(panes, terms, k - 1).push(panes[k - 1].0)
    } else {
        acked_ids(panes, terms, k - 1)
    }
}

/// The pane ids a list of updates reports.
pub open spec fn update_ids(updates: Seq<PaneStateUpdate>) -> Seq<PaneId> {
    updates.map_values(|u: PaneStateUpdate| u.pane_id)
}

proof fn lemma_pane_update_ids(panes: Seq<(PaneId, PaneState)>, terms: Seq<Terminal>, ws_idx: usize, k: int)
    requires
        0 <= k <= panes.len(),
    ensures
        update_ids(pane_updates(panes, terms, ws_idx, k)) == acked_ids(panes, terms, k),
    decreases k,
{
    if k > 0 {
        lemma_pane_update_ids(panes, terms, ws_idx, k - 1);
        let prev = pane_updates(panes, terms, ws_idx, k - 1);
        if acknowledges(panes[k - 1].1, terms) {
            let u = acknowledge_update(panes[k - 1].0, panes[k - 1].1, terms, ws_idx);
            assert(update_ids(prev.push(u)) =~= update_ids(prev).push(u.pane_id));
        }
    }
}

proof fn lemma_acked_prefix(a: Seq<(PaneId, PaneState)>, b: Seq<(PaneId, PaneState)>, terms: Seq<Terminal>, m: int)
    requires
        0 <= m <= a.len(),
    ensures
        acked_ids(a + b, terms, m) == acked_ids(a, terms, m),
    decreases m,
{
    if m > 0 {
        lemma_acked_prefix(a, b, terms, m - 1);
        assert((a + b)[m - 1] == a[m - 1]);
    }
}

proof fn lemma_acked_concat(a: Seq<(PaneId, PaneState)>, b: Seq<(PaneId, PaneState)>, terms: Seq<Terminal>, j: int)
    requires
        0 <= j <= b.len(),
    ensures
        acked_ids(a + b, terms, a.len() + j) == acked_ids(a, terms, a.len() as int) + acked_ids(b, terms, j),
    decreases j,
{
    if j == 0 {
        lemma_acked_prefix(a, b, terms, a.len() as int);
        assert(acked_ids(a, terms, a.len() as int) + Seq::<PaneId>::empty() =~= acked_ids(a, terms, a.len() as int));
    } else {
        lemma_acked_concat(a, b, terms, j - 1);
        assert((a + b)[a.len() + j - 1] == b[j - 1]);
        if acknowledges(b[j - 1].1, terms) {
            assert(acked_ids(a, terms, a.len() as int) + acked_ids(b, terms, j - 1).push(b[j - 1].0)
                =~= (acked_ids(a, terms, a.len() as int) + acked_ids(b, terms, j - 1)).push(b[j - 1].0));
        }
    }
}

proof fn lemma_tab_update_ids(tabs: Seq<Tab>, terms: Seq<Terminal>, ws_idx: usize, t: int)
    requires
        0 <= t <= tabs.len(),
    ensures
        update_ids(tab_updates(tabs, terms, ws_idx, t)) == acked_ids(flat_panes(tabs, t), terms, flat_panes(tabs, t).len() as int),
    decreases t,
{
    if t > 0 {
        lemma_tab_update_ids(tabs, terms, ws_idx, t - 1);
        let prev = tab_updates(tabs, terms, ws_idx, t - 1);
        let panes = tabs[t - 1].panes@;
        let last = pane_updates(panes, terms, ws_idx, panes.len() as int);
        lemma_pane_update_ids(panes, terms, ws_idx, panes.len() as int);
        assert(update_ids(prev + last) =~= update_ids(prev) + update_ids(last));
        let f = flat_panes(tabs, t - 1);
        lemma_acked_concat(f, panes, terms, panes.len() as int);
        assert(flat_panes(tabs, t) == f + panes);
    }
}

proof fn lemma_acked_distinct(panes: Seq<(PaneId, PaneState)>, terms: Seq<Terminal>, k: int)
    requires
        0 <= k <= panes.len(),
        forall|a: int, b: int| 0 <= a < panes.len() && 0 <= b < panes.len() && a != b ==>
            (#[trigger] panes[a]).0 != (#[trigger] panes[b]).0,
    ensures
        forall|m: int| #![trigger acked_ids(panes, terms, k)[m]] 0 <= m < acked_ids(panes, terms, k).len() ==>
            exists|j: int| 0 <= j < k && (#[trigger] panes[j]).0 == acked_ids(panes, terms, k)[m],
        forall|a: int, b: int| 0 <= a < acked_ids(panes, terms, k).len() && 0 <= b < acked_ids(panes, terms, k).len()
            && a != b ==> #[trigger] acked_ids(panes, terms, k)[a] != #[trigger] acked_ids(panes, terms, k)[b],
    decreases k,
{
    if k > 0 {
        lemma_acked_distinct(panes, terms, k - 1);
        let prev = acked_ids(panes, terms, k - 1);
        let cur = acked_ids(panes, terms, k);
        if acknowledges(panes[k - 1].1, terms) {
            assert(cur == prev.push(panes[k - 1].0));
            assert forall|m: int| #![trigger cur[m]] 0 <= m < cur.len() implies exists|j: int| 0 <= j < k && (#[trigger] panes[j]).0 == cur[m] by {
                if m < prev.len() {
                    assert(cur[m] == prev[m]);
                    let j = choose|j: int| 0 <= j < k - 1 && (#[trigger] panes[j]).0 == prev[m];
                    assert(panes[j].0 == cur[m]);
                } else {
                    assert(panes[k - 1].0 == cur[m]);
                }
            }
            assert forall|a: int, b: int| 0 <= a < cur.len() && 0 <= b < cur.len() && a != b implies
                #[trigger] cur[a] != #[trigger] cur[b] by {
                if a < prev.len() && b < prev.len() {
                    assert(cur[a] == prev[a] && cur[b] == prev[b]);
                } else if a < prev.len() {
                    assert(cur[a] == prev[a]);
                    let j = choose|j: int| 0 <= j < k - 1 && (#[trigger] panes[j]).0 == prev[a];
                    assert(panes[j].0 != panes[k - 1].0);
                } else if b < prev.len() {
                    assert(cur[b] == prev[b]);
                    let j = choose|j: int| 0 <= j < k - 1 && (#[trigger] panes[j]).0 == prev[b];
                    assert(panes[j].0 != panes[k - 1].0);
                }
            }
        }
    }
}

/// Acknowledging reports exactly one update per acknowledged pane: the
/// updates name, in order, the workspace's panes that showed a "done" marker
/// and have a terminal, and no other; when the workspace's pane ids are
/// distinct, so are the updates'. (Each update's fields are those of
/// `law_acknowledge_only_flips_seen`.)
pub proof fn law_one_update_per_acknowledged_pane(tabs: Seq<Tab>, terms: Seq<Terminal>, ws_idx: usize)
    ensures
        update_ids(tab_updates(tabs, terms, ws_idx, tabs.len() as int))
            == acked_ids(flat_panes(tabs, tabs.len() as int), terms, flat_panes(tabs, tabs.len() as int).len() as int),
        (forall|a: int, b: int| 0 <= a < flat_panes(tabs, tabs.len() as int).len()
            && 0 <= b < flat_panes(tabs, tabs.len() as int).len() && a != b ==>
            (#[trigger] flat_panes(tabs, tabs.len() as int)[a]).0 != (#[trigger] flat_panes(tabs, tabs.len() as int)[b]).0)
        ==> (forall|a: int, b: int| 0 <= a < tab_updates(tabs, terms, ws_idx, tabs.len() as int).len()
            && 0 <= b < tab_updates(tabs, terms, ws_idx, tabs.len() as int).len() && a != b ==>
            (#[trigger] tab_updates(tabs, terms, ws_idx, tabs.len() as int)[a]).pane_id
                != (#[trigger] tab_updates(tabs, terms, ws_idx, tabs.len() as int)[b]).pane_id),
{
    let n = tabs.len() as int;
    let flat = flat_panes(tabs, n);
    let updates = tab_updates(tabs, terms, ws_idx, n);
    lemma_tab_update_ids(tabs, terms, ws_idx, n);
    if forall|a: int, b: int| 0 <= a < flat.len() && 0 <= b < flat.len() && a != b ==>
        (#[trigger] flat[a]).0 != (#[trigger] flat[b]).0 {
        lemma_acked_distinct(flat, terms, flat.len() as int);
        let ids = acked_ids(flat, terms, flat.len() as int);
        assert forall|a: int, b: int| 0 <= a < updates.len() && 0 <= b < updates.len() && a != b implies
            (#[trigger] updates[a]).pane_id != (#[trigger] updates[b]).pane_id by {
            assert(update_ids(updates)[a] == updates[a].pane_id);
            assert(update_ids(updates)[b] == updates[b].pane_id);
            assert(ids[a] != ids[b]);
        }
    }
}

/// No grouping chain comes back to where it started: following grouping
/// parents from a nested workspace for 1 to n steps (n workspaces) never
/// returns to it, so no cycle exists; a cycle among n workspaces is at
/// most n long.
pub open spec fn grouping_acyclic(ws: Seq<Workspace>) -> bool {
    forall|i: int, t: nat| 0 <= i < ws.len() && 1 <= t <= ws.len() && grouping_parent_spec(ws, i) is Some ==>
        #[trigger] head_walk(ws, i, t) != i
}

proof fn lemma_walk_shift(ws: Seq<Workspace>, x: int, a: nat, b: nat)
    ensures
        head_walk(ws, x, a + b) == head_walk(ws, head_walk(ws, x, a), b),
    decreases b,
{
    if b > 0 {
        lemma_walk_shift(ws, x, a, (b - 1) as nat);
        assert((a + b - 1) as nat == a + (b - 1) as nat);
    }
}

proof fn lemma_root_stays(ws: Seq<Workspace>, x: int, s: nat)
    requires
        grouping_parent_spec(ws, x) is None,
    ensures
        head_walk(ws, x, s) == x,
    decreases s,
{
    if s > 0 {
        lemma_root_stays(ws, x, (s - 1) as nat);
    }
}

/// A walk that meets a workspace with id `id` within `steps` steps shows in
/// `walk_reaches`.
proof fn lemma_walk_meets(ws: Seq<Workspace>, c: int, t: nat, steps: nat, id: Seq<char>)
    requires
        ws.len() <= usize::MAX,
        0 <= c < ws.len(),
        t < steps,
        ws[head_walk(ws, c, t)].id@ == id,
    ensures
        walk_reaches(ws, Some(c as usize), id, steps),
    decreases t,
{
    if t > 0 {
        match grouping_parent_spec(ws, c) {
            None => {
                lemma_root_stays(ws, c, t);
            },
            Some(q) => {
                lemma_grouping_parent_in_range(ws, c);
                lemma_walk_shift(ws, c, 1, (t - 1) as nat);
                assert(head_walk(ws, c, 0) == c);
                assert(head_walk(ws, c, 1) == q as int);
                lemma_walk_meets(ws, q as int, (t - 1) as nat, (steps - 1) as nat, id);
            },
        }
    }
}

/// The first step at which the walk from `x` stands on `target`, scanning
/// from step `s` on.
proof fn lemma_first_hit(ws: Seq<Workspace>, x: int, target: int, m: nat, s: nat) -> (first: nat)
    requires
        s <= m,
        head_walk(ws, x, m) == target,
        forall|k: nat| k < s ==> #[trigger] head_walk(ws, x, k) != target,
    ensures
        first <= m,
        head_walk(ws, x, first) == target,
        forall|k: nat| k < first ==> #[trigger] head_walk(ws, x, k) != target,
    decreases m - s,
{
    if head_walk(ws, x, s) == target {
        s
    } else {
        lemma_first_hit(ws, x, target, m, s + 1)
    }
}

/// Walks in `before` and `after` agree until they reach `index`, the only
/// workspace whose link changed.
proof fn lemma_walks_agree(before: Seq<Workspace>, after: Seq<Workspace>, index: int, x: int, s: nat)
    requires
        before.len() <= usize::MAX,
        same_ids_and_spaces(before, after),
        0 <= index < before.len(),
        forall|j: int| 0 <= j < before.len() && j != index ==> after[j] == before[j],
        0 <= x < before.len(),
        forall|k: nat| k < s ==> #[trigger] head_walk(after, x, k) != index,
    ensures
        head_walk(after, x, s) == head_walk(before, x, s),
    decreases s,
{
    if s > 0 {
        lemma_walks_agree(before, after, index, x, (s - 1) as nat);
        let y = head_walk(before, x, (s - 1) as nat);
        lemma_head_walk_in_range(before, x, (s - 1) as nat);
        assert(head_walk(after, x, (s - 1) as nat) != index);
        lemma_grouping_parent_unchanged(before, after, y);
    }
}

/// A `workspace.reparent` keeps the whole grouping free of cycles: from an
/// acyclic grouping, the list it leaves (unchanged when refused, the
/// workspace at the top level when unfiled, or the workspace under an
/// accepted parent whose chain does not lead back to it) is acyclic too.
pub proof fn law_reparent_keeps_grouping_acyclic(
    before: Seq<Workspace>,
    after: Seq<Workspace>,
    index: int,
    requested: Option<Seq<char>>,
)
    requires
        before.len() <= usize::MAX,
        grouping_acyclic(before),
        after == before || match requested {
            None => reparented(before, after, index, top_level_marker_view()),
            Some(r) => ws_index_of(before, r) matches Some(p) && p as int != index
                && !walk_reaches(before, Some(p), before[index].id@, before.len())
                && reparented(before, after, index, r),
        },
    ensures
        grouping_acyclic(after),
{
    if after != before {
        let n = before.len();
        assert(same_ids_and_spaces(before, after));
        let unfiled = match requested {
            None => true,
            Some(r) => r == top_level_marker_view(),
        };
        if !unfiled {
            lemma_index_of_unchanged(before, after, requested.unwrap(), 0);
        }
        assert forall|j: int, t: nat| 0 <= j < after.len() && 1 <= t <= after.len() && grouping_parent_spec(after, j) is Some
            implies #[trigger] head_walk(after, j, t) != j by {
            if head_walk(after, j, t) == j {
                if forall|k: nat| k < t ==> #[trigger] head_walk(after, j, k) != index {
                    lemma_walks_agree(before, after, index, j, t);
                    assert(head_walk(after, j, 0) != index);
                    lemma_grouping_parent_unchanged(before, after, j);
                    assert(head_walk(before, j, t) != j);
                } else {
                    let k0 = choose|k: nat| k < t && #[trigger] head_walk(after, j, k) == index;
                    let s0 = lemma_first_hit(after, j, index, k0, 0);
                    if unfiled {
                        assert(grouping_parent_spec(after, index) is None);
                        lemma_walk_shift(after, j, s0, (t - s0) as nat);
                        lemma_root_stays(after, index, (t - s0) as nat);
                        assert(j == index);
                    } else {
                        let p = ws_index_of(before, requested.unwrap()).unwrap();
                        lemma_ws_index_from_in_range(before, requested.unwrap(), 0);
                        assert(grouping_parent_spec(after, index) == Some(p));
                        // The cycle carries on from `index` to `p` and comes
                        // back to `index` within t - 1 steps.
                        lemma_walk_shift(after, j, s0, 1);
                        assert(head_walk(after, index as int, 0) == index);
                        assert(head_walk(after, index as int, 1) == p as int);
                        lemma_walk_shift(after, j, (s0 + 1) as nat, (t - 1) as nat);
                        lemma_walk_shift(after, j, t, s0);
                        assert((s0 + 1 + (t - 1)) as nat == (t + s0) as nat);
                        assert(head_walk(after, p as int, (t - 1) as nat) == index);
                        let m = lemma_first_hit(after, p as int, index, (t - 1) as nat, 0);
                        lemma_walks_agree(before, after, index, p as int, m);
                        assert(head_walk(before, p as int, m) == index);
                        lemma_walk_meets(before, p as int, m, n, before[index].id@);
                    }
                }
            }
        }
    }
}

/// Whether some pane of the tabs that acknowledging flips has id `id`.
pub open spec fn acked_pane_named(tabs: Seq<Tab>, terms: Seq<Terminal>, id: PaneId) -> bool {
    exists|t: int, k: int| 0 <= t < tabs.len() && 0 <= k < tabs[t].panes@.len()
        && acknowledges((#[trigger] tabs[t].panes@[k]).1, terms) && tabs[t].panes@[k].0 == id
}

proof fn lemma_pane_updates_name(panes: Seq<(PaneId, PaneState)>, terms: Seq<Terminal>, w: usize, k: int)
    requires
        0 <= k <= panes.len(),
    ensures
        forall|j: int| 0 <= j < k && acknowledges(panes[j].1, terms) ==>
            updates_pane(pane_updates(panes, terms, w, k), #[trigger] panes[j].0),
        forall|x: int| #![trigger pane_updates(panes, terms, w, k)[x]] 0 <= x < pane_updates(panes, terms, w, k).len() ==> exists|j: int|
            0 <= j < k && acknowledges(panes[j].1, terms) && (#[trigger] panes[j]).0 == pane_updates(panes, terms, w, k)[x].pane_id,
    decreases k,
{
    if k > 0 {
        lemma_pane_updates_name(panes, terms, w, k - 1);
        let prev = pane_updates(panes, terms, w, k - 1);
        let cur = pane_updates(panes, terms, w, k);
        if acknowledges(panes[k - 1].1, terms) {
            assert(cur[prev.len() as int].pane_id == panes[k - 1].0);
            assert forall|j: int| 0 <= j < k && acknowledges(panes[j].1, terms) implies
                updates_pane(cur, #[trigger] panes[j].0) by {
                if j < k - 1 {
                    let u = choose|u: int| 0 <= u < prev.len() && (#[trigger] prev[u]).pane_id == panes[j].0;
                    assert(cur[u] == prev[u]);
                }
            }
            assert forall|x: int| #![trigger cur[x]] 0 <= x < cur.len() implies exists|j: int|
                0 <= j < k && acknowledges(panes[j].1, terms) && (#[trigger] panes[j]).0 == cur[x].pane_id by {
                if x < prev.len() {
                    assert(cur[x] == prev[x]);
                } else {
                    assert(panes[k - 1].0 == cur[x].pane_id);
                }
            }
        }
    }
}

proof fn lemma_tab_updates_name(tabs: Seq<Tab>, terms: Seq<Terminal>, w: usize, t: int)
    requires
        0 <= t <= tabs.len(),
    ensures
        forall|u: int, j: int| 0 <= u < t && 0 <= j < tabs[u].panes@.len() && acknowledges(tabs[u].panes@[j].1, terms) ==>
            updates_pane(tab_updates(tabs, terms, w, t), #[trigger] tabs[u].panes@[j].0),
        forall|x: int| 0 <= x < tab_updates(tabs, terms, w, t).len() ==>
            acked_pane_named(tabs, terms, #[trigger] tab_updates(tabs, terms, w, t)[x].pane_id),
    decreases t,
{
    if t > 0 {
        lemma_tab_updates_name(tabs, terms, w, t - 1);
        let prev = tab_updates(tabs, terms, w, t - 1);
        let panes = tabs[t - 1].panes@;
        let last = pane_updates(panes, terms, w, panes.len() as int);
        let cur = tab_updates(tabs, terms, w, t);
        assert(cur == prev + last);
        lemma_pane_updates_name(panes, terms, w, panes.len() as int);
        assert forall|u: int, j: int| 0 <= u < t && 0 <= j < tabs[u].panes@.len() && acknowledges(tabs[u].panes@[j].1, terms) implies
            updates_pane(cur, #[trigger] tabs[u].panes@[j].0) by {
            if u < t - 1 {
                let y = choose|y: int| 0 <= y < prev.len() && (#[trigger] prev[y]).pane_id == tabs[u].panes@[j].0;
                assert(cur[y] == prev[y]);
            } else {
                assert(panes[j] == tabs[u].panes@[j]);
                let y = choose|y: int| 0 <= y < last.len() && (#[trigger] last[y]).pane_id == panes[j].0;
                assert(cur[prev.len() + y] == last[y]);
            }
        }
        assert forall|x: int| 0 <= x < cur.len() implies acked_pane_named(tabs, terms, #[trigger] cur[x].pane_id) by {
            if x < prev.len() {
                assert(cur[x] == prev[x]);
            } else {
                assert(cur[x] == last[x - prev.len()]);
                let j = choose|j: int| 0 <= j < panes.len() && acknowledges(panes[j].1, terms)
                    && (#[trigger] panes[j]).0 == last[x - prev.len()].pane_id;
                assert(tabs[t - 1].panes@[j] == panes[j]);
            }
        }
    }
}

/// Acknowledging a workspace, pane by pane over all its tabs: every pane
/// showing a "done" marker whose terminal exists is marked seen (same id and
/// terminal) and has no notification left queued; every other pane stays
/// exactly as it was; and a queued notification for a pane id that no such
/// pane has stays queued.
pub proof fn law_acknowledge_marks_each_pane(
    before: Workspace,
    after: Workspace,
    terms: Seq<Terminal>,
    ws_idx: usize,
    pending_before: Seq<PendingAgentNotification>,
    pending_after: Seq<PendingAgentNotification>,
)
    requires
        workspace_acknowledged(before, after, terms),
        pending_after == pending_kept(
            pending_before,
            tab_updates(before.tabs@, terms, ws_idx, before.tabs@.len() as int),
            pending_before.len() as int,
        ),
    ensures
        forall|t: int, k: int| 0 <= t < before.tabs@.len() && 0 <= k < before.tabs@[t].panes@.len() ==> {
            let b = before.tabs@[t].panes@[k];
            let a = #[trigger] after.tabs@[t].panes@[k];
            if acknowledges(b.1, terms) {
                &&& a.0 == b.0 && a.1.seen && a.1.attached_terminal_id == b.1.attached_terminal_id
                &&& forall|q: int| 0 <= q < pending_after.len() ==> (#[trigger] pending_after[q]).pane_id != b.0
            } else {
                a == b
            }
        },
        forall|q: int| 0 <= q < pending_before.len() && !acked_pane_named(before.tabs@, terms, pending_before[q].pane_id) ==>
            pending_after.contains(#[trigger] pending_before[q]),
{
    let tabs = before.tabs@;
    let updates = tab_updates(tabs, terms, ws_idx, tabs.len() as int);
    lemma_tab_updates_name(tabs, terms, ws_idx, tabs.len() as int);
    law_acknowledge_cancels_queued_notifications(pending_before, updates, pending_before.len() as int);
    assert forall|t: int, k: int| 0 <= t < tabs.len() && 0 <= k < tabs[t].panes@.len() implies {
        let b = tabs[t].panes@[k];
        let a = #[trigger] after.tabs@[t].panes@[k];
        if acknowledges(b.1, terms) {
            &&& a.0 == b.0 && a.1.seen && a.1.attached_terminal_id == b.1.attached_terminal_id
            &&& forall|q: int| 0 <= q < pending_after.len() ==> (#[trigger] pending_after[q]).pane_id != b.0
        } else {
            a == b
        }
    } by {
        let b = tabs[t].panes@[k];
        assert(after.tabs@[t].panes@ == acknowledged_panes(tabs[t].panes@, terms));
        assert(after.tabs@[t].panes@[k] == acknowledged_pane(b, terms));
        if acknowledges(b.1, terms) {
            assert(updates_pane(updates, tabs[t].panes@[k].0));
        }
    }
    assert forall|q: int| 0 <= q < pending_before.len() && !acked_pane_named(tabs, terms, pending_before[q].pane_id) implies
        pending_after.contains(#[trigger] pending_before[q]) by {
        if updates_pane(updates, pending_before[q].pane_id) {
            let u = choose|u: int| 0 <= u < updates.len() && (#[trigger] updates[u]).pane_id == pending_before[q].pane_id;
            assert(acked_pane_named(tabs, terms, updates[u].pane_id));
        }
    }
}

/// Orphan promotion clears a parent link exactly when the link is not the
/// top-level marker and no workspace has the id it names; a link to a live
/// workspace is kept wherever that workspace sits, and nothing else changes.
pub proof fn law_promotion_clears_exactly_the_dangling_links(before: Seq<Workspace>, after: Seq<Workspace>)
    requires
        before.len() <= usize::MAX,
        after.len() == before.len(),
        forall|i: int| 0 <= i < before.len() ==> {
            &&& same_but_parent(before[i], #[trigger] after[i])
            &&& after[i].parent_workspace_id == if is_orphaned(before, i) { None } else { before[i].parent_workspace_id }
        },
    ensures
        forall|i: int| 0 <= i < before.len() ==> (#[trigger] after[i]).parent_workspace_id == match before[i].parent_workspace_id {
            Some(pid) => if pid@ != top_level_marker_view() && (forall|j: int| 0 <= j < before.len() ==> before[j].id@ != pid@) {
                None
            } else {
                Some(pid)
            },
            None => None,
        },
{
    assert forall|i: int| 0 <= i < before.len() implies (#[trigger] after[i]).parent_workspace_id == match before[i].parent_workspace_id {
        Some(pid) => if pid@ != top_level_marker_view() && (forall|j: int| 0 <= j < before.len() ==> before[j].id@ != pid@) {
            None
        } else {
            Some(pid)
        },
        None => None,
    } by {
        assert(same_but_parent(before[i], after[i]));
        if let Some(pid) = before[i].parent_workspace_id {
            lemma_ws_index_from_in_range(before, pid@, 0);
            if ws_index_of(before, pid@) is None {
                if exists|j: int| 0 <= j < before.len() && before[j].id@ == pid@ {
                    let j = choose|j: int| 0 <= j < before.len() && before[j].id@ == pid@;
                    lemma_holder_found(before, pid@, 0, j);
                }
            }
        }
    }
}

proof fn lemma_holder_found(ws: Seq<Workspace>, id: Seq<char>, k: int, j: int)
    requires
        0 <= k <= j < ws.len(),
        ws[j].id@ == id,
    ensures
        ws_index_from(ws, id, k) is Some,
    decreases j - k,
{
    if ws[k].id@ != id {
        lemma_holder_found(ws, id, k + 1, j);
    }
}

} // verus!
