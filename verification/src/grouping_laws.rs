//! What every grouping keeps: two levels at most, an explicit parent wins,
//! repo siblings stay apart, and the sidebar and the reorder agree on which
//! rows are top level.

use vstd::prelude::*;
use crate::grouping::{
    first_index_of_id, group_block_spec, group_root_spec, ids_at, lemma_first_index_in_range,
    first_focused_from,
    children_spec, child_entries, contains_id, direct_parents, entries_spec, entries_upto,
    entry_block, explicit_direct_parent, group_parent_spec, group_parents, lemma_children_in,
    lemma_direct_parents_in_range, lemma_primary_from_in_range, lemma_walk_in_range, primary_from,
    top_level_ids_upto, walk, ClientShellWorkspace, WorkspaceEntry,
};
use crate::grouping::{displayed_status_spec, last_max_status, statuses_at};
use crate::protocol::{status_priority_spec, AgentStatus};
use crate::client_laws::{ids_unique, lemma_unique_index_from};

verus! {

/// Following direct parents from any workspace reaches one without a parent
/// within as many steps as there are workspaces: the grouping has no cycle.
pub open spec fn chains_end(ws: Seq<ClientShellWorkspace>) -> bool {
    forall|i: int| 0 <= i < ws.len() ==>
        (#[trigger] direct_parents(ws)[walk(direct_parents(ws), i, ws.len() as nat)]) is None
}

proof fn lemma_walk_fixed(links: Seq<Option<usize>>, start: int, steps: nat)
    requires
        0 <= start < links.len(),
        links[start] is None,
    ensures
        walk(links, start, steps) == start,
    decreases steps,
{
    if steps > 0 {
        lemma_walk_fixed(links, start, (steps - 1) as nat);
    }
}

/// Nesting is at most two levels deep: when the grouping has no cycle, the
/// root a workspace nests under is itself top level.
pub proof fn law_grouping_has_two_levels(ws: Seq<ClientShellWorkspace>, i: int)
    requires
        ws.len() <= usize::MAX,
        0 <= i < ws.len(),
        chains_end(ws),
    ensures
        group_parent_spec(ws, i) matches Some(root) ==> {
            &&& root < ws.len()
            &&& group_parent_spec(ws, root as int) is None
        },
{
    lemma_direct_parents_in_range(ws);
    let dp = direct_parents(ws);
    if let Some(d) = dp[i] {
        lemma_walk_in_range(dp, d as int, ws.len() as nat);
        let root = walk(dp, d as int, ws.len() as nat);
        assert(direct_parents(ws)[walk(direct_parents(ws), d as int, ws.len() as nat)] is None);
        assert(dp[root] is None);
    }
}

/// An explicit parent wins over git grouping: a workspace filed under a
/// top-level workspace nests exactly there.
pub proof fn law_explicit_parent_wins(ws: Seq<ClientShellWorkspace>, i: int, p: usize)
    requires
        0 <= i < ws.len(),
        explicit_direct_parent(ws, i) == Some(p),
        p < ws.len(),
        direct_parents(ws)[p as int] is None,
    ensures
        group_parent_spec(ws, i) == Some(p),
{
    lemma_walk_fixed(direct_parents(ws), p as int, ws.len() as nat);
}

/// Two checkouts of one repository that are not linked worktrees stay
/// separate top-level rows unless one is explicitly filed under another.
pub proof fn law_repo_siblings_stay_top_level(ws: Seq<ClientShellWorkspace>, i: int)
    requires
        0 <= i < ws.len(),
        ws[i].worktree matches Some(wt) && !wt.is_linked_worktree,
        explicit_direct_parent(ws, i) is None,
    ensures
        group_parent_spec(ws, i) is None,
{
}

/// A linked worktree with no explicit parent nests under the first primary
/// checkout of its repository, when that checkout is top level.
pub proof fn law_linked_worktree_nests_under_primary(ws: Seq<ClientShellWorkspace>, i: int, p: usize)
    requires
        0 <= i < ws.len(),
        ws[i].worktree matches Some(wt) && wt.is_linked_worktree && primary_from(ws, wt.key@, 0) == Some(p),
        explicit_direct_parent(ws, i) is None,
        p < ws.len(),
        direct_parents(ws)[p as int] is None,
        ws.len() <= usize::MAX,
    ensures
        group_parent_spec(ws, i) == Some(p),
{
    lemma_primary_from_in_range(ws, ws[i].worktree.unwrap().key@, 0);
    lemma_walk_fixed(direct_parents(ws), p as int, ws.len() as nat);
}

/// Ids of the non-indented rows of `entries`, in order.
pub open spec fn top_row_ids(ws: Seq<ClientShellWorkspace>, entries: Seq<WorkspaceEntry>) -> Seq<Seq<char>>
    decreases entries.len(),
{
    if entries.len() == 0 {
        Seq::empty()
    } else if !entries.last().indented {
        top_row_ids(ws, entries.drop_last()).push(ws[entries.last().index as int].workspace_id@)
    } else {
        top_row_ids(ws, entries.drop_last())
    }
}

proof fn lemma_top_row_ids_concat(ws: Seq<ClientShellWorkspace>, a: Seq<WorkspaceEntry>, b: Seq<WorkspaceEntry>)
    ensures
        top_row_ids(ws, a + b) == top_row_ids(ws, a) + top_row_ids(ws, b),
    decreases b.len(),
{
    if b.len() == 0 {
        assert(a + b == a);
    } else {
        lemma_top_row_ids_concat(ws, a, b.drop_last());
        assert((a + b).drop_last() == a + b.drop_last());
        assert((a + b).last() == b.last());
    }
}

proof fn lemma_indented_rows_have_no_top_ids(ws: Seq<ClientShellWorkspace>, rows: Seq<WorkspaceEntry>)
    requires
        forall|k: int| 0 <= k < rows.len() ==> (#[trigger] rows[k]).indented,
    ensures
        top_row_ids(ws, rows) == Seq::<Seq<char>>::empty(),
    decreases rows.len(),
{
    if rows.len() > 0 {
        lemma_indented_rows_have_no_top_ids(ws, rows.drop_last());
    }
}

/// One source of truth: the sidebar's top-level rows are, in order, exactly
/// the top-level workspaces that keyboard reorder steps through.
pub proof fn law_sidebar_top_rows_are_the_reorder_roots(ws: Seq<ClientShellWorkspace>, collapsed: Seq<String>)
    requires
        ws.len() <= usize::MAX,
    ensures
        top_row_ids(ws, entries_spec(ws, collapsed)) == top_level_ids_upto(ws, ws.len() as int),
{
    lemma_top_rows_upto(ws, collapsed, ws.len() as int);
}

proof fn lemma_top_rows_upto(ws: Seq<ClientShellWorkspace>, collapsed: Seq<String>, k: int)
    requires
        k <= ws.len() <= usize::MAX,
    ensures
        top_row_ids(ws, entries_upto(ws, collapsed, k)) == top_level_ids_upto(ws, k),
    decreases k,
{
    if k > 0 {
        lemma_top_rows_upto(ws, collapsed, k - 1);
        let prev = entries_upto(ws, collapsed, k - 1);
        let block = entry_block(ws, collapsed, k - 1);
        lemma_top_row_ids_concat(ws, prev, block);
        if group_parent_spec(ws, k - 1) is None {
            let head = seq![WorkspaceEntry { index: (k - 1) as usize, indented: false, last_child: false }];
            let kids = children_spec(ws, k - 1);
            let tail = block.subrange(1, block.len() as int);
            assert(block == head + tail);
            lemma_top_row_ids_concat(ws, head, tail);
            assert(head.drop_last() =~= Seq::<WorkspaceEntry>::empty());
            assert(top_row_ids(ws, Seq::<WorkspaceEntry>::empty()) == Seq::<Seq<char>>::empty());
            assert(head.last().index as int == k - 1);
            assert(top_row_ids(ws, head) =~= Seq::<Seq<char>>::empty().push(ws[k - 1].workspace_id@));
            assert(top_row_ids(ws, head) == seq![ws[k - 1].workspace_id@]);
            assert forall|j: int| 0 <= j < tail.len() implies (#[trigger] tail[j]).indented by {
                assert(tail[j] == block[j + 1]);
            }
            lemma_indented_rows_have_no_top_ids(ws, tail);
        } else {
            assert(block == Seq::<WorkspaceEntry>::empty());
        }
    }
}

proof fn lemma_block_in_entries(ws: Seq<ClientShellWorkspace>, collapsed: Seq<String>, i: int, k: int, j: int)
    requires
        0 <= i < k,
        0 <= j < entry_block(ws, collapsed, i).len(),
    ensures
        entries_upto(ws, collapsed, k).contains(entry_block(ws, collapsed, i)[j]),
    decreases k,
{
    let prev = entries_upto(ws, collapsed, k - 1);
    let block = entry_block(ws, collapsed, k - 1);
    if i == k - 1 {
        assert(entries_upto(ws, collapsed, k)[prev.len() + j] == block[j]);
    } else {
        lemma_block_in_entries(ws, collapsed, i, k - 1, j);
        let m = choose|m: int| 0 <= m < prev.len() && prev[m] == entry_block(ws, collapsed, i)[j];
        assert(entries_upto(ws, collapsed, k)[m] == prev[m]);
    }
}

/// No workspace drops out of the sidebar: with no group collapsed and no
/// grouping cycle, every workspace has a row.
pub proof fn law_every_workspace_has_a_row(ws: Seq<ClientShellWorkspace>, i: int)
    requires
        ws.len() <= usize::MAX,
        0 <= i < ws.len(),
        chains_end(ws),
    ensures
        exists|k: int| 0 <= k < entries_spec(ws, Seq::empty()).len()
            && (#[trigger] entries_spec(ws, Seq::empty())[k]).index == i,
{
    let collapsed = Seq::<String>::empty();
    let entries = entries_spec(ws, collapsed);
    assert(!contains_id(collapsed, ws[i].workspace_id@));
    match group_parent_spec(ws, i) {
        None => {
            lemma_block_in_entries(ws, collapsed, i, ws.len() as int, 0);
            let e = entry_block(ws, collapsed, i)[0];
            let k = choose|k: int| 0 <= k < entries.len() && entries[k] == e;
            assert(entries[k].index == i);
        },
        Some(root) => {
            law_grouping_has_two_levels(ws, i);
            let r = root as int;
            assert(!contains_id(collapsed, ws[r].workspace_id@));
            lemma_children_in(group_parents(ws), r, ws.len() as int);
            let kids = children_spec(ws, r);
            assert(group_parents(ws)[i] == Some(root));
            assert(kids.contains(i as usize));
            let c = choose|c: int| 0 <= c < kids.len() && kids[c] == i as usize;
            let block = entry_block(ws, collapsed, r);
            assert(block[1 + c] == child_entries(kids)[c]);
            lemma_block_in_entries(ws, collapsed, r, ws.len() as int, 1 + c);
            let k = choose|k: int| 0 <= k < entries.len() && entries[k] == block[1 + c];
            assert(entries[k].index == i);
        },
    }
}

/// Some row of `entries` is workspace `i`'s.
pub open spec fn has_row(entries: Seq<WorkspaceEntry>, i: int) -> bool {
    exists|a: int| 0 <= a < entries.len() && (#[trigger] entries[a]).index == i
}

/// Only groups without children are collapsed, so every group shows whole.
pub open spec fn no_group_hidden(ws: Seq<ClientShellWorkspace>, collapsed: Seq<String>) -> bool {
    forall|r: int| 0 <= r < ws.len() && #[trigger] contains_id(collapsed, ws[r].workspace_id@) ==>
        children_spec(ws, r).len() == 0
}

/// What the rows below `k` hold: in-range, pairwise distinct indices, a row
/// indented exactly when its workspace is nested, top-level rows for
/// workspaces below `k` and nested rows for children of roots below `k`.
pub open spec fn rows_well_formed(ws: Seq<ClientShellWorkspace>, entries: Seq<WorkspaceEntry>, k: int) -> bool {
    &&& forall|a: int| 0 <= a < entries.len() ==> {
        let e = #[trigger] entries[a];
        &&& e.index < ws.len()
        &&& e.indented == (group_parent_spec(ws, e.index as int) is Some)
        &&& match group_parent_spec(ws, e.index as int) {
            None => e.index < k,
            Some(r) => r < k,
        }
    }
    &&& forall|a: int, b: int| 0 <= a < entries.len() && 0 <= b < entries.len() && a != b ==>
        (#[trigger] entries[a]).index != (#[trigger] entries[b]).index
}

proof fn lemma_rows_well_formed(ws: Seq<ClientShellWorkspace>, collapsed: Seq<String>, k: int)
    requires
        ws.len() <= usize::MAX,
        0 <= k <= ws.len(),
        no_group_hidden(ws, collapsed),
    ensures
        rows_well_formed(ws, entries_upto(ws, collapsed, k), k),
    decreases k,
{
    if k > 0 {
        lemma_rows_well_formed(ws, collapsed, k - 1);
        let prev = entries_upto(ws, collapsed, k - 1);
        let block = entry_block(ws, collapsed, k - 1);
        let all = entries_upto(ws, collapsed, k);
        assert(all == prev + block);
        let r = k - 1;
        if group_parent_spec(ws, r) is None {
            let kids = children_spec(ws, r);
            lemma_children_in(group_parents(ws), r, ws.len() as int);
            if contains_id(collapsed, ws[r].workspace_id@) {
                assert(kids.len() == 0);
                assert(first_focused_from(ws, kids, 0) is None);
            }
            assert(block == seq![WorkspaceEntry { index: r as usize, indented: false, last_child: false }] + child_entries(kids));
            assert forall|c: int| 0 <= c < kids.len() implies group_parent_spec(ws, #[trigger] kids[c] as int) == Some(r as usize) by {
                assert(group_parents(ws)[kids[c] as int] == group_parent_spec(ws, kids[c] as int));
            }
            assert forall|a: int| 0 <= a < all.len() implies {
                let e = #[trigger] all[a];
                &&& e.index < ws.len()
                &&& e.indented == (group_parent_spec(ws, e.index as int) is Some)
                &&& match group_parent_spec(ws, e.index as int) {
                    None => e.index < k,
                    Some(q) => q < k,
                }
            } by {
                if a < prev.len() {
                    assert(all[a] == prev[a]);
                } else if a == prev.len() {
                    assert(all[a] == block[0]);
                } else {
                    assert(all[a] == block[a - prev.len()]);
                    assert(block[a - prev.len()] == child_entries(kids)[a - prev.len() - 1]);
                }
            }
            assert forall|a: int, b: int| 0 <= a < all.len() && 0 <= b < all.len() && a != b implies
                (#[trigger] all[a]).index != (#[trigger] all[b]).index by {
                if a >= prev.len() && a > prev.len() {
                    assert(all[a] == child_entries(kids)[a - prev.len() - 1]);
                }
                if b >= prev.len() && b > prev.len() {
                    assert(all[b] == child_entries(kids)[b - prev.len() - 1]);
                }
                if a < prev.len() {
                    assert(all[a] == prev[a]);
                } else if a == prev.len() {
                    assert(all[a] == block[0]);
                }
                if b < prev.len() {
                    assert(all[b] == prev[b]);
                } else if b == prev.len() {
                    assert(all[b] == block[0]);
                }
                if a > prev.len() && b > prev.len() {
                    let x = a - prev.len() - 1;
                    let y = b - prev.len() - 1;
                    if x < y {
                        assert(kids[x] < kids[y]);
                    } else {
                        assert(kids[y] < kids[x]);
                    }
                }
            }
        } else {
            assert(block == Seq::<WorkspaceEntry>::empty());
            assert(all =~= prev);
        }
    }
}

/// The expanded sidebar lists every workspace exactly once: with no grouping
/// cycle and no group that has children collapsed, each index has a row, no
/// index has two, and a row is indented exactly when its workspace is
/// nested. (Top-level rows come in list order, each followed at once by its
/// children in list order: that is how `entries_spec` is built.)
pub proof fn law_entries_list_every_workspace_once(ws: Seq<ClientShellWorkspace>, collapsed: Seq<String>)
    requires
        ws.len() <= usize::MAX,
        chains_end(ws),
        no_group_hidden(ws, collapsed),
    ensures
        forall|i: int| 0 <= i < ws.len() ==> #[trigger] has_row(entries_spec(ws, collapsed), i),
        forall|a: int, b: int| 0 <= a < entries_spec(ws, collapsed).len() && 0 <= b < entries_spec(ws, collapsed).len()
            && a != b ==> (#[trigger] entries_spec(ws, collapsed)[a]).index != (#[trigger] entries_spec(ws, collapsed)[b]).index,
        forall|a: int| 0 <= a < entries_spec(ws, collapsed).len() ==> {
            let e = #[trigger] entries_spec(ws, collapsed)[a];
            &&& e.index < ws.len()
            &&& e.indented == (group_parent_spec(ws, e.index as int) is Some)
        },
{
    let entries = entries_spec(ws, collapsed);
    lemma_rows_well_formed(ws, collapsed, ws.len() as int);
    assert forall|i: int| 0 <= i < ws.len() implies #[trigger] has_row(entries, i) by {
        match group_parent_spec(ws, i) {
            None => {
                lemma_block_in_entries(ws, collapsed, i, ws.len() as int, 0);
                let e = entry_block(ws, collapsed, i)[0];
                let k = choose|k: int| 0 <= k < entries.len() && entries[k] == e;
                assert(entries[k].index == i);
            },
            Some(root) => {
                law_grouping_has_two_levels(ws, i);
                let r = root as int;
                lemma_children_in(group_parents(ws), r, ws.len() as int);
                let kids = children_spec(ws, r);
                assert(group_parents(ws)[i] == Some(root));
                assert(kids.contains(i as usize));
                if contains_id(collapsed, ws[r].workspace_id@) {
                    assert(kids.len() == 0);
                }
                let c = choose|c: int| 0 <= c < kids.len() && kids[c] == i as usize;
                let block = entry_block(ws, collapsed, r);
                assert(block[1 + c] == child_entries(kids)[c]);
                lemma_block_in_entries(ws, collapsed, r, ws.len() as int, 1 + c);
                let k = choose|k: int| 0 <= k < entries.len() && entries[k] == block[1 + c];
                assert(entries[k].index == i);
            },
        }
    }
}

/// The rows that follow the top-level row of root `r`: its children in list
/// order, the last one marked as closing the group; when the group is
/// collapsed, only its first focused child (marked last), or nothing.
pub open spec fn group_tail(ws: Seq<ClientShellWorkspace>, collapsed: Seq<String>, r: int) -> Seq<WorkspaceEntry> {
    let kids = children_spec(ws, r);
    if contains_id(collapsed, ws[r].workspace_id@) {
        match first_focused_from(ws, kids, 0) {
            Some(active) => seq![WorkspaceEntry { index: active, indented: true, last_child: true }],
            None => Seq::empty(),
        }
    } else {
        child_entries(kids)
    }
}

/// What the rows below `k` look like: the first is top level; top-level
/// rows come in increasing index order, each for a root below `k`, followed
/// at once by its group's tail and then by the end or another top-level row.
pub open spec fn rows_in_groups(ws: Seq<ClientShellWorkspace>, collapsed: Seq<String>, e: Seq<WorkspaceEntry>, k: int) -> bool {
    &&& e.len() > 0 ==> !e[0].indented
    &&& forall|a: int, b: int| 0 <= a < b < e.len() && !(#[trigger] e[a]).indented && !(#[trigger] e[b]).indented ==>
        e[a].index < e[b].index
    &&& forall|a: int| 0 <= a < e.len() && !(#[trigger] e[a]).indented ==> {
        let r = e[a].index as int;
        let tail = group_tail(ws, collapsed, r);
        &&& r < k
        &&& group_parent_spec(ws, r) is None
        &&& e[a] == WorkspaceEntry { index: r as usize, indented: false, last_child: false }
        &&& a + 1 + tail.len() <= e.len()
        &&& forall|c: int| 0 <= c < tail.len() ==> e[a + 1 + c] == #[trigger] tail[c]
        &&& (a + 1 + tail.len() == e.len() || !e[a + 1 + tail.len()].indented)
    }
}

proof fn lemma_rows_in_groups(ws: Seq<ClientShellWorkspace>, collapsed: Seq<String>, k: int)
    requires
        0 <= k <= ws.len(),
        ws.len() <= usize::MAX,
    ensures
        rows_in_groups(ws, collapsed, entries_upto(ws, collapsed, k), k),
    decreases k,
{
    if k > 0 {
        lemma_rows_in_groups(ws, collapsed, k - 1);
        let e = entries_upto(ws, collapsed, k - 1);
        let block = entry_block(ws, collapsed, k - 1);
        let all = entries_upto(ws, collapsed, k);
        assert(all == e + block);
        let r = k - 1;
        if group_parent_spec(ws, r) is None {
            let head = WorkspaceEntry { index: r as usize, indented: false, last_child: false };
            let tail = group_tail(ws, collapsed, r);
            assert(block =~= seq![head] + tail);
            assert forall|c: int| 0 <= c < tail.len() implies (#[trigger] tail[c]).indented by {
                if !contains_id(collapsed, ws[r].workspace_id@) {
                    assert(tail[c] == child_entries(children_spec(ws, r))[c]);
                }
            }
            let n0 = e.len() as int;
            assert(all[n0] == head);
            assert forall|x: int| 0 <= x < n0 implies all[x] == e[x] by {}
            assert forall|c: int| 0 <= c < tail.len() implies all[n0 + 1 + c] == tail[c] by {
                assert(all[n0 + 1 + c] == block[1 + c]);
            }
            assert forall|a: int, b: int| 0 <= a < b < all.len() && !(#[trigger] all[a]).indented && !(#[trigger] all[b]).indented implies
                all[a].index < all[b].index by {
                if b < n0 {
                    assert(all[a] == e[a] && all[b] == e[b]);
                } else if b == n0 {
                    assert(all[a] == e[a]);
                } else {
                    assert(all[b] == tail[b - n0 - 1]);
                }
            }
            assert forall|a: int| 0 <= a < all.len() && !(#[trigger] all[a]).indented implies {
                let q = all[a].index as int;
                let t = group_tail(ws, collapsed, q);
                &&& q < k
                &&& group_parent_spec(ws, q) is None
                &&& all[a] == WorkspaceEntry { index: q as usize, indented: false, last_child: false }
                &&& a + 1 + t.len() <= all.len()
                &&& forall|c: int| 0 <= c < t.len() ==> all[a + 1 + c] == #[trigger] t[c]
                &&& (a + 1 + t.len() == all.len() || !all[a + 1 + t.len()].indented)
            } by {
                if a < n0 {
                    assert(all[a] == e[a]);
                    let q = e[a].index as int;
                    let t = group_tail(ws, collapsed, q);
                    assert forall|c: int| 0 <= c < t.len() implies all[a + 1 + c] == #[trigger] t[c] by {
                        assert(all[a + 1 + c] == e[a + 1 + c]);
                    }
                    if a + 1 + t.len() < n0 {
                        assert(all[a + 1 + t.len()] == e[a + 1 + t.len()]);
                    }
                } else if a > n0 {
                    assert(all[a] == tail[a - n0 - 1]);
                }
            }
        } else {
            assert(block == Seq::<WorkspaceEntry>::empty());
            assert(all =~= e);
            assert forall|a: int| 0 <= a < all.len() && !(#[trigger] all[a]).indented implies
                (all[a].index as int) < k by {
                assert(all[a] == e[a]);
            }
        }
    }
}

/// The sidebar rows are the groups in list order: the first row is top
/// level; top-level rows are the roots in increasing index order; each is
/// followed at once by its group's tail (its children in list order, the
/// last marked as closing the group, or, when collapsed, only the first
/// focused child, marked last, or nothing) and then by the end of the list
/// or the next top-level row.
pub proof fn law_entries_are_groups_in_order(ws: Seq<ClientShellWorkspace>, collapsed: Seq<String>)
    requires
        ws.len() <= usize::MAX,
    ensures
        rows_in_groups(ws, collapsed, entries_spec(ws, collapsed), ws.len() as int),
{
    lemma_rows_in_groups(ws, collapsed, ws.len() as int);
}

proof fn lemma_top_ids_hold_roots(ws: Seq<ClientShellWorkspace>, j: int, k: int)
    requires
        0 <= j < k <= ws.len(),
        group_parent_spec(ws, j) is None,
    ensures
        top_level_ids_upto(ws, k).contains(ws[j].workspace_id@),
    decreases k,
{
    if j == k - 1 {
        assert(top_level_ids_upto(ws, k).last() == ws[j].workspace_id@);
    } else {
        lemma_top_ids_hold_roots(ws, j, k - 1);
        let prev = top_level_ids_upto(ws, k - 1);
        let m = choose|m: int| 0 <= m < prev.len() && prev[m] == ws[j].workspace_id@;
        if group_parent_spec(ws, k - 1) is None {
            assert(top_level_ids_upto(ws, k)[m] == prev[m]);
        }
    }
}

/// A workspace's block is its whole group, the same from every member: with
/// distinct ids and no grouping cycle, there is a block exactly when some
/// workspace has the id; the block's root is a top-level row; the block is
/// the root then its children in list order and holds the id; and every
/// member of the block names the same block.
pub proof fn law_group_block_is_the_whole_group(ws: Seq<ClientShellWorkspace>, id: Seq<char>)
    requires
        ws.len() <= usize::MAX,
        chains_end(ws),
        ids_unique(ws),
    ensures
        group_block_spec(ws, id) is None <==> (forall|i: int| 0 <= i < ws.len() ==> #[trigger] ws[i].workspace_id@ != id),
        group_block_spec(ws, id) matches Some((root, block)) ==> {
            &&& top_level_ids_upto(ws, ws.len() as int).contains(root)
            &&& block.contains(id)
            &&& exists|r: int| 0 <= r < ws.len() && #[trigger] ws[r].workspace_id@ == root
                && group_parent_spec(ws, r) is None
                && block == seq![root] + ids_at(ws, children_spec(ws, r))
            &&& forall|b: Seq<char>| block.contains(b) ==> #[trigger] group_block_spec(ws, b) == group_block_spec(ws, id)
        },
{
    let n = ws.len() as int;
    lemma_first_index_in_range(ws, id, 0);
    if let Some(i) = first_index_of_id(ws, id) {
        let i = i as int;
        law_grouping_has_two_levels(ws, i);
        let r = group_root_spec(ws, i);
        assert(0 <= r < n && group_parent_spec(ws, r) is None);
        let kids = children_spec(ws, r);
        let block = seq![ws[r].workspace_id@] + ids_at(ws, kids);
        assert(group_block_spec(ws, id) == Some((ws[r].workspace_id@, block)));
        lemma_top_ids_hold_roots(ws, r, n);
        lemma_children_in(group_parents(ws), r, n);
        if r == i {
            assert(block[0] == id);
        } else {
            assert(group_parents(ws)[i] == group_parent_spec(ws, i));
            assert(kids.contains(i as usize));
            let c = choose|c: int| 0 <= c < kids.len() && kids[c] == i as usize;
            assert(block[1 + c] == ws[i].workspace_id@);
        }
        assert(ws[r].workspace_id@ == ws[r].workspace_id@);
        assert forall|b: Seq<char>| block.contains(b) implies #[trigger] group_block_spec(ws, b) == group_block_spec(ws, id) by {
            let x = choose|x: int| 0 <= x < block.len() && block[x] == b;
            if x == 0 {
                lemma_unique_index_from(ws, r, 0);
                assert(group_root_spec(ws, r) == r);
            } else {
                let m = kids[x - 1] as int;
                assert(block[x] == ws[m].workspace_id@);
                assert(group_parents(ws)[m] == Some(r as usize));
                assert(group_parents(ws)[m] == group_parent_spec(ws, m));
                lemma_unique_index_from(ws, m, 0);
                assert(group_root_spec(ws, m) == r);
            }
        }
    }
}

proof fn lemma_last_max_is_loudest(statuses: Seq<AgentStatus>)
    requires
        statuses.len() >= 1,
    ensures
        statuses.contains(last_max_status(statuses)),
        forall|j: int| 0 <= j < statuses.len() ==>
            status_priority_spec(#[trigger] statuses[j]) <= status_priority_spec(last_max_status(statuses)),
    decreases statuses.len(),
{
    if statuses.len() == 1 {
        assert(statuses[0] == last_max_status(statuses));
    } else {
        let rest = statuses.drop_last();
        lemma_last_max_is_loudest(rest);
        let k = choose|k: int| 0 <= k < rest.len() && rest[k] == last_max_status(rest);
        assert(statuses[k] == rest[k]);
        assert(statuses[statuses.len() - 1] == statuses.last());
        assert forall|j: int| 0 <= j < statuses.len() implies
            status_priority_spec(#[trigger] statuses[j]) <= status_priority_spec(last_max_status(statuses)) by {
            if j < rest.len() {
                assert(statuses[j] == rest[j]);
            }
        }
    }
}

/// A collapsed group root stands for its whole group: it shows the most
/// urgent status among its own and its children's, one of those statuses.
/// A row that is not a collapsed root with children shows its own status.
pub proof fn law_collapsed_root_shows_the_loudest_status(
    ws: Seq<ClientShellWorkspace>,
    workspace: ClientShellWorkspace,
    collapsed: Seq<String>,
)
    ensures
        ({
            let shown = displayed_status_spec(ws, workspace, collapsed);
            match first_index_of_id(ws, workspace.workspace_id@) {
                Some(index) if contains_id(collapsed, workspace.workspace_id@) && children_spec(ws, index as int).len() > 0 => {
                    let kids = children_spec(ws, index as int);
                    &&& status_priority_spec(shown) >= status_priority_spec(workspace.agent_status)
                    &&& forall|j: int| 0 <= j < kids.len() ==>
                        status_priority_spec(shown) >= status_priority_spec(#[trigger] ws[kids[j] as int].agent_status)
                    &&& (shown == workspace.agent_status
                        || exists|j: int| 0 <= j < kids.len() && shown == #[trigger] ws[kids[j] as int].agent_status)
                },
                _ => shown == workspace.agent_status,
            }
        }),
{
    if let Some(index) = first_index_of_id(ws, workspace.workspace_id@) {
        let kids = children_spec(ws, index as int);
        if contains_id(collapsed, workspace.workspace_id@) && kids.len() > 0 {
            let all = statuses_at(ws, kids).push(workspace.agent_status);
            lemma_last_max_is_loudest(all);
            let shown = last_max_status(all);
            assert(all[kids.len() as int] == workspace.agent_status);
            assert forall|j: int| 0 <= j < kids.len() implies
                status_priority_spec(shown) >= status_priority_spec(#[trigger] ws[kids[j] as int].agent_status) by {
                assert(all[j] == ws[kids[j] as int].agent_status);
            }
            let k = choose|k: int| 0 <= k < all.len() && all[k] == shown;
            if k < kids.len() {
                assert(all[k] == ws[kids[k] as int].agent_status);
            }
        }
    }
}

} // verus!
