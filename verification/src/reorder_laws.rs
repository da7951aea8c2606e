//! What every reorder keeps: no workspace is lost or duplicated, and a
//! group stays together as one block.

use vstd::prelude::*;
use vstd::multiset::Multiset;
use crate::app_state::{AppState, grouping_parent_spec, lemma_grouping_parent_in_range, lemma_ws_index_from_in_range, ws_index_from, ws_index_of, Workspace};
use crate::keys::WorkspaceReorderDirection;
use crate::navigator::{
    navigator_plan_spec, navigator_reorder_effect, navigator_rows_spec, planned_workspaces, row_index_from,
    row_matches, NavigatorRow, NavigatorTarget,
};
use crate::reorder::{
    head_walk, lemma_head_walk_in_range,
    group_head_spec, position_in, reorder_plan_spec, top_heads_upto, top_level_group_heads_spec,
    block_indices, block_moved, extract_block, group_heads_spec, lemma_group_head_in_range, members_upto,
    moved_seq, target_id_spec, ws_ids_at,
    WorkspaceDropTarget,
};

verus! {

proof fn lemma_extract_keeps_workspaces(ws: Seq<Workspace>, ids: Seq<Seq<char>>, k: int)
    requires
        0 <= k <= ids.len(),
        ws.len() <= usize::MAX,
    ensures
        extract_block(ws, ids, k).0.to_multiset().add(extract_block(ws, ids, k).1.to_multiset()) == ws.to_multiset(),
        extract_block(ws, ids, k).0.len() <= ws.len(),
    decreases k,
{
    broadcast use vstd::seq_lib::group_to_multiset_ensures, vstd::multiset::group_multiset_axioms;
    if k == 0 {
        assert(Seq::<Workspace>::empty().to_multiset() =~= Multiset::empty());
        assert(ws.to_multiset().add(Multiset::empty()) =~= ws.to_multiset());
    } else {
        lemma_extract_keeps_workspaces(ws, ids, k - 1);
        let (rest, moved) = extract_block(ws, ids, k - 1);
        lemma_ws_index_from_in_range(rest, ids[k - 1], 0);
        if let Some(p) = ws_index_of(rest, ids[k - 1]) {
            let x = rest[p as int];
            assert(rest.to_multiset().count(x) > 0);
            assert(rest.remove(p as int).to_multiset() == rest.to_multiset().remove(x));
            assert(moved.push(x).to_multiset() =~= moved.to_multiset().insert(x));
            assert(rest.remove(p as int).to_multiset().add(moved.push(x).to_multiset())
                =~= rest.to_multiset().add(moved.to_multiset()));
        }
    }
}

/// A block move keeps every workspace exactly once.
pub proof fn law_block_move_keeps_workspaces(ws: Seq<Workspace>, ids: Seq<Seq<char>>, before: Option<Seq<char>>)
    requires
        ws.len() <= usize::MAX,
    ensures
        block_moved(ws, ids, before).to_multiset() == ws.to_multiset(),
{
    broadcast use vstd::seq_lib::group_to_multiset_ensures, vstd::multiset::group_multiset_axioms,
        vstd::seq_lib::lemma_multiset_commutative;
    lemma_extract_keeps_workspaces(ws, ids, ids.len() as int);
    let (rest, moved) = extract_block(ws, ids, ids.len() as int);
    let at = match before {
        Some(b) => match ws_index_of(rest, b) {
            Some(p) => p as int,
            None => rest.len() as int,
        },
        None => rest.len() as int,
    };
    if let Some(b) = before {
        lemma_ws_index_from_in_range(rest, b, 0);
    }
    assert(rest =~= rest.take(at) + rest.skip(at));
    assert((rest.take(at) + moved + rest.skip(at)).to_multiset() =~= rest.take(at).to_multiset().add(moved.to_multiset()).add(rest.skip(at).to_multiset()));
    assert(rest.to_multiset() =~= rest.take(at).to_multiset().add(rest.skip(at).to_multiset()));
}

/// Moving one workspace keeps every workspace exactly once.
pub proof fn law_single_move_keeps_workspaces(ws: Seq<Workspace>, from: int, to: int)
    requires
        0 <= from < ws.len(),
        0 <= to <= ws.len(),
    ensures
        moved_seq(ws, from, to).to_multiset() == ws.to_multiset(),
{
    broadcast use vstd::seq_lib::group_to_multiset_ensures, vstd::multiset::group_multiset_axioms;
    let x = ws[from];
    assert(ws.to_multiset().count(x) > 0);
    assert(ws.to_multiset().remove(x).insert(x) =~= ws.to_multiset());
}

/// Keyboard reorder only rearranges: every workspace is still there, once.
pub proof fn law_reorder_keeps_every_workspace(ws: Seq<Workspace>, head: usize, target: WorkspaceDropTarget)
    requires
        ws.len() <= usize::MAX,
    ensures
        planned_workspaces(ws, head, target).to_multiset() == ws.to_multiset(),
{
    let block = block_indices(ws, head as int);
    if block.len() > 1 {
        law_block_move_keeps_workspaces(ws, ws_ids_at(ws, block), target_id_spec(ws, target));
    } else {
        let insert = match target {
            WorkspaceDropTarget::Before(i) => match ws_index_of(ws, ws[i as int].id@) {
                Some(p) => p,
                None => ws.len() as usize,
            },
            WorkspaceDropTarget::End => ws.len() as usize,
        };
        if head < ws.len() && insert <= ws.len() {
            law_single_move_keeps_workspaces(ws, head as int, insert as int);
        }
    }
}

/// Every id names some workspace, and no id repeats.
pub open spec fn ids_present_and_distinct(ws: Seq<Workspace>, ids: Seq<Seq<char>>) -> bool {
    &&& forall|k: int| #![trigger ids[k]] 0 <= k < ids.len() ==>
        exists|j: int| #![trigger ws[j]] 0 <= j < ws.len() && ws[j].id@ == ids[k]
    &&& forall|a: int, b: int| 0 <= a < ids.len() && 0 <= b < ids.len() && a != b ==> #[trigger] ids[a] != #[trigger] ids[b]
}

proof fn lemma_extract_takes_the_named(ws: Seq<Workspace>, ids: Seq<Seq<char>>, k: int)
    requires
        ws.len() <= usize::MAX,
        0 <= k <= ids.len(),
        ids_present_and_distinct(ws, ids),
    ensures
        extract_block(ws, ids, k).1.len() == k,
        forall|m: int| 0 <= m < k ==> (#[trigger] extract_block(ws, ids, k).1[m]).id@ == ids[m],
        forall|j: int| 0 <= j < ws.len() && !ids.take(k).contains(ws[j].id@) ==>
            extract_block(ws, ids, k).0.contains(#[trigger] ws[j]),
        extract_block(ws, ids, k).0.len() <= ws.len(),
    decreases k,
{
    if k > 0 {
        lemma_extract_takes_the_named(ws, ids, k - 1);
        let (rest, moved) = extract_block(ws, ids, k - 1);
        let id = ids[k - 1];
        assert(exists|j: int| #![trigger ws[j]] 0 <= j < ws.len() && ws[j].id@ == ids[k - 1]);
        let j = choose|j: int| #![trigger ws[j]] 0 <= j < ws.len() && ws[j].id@ == id;
        assert(!ids.take(k - 1).contains(id)) by {
            if ids.take(k - 1).contains(id) {
                let a = choose|a: int| #![trigger ids.take(k - 1)[a]] 0 <= a < ids.take(k - 1).len() && ids.take(k - 1)[a] == id;
                assert(ids[a] == ids[k - 1]);
            }
        }
        assert(rest.contains(ws[j]));
        lemma_ws_index_from_in_range(rest, id, 0);
        if ws_index_of(rest, id) is None {
            let q = choose|q: int| #![trigger rest[q]] 0 <= q < rest.len() && rest[q] == ws[j];
            lemma_ws_index_none(rest, id, 0, q);
        }
        let p = ws_index_of(rest, id).unwrap() as int;
        assert(rest[p].id@ == id);
        let rest2 = rest.remove(p);
        assert forall|i: int| 0 <= i < ws.len() && !ids.take(k).contains(ws[i].id@) implies
            rest2.contains(#[trigger] ws[i]) by {
            assert(ids.take(k) == ids.take(k - 1).push(id));
            assert(!ids.take(k - 1).contains(ws[i].id@)) by {
                if ids.take(k - 1).contains(ws[i].id@) {
                    let a = choose|a: int| #![trigger ids.take(k - 1)[a]] 0 <= a < ids.take(k - 1).len() && ids.take(k - 1)[a] == ws[i].id@;
                    assert(ids.take(k)[a] == ws[i].id@);
                }
            }
            assert(ws[i].id@ != id) by {
                assert(ids.take(k)[k - 1] == id);
            }
            let q = choose|q: int| #![trigger rest[q]] 0 <= q < rest.len() && rest[q] == ws[i];
            assert(q != p);
            if q < p {
                assert(rest2[q] == ws[i]);
            } else {
                assert(rest2[q - 1] == ws[i]);
            }
        }
    }
}

proof fn lemma_ws_index_none(ws: Seq<Workspace>, id: Seq<char>, i: int, q: int)
    requires
        0 <= i <= q < ws.len(),
        ws[q].id@ == id,
    ensures
        ws_index_from(ws, id, i) is Some,
    decreases q - i,
{
    if ws[i].id@ != id {
        lemma_ws_index_none(ws, id, i + 1, q);
    }
}

/// A group moves as one atomic block: when every id names a workspace and
/// none repeats, the named workspaces end up side by side, in id order,
/// from position `start` on.
pub proof fn law_block_moves_as_one_unit(ws: Seq<Workspace>, ids: Seq<Seq<char>>, before: Option<Seq<char>>) -> (start: int)
    requires
        ws.len() <= usize::MAX,
        ids_present_and_distinct(ws, ids),
    ensures
        0 <= start && start + ids.len() <= block_moved(ws, ids, before).len(),
        forall|k: int| 0 <= k < ids.len() ==> (#[trigger] block_moved(ws, ids, before)[start + k]).id@ == ids[k],
{
    lemma_extract_takes_the_named(ws, ids, ids.len() as int);
    let (rest, moved) = extract_block(ws, ids, ids.len() as int);
    let at = match before {
        Some(b) => match ws_index_of(rest, b) {
            Some(p) => p as int,
            None => rest.len() as int,
        },
        None => rest.len() as int,
    };
    if let Some(b) = before {
        lemma_ws_index_from_in_range(rest, b, 0);
    }
    let r = block_moved(ws, ids, before);
    assert(r == rest.take(at) + moved + rest.skip(at));
    assert forall|k: int| 0 <= k < ids.len() implies (#[trigger] r[at + k]).id@ == ids[k] by {
        assert(r[at + k] == moved[k]);
    }
    assert(0 <= at && at + ids.len() <= r.len());
    at
}

proof fn lemma_members_ordered(ws: Seq<Workspace>, head: int, k: int)
    requires
        ws.len() <= usize::MAX,
        0 <= k <= ws.len(),
        0 <= head < ws.len(),
    ensures
        forall|a: int| 0 <= a < members_upto(group_heads_spec(ws), head, k).len() ==> {
            let m = #[trigger] members_upto(group_heads_spec(ws), head, k)[a];
            &&& m < k
            &&& m != head
        },
        forall|a: int, b: int| 0 <= a < b < members_upto(group_heads_spec(ws), head, k).len() ==>
            #[trigger] members_upto(group_heads_spec(ws), head, k)[a] < #[trigger] members_upto(group_heads_spec(ws), head, k)[b],
    decreases k,
{
    if k > 0 {
        lemma_members_ordered(ws, head, k - 1);
        let heads = group_heads_spec(ws);
        let prev = members_upto(heads, head, k - 1);
        let cur = members_upto(heads, head, k);
        if heads[k - 1] == Some(head as usize) {
            lemma_group_head_in_range(ws, k - 1);
            assert(k - 1 != head);
            assert(cur == prev.push((k - 1) as usize));
            assert forall|a: int| 0 <= a < cur.len() implies {
                let m = #[trigger] cur[a];
                &&& m < k
                &&& m != head
            } by {
                if a < prev.len() {
                    assert(cur[a] == prev[a]);
                }
            }
            assert forall|a: int, b: int| 0 <= a < b < cur.len() implies #[trigger] cur[a] < #[trigger] cur[b] by {
                assert(cur[a] == prev[a]);
                if b < prev.len() {
                    assert(cur[b] == prev[b]);
                }
            }
        }
    }
}

/// Keyboard reorder moves a group as one atomic block: with distinct ids,
/// when the planned move carries a group, the group's workspaces (its head,
/// then its members in list order) end up side by side from `start` on.
pub proof fn law_keyboard_reorder_keeps_the_group_together(ws: Seq<Workspace>, head: usize, target: WorkspaceDropTarget) -> (start: int)
    requires
        ws.len() <= usize::MAX,
        head < ws.len(),
        block_indices(ws, head as int).len() > 1,
        forall|a: int, b: int| 0 <= a < ws.len() && 0 <= b < ws.len() && a != b ==>
            #[trigger] ws[a].id@ != #[trigger] ws[b].id@,
    ensures
        0 <= start && start + block_indices(ws, head as int).len() <= planned_workspaces(ws, head, target).len(),
        forall|k: int| 0 <= k < block_indices(ws, head as int).len() ==>
            (#[trigger] planned_workspaces(ws, head, target)[start + k]).id@
                == ws[block_indices(ws, head as int)[k] as int].id@,
{
    let block = block_indices(ws, head as int);
    let members = members_upto(group_heads_spec(ws), head as int, ws.len() as int);
    lemma_members_ordered(ws, head as int, ws.len() as int);
    let ids = ws_ids_at(ws, block);
    assert forall|k: int| #![trigger ids[k]] 0 <= k < ids.len() implies
        exists|j: int| #![trigger ws[j]] 0 <= j < ws.len() && ws[j].id@ == ids[k] by {
        let j = block[k] as int;
        if k > 0 {
            assert(block[k] == members[k - 1]);
        }
        assert(ws[j].id@ == ids[k]);
    }
    assert forall|a: int, b: int| 0 <= a < ids.len() && 0 <= b < ids.len() && a != b implies
        #[trigger] ids[a] != #[trigger] ids[b] by {
        if a > 0 {
            assert(block[a] == members[a - 1]);
        }
        if b > 0 {
            assert(block[b] == members[b - 1]);
        }
        if a > 0 && b > 0 {
            if a < b {
                assert(members[a - 1] < members[b - 1]);
            } else {
                assert(members[b - 1] < members[a - 1]);
            }
        }
        assert(block[a] != block[b]);
        assert(block[a] < ws.len() && block[b] < ws.len());
    }
    let before = target_id_spec(ws, target);
    let start = law_block_moves_as_one_unit(ws, ids, before);
    let r = planned_workspaces(ws, head, target);
    assert(r == block_moved(ws, ids, before));
    assert forall|k: int| 0 <= k < block.len() implies (#[trigger] r[start + k]).id@ == ws[block[k] as int].id@ by {
        assert(ids[k] == ws[block[k] as int].id@);
        assert(block_moved(ws, ids, before)[start + k].id@ == ids[k]);
    }
    start
}

/// No workspace nests under another: none carries a parent link or a
/// worktree membership.
pub open spec fn ungrouped(ws: Seq<Workspace>) -> bool {
    forall|i: int| 0 <= i < ws.len() ==> (#[trigger] ws[i]).parent_workspace_id is None && ws[i].worktree_space is None
}

/// No two workspaces share an id.
pub open spec fn workspace_ids_unique(ws: Seq<Workspace>) -> bool {
    forall|a: int, b: int| 0 <= a < ws.len() && 0 <= b < ws.len() && a != b ==> #[trigger] ws[a].id@ != #[trigger] ws[b].id@
}

proof fn lemma_ungrouped_heads(ws: Seq<Workspace>)
    requires
        ungrouped(ws),
    ensures
        forall|i: int| 0 <= i < ws.len() ==> #[trigger] group_head_spec(ws, i) is None,
        group_heads_spec(ws) == Seq::new(ws.len(), |i: int| None::<usize>),
{
    assert forall|i: int| 0 <= i < ws.len() implies #[trigger] group_head_spec(ws, i) is None by {
        assert(ws[i].parent_workspace_id is None && ws[i].worktree_space is None);
    }
    assert(group_heads_spec(ws) =~= Seq::new(ws.len(), |i: int| None::<usize>));
}

proof fn lemma_all_top(n: nat, k: int)
    requires
        0 <= k <= n,
    ensures
        top_heads_upto(Seq::new(n, |i: int| None::<usize>), k) == Seq::new(k as nat, |i: int| i as usize),
    decreases k,
{
    if k > 0 {
        lemma_all_top(n, k - 1);
        assert(Seq::new((k - 1) as nat, |i: int| i as usize).push((k - 1) as usize) =~= Seq::new(k as nat, |i: int| i as usize));
    }
}

proof fn lemma_no_members(n: nat, head: int, k: int)
    requires
        0 <= k <= n,
    ensures
        members_upto(Seq::new(n, |i: int| None::<usize>), head, k) == Seq::<usize>::empty(),
    decreases k,
{
    if k > 0 {
        lemma_no_members(n, head, k - 1);
    }
}

proof fn lemma_position_of_index(n: nat, w: int, k: int)
    requires
        0 <= k <= w < n,
        w <= usize::MAX,
    ensures
        position_in(Seq::new(n, |i: int| i as usize), w as usize, k) == Some(w),
    decreases w - k,
{
    if k < w {
        lemma_position_of_index(n, w, k + 1);
    }
}

pub proof fn lemma_unique_ws_index(ws: Seq<Workspace>, i: int, k: int)
    requires
        workspace_ids_unique(ws),
        0 <= k <= i < ws.len(),
    ensures
        ws_index_from(ws, ws[i].id@, k) == Some(i as usize),
    decreases i - k,
{
    if k < i {
        assert(ws[k].id@ != ws[i].id@);
        lemma_unique_ws_index(ws, i, k + 1);
    }
}

/// In an ungrouped list every workspace heads its own one-workspace group,
/// and the heads are all indices in order.
proof fn lemma_ungrouped_plan(ws: Seq<Workspace>, w: int)
    requires
        ws.len() <= usize::MAX,
        ungrouped(ws),
        0 <= w < ws.len(),
    ensures
        top_level_group_heads_spec(ws) == Seq::new(ws.len(), |i: int| i as usize),
        position_in(top_level_group_heads_spec(ws), w as usize, 0) == Some(w),
        group_head_spec(ws, w) is None,
        block_indices(ws, w) == seq![w as usize],
{
    lemma_ungrouped_heads(ws);
    lemma_all_top(ws.len(), ws.len() as int);
    lemma_no_members(ws.len(), w, ws.len() as int);
    lemma_position_of_index(ws.len(), w, 0);
    assert(block_indices(ws, w) =~= seq![w as usize]);
}

/// Moving a project down undoes moving it up: in a list of distinct,
/// ungrouped workspaces, moving the workspace at `w` up one slot puts it at
/// `w - 1`, and moving it down from there restores the list.
pub proof fn law_down_undoes_up(ws: Seq<Workspace>, w: int)
    requires
        ws.len() <= usize::MAX,
        1 <= w < ws.len(),
        ungrouped(ws),
        workspace_ids_unique(ws),
    ensures
        reorder_plan_spec(ws, w, WorkspaceReorderDirection::Up)
            == Some((w as usize, WorkspaceDropTarget::Before((w - 1) as usize))),
        ({
            let up = planned_workspaces(ws, w as usize, WorkspaceDropTarget::Before((w - 1) as usize));
            &&& up[w - 1] == ws[w]
            &&& reorder_plan_spec(up, w - 1, WorkspaceReorderDirection::Down) matches Some((head, target))
                && planned_workspaces(up, head, target) == ws
        }),
{
    let n = ws.len() as int;
    lemma_ungrouped_plan(ws, w);
    lemma_unique_ws_index(ws, w - 1, 0);
    let up = planned_workspaces(ws, w as usize, WorkspaceDropTarget::Before((w - 1) as usize));
    assert(up == moved_seq(ws, w, w - 1));
    let swapped = ws.update(w - 1, ws[w]).update(w, ws[w - 1]);
    assert(up =~= swapped);
    assert(ungrouped(up)) by {
        assert forall|i: int| 0 <= i < up.len() implies (#[trigger] up[i]).parent_workspace_id is None && up[i].worktree_space is None by {
            if i == w - 1 {
                assert(up[i] == ws[w]);
            } else if i == w {
                assert(up[i] == ws[w - 1]);
            } else {
                assert(up[i] == ws[i]);
            }
        }
    }
    assert(workspace_ids_unique(up)) by {
        assert forall|a: int, b: int| 0 <= a < up.len() && 0 <= b < up.len() && a != b implies
            #[trigger] up[a].id@ != #[trigger] up[b].id@ by {
            let sa = if a == w - 1 { w } else if a == w { w - 1 } else { a };
            let sb = if b == w - 1 { w } else if b == w { w - 1 } else { b };
            assert(up[a] == ws[sa]);
            assert(up[b] == ws[sb]);
            assert(ws[sa].id@ != ws[sb].id@);
        }
    }
    lemma_ungrouped_plan(up, w - 1);
    if w + 1 < n {
        lemma_unique_ws_index(up, w + 1, 0);
        assert(up[w + 1] == ws[w + 1]);
        let back = planned_workspaces(up, (w - 1) as usize, WorkspaceDropTarget::Before((w + 1) as usize));
        assert(back == moved_seq(up, w - 1, w + 1));
        assert(back =~= ws);
    } else {
        let back = planned_workspaces(up, (w - 1) as usize, WorkspaceDropTarget::End);
        assert(back == moved_seq(up, w - 1, n));
        assert(back =~= ws);
    }
}

/// Every grouping chain ends: following grouping parents for as many steps
/// as there are workspaces always reaches a top-level workspace.
pub open spec fn grouping_chains_end(ws: Seq<Workspace>) -> bool {
    forall|i: int| 0 <= i < ws.len() ==> (#[trigger] grouping_parent_spec(ws, head_walk(ws, i, ws.len() as nat))) is None
}

pub proof fn lemma_top_heads_hold(heads: Seq<Option<usize>>, h: int, k: int)
    requires
        0 <= h < k <= heads.len(),
        heads.len() <= usize::MAX,
        heads[h] is None,
    ensures
        top_heads_upto(heads, k).contains(h as usize),
    decreases k,
{
    if h < k - 1 {
        lemma_top_heads_hold(heads, h, k - 1);
        let prev = top_heads_upto(heads, k - 1);
        let m = choose|m: int| 0 <= m < prev.len() && prev[m] == h as usize;
        if heads[k - 1] is None {
            assert(top_heads_upto(heads, k)[m] == prev[m]);
        }
    } else {
        assert(top_heads_upto(heads, k).last() == h as usize);
    }
}

pub proof fn lemma_position_found(s: Seq<usize>, x: usize, k: int, j: int)
    requires
        0 <= k <= j < s.len(),
        s[j] == x,
    ensures
        position_in(s, x, k) matches Some(p) && k <= p <= j && s[p] == x,
    decreases j - k,
{
    if s[k] != x {
        lemma_position_found(s, x, k + 1, j);
    }
}

/// Planning from any workspace plans from its group's head: with every
/// grouping chain ending, a workspace's head is top level, planning from the
/// workspace equals planning from the head, the plan moves the head, and it
/// is unavailable exactly when the head is first (going up) or last (going
/// down) among the heads. (`plan_workspace_reorder` then moves the head's
/// whole block when it holds more than one workspace, else the head alone.)
pub proof fn law_plan_from_the_group_head(ws: Seq<Workspace>, i: int, direction: WorkspaceReorderDirection)
    requires
        ws.len() <= usize::MAX,
        0 <= i < ws.len(),
        grouping_chains_end(ws),
    ensures
        ({
            let h = match group_head_spec(ws, i) { Some(g) => g as int, None => i };
            let heads = top_level_group_heads_spec(ws);
            let plan = reorder_plan_spec(ws, i, direction);
            &&& 0 <= h < ws.len()
            &&& group_head_spec(ws, h) is None
            &&& plan == reorder_plan_spec(ws, h, direction)
            &&& plan matches Some((head, _)) ==> head as int == h
            &&& position_in(heads, h as usize, 0) matches Some(p)
                && 0 <= p < heads.len() && heads[p] as int == h
                && (plan is None <==> (direction == WorkspaceReorderDirection::Up && p == 0)
                    || (direction == WorkspaceReorderDirection::Down && p + 1 == heads.len()))
        }),
{
    let n = ws.len() as int;
    let h = match group_head_spec(ws, i) { Some(g) => g as int, None => i };
    if let Some(g) = group_head_spec(ws, i) {
        let d = grouping_parent_spec(ws, i).unwrap() as int;
        lemma_grouping_parent_in_range(ws, i);
        lemma_head_walk_in_range(ws, d, n as nat);
        assert(g as int == head_walk(ws, d, n as nat));
        assert(grouping_parent_spec(ws, head_walk(ws, d, n as nat)) is None);
    }
    assert(group_head_spec(ws, h) is None);
    let hs = group_heads_spec(ws);
    assert(hs[h] == group_head_spec(ws, h));
    lemma_top_heads_hold(hs, h, n);
    let heads = top_level_group_heads_spec(ws);
    let j = choose|j: int| 0 <= j < heads.len() && heads[j] == h as usize;
    lemma_position_found(heads, h as usize, 0, j);
}

/// Whether `row` is the row `target` stands for, in the workspace with id
/// `id`: the workspace row, the tab row with the same tab index, or the pane
/// row with the same pane id.
pub open spec fn is_same_row(ws: Seq<Workspace>, row: NavigatorRow, id: Seq<char>, target: NavigatorTarget) -> bool {
    &&& row.target.ws_idx() < ws.len()
    &&& ws[row.target.ws_idx() as int].id@ == id
    &&& match target {
        NavigatorTarget::Workspace { .. } => row.target is Workspace,
        NavigatorTarget::Tab { tab_idx, .. } => row.target matches NavigatorTarget::Tab { tab_idx: t, .. } && t == tab_idx,
        NavigatorTarget::Pane { pane_id, .. } => row.target matches NavigatorTarget::Pane { pane_id: q, .. } && q == pane_id,
    }
}

proof fn lemma_row_found(ws: Seq<Workspace>, rows: Seq<NavigatorRow>, id: Seq<char>, target: NavigatorTarget, k: int, r: int)
    requires
        0 <= k <= r < rows.len(),
        rows.len() <= usize::MAX,
        is_same_row(ws, rows[r], id, target),
    ensures
        row_index_from(ws, rows, id, target, k) matches Some(idx) && idx < rows.len()
            && is_same_row(ws, rows[idx as int], id, target),
    decreases r - k,
{
    if !row_matches(ws, rows[k], id, target) {
        lemma_row_found(ws, rows, id, target, k + 1, r);
    }
}

/// A navigator reorder keeps the same row selected: after the move, when
/// the new tree has a row for what was selected (the same workspace by id,
/// and the workspace row, the tab with the same index, or the pane with the
/// same id), that row is selected.
pub proof fn law_navigator_reorder_keeps_the_selected_row(s0: AppState, s1: AppState, direction: WorkspaceReorderDirection)
    requires
        navigator_reorder_effect(s0, s1, direction),
        navigator_plan_spec(s0, direction) is Some,
        navigator_rows_spec(s1.workspaces@, s1.navigator.expanded_workspaces@).len() <= usize::MAX,
    ensures
        ({
            let old_rows = navigator_rows_spec(s0.workspaces@, s0.navigator.expanded_workspaces@);
            let new_rows = navigator_rows_spec(s1.workspaces@, s1.navigator.expanded_workspaces@);
            let target = old_rows[s0.navigator.selected as int].target;
            let id = s0.workspaces@[target.ws_idx() as int].id@;
            (exists|r: int| 0 <= r < new_rows.len() && is_same_row(s1.workspaces@, #[trigger] new_rows[r], id, target)) ==> {
                &&& s1.navigator.selected < new_rows.len()
                &&& is_same_row(s1.workspaces@, new_rows[s1.navigator.selected as int], id, target)
            }
        }),
{
    let old_rows = navigator_rows_spec(s0.workspaces@, s0.navigator.expanded_workspaces@);
    let new_rows = navigator_rows_spec(s1.workspaces@, s1.navigator.expanded_workspaces@);
    let target = old_rows[s0.navigator.selected as int].target;
    let id = s0.workspaces@[target.ws_idx() as int].id@;
    if exists|r: int| 0 <= r < new_rows.len() && is_same_row(s1.workspaces@, #[trigger] new_rows[r], id, target) {
        let r = choose|r: int| 0 <= r < new_rows.len() && is_same_row(s1.workspaces@, #[trigger] new_rows[r], id, target);
        lemma_row_found(s1.workspaces@, new_rows, id, target, 0, r);
    }
}

} // verus!
