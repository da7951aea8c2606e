//! Moving a group down undoes moving it up, for lists listed group by group
//! (head first, members at once after their head), whenever moving up keeps
//! every workspace under the same parent: always so when groups are filed by
//! explicit parent links alone.

use vstd::prelude::*;
use crate::app_state::{grouping_parent_spec, lemma_ws_index_from_in_range, ws_index_from, ws_index_of, lemma_grouping_parent_in_range, Workspace};
use crate::reorder::{
    group_head_spec, group_heads_spec, head_walk, members_upto, position_in, top_heads_upto,
    top_level_group_heads_spec, block_indices, block_moved, extract_block, ws_ids_at,
    moved_seq, reorder_plan_spec, WorkspaceDropTarget,
};
use crate::keys::WorkspaceReorderDirection;
use crate::navigator::planned_workspaces;
use crate::reorder_laws::{lemma_position_found, lemma_top_heads_hold, lemma_unique_ws_index, workspace_ids_unique};

verus! {

/// Grouping comes from explicit parent links alone: no workspace is filed
/// under its repo's primary checkout by inference.
pub open spec fn explicitly_grouped(ws: Seq<Workspace>) -> bool {
    forall|i: int| 0 <= i < ws.len() ==> (#[trigger] ws[i]).parent_workspace_id is Some
        || !(ws[i].worktree_space matches Some(space) && space.is_linked_worktree)
}

/// Groups are listed in order: a nested workspace's parent is a top-level
/// workspace before it, and every workspace between the two is nested under
/// that parent too.
pub open spec fn groups_in_order(ws: Seq<Workspace>) -> bool {
    forall|i: int| 0 <= i < ws.len() ==> match #[trigger] grouping_parent_spec(ws, i) {
        None => true,
        Some(p) => p < i && grouping_parent_spec(ws, p as int) is None
            && forall|j: int| p < j <= i ==> #[trigger] grouping_parent_spec(ws, j) == Some(p),
    }
}

/// Whether workspace `i` is top level.
pub open spec fn is_top(ws: Seq<Workspace>, i: int) -> bool {
    grouping_parent_spec(ws, i) is None
}

/// No top-level workspace lies strictly between `x` and `y`.
pub open spec fn no_top_between(ws: Seq<Workspace>, x: int, y: int) -> bool {
    forall|j: int| x < j < y ==> !#[trigger] is_top(ws, j)
}

proof fn lemma_walk_stays_at_top(ws: Seq<Workspace>, i: int, steps: nat)
    requires
        is_top(ws, i),
    ensures
        head_walk(ws, i, steps) == i,
    decreases steps,
{
    if steps > 0 {
        lemma_walk_stays_at_top(ws, i, (steps - 1) as nat);
    }
}

/// With groups in order, a workspace's group head is its grouping parent.
proof fn lemma_heads_are_parents(ws: Seq<Workspace>)
    requires
        ws.len() <= usize::MAX,
        groups_in_order(ws),
    ensures
        group_heads_spec(ws) == Seq::new(ws.len(), |i: int| grouping_parent_spec(ws, i)),
{
    assert forall|i: int| 0 <= i < ws.len() implies #[trigger] group_head_spec(ws, i) == grouping_parent_spec(ws, i) by {
        if let Some(d) = grouping_parent_spec(ws, i) {
            lemma_walk_stays_at_top(ws, d as int, ws.len() as nat);
        }
    }
    assert(group_heads_spec(ws) =~= Seq::new(ws.len(), |i: int| grouping_parent_spec(ws, i)));
}

/// The top-level heads are listed in increasing order, each top level.
proof fn lemma_top_heads_sorted(hs: Seq<Option<usize>>, k: int)
    requires
        0 <= k <= hs.len(),
        hs.len() <= usize::MAX,
    ensures
        forall|m: int| 0 <= m < top_heads_upto(hs, k).len() ==>
            (#[trigger] top_heads_upto(hs, k)[m]) < k && hs[top_heads_upto(hs, k)[m] as int] is None,
        forall|m1: int, m2: int| 0 <= m1 < m2 < top_heads_upto(hs, k).len() ==>
            #[trigger] top_heads_upto(hs, k)[m1] < #[trigger] top_heads_upto(hs, k)[m2],
    decreases k,
{
    if k > 0 {
        lemma_top_heads_sorted(hs, k - 1);
        let prev = top_heads_upto(hs, k - 1);
        if hs[k - 1] is None {
            let t = top_heads_upto(hs, k);
            assert(t == prev.push((k - 1) as usize));
            assert forall|m: int| 0 <= m < t.len() implies (#[trigger] t[m]) < k && hs[t[m] as int] is None by {
                if m < prev.len() {
                    assert(t[m] == prev[m]);
                }
            }
            assert forall|m1: int, m2: int| 0 <= m1 < m2 < t.len() implies #[trigger] t[m1] < #[trigger] t[m2] by {
                assert(t[m1] == prev[m1]);
                if m2 < prev.len() {
                    assert(t[m2] == prev[m2]);
                }
            }
        }
    }
}

/// Where top-level workspace `x` stands among the heads.
proof fn lemma_position_of_top(ws: Seq<Workspace>, x: int) -> (q: int)
    requires
        ws.len() <= usize::MAX,
        groups_in_order(ws),
        0 <= x < ws.len(),
        is_top(ws, x),
    ensures
        0 <= q < top_level_group_heads_spec(ws).len(),
        top_level_group_heads_spec(ws)[q] == x as usize,
        position_in(top_level_group_heads_spec(ws), x as usize, 0) == Some(q),
{
    let n = ws.len() as int;
    let hs = group_heads_spec(ws);
    let t = top_level_group_heads_spec(ws);
    lemma_heads_are_parents(ws);
    assert(hs[x] is None);
    lemma_top_heads_hold(hs, x, n);
    lemma_top_heads_sorted(hs, n);
    let j = choose|j: int| 0 <= j < t.len() && t[j] == x as usize;
    lemma_position_found(t, x as usize, 0, j);
    let q = position_in(t, x as usize, 0).unwrap();
    q
}

/// Consecutive heads are top level, increasing, with no top-level
/// workspace between them; after the last head there is none either.
proof fn lemma_consecutive_heads(ws: Seq<Workspace>, q: int)
    requires
        ws.len() <= usize::MAX,
        groups_in_order(ws),
        0 <= q < top_level_group_heads_spec(ws).len(),
    ensures
        ({
            let t = top_level_group_heads_spec(ws);
            &&& (t[q] as int) < ws.len()
            &&& is_top(ws, t[q] as int)
            &&& q + 1 < t.len() ==> t[q] < t[q + 1] && no_top_between(ws, t[q] as int, t[q + 1] as int)
            &&& q + 1 == t.len() ==> no_top_between(ws, t[q] as int, ws.len() as int)
        }),
{
    let n = ws.len() as int;
    let hs = group_heads_spec(ws);
    let t = top_level_group_heads_spec(ws);
    lemma_heads_are_parents(ws);
    lemma_top_heads_sorted(hs, n);
    assert(hs[t[q] as int] is None);
    assert forall|j: int| t[q] < j < (if q + 1 < t.len() { t[q + 1] as int } else { n }) implies !#[trigger] is_top(ws, j) by {
        if is_top(ws, j) {
            assert(hs[j] is None);
            lemma_top_heads_hold(hs, j, n);
            let r = choose|r: int| 0 <= r < t.len() && t[r] == j as usize;
            if r <= q {
                if r < q {
                    assert(t[r] < t[q]);
                }
            } else if r > q + 1 {
                assert(t[q + 1] < t[r]);
            }
        }
    }
    if q + 1 < t.len() {
        assert(t[q] < t[q + 1]);
    }
}

/// The workspaces nested under top-level `h` are exactly those after it up
/// to the next top-level workspace `e` (or the end).
proof fn lemma_members_between(ws: Seq<Workspace>, h: int, e: int)
    requires
        ws.len() <= usize::MAX,
        groups_in_order(ws),
        0 <= h < e <= ws.len(),
        is_top(ws, h),
        no_top_between(ws, h, e),
        e == ws.len() || is_top(ws, e),
    ensures
        forall|i: int| 0 <= i < ws.len() ==> (#[trigger] grouping_parent_spec(ws, i) == Some(h as usize) <==> h < i < e),
{
    let n = ws.len() as int;
    assert forall|i: int| 0 <= i < n implies (#[trigger] grouping_parent_spec(ws, i) == Some(h as usize) <==> h < i < e) by {
        if h < i < e {
            assert(!is_top(ws, i));
            let p = grouping_parent_spec(ws, i).unwrap() as int;
            assert(p < i && is_top(ws, p));
            if p < h {
                assert(grouping_parent_spec(ws, h) == Some(p as usize));
            } else if p > h {
                assert(!is_top(ws, p));
            }
        } else if grouping_parent_spec(ws, i) == Some(h as usize) {
            if i >= e {
                assert(grouping_parent_spec(ws, e) == Some(h as usize));
            }
        }
    }
}

proof fn lemma_members_run(hs: Seq<Option<usize>>, h: int, e: int, k: int)
    requires
        0 <= h < e <= hs.len(),
        hs.len() <= usize::MAX,
        0 <= k <= hs.len(),
        forall|i: int| 0 <= i < hs.len() ==> (#[trigger] hs[i] == Some(h as usize) <==> h < i < e),
    ensures
        members_upto(hs, h, k) == Seq::new(
            (if k <= h + 1 { 0 } else if k <= e { k - h - 1 } else { e - h - 1 }) as nat,
            |j: int| (h + 1 + j) as usize),
    decreases k,
{
    if k > 0 {
        lemma_members_run(hs, h, e, k - 1);
        let prev = members_upto(hs, h, k - 1);
        if hs[k - 1] == Some(h as usize) {
            assert(members_upto(hs, h, k) == prev.push((k - 1) as usize));
            assert(members_upto(hs, h, k) =~= Seq::new((k - h - 1) as nat, |j: int| (h + 1 + j) as usize));
        } else {
            assert(members_upto(hs, h, k) =~= Seq::new(
                (if k <= h + 1 { 0 } else if k <= e { k - h - 1 } else { e - h - 1 }) as nat,
                |j: int| (h + 1 + j) as usize));
        }
    }
}

/// The block of a group head is the run from it up to the next top-level
/// workspace (or the end).
proof fn lemma_block_run(ws: Seq<Workspace>, h: int, e: int)
    requires
        ws.len() <= usize::MAX,
        groups_in_order(ws),
        0 <= h < e <= ws.len(),
        is_top(ws, h),
        no_top_between(ws, h, e),
        e == ws.len() || is_top(ws, e),
    ensures
        block_indices(ws, h) == Seq::new((e - h) as nat, |j: int| (h + j) as usize),
{
    let hs = group_heads_spec(ws);
    lemma_heads_are_parents(ws);
    lemma_members_between(ws, h, e);
    assert forall|i: int| 0 <= i < hs.len() implies (#[trigger] hs[i] == Some(h as usize) <==> h < i < e) by {
        assert(hs[i] == grouping_parent_spec(ws, i));
    }
    lemma_members_run(hs, h, e, ws.len() as int);
    assert(block_indices(ws, h) =~= Seq::new((e - h) as nat, |j: int| (h + j) as usize));
}

/// `ws` with the adjacent runs `[a, b)` and `[b, c)` swapped.
pub open spec fn runs_swapped(ws: Seq<Workspace>, a: int, b: int, c: int) -> Seq<Workspace> {
    ws.take(a) + ws.subrange(b, c) + ws.subrange(a, b) + ws.skip(c)
}

/// The indices `s`, `s + 1`, ..., `s + len - 1`.
pub open spec fn index_run(s: int, len: int) -> Seq<usize> {
    Seq::new(len as nat, |j: int| (s + j) as usize)
}

proof fn lemma_first_holder(ws: Seq<Workspace>, id: Seq<char>, k: int, p: int)
    requires
        0 <= k <= p < ws.len(),
        ws[p].id@ == id,
        forall|j: int| k <= j < p ==> (#[trigger] ws[j]).id@ != id,
    ensures
        ws_index_from(ws, id, k) == Some(p as usize),
    decreases p - k,
{
    if k < p {
        lemma_first_holder(ws, id, k + 1, p);
    }
}

/// Extracting the ids of a run takes that run out, in order.
proof fn lemma_extract_run(ws: Seq<Workspace>, ids: Seq<Seq<char>>, s: int, k: int)
    requires
        ws.len() <= usize::MAX,
        workspace_ids_unique(ws),
        0 <= s,
        0 <= k <= ids.len(),
        s + k <= ws.len(),
        forall|j: int| 0 <= j < k ==> #[trigger] ids[j] == ws[s + j].id@,
    ensures
        extract_block(ws, ids, k) == (ws.take(s) + ws.skip(s + k), ws.subrange(s, s + k)),
    decreases k,
{
    if k == 0 {
        assert(ws.take(s) + ws.skip(s) =~= ws);
        assert(ws.subrange(s, s) =~= Seq::<Workspace>::empty());
    } else {
        lemma_extract_run(ws, ids, s, k - 1);
        let rest = ws.take(s) + ws.skip(s + k - 1);
        let moved = ws.subrange(s, s + k - 1);
        let id = ids[k - 1];
        assert(id == ws[s + k - 1].id@);
        assert(rest[s] == ws[s + k - 1]);
        assert forall|j: int| 0 <= j < s implies (#[trigger] rest[j]).id@ != id by {
            assert(rest[j] == ws[j]);
        }
        lemma_first_holder(rest, id, 0, s);
        assert(ws_index_of(rest, id) == Some(s as usize));
        assert(extract_block(ws, ids, k) == (rest.remove(s), moved.push(rest[s])));
        assert(rest.remove(s) =~= ws.take(s) + ws.skip(s + k));
        assert(moved.push(rest[s]) =~= ws.subrange(s, s + k));
    }
}

/// Moving the run `[b, c)` as a block before the workspace at `a < b`
/// swaps the runs `[a, b)` and `[b, c)`.
proof fn lemma_block_up(ws: Seq<Workspace>, a: int, b: int, c: int)
    requires
        ws.len() <= usize::MAX,
        workspace_ids_unique(ws),
        0 <= a < b < c <= ws.len(),
    ensures
        block_moved(ws, ws_ids_at(ws, index_run(b, c - b)), Some(ws[a].id@)) == runs_swapped(ws, a, b, c),
{
    let ids = ws_ids_at(ws, index_run(b, c - b));
    assert forall|j: int| 0 <= j < c - b implies #[trigger] ids[j] == ws[b + j].id@ by {
        assert(index_run(b, c - b)[j] == (b + j) as usize);
    }
    lemma_extract_run(ws, ids, b, c - b);
    let rest = ws.take(b) + ws.skip(c);
    assert forall|j: int| 0 <= j < a implies (#[trigger] rest[j]).id@ != ws[a].id@ by {
        assert(rest[j] == ws[j]);
    }
    assert(rest[a] == ws[a]);
    lemma_first_holder(rest, ws[a].id@, 0, a);
    assert(rest.take(a) + ws.subrange(b, c) + rest.skip(a) =~= runs_swapped(ws, a, b, c));
}

/// Moving the run `[a, b)` as a block before the workspace at `c > b`, or
/// to the end when `c` is the length, swaps the runs `[a, b)` and `[b, c)`.
proof fn lemma_block_down(ws: Seq<Workspace>, a: int, b: int, c: int)
    requires
        ws.len() <= usize::MAX,
        workspace_ids_unique(ws),
        0 <= a < b < c <= ws.len(),
    ensures
        block_moved(ws, ws_ids_at(ws, index_run(a, b - a)),
            if c < ws.len() { Some(ws[c].id@) } else { None }) == runs_swapped(ws, a, b, c),
{
    let ids = ws_ids_at(ws, index_run(a, b - a));
    assert forall|j: int| 0 <= j < b - a implies #[trigger] ids[j] == ws[a + j].id@ by {
        assert(index_run(a, b - a)[j] == (a + j) as usize);
    }
    lemma_extract_run(ws, ids, a, b - a);
    let rest = ws.take(a) + ws.skip(b);
    let at = c - (b - a);
    if c < ws.len() {
        assert forall|j: int| 0 <= j < at implies (#[trigger] rest[j]).id@ != ws[c].id@ by {
            if j < a {
                assert(rest[j] == ws[j]);
            } else {
                assert(rest[j] == ws[j + b - a]);
            }
        }
        assert(rest[at] == ws[c]);
        lemma_first_holder(rest, ws[c].id@, 0, at);
    }
    assert(rest.take(at) + ws.subrange(a, b) + rest.skip(at) =~= runs_swapped(ws, a, b, c));
}

/// Where the workspace at `i` lands when the runs `[a, b)` and `[b, c)` swap.
pub open spec fn swapped_index(a: int, b: int, c: int, i: int) -> int {
    if i < a || i >= c { i } else if i >= b { i - b + a } else { i + (c - b) }
}

/// Where the workspace at `i` of the swapped list came from.
pub open spec fn unswapped_index(a: int, b: int, c: int, i: int) -> int {
    if i < a || i >= c { i } else if i < a + (c - b) { i - a + b } else { i - (c - b) }
}

/// `swapped_index` for an optional index.
pub open spec fn swapped_opt(a: int, b: int, c: int, i: Option<usize>) -> Option<usize> {
    match i {
        Some(i) => Some(swapped_index(a, b, c, i as int) as usize),
        None => None,
    }
}

proof fn lemma_swap_positions(ws: Seq<Workspace>, a: int, b: int, c: int)
    requires
        0 <= a < b < c <= ws.len(),
    ensures
        runs_swapped(ws, a, b, c).len() == ws.len(),
        forall|i: int| 0 <= i < ws.len() ==> {
            let j = #[trigger] swapped_index(a, b, c, i);
            &&& 0 <= j < ws.len()
            &&& runs_swapped(ws, a, b, c)[j] == ws[i]
            &&& unswapped_index(a, b, c, j) == i
        },
        forall|j: int| 0 <= j < ws.len() ==> {
            let i = #[trigger] unswapped_index(a, b, c, j);
            &&& 0 <= i < ws.len()
            &&& runs_swapped(ws, a, b, c)[j] == ws[i]
            &&& swapped_index(a, b, c, i) == j
        },
{
    let t = runs_swapped(ws, a, b, c);
    assert forall|j: int| 0 <= j < ws.len() implies t[j] == ws[#[trigger] unswapped_index(a, b, c, j)] by {
        if j < a {
        } else if j < a + (c - b) {
        } else if j < c {
        } else {
        }
    }
    assert forall|i: int| 0 <= i < ws.len() implies t[#[trigger] swapped_index(a, b, c, i)] == ws[i] by {
        assert(unswapped_index(a, b, c, swapped_index(a, b, c, i)) == i);
    }
}

/// Swapping runs keeps ids distinct and moves each id's position along.
proof fn lemma_swap_ids(ws: Seq<Workspace>, a: int, b: int, c: int)
    requires
        ws.len() <= usize::MAX,
        workspace_ids_unique(ws),
        0 <= a < b < c <= ws.len(),
    ensures
        workspace_ids_unique(runs_swapped(ws, a, b, c)),
        forall|id: Seq<char>| #[trigger] ws_index_of(runs_swapped(ws, a, b, c), id)
            == swapped_opt(a, b, c, ws_index_of(ws, id)),
{
    let t = runs_swapped(ws, a, b, c);
    lemma_swap_positions(ws, a, b, c);
    assert forall|x: int, y: int| 0 <= x < t.len() && 0 <= y < t.len() && x != y implies
        #[trigger] t[x].id@ != #[trigger] t[y].id@ by {
        let ux = unswapped_index(a, b, c, x);
        let uy = unswapped_index(a, b, c, y);
        assert(ws[ux].id@ != ws[uy].id@);
    }
    assert forall|id: Seq<char>| #[trigger] ws_index_of(t, id) == swapped_opt(a, b, c, ws_index_of(ws, id)) by {
        lemma_ws_index_from_in_range(ws, id, 0);
        lemma_ws_index_from_in_range(t, id, 0);
        match ws_index_of(ws, id) {
            Some(p) => {
                let q = swapped_index(a, b, c, p as int);
                assert(t[q] == ws[p as int]);
                lemma_unique_ws_index(t, q, 0);
            },
            None => {
                if let Some(q) = ws_index_of(t, id) {
                    let p = unswapped_index(a, b, c, q as int);
                    assert(ws[p].id@ == id);
                    lemma_unique_ws_index(ws, p, 0);
                }
            },
        }
    }
}

/// Swapping the runs `[a, b)` and `[b, c)` moves each workspace's grouping
/// parent along with it.
pub open spec fn parents_follow_swap(ws: Seq<Workspace>, a: int, b: int, c: int) -> bool {
    forall|i: int| 0 <= i < ws.len() ==>
        grouping_parent_spec(runs_swapped(ws, a, b, c), #[trigger] swapped_index(a, b, c, i))
            == swapped_opt(a, b, c, grouping_parent_spec(ws, i))
}

/// Under explicit grouping, swapping runs moves each grouping parent along.
proof fn lemma_swap_parents(ws: Seq<Workspace>, a: int, b: int, c: int)
    requires
        ws.len() <= usize::MAX,
        workspace_ids_unique(ws),
        explicitly_grouped(ws),
        0 <= a < b < c <= ws.len(),
    ensures
        explicitly_grouped(runs_swapped(ws, a, b, c)),
        parents_follow_swap(ws, a, b, c),
{
    let t = runs_swapped(ws, a, b, c);
    lemma_swap_positions(ws, a, b, c);
    lemma_swap_ids(ws, a, b, c);
    assert forall|j: int| 0 <= j < t.len() implies (#[trigger] t[j]).parent_workspace_id is Some
        || !(t[j].worktree_space matches Some(space) && space.is_linked_worktree) by {
        assert(t[j] == ws[unswapped_index(a, b, c, j)]);
    }
    assert forall|i: int| 0 <= i < ws.len() implies
        grouping_parent_spec(t, #[trigger] swapped_index(a, b, c, i)) == swapped_opt(a, b, c, grouping_parent_spec(ws, i)) by {
        let j = swapped_index(a, b, c, i);
        assert(t[j] == ws[i]);
        if let Some(pid) = ws[i].parent_workspace_id {
            assert(ws_index_of(t, pid@) == swapped_opt(a, b, c, ws_index_of(ws, pid@)));
        }
    }
}

/// `[a, b)` and `[b, c)` are adjacent whole groups: `a` and `b` are top
/// level, no workspace between them or after `b` before `c` is, and `c` is
/// top level or the end of the list.
pub open spec fn adjacent_groups(ws: Seq<Workspace>, a: int, b: int, c: int) -> bool {
    &&& 0 <= a < b < c <= ws.len()
    &&& is_top(ws, a)
    &&& is_top(ws, b)
    &&& no_top_between(ws, a, b)
    &&& no_top_between(ws, b, c)
    &&& c == ws.len() || is_top(ws, c)
}

/// Swapping two adjacent whole groups keeps the groups in order, and the
/// swapped groups are again adjacent whole groups.
proof fn lemma_swap_layout(ws: Seq<Workspace>, a: int, b: int, c: int)
    requires
        ws.len() <= usize::MAX,
        workspace_ids_unique(ws),
        parents_follow_swap(ws, a, b, c),
        groups_in_order(ws),
        adjacent_groups(ws, a, b, c),
    ensures
        groups_in_order(runs_swapped(ws, a, b, c)),
        adjacent_groups(runs_swapped(ws, a, b, c), a, a + (c - b), c),
{
    let n = ws.len() as int;
    let t = runs_swapped(ws, a, b, c);
    lemma_swap_positions(ws, a, b, c);
    assert forall|x: int| 0 <= x < n implies match #[trigger] grouping_parent_spec(t, x) {
        None => true,
        Some(p) => p < x && grouping_parent_spec(t, p as int) is None
            && forall|j: int| p < j <= x ==> #[trigger] grouping_parent_spec(t, j) == Some(p),
    } by {
        let i = unswapped_index(a, b, c, x);
        assert(grouping_parent_spec(t, swapped_index(a, b, c, i)) == swapped_opt(a, b, c, grouping_parent_spec(ws, i)));
        if let Some(p) = grouping_parent_spec(ws, i) {
            let p = p as int;
            assert(p < i && grouping_parent_spec(ws, p) is None);
            assert(forall|j: int| p < j <= i ==> #[trigger] grouping_parent_spec(ws, j) == Some(p as usize));
            if i >= c {
                if p < c {
                    assert(grouping_parent_spec(ws, c) == Some(p as usize));
                }
            } else if i >= b {
                if p < b {
                    assert(grouping_parent_spec(ws, b) == Some(p as usize));
                }
            } else if i >= a {
                if p < a {
                    assert(grouping_parent_spec(ws, a) == Some(p as usize));
                }
            }
            let sp = swapped_index(a, b, c, p);
            assert(grouping_parent_spec(t, sp) == swapped_opt(a, b, c, grouping_parent_spec(ws, p)));
            assert forall|j: int| sp < j <= x implies #[trigger] grouping_parent_spec(t, j) == Some(sp as usize) by {
                let u = unswapped_index(a, b, c, j);
                assert(p < u <= i);
                assert(grouping_parent_spec(ws, u) == Some(p as usize));
                assert(grouping_parent_spec(t, swapped_index(a, b, c, u)) == swapped_opt(a, b, c, grouping_parent_spec(ws, u)));
            }
        }
    }
    let m = a + (c - b);
    assert(grouping_parent_spec(t, swapped_index(a, b, c, b)) == swapped_opt(a, b, c, grouping_parent_spec(ws, b)));
    assert(grouping_parent_spec(t, swapped_index(a, b, c, a)) == swapped_opt(a, b, c, grouping_parent_spec(ws, a)));
    assert forall|j: int| a < j < m implies !#[trigger] is_top(t, j) by {
        let u = unswapped_index(a, b, c, j);
        assert(b < u < c);
        assert(!is_top(ws, u));
        assert(grouping_parent_spec(t, swapped_index(a, b, c, u)) == swapped_opt(a, b, c, grouping_parent_spec(ws, u)));
    }
    assert forall|j: int| m < j < c implies !#[trigger] is_top(t, j) by {
        let u = unswapped_index(a, b, c, j);
        assert(a < u < b);
        assert(!is_top(ws, u));
        assert(grouping_parent_spec(t, swapped_index(a, b, c, u)) == swapped_opt(a, b, c, grouping_parent_spec(ws, u)));
    }
    if c < n {
        assert(grouping_parent_spec(t, swapped_index(a, b, c, c)) == swapped_opt(a, b, c, grouping_parent_spec(ws, c)));
    }
}

/// The head after head `x` is the next top-level workspace `y`.
proof fn lemma_next_head(ws: Seq<Workspace>, q: int, y: int)
    requires
        ws.len() <= usize::MAX,
        groups_in_order(ws),
        0 <= q < top_level_group_heads_spec(ws).len(),
        top_level_group_heads_spec(ws)[q] < y < ws.len(),
        is_top(ws, y),
        no_top_between(ws, top_level_group_heads_spec(ws)[q] as int, y),
    ensures
        q + 1 < top_level_group_heads_spec(ws).len(),
        top_level_group_heads_spec(ws)[q + 1] == y as usize,
{
    let t = top_level_group_heads_spec(ws);
    lemma_consecutive_heads(ws, q);
    if q + 1 < t.len() {
        lemma_consecutive_heads(ws, q + 1);
    }
}

/// With no top-level workspace after head `x`, it is the last head.
proof fn lemma_last_head(ws: Seq<Workspace>, q: int)
    requires
        ws.len() <= usize::MAX,
        groups_in_order(ws),
        0 <= q < top_level_group_heads_spec(ws).len(),
        no_top_between(ws, top_level_group_heads_spec(ws)[q] as int, ws.len() as int),
    ensures
        q + 1 == top_level_group_heads_spec(ws).len(),
{
    let t = top_level_group_heads_spec(ws);
    lemma_consecutive_heads(ws, q);
    if q + 1 < t.len() {
        lemma_consecutive_heads(ws, q + 1);
    }
}

/// The group head of a workspace in the group headed by top-level `h`,
/// whose run ends at `e`.
proof fn lemma_head_in_run(ws: Seq<Workspace>, h: int, e: int, w: int)
    requires
        ws.len() <= usize::MAX,
        groups_in_order(ws),
        0 <= h < e <= ws.len(),
        is_top(ws, h),
        no_top_between(ws, h, e),
        e == ws.len() || is_top(ws, e),
        h <= w < e,
    ensures
        (match group_head_spec(ws, w) { Some(g) => g as int, None => w }) == h,
        block_indices(ws, h) == index_run(h, e - h),
{
    lemma_heads_are_parents(ws);
    assert(group_head_spec(ws, w) == group_heads_spec(ws)[w]);
    lemma_members_between(ws, h, e);
    lemma_block_run(ws, h, e);
    assert(block_indices(ws, h) =~= index_run(h, e - h));
}

/// Moving the group at `b` up lands it before the group at `a`: the two
/// runs swap.
proof fn lemma_up_plan(ws: Seq<Workspace>, a: int, b: int, c: int, w: int)
    requires
        ws.len() <= usize::MAX,
        workspace_ids_unique(ws),
        groups_in_order(ws),
        adjacent_groups(ws, a, b, c),
        b <= w < c,
    ensures
        reorder_plan_spec(ws, w, WorkspaceReorderDirection::Up) == Some((b as usize, WorkspaceDropTarget::Before(a as usize))),
        planned_workspaces(ws, b as usize, WorkspaceDropTarget::Before(a as usize)) == runs_swapped(ws, a, b, c),
{
    let t = top_level_group_heads_spec(ws);
    lemma_head_in_run(ws, b, c, w);
    let qa = lemma_position_of_top(ws, a);
    lemma_next_head(ws, qa, b);
    let q = lemma_position_of_top(ws, b);
    lemma_top_heads_sorted(group_heads_spec(ws), ws.len() as int);
    if q != qa + 1 {
        if q < qa + 1 {
            if q < qa {
                assert(t[q] < t[qa]);
            }
        } else {
            assert(t[qa + 1] < t[q]);
        }
    }
    if c - b > 1 {
        lemma_block_up(ws, a, b, c);
    } else {
        lemma_unique_ws_index(ws, a, 0);
        assert(moved_seq(ws, b, a) =~= runs_swapped(ws, a, b, c));
    }
}

/// Moving the group at `a` down lands it before the group after the next
/// one, or at the end: the two runs swap.
proof fn lemma_down_plan(ws: Seq<Workspace>, a: int, b: int, c: int, w: int)
    requires
        ws.len() <= usize::MAX,
        workspace_ids_unique(ws),
        groups_in_order(ws),
        adjacent_groups(ws, a, b, c),
        a <= w < b,
    ensures
        reorder_plan_spec(ws, w, WorkspaceReorderDirection::Down) == Some((a as usize,
            if c < ws.len() { WorkspaceDropTarget::Before(c as usize) } else { WorkspaceDropTarget::End })),
        planned_workspaces(ws, a as usize,
            if c < ws.len() { WorkspaceDropTarget::Before(c as usize) } else { WorkspaceDropTarget::End })
            == runs_swapped(ws, a, b, c),
{
    let n = ws.len() as int;
    let t = top_level_group_heads_spec(ws);
    lemma_head_in_run(ws, a, b, w);
    let q = lemma_position_of_top(ws, a);
    lemma_next_head(ws, q, b);
    if c < n {
        lemma_next_head(ws, q + 1, c);
    } else {
        lemma_last_head(ws, q + 1);
    }
    if b - a > 1 {
        lemma_block_down(ws, a, b, c);
    } else {
        if c < n {
            lemma_unique_ws_index(ws, c, 0);
        }
        assert(moved_seq(ws, a, c) =~= runs_swapped(ws, a, b, c));
    }
}

/// The groups that moving workspace `w` up swaps: the group before its own
/// (`[a, b)`) and its own (`[b, c)`).
proof fn lemma_groups_moved_up(ws: Seq<Workspace>, w: int) -> (abc: (int, int, int))
    requires
        ws.len() <= usize::MAX,
        0 <= w < ws.len(),
        groups_in_order(ws),
        reorder_plan_spec(ws, w, WorkspaceReorderDirection::Up) is Some,
    ensures
        adjacent_groups(ws, abc.0, abc.1, abc.2),
        abc.1 <= w < abc.2,
{
    let n = ws.len() as int;
    let t = top_level_group_heads_spec(ws);
    lemma_heads_are_parents(ws);
    assert(group_head_spec(ws, w) == group_heads_spec(ws)[w]);
    let b = match grouping_parent_spec(ws, w) { Some(p) => p as int, None => w };
    lemma_grouping_parent_in_range(ws, w);
    assert(is_top(ws, b));
    let q = lemma_position_of_top(ws, b);
    assert(q >= 1);
    lemma_consecutive_heads(ws, q - 1);
    let a = t[q - 1] as int;
    lemma_consecutive_heads(ws, q);
    let c = if q + 1 < t.len() { t[q + 1] as int } else { n };
    if q + 1 < t.len() {
        lemma_consecutive_heads(ws, q + 1);
    }
    lemma_members_between(ws, b, c);
    (a, b, c)
}

/// Swapping the runs back restores the list.
proof fn lemma_swap_back(ws: Seq<Workspace>, a: int, b: int, c: int)
    requires
        0 <= a < b < c <= ws.len(),
    ensures
        runs_swapped(runs_swapped(ws, a, b, c), a, a + (c - b), c) == ws,
{
    assert(runs_swapped(runs_swapped(ws, a, b, c), a, a + (c - b), c) =~= ws);
}

/// The grouping parent of workspace `i`, by id.
pub open spec fn parent_id(ws: Seq<Workspace>, i: int) -> Option<Seq<char>> {
    match grouping_parent_spec(ws, i) {
        Some(p) => Some(ws[p as int].id@),
        None => None,
    }
}

/// `after` holds every workspace of `before`, found by id, under the same
/// grouping parent.
pub open spec fn same_grouping(before: Seq<Workspace>, after: Seq<Workspace>) -> bool {
    forall|i: int| 0 <= i < before.len() ==> match ws_index_of(after, #[trigger] before[i].id@) {
        Some(j) => parent_id(after, j as int) == parent_id(before, i),
        None => false,
    }
}

/// When swapping the runs keeps every workspace under the same parent by
/// id, the parents follow the swap.
proof fn lemma_kept_grouping_follows_swap(ws: Seq<Workspace>, a: int, b: int, c: int)
    requires
        ws.len() <= usize::MAX,
        workspace_ids_unique(ws),
        0 <= a < b < c <= ws.len(),
        same_grouping(ws, runs_swapped(ws, a, b, c)),
    ensures
        parents_follow_swap(ws, a, b, c),
{
    let up = runs_swapped(ws, a, b, c);
    lemma_swap_positions(ws, a, b, c);
    lemma_swap_ids(ws, a, b, c);
    assert forall|i: int| 0 <= i < ws.len() implies
        grouping_parent_spec(up, #[trigger] swapped_index(a, b, c, i)) == swapped_opt(a, b, c, grouping_parent_spec(ws, i)) by {
        let j = swapped_index(a, b, c, i);
        lemma_unique_ws_index(ws, i, 0);
        assert(ws_index_of(up, ws[i].id@) == swapped_opt(a, b, c, ws_index_of(ws, ws[i].id@)));
        assert(parent_id(up, j) == parent_id(ws, i));
        lemma_grouping_parent_in_range(ws, i);
        lemma_grouping_parent_in_range(up, j);
        if let Some(p) = grouping_parent_spec(ws, i) {
            let q = grouping_parent_spec(up, j).unwrap() as int;
            let sp = swapped_index(a, b, c, p as int);
            assert(up[sp] == ws[p as int]);
            assert(up[q].id@ == up[sp].id@);
        }
    }
}

/// Moving the group of `w` up swaps it with the group before it; when that
/// keeps the parents, moving the same workspace's group down swaps back.
proof fn lemma_up_then_down(ws: Seq<Workspace>, w: int, a: int, b: int, c: int)
    requires
        ws.len() <= usize::MAX,
        0 <= w < ws.len(),
        workspace_ids_unique(ws),
        groups_in_order(ws),
        adjacent_groups(ws, a, b, c),
        b <= w < c,
        parents_follow_swap(ws, a, b, c),
    ensures
        reorder_plan_spec(ws, w, WorkspaceReorderDirection::Up) matches Some((head, target)) && ({
            let up = planned_workspaces(ws, head, target);
            ws_index_of(up, ws[w].id@) matches Some(w2)
                && reorder_plan_spec(up, w2 as int, WorkspaceReorderDirection::Down) matches Some((head2, target2))
                && planned_workspaces(up, head2, target2) == ws
        }),
{
    lemma_up_plan(ws, a, b, c, w);
    let up = runs_swapped(ws, a, b, c);
    lemma_swap_ids(ws, a, b, c);
    lemma_swap_layout(ws, a, b, c);
    lemma_unique_ws_index(ws, w, 0);
    assert(ws_index_of(up, ws[w].id@) == swapped_opt(a, b, c, ws_index_of(ws, ws[w].id@)));
    let w2 = swapped_index(a, b, c, w);
    assert(up.len() == ws.len());
    lemma_down_plan(up, a, a + (c - b), c, w2);
    lemma_swap_back(ws, a, b, c);
}

/// Moving a group down undoes moving it up whenever moving it up leaves
/// every workspace under the same grouping parent. In a list of workspaces
/// with distinct ids, listed group by group (each head followed at once by
/// its members), when the group of workspace `w` can move up one slot and
/// that move keeps each workspace's parent, moving the same workspace's
/// group down one slot afterwards is available and restores the list; the
/// workspace is found again by its id.
pub proof fn law_down_undoes_up_when_grouping_is_kept(ws: Seq<Workspace>, w: int)
    requires
        ws.len() <= usize::MAX,
        0 <= w < ws.len(),
        workspace_ids_unique(ws),
        groups_in_order(ws),
        reorder_plan_spec(ws, w, WorkspaceReorderDirection::Up) matches Some((head, target))
            && same_grouping(ws, planned_workspaces(ws, head, target)),
    ensures
        reorder_plan_spec(ws, w, WorkspaceReorderDirection::Up) matches Some((head, target)) && ({
            let up = planned_workspaces(ws, head, target);
            ws_index_of(up, ws[w].id@) matches Some(w2)
                && reorder_plan_spec(up, w2 as int, WorkspaceReorderDirection::Down) matches Some((head2, target2))
                && planned_workspaces(up, head2, target2) == ws
        }),
{
    let (a, b, c) = lemma_groups_moved_up(ws, w);
    lemma_up_plan(ws, a, b, c, w);
    lemma_kept_grouping_follows_swap(ws, a, b, c);
    lemma_up_then_down(ws, w, a, b, c);
}

/// Moving a group down undoes moving it up. In a list of workspaces with
/// distinct ids, grouped by explicit parent links alone and listed group by
/// group (each head followed at once by its members), when the group of
/// workspace `w` can move up one slot, moving it up and then moving the same
/// workspace's group down one slot restores the list: the workspace is
/// found again by its id, and the move down is available.
pub proof fn law_down_undoes_up_for_groups(ws: Seq<Workspace>, w: int)
    requires
        ws.len() <= usize::MAX,
        0 <= w < ws.len(),
        workspace_ids_unique(ws),
        explicitly_grouped(ws),
        groups_in_order(ws),
        reorder_plan_spec(ws, w, WorkspaceReorderDirection::Up) is Some,
    ensures
        reorder_plan_spec(ws, w, WorkspaceReorderDirection::Up) matches Some((head, target)) && ({
            let up = planned_workspaces(ws, head, target);
            ws_index_of(up, ws[w].id@) matches Some(w2)
                && reorder_plan_spec(up, w2 as int, WorkspaceReorderDirection::Down) matches Some((head2, target2))
                && planned_workspaces(up, head2, target2) == ws
        }),
{
    let (a, b, c) = lemma_groups_moved_up(ws, w);
    lemma_swap_parents(ws, a, b, c);
    lemma_up_then_down(ws, w, a, b, c);
}

} // verus!
