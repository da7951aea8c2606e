//! What the client shell's reorder and picker keep: a nested workspace moves
//! its whole group, and the picker's selection never leaves its entries.

use vstd::prelude::*;
use crate::client::{move_method_spec, open_picker, reorder_method_spec, route_effect, ClientShellAction, ClientShellState};
use crate::keys::KeyCode;
use crate::protocol::MethodView;
use crate::grouping::{
    first_index_of_id, first_index_of_id_from, first_pos, group_block_spec, group_parent_spec,
    lemma_first_index_in_range, lemma_first_pos, top_level_ids_upto,
    group_root_spec, ClientShellWorkspace,
};
use crate::grouping_laws::{chains_end, law_grouping_has_two_levels};
use crate::picker::{moved_selection, ClientMoveWorkspaceOverlay};
use crate::picker_layout::{first_row_spec, picker_rows_spec, visible_rows_spec, MAX_PICKER_ROWS};
use crate::layout::Area;

verus! {

/// No two workspaces share an id.
pub open spec fn ids_unique(ws: Seq<ClientShellWorkspace>) -> bool {
    forall|a: int, b: int| 0 <= a < ws.len() && 0 <= b < ws.len() && a != b ==>
        #[trigger] ws[a].workspace_id@ != #[trigger] ws[b].workspace_id@
}

/// With distinct ids, looking a workspace's id up finds that workspace.
pub proof fn lemma_unique_index_from(ws: Seq<ClientShellWorkspace>, i: int, k: int)
    requires
        ids_unique(ws),
        0 <= k <= i < ws.len(),
    ensures
        first_index_of_id_from(ws, ws[i].workspace_id@, k) == Some(i as usize),
    decreases i - k,
{
    if k < i {
        assert(ws[k].workspace_id@ != ws[i].workspace_id@);
        lemma_unique_index_from(ws, i, k + 1);
    }
}

/// Keyboard reorder uses the sidebar's grouping: with distinct ids and no
/// grouping cycle, reordering a nested workspace asks for exactly the move
/// that reordering the row heading its group asks for.
pub proof fn law_nested_workspace_reorders_its_group(ws: Seq<ClientShellWorkspace>, i: int, up: bool)
    requires
        ws.len() <= usize::MAX,
        0 <= i < ws.len(),
        ids_unique(ws),
        chains_end(ws),
    ensures
        group_parent_spec(ws, i) matches Some(root) ==>
            reorder_method_spec(ws, ws[i].workspace_id@, up)
                == reorder_method_spec(ws, ws[root as int].workspace_id@, up),
{
    if let Some(root) = group_parent_spec(ws, i) {
        law_grouping_has_two_levels(ws, i);
        lemma_unique_index_from(ws, i, 0);
        lemma_unique_index_from(ws, root as int, 0);
        assert(first_index_of_id(ws, ws[i].workspace_id@) == Some(i as usize));
        assert(first_index_of_id(ws, ws[root as int].workspace_id@) == Some(root));
        assert(group_root_spec(ws, i) == root as int);
        assert(group_root_spec(ws, root as int) == root as int);
        assert(group_block_spec(ws, ws[i].workspace_id@) == group_block_spec(ws, ws[root as int].workspace_id@));
    }
}

/// Moving the picker's selection keeps it on an entry: from a selection
/// within the entries, any move lands within them.
pub proof fn law_picker_selection_stays_in_range(selected: usize, delta: isize, len: nat)
    requires
        selected < len,
    ensures
        moved_selection(selected, delta, len) < len,
{
}

/// The picker shows a window of consecutive candidates that always holds the
/// selection: at most eight rows, entries `first`, `first + 1`, ... in order,
/// with `first` the selection less seven (or zero), cut at the last entry.
pub proof fn law_picker_window_holds_the_selection(overlay: ClientMoveWorkspaceOverlay, inner: Area)
    requires
        overlay.selected < overlay.entries@.len(),
    ensures
        ({
            let rows = picker_rows_spec(overlay, inner);
            let len = overlay.entries@.len();
            let first = first_row_spec(overlay.selected, visible_rows_spec(len));
            &&& rows.len() <= MAX_PICKER_ROWS
            &&& rows.len() == if len - first < visible_rows_spec(len) { len - first } else { visible_rows_spec(len) as int }
            &&& forall|j: int| 0 <= j < rows.len() ==> (#[trigger] rows[j]).1 == first + j
            &&& first <= overlay.selected < first + rows.len()
        }),
{
}

/// With the picker open and no request in flight, the arrows choose as `j`
/// and `k` do: Down moves the selection one row down and Up one row up,
/// held at the first and last entries; the window repaints, nothing is
/// queued, and only the selection changes.
pub proof fn law_arrows_choose_like_j_and_k(
    s0: ClientShellState,
    s1: ClientShellState,
    a0: Seq<ClientShellAction>,
    a1: Seq<ClientShellAction>,
    r0: bool,
    r1: bool,
    code: KeyCode,
)
    requires
        open_picker(s0) matches Some(p) && !p.moving && p.selected < p.entries@.len() <= usize::MAX,
        code == KeyCode::Down || code == KeyCode::Char('j') || code == KeyCode::Up || code == KeyCode::Char('k'),
        route_effect(s0, s1, a0, a1, r0, r1, code),
    ensures
        ({
            let p = open_picker(s0).unwrap();
            let down = code == KeyCode::Down || code == KeyCode::Char('j');
            &&& open_picker(s1) matches Some(q) && q.selected == (if down {
                    if p.selected + 1 < p.entries@.len() { p.selected + 1 } else { p.selected as int }
                } else {
                    if p.selected >= 1 { p.selected - 1 } else { 0 }
                })
                && q.entries == p.entries && q.workspace_id == p.workspace_id && !q.moving
            &&& r1
            &&& a1 == a0
            &&& s1.mode == s0.mode
        }),
{
    let p = open_picker(s0).unwrap();
    let down = code == KeyCode::Down || code == KeyCode::Char('j');
    let delta: isize = if code == KeyCode::Up || code == KeyCode::Char('k') { -1isize } else { 1isize };
    assert(down <==> delta == 1isize);
    let q = open_picker(s1).unwrap();
    assert(q.selected == moved_selection(p.selected, delta, p.entries@.len()));
    let len = p.entries@.len();
    if down {
        assert(delta as int == 1);
        assert(moved_selection(p.selected, delta, len) as int == if p.selected + 1 > len - 1 { len - 1 } else { p.selected + 1 });
    } else {
        assert(delta as int == -1);
        assert(moved_selection(p.selected, delta, len) as int == if p.selected - 1 < 0 { 0 } else { p.selected - 1 });
    }
}

/// The top-level order after the row at position `p` moves to land before
/// the row `landing` (or at the end when there is none).
pub open spec fn roots_after_landing(roots: Seq<Seq<char>>, p: int, landing: Option<Seq<char>>) -> Seq<Seq<char>> {
    let rest = roots.remove(p);
    let at = match landing {
        Some(l) => match first_pos(rest, l, 0) {
            Some(q) => q,
            None => rest.len() as int,
        },
        None => rest.len() as int,
    };
    rest.insert(at, roots[p])
}

/// The workspace a move request lands its rows before: the one at the
/// insert index of a single move, the named one of a block move; none at
/// the end.
pub open spec fn move_landing(ws: Seq<ClientShellWorkspace>, m: MethodView) -> Option<Seq<char>> {
    match m {
        MethodView::WorkspaceMove(_, insert) => if insert < ws.len() { Some(ws[insert as int].workspace_id@) } else { None },
        MethodView::WorkspaceMoveBlock(_, before) => before,
        _ => None,
    }
}

/// The workspace a move request moves first: the lone workspace, or the
/// head of the block.
pub open spec fn move_subject(m: MethodView) -> Option<Seq<char>> {
    match m {
        MethodView::WorkspaceMove(id, _) => Some(id),
        MethodView::WorkspaceMoveBlock(ids, _) => if ids.len() > 0 { Some(ids[0]) } else { None },
        _ => None,
    }
}

/// `s` with the neighbours at `i` and `i + 1` swapped.
pub open spec fn neighbours_swapped<T>(s: Seq<T>, i: int) -> Seq<T> {
    s.update(i, s[i + 1]).update(i + 1, s[i])
}

/// Each top-level id is the id of a top-level workspace below `k`, found by
/// id, and the rows list them in increasing index order.
proof fn lemma_roots_are_top_ids(ws: Seq<ClientShellWorkspace>, k: int)
    requires
        0 <= k <= ws.len(),
        ws.len() <= usize::MAX,
        ids_unique(ws),
    ensures
        forall|m: int| 0 <= m < top_level_ids_upto(ws, k).len() ==>
            ((#[trigger] first_index_of_id(ws, top_level_ids_upto(ws, k)[m])) matches Some(j)
                && j < k && group_parent_spec(ws, j as int) is None
                && ws[j as int].workspace_id@ == top_level_ids_upto(ws, k)[m]),
        forall|a: int, b: int| 0 <= a < b < top_level_ids_upto(ws, k).len() ==>
            first_index_of_id(ws, #[trigger] top_level_ids_upto(ws, k)[a]).unwrap()
                < first_index_of_id(ws, #[trigger] top_level_ids_upto(ws, k)[b]).unwrap(),
    decreases k,
{
    if k > 0 {
        lemma_roots_are_top_ids(ws, k - 1);
        let prev = top_level_ids_upto(ws, k - 1);
        let t = top_level_ids_upto(ws, k);
        if group_parent_spec(ws, k - 1) is None {
            assert(t == prev.push(ws[k - 1].workspace_id@));
            lemma_unique_index_from(ws, k - 1, 0);
            assert forall|m: int| 0 <= m < t.len() implies
                ((#[trigger] first_index_of_id(ws, t[m])) matches Some(j)
                    && j < k && group_parent_spec(ws, j as int) is None && ws[j as int].workspace_id@ == t[m]) by {
                if m < prev.len() {
                    assert(t[m] == prev[m]);
                    assert(first_index_of_id(ws, prev[m]) is Some);
                }
            }
            assert forall|a: int, b: int| 0 <= a < b < t.len() implies
                first_index_of_id(ws, #[trigger] t[a]).unwrap() < first_index_of_id(ws, #[trigger] t[b]).unwrap() by {
                assert(t[a] == prev[a]);
                assert(first_index_of_id(ws, prev[a]) is Some);
                if b < prev.len() {
                    assert(t[b] == prev[b]);
                }
            }
        } else {
            assert(t == prev);
        }
    }
}

proof fn lemma_first_pos_at(s: Seq<Seq<char>>, x: Seq<char>, k: int, q: int)
    requires
        0 <= k <= q < s.len(),
        s[q] == x,
        forall|j: int| k <= j < q ==> s[j] != x,
    ensures
        first_pos(s, x, k) == Some(q),
    decreases q - k,
{
    if k < q {
        lemma_first_pos_at(s, x, k + 1, q);
    }
}

/// The landing of a move toward the top-level id `target`: that workspace.
proof fn lemma_landing_on(ws: Seq<ClientShellWorkspace>, r: Seq<char>, target: Seq<char>, j: int)
    requires
        ws.len() <= usize::MAX,
        0 <= j < ws.len(),
        ws[j].workspace_id@ == target,
        group_block_spec(ws, r) is Some,
    ensures
        move_method_spec(ws, r, Some(target)) matches Some(m) && move_landing(ws, m) == Some(target),
{
    lemma_first_index_in_range(ws, target, 0);
}

/// Moving a project one slot swaps its top-level row with the neighbouring
/// one: with distinct ids, for the top-level row `r` that `source` belongs
/// to, at position `p` among the top-level rows, the previous/next keybind
/// asks to move `r` (alone or heading its block) so that, landing where the
/// request says, `r` and its upper (or lower) neighbour trade places and
/// every other top-level row stays put. At the top (or bottom) nothing is
/// asked.
pub proof fn law_reorder_swaps_neighbouring_rows(ws: Seq<ClientShellWorkspace>, source: Seq<char>, up: bool)
    requires
        ws.len() <= usize::MAX,
        ids_unique(ws),
    ensures
        ({
            let roots = top_level_ids_upto(ws, ws.len() as int);
            match group_block_spec(ws, source) {
                Some((r, _)) => match first_pos(roots, r, 0) {
                    Some(p) => {
                        let q = if up { p - 1 } else { p };
                        if 0 <= q && q + 1 < roots.len() {
                            reorder_method_spec(ws, source, up) matches Some(m)
                                && move_subject(m) == Some(r)
                                && roots_after_landing(roots, p, move_landing(ws, m)) == neighbours_swapped(roots, q)
                        } else {
                            reorder_method_spec(ws, source, up) is None
                        }
                    },
                    None => true,
                },
                None => true,
            }
        }),
{
    let n = ws.len() as int;
    let roots = top_level_ids_upto(ws, n);
    if let Some((r, _)) = group_block_spec(ws, source) {
        if let Some(p) = first_pos(roots, r, 0) {
            lemma_first_pos(roots, r, 0);
            lemma_roots_are_top_ids(ws, n);
            let q = if up { p - 1 } else { p };
            if 0 <= q && q + 1 < roots.len() {
                // r is the id of a top-level workspace: its own group root.
                assert(first_index_of_id(ws, roots[p]) is Some);
                let jr = first_index_of_id(ws, r).unwrap() as int;
                assert(group_root_spec(ws, jr) == jr);
                assert(group_block_spec(ws, r) is Some);
                let rest = roots.remove(p);
                let t = if up { p - 1 } else { p + 2 };
                let target = if t < roots.len() { Some(roots[t]) } else { None };
                assert(reorder_method_spec(ws, source, up) == move_method_spec(ws, r, target));
                let m = move_method_spec(ws, r, target).unwrap();
                assert(move_subject(m) == Some(r));
                if t < roots.len() {
                    assert(first_index_of_id(ws, roots[t]) is Some);
                    let jt = first_index_of_id(ws, roots[t]).unwrap() as int;
                    lemma_landing_on(ws, r, roots[t], jt);
                    let at = if up { p - 1 } else { p + 1 };
                    assert(rest[at] == roots[t]);
                    assert forall|j: int| 0 <= j < at implies rest[j] != roots[t] by {
                        let o = if j < p { j } else { j + 1 };
                        assert(rest[j] == roots[o]);
                        assert(first_index_of_id(ws, roots[o]) is Some);
                        if o < t {
                            assert(first_index_of_id(ws, roots[o]).unwrap() < first_index_of_id(ws, roots[t]).unwrap());
                        } else {
                            assert(first_index_of_id(ws, roots[t]).unwrap() < first_index_of_id(ws, roots[o]).unwrap());
                        }
                    }
                    lemma_first_pos_at(rest, roots[t], 0, at);
                    assert(rest.insert(at, roots[p]) =~= neighbours_swapped(roots, q));
                } else {
                    assert(move_landing(ws, m) is None);
                    assert(rest.insert(rest.len() as int, roots[p]) =~= neighbours_swapped(roots, q));
                }
                assert(roots_after_landing(roots, p, move_landing(ws, m)) == neighbours_swapped(roots, q));
            } else {
                assert(reorder_method_spec(ws, source, up) is None);
            }
        }
    }
}

} // verus!
