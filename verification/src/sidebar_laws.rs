//! What the expanded sidebar's layout keeps: its rows are the sidebar
//! entries from the scroll offset on, in order, each inside the list body.

use vstd::prelude::*;
use crate::grouping::{parent_group_key_spec, ClientShellSnapshot, WorkspaceEntry};
use crate::layout::{area_spec, sat_add, Area};
use crate::sidebar_layout::{gap_after, row_height_bound, row_height_spec, row_lines_spec, rows_from, SidebarRowView};

verus! {

/// Whether `row` is laid out for entry `entry` of `snapshot` inside `body`:
/// same workspace and indentation, a collapse toggle keyed exactly when the
/// workspace heads a group, and a rectangle within the body.
pub open spec fn row_for_entry(snapshot: ClientShellSnapshot, row: SidebarRowView, entry: WorkspaceEntry, body: Area) -> bool {
    let key = parent_group_key_spec(snapshot.workspaces@, entry.index as int);
    &&& row.entry == entry
    &&& row.workspace_id == snapshot.workspaces@[entry.index as int].workspace_id@
    &&& (row.group_toggle is Some <==> key is Some)
    &&& (row.group_toggle matches Some(t) ==> key == Some(t.1))
    &&& row.rect.x == body.x
    &&& row.rect.width <= body.width
    &&& body.y <= row.rect.y
    &&& sat_add(row.rect.y, row.rect.height) <= body.bottom_spec()
}

/// The sidebar shows the entries from the scroll offset on: with any scroll
/// `pos` and first line `y` inside the body, the rows laid out are, in
/// order, for the entries `pos`, `pos + 1`, ..., never more than remain,
/// and each lies inside the body.
pub proof fn law_sidebar_rows_follow_the_entries(
    snapshot: ClientShellSnapshot,
    collapsed: Seq<String>,
    selected: Option<Seq<char>>,
    dragged: Option<Seq<char>>,
    body: Area,
    row_gap: u16,
    entries: Seq<WorkspaceEntry>,
    pos: int,
    y: u16,
)
    requires
        0 <= pos,
        body.y <= y,
        row_height_bound(body) + row_gap <= u16::MAX,
    ensures
        ({
            let rows = rows_from(snapshot, collapsed, selected, dragged, body, row_gap, entries, pos, y);
            &&& rows.len() <= if pos <= entries.len() { entries.len() - pos } else { 0 }
            &&& forall|j: int| 0 <= j < rows.len() ==> row_for_entry(snapshot, #[trigger] rows[j], entries[pos + j], body)
        }),
    decreases entries.len() - pos,
{
    let rows = rows_from(snapshot, collapsed, selected, dragged, body, row_gap, entries, pos, y);
    if pos < entries.len() {
        let entry = entries[pos];
        let w = snapshot.workspaces@[entry.index as int];
        let height = row_height_spec(row_lines_spec(w, entry).len(), body);
        if sat_add(y, height) <= body.bottom_spec() {
            let next = sat_add(y, (height + gap_after(entries, pos, row_gap)) as u16);
            law_sidebar_rows_follow_the_entries(snapshot, collapsed, selected, dragged, body, row_gap, entries, pos + 1, next);
            let rest = rows_from(snapshot, collapsed, selected, dragged, body, row_gap, entries, pos + 1, next);
            assert(rows == seq![rows[0]] + rest);
            assert forall|j: int| 0 <= j < rows.len() implies row_for_entry(snapshot, #[trigger] rows[j], entries[pos + j], body) by {
                if j > 0 {
                    assert(rows[j] == rest[j - 1]);
                    assert(entries[pos + j] == entries[(pos + 1) + (j - 1)]);
                } else {
                    let rect = area_spec(body.x, y, body.width, height);
                    assert(rows[0].rect == rect);
                }
            }
        }
    }
}

} // verus!
