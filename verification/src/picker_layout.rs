//! Where the move-to-workspace picker draws: its size, title, the window of
//! candidate rows that keeps the selection in view, and the status line.

use vstd::prelude::*;
use crate::layout::{area_spec, Area};
use crate::picker::ClientMoveWorkspaceOverlay;

verus! {

/// The picker shows at most this many candidate rows at once.
pub const MAX_PICKER_ROWS: usize = 8;

/// The picker's fixed width.
pub const PICKER_WIDTH: u16 = 64;

/// How many candidate rows show: the entries, between one and the maximum.
pub open spec fn visible_rows_spec(len: nat) -> nat {
    if len < 1 { 1 } else if len > MAX_PICKER_ROWS { MAX_PICKER_ROWS as nat } else { len }
}

/// The first entry shown, so that the selected one is the last row at most.
pub open spec fn first_row_spec(selected: usize, visible: nat) -> int {
    if selected < visible - 1 { 0 } else { selected - (visible - 1) }
}

/// How many candidate rows show.
pub fn visible_rows(len: usize) -> (visible: usize)
    ensures
        visible == visible_rows_spec(len as nat),
{
    if len < 1 {
        1
    } else if len > MAX_PICKER_ROWS {
        MAX_PICKER_ROWS
    } else {
        len
    }
}

/// The size the picker asks for: fixed width, and room for the title,
/// subtitle, rows, status line and buttons.
pub fn move_picker_size(overlay: &ClientMoveWorkspaceOverlay) -> (size: (u16, u16))
    ensures
        size.0 == PICKER_WIDTH,
        size.1 == visible_rows_spec(overlay.entries@.len()) + 8,
{
    let visible = visible_rows(overlay.entries.len());
    (PICKER_WIDTH, visible as u16 + 8)
}

/// Which note the status line shows.
#[derive(Clone, Copy, Debug, PartialEq, Eq, Structural)]
pub enum PickerStatusKind {
    /// A reparent is in flight.
    Moving,
    /// The server refused the last one.
    Error,
    /// How to choose.
    Hint,
}

/// One candidate row of the picker.
#[derive(Clone, Debug, PartialEq, Eq)]
pub struct PickerRowLayout {
    pub rect: Area,
    /// Index of the entry in the overlay's candidates.
    pub index: usize,
    /// `" ▸ label"` for the selected entry, `"   label"` for the others.
    pub text: String,
    pub selected: bool,
}

/// The picker's contents, placed inside its panel.
#[derive(Clone, Debug, PartialEq, Eq)]
pub struct MovePickerLayout {
    pub title: String,
    pub subtitle: String,
    pub rows: Vec<PickerRowLayout>,
    pub status_y: u16,
    pub status_kind: PickerStatusKind,
    pub status_text: String,
    /// The labels of the two buttons on the panel's last line: commit, cancel.
    pub primary_button: String,
    pub cancel_button: String,
}

/// The title line.
pub open spec fn picker_title_spec(label: Seq<char>) -> Seq<char> {
    " move "@ + label + " to…"@
}

/// The text of a candidate row.
pub open spec fn picker_row_text_spec(label: Seq<char>, selected: bool) -> Seq<char> {
    (if selected { " ▸ "@ } else { "   "@ }) + label
}

/// The rows shown, by value: (rectangle, entry index, text, selected).
pub open spec fn picker_rows_spec(overlay: ClientMoveWorkspaceOverlay, inner: Area) -> Seq<(Area, usize, Seq<char>, bool)> {
    let len = overlay.entries@.len();
    let visible = visible_rows_spec(len);
    let first = first_row_spec(overlay.selected, visible);
    let count = if first >= len { 0 } else if len - first < visible { len - first } else { visible as int };
    Seq::new(count as nat, |offset: int| {
        let index = first + offset;
        (
            area_spec(inner.x, (inner.y + 3 + offset) as u16, inner.width, 1),
            index as usize,
            picker_row_text_spec(overlay.entries@[index].label@, index == overlay.selected),
            index == overlay.selected,
        )
    })
}

/// The view of laid-out picker rows.
pub open spec fn picker_rows_view(rows: Seq<PickerRowLayout>) -> Seq<(Area, usize, Seq<char>, bool)> {
    rows.map_values(|r: PickerRowLayout| (r.rect, r.index, r.text@, r.selected))
}

/// The status line: in flight, the server's refusal, or the hint.
pub open spec fn picker_status_spec(overlay: ClientMoveWorkspaceOverlay) -> (PickerStatusKind, Seq<char>) {
    if overlay.moving {
        (PickerStatusKind::Moving, " moving…"@)
    } else {
        match overlay.error {
            Some(e) => (PickerStatusKind::Error, " "@ + e@),
            None => (PickerStatusKind::Hint, " ↑/↓ or j/k to choose"@),
        }
    }
}

fn row_text(label: &String, selected: bool) -> (text: String)
    ensures
        text@ == picker_row_text_spec(label@, selected),
{
    let mut text = if selected { " ▸ ".to_owned() } else { "   ".to_owned() };
    text.append(label.as_str());
    text
}

/// Lays out the picker inside `inner`, its panel's interior: the title on
/// the first line, the subtitle on the second, candidate rows from the
/// fourth, scrolled so the selected row shows, then the status line; the
/// buttons' labels go on the last line.
pub fn move_picker_layout(overlay: &ClientMoveWorkspaceOverlay, inner: Area) -> (layout: MovePickerLayout)
    requires
        inner.y + 3 + visible_rows_spec(overlay.entries@.len()) <= u16::MAX,
    ensures
        layout.title@ == picker_title_spec(overlay.label@),
        layout.subtitle@ == " Pick the workspace to file it under."@,
        picker_rows_view(layout.rows@) == picker_rows_spec(*overlay, inner),
        layout.status_y == inner.y + 3 + visible_rows_spec(overlay.entries@.len()),
        (layout.status_kind, layout.status_text@) == picker_status_spec(*overlay),
        layout.primary_button@ == " ↵ move "@,
        layout.cancel_button@ == " esc cancel "@,
{
    let mut title = " move ".to_owned();
    title.append(overlay.label.as_str());
    title.append(" to…");
    let len = overlay.entries.len();
    let visible = visible_rows(len);
    let first = if overlay.selected < visible - 1 { 0 } else { overlay.selected - (visible - 1) };
    let ghost expected = picker_rows_spec(*overlay, inner);
    let mut rows: Vec<PickerRowLayout> = Vec::new();
    let mut offset: usize = 0;
    while offset < visible && first + offset < len
        invariant
            inner.y + 3 + visible <= u16::MAX,
            len == overlay.entries@.len(),
            visible == visible_rows_spec(len as nat),
            first == first_row_spec(overlay.selected, visible as nat),
            offset <= visible,
            first + offset <= len || offset == 0,
            expected == picker_rows_spec(*overlay, inner),
            picker_rows_view(rows@) == expected.take(offset as int),
            offset <= expected.len(),
        decreases visible - offset,
    {
        let index = first + offset;
        let selected = index == overlay.selected;
        let text = row_text(&overlay.entries[index].label, selected);
        let rect = Area::new(inner.x, inner.y + 3 + offset as u16, inner.width, 1);
        let ghost before = rows@;
        rows.push(PickerRowLayout { rect, index, text, selected });
        proof {
            assert(picker_rows_view(rows@) =~= picker_rows_view(before).push(expected[offset as int]));
            assert(expected.take(offset + 1) =~= expected.take(offset as int).push(expected[offset as int]));
        }
        offset += 1;
    }
    assert(offset == expected.len());
    assert(expected.take(offset as int) =~= expected);
    let (status_kind, status_text) = if overlay.moving {
        (PickerStatusKind::Moving, " moving…".to_owned())
    } else {
        match &overlay.error {
            Some(e) => {
                let mut t = " ".to_owned();
                t.append(e.as_str());
                (PickerStatusKind::Error, t)
            },
            None => (PickerStatusKind::Hint, " ↑/↓ or j/k to choose".to_owned()),
        }
    };
    MovePickerLayout {
        title,
        subtitle: " Pick the workspace to file it under.".to_owned(),
        rows,
        status_y: inner.y + 3 + visible as u16,
        status_kind,
        status_text,
        primary_button: " ↵ move ".to_owned(),
        cancel_button: " esc cancel ".to_owned(),
    }
}

} // verus!
