//! Screen geometry and colour choices of the sidebar, computed here and
//! drawn by the host: the collapsed sidebar's sections and rows, the toggle
//! and divider hit areas, and the left-edge session markers.

use vstd::prelude::*;
use crate::grouping::ClientShellSnapshot;
use crate::protocol::AgentStatus;

verus! {

/// A screen rectangle. Constructed through [`Area::new`], its right and
/// bottom edges never pass `u16::MAX`.
#[derive(Clone, Copy, Debug, PartialEq, Eq, Structural)]
pub struct Area {
    pub x: u16,
    pub y: u16,
    pub width: u16,
    pub height: u16,
}

/// The rectangle `Area::new` builds: width and height clamped so the right
/// and bottom edges stay within `u16`.
pub open spec fn area_spec(x: u16, y: u16, width: u16, height: u16) -> Area {
    Area {
        x,
        y,
        width: if width > u16::MAX - x { (u16::MAX - x) as u16 } else { width },
        height: if height > u16::MAX - y { (u16::MAX - y) as u16 } else { height },
    }
}

/// `a + b`, saturating at `u16::MAX`.
pub open spec fn sat_add(a: u16, b: u16) -> u16 {
    if a + b > u16::MAX { u16::MAX } else { (a + b) as u16 }
}

/// `a - b`, saturating at zero.
pub open spec fn sat_sub(a: u16, b: u16) -> u16 {
    if a < b { 0 } else { (a - b) as u16 }
}

impl Area {
    /// A rectangle, clamped so its right and bottom edges fit in `u16`.
    pub fn new(x: u16, y: u16, width: u16, height: u16) -> (area: Self)
        ensures
            area == area_spec(x, y, width, height),
    {
        let max_width = u16::MAX - x;
        let max_height = u16::MAX - y;
        Area {
            x,
            y,
            width: if width > max_width { max_width } else { width },
            height: if height > max_height { max_height } else { height },
        }
    }

    /// The empty rectangle at the origin.
    pub fn zero() -> (area: Self)
        ensures
            area == (Area { x: 0, y: 0, width: 0, height: 0 }),
    {
        Area { x: 0, y: 0, width: 0, height: 0 }
    }

    pub open spec fn is_empty_spec(&self) -> bool {
        self.width == 0 || self.height == 0
    }

    /// Whether the rectangle covers no cell.
    #[verifier::when_used_as_spec(is_empty_spec)]
    pub fn is_empty(&self) -> (empty: bool)
        ensures
            empty == self.is_empty_spec(),
    {
        self.width == 0 || self.height == 0
    }

    pub open spec fn right_spec(&self) -> u16 {
        sat_add(self.x, self.width)
    }

    /// The column just right of the rectangle.
    #[verifier::when_used_as_spec(right_spec)]
    pub fn right(&self) -> (right: u16)
        ensures
            right == self.right_spec(),
    {
        self.x.saturating_add(self.width)
    }

    pub open spec fn bottom_spec(&self) -> u16 {
        sat_add(self.y, self.height)
    }

    /// The row just below the rectangle.
    #[verifier::when_used_as_spec(bottom_spec)]
    pub fn bottom(&self) -> (bottom: u16)
        ensures
            bottom == self.bottom_spec(),
    {
        self.y.saturating_add(self.height)
    }
}

/// A terminal colour, as themes name them.
#[derive(Clone, Copy, Debug, PartialEq, Eq, Structural)]
pub enum ThemeColor {
    Reset,
    Black,
    Red,
    Green,
    Yellow,
    Blue,
    Magenta,
    Cyan,
    Gray,
    DarkGray,
    LightRed,
    LightGreen,
    LightYellow,
    LightBlue,
    LightMagenta,
    LightCyan,
    White,
    Rgb(u8, u8, u8),
    Indexed(u8),
}

/// The theme colours the sidebar and the picker use.
#[derive(Clone, Copy, Debug, PartialEq, Eq, Structural)]
pub struct Palette {
    pub accent: ThemeColor,
    pub text: ThemeColor,
    pub subtext0: ThemeColor,
    pub overlay0: ThemeColor,
    pub overlay1: ThemeColor,
    pub surface0: ThemeColor,
    pub surface1: ThemeColor,
    pub surface_dim: ThemeColor,
    pub mauve: ThemeColor,
    pub red: ThemeColor,
    pub yellow: ThemeColor,
    pub green: ThemeColor,
    pub panel_bg: ThemeColor,
    pub sidebar_bg: ThemeColor,
    pub selection_bg: ThemeColor,
    pub active_row_bg: ThemeColor,
}

/// Background for the hovered row: a theme that leaves `selection_bg` unset
/// would show the hovered row faintly or not at all, so then the brightest
/// surface is used; a theme that sets one keeps it.
pub open spec fn hovered_row_background_spec(palette: Palette) -> ThemeColor {
    if palette.selection_bg == ThemeColor::Reset { palette.surface1 } else { palette.selection_bg }
}

/// Background for the hovered row.
pub fn hovered_row_background(palette: &Palette) -> (color: ThemeColor)
    ensures
        color == hovered_row_background_spec(*palette),
{
    if palette.selection_bg == ThemeColor::Reset {
        palette.surface1
    } else {
        palette.selection_bg
    }
}

/// Colour a status is drawn in.
pub open spec fn status_color_spec(status: AgentStatus, palette: Palette) -> ThemeColor {
    match status {
        AgentStatus::Blocked => palette.red,
        AgentStatus::Working => palette.yellow,
        AgentStatus::Done => palette.green,
        AgentStatus::Idle => palette.overlay0,
        AgentStatus::Unknown => palette.overlay0,
    }
}

/// Colour a status is drawn in: blocked red, working yellow, done green.
pub fn status_color(status: AgentStatus, palette: &Palette) -> (color: ThemeColor)
    ensures
        color == status_color_spec(status, *palette),
{
    match status {
        AgentStatus::Blocked => palette.red,
        AgentStatus::Working => palette.yellow,
        AgentStatus::Done => palette.green,
        AgentStatus::Idle => palette.overlay0,
        AgentStatus::Unknown => palette.overlay0,
    }
}

/// The colours of an expanded-sidebar workspace row.
#[derive(Clone, Copy, Debug, PartialEq, Eq, Structural)]
pub struct RowColors {
    /// The row's background, if it has one of its own.
    pub background: Option<ThemeColor>,
    /// The workspace name's colour, and whether it is bold.
    pub primary: ThemeColor,
    pub bold: bool,
    /// The colour of secondary details such as the branch.
    pub secondary: ThemeColor,
}

/// A row's colours: the hovered row's background wins, then the dragged
/// row's, then the focused row's; a focused or dragged row's name is bright
/// and bold, and a focused row's details take the accent.
pub open spec fn row_colors_spec(selected: bool, dragged: bool, focused: bool, palette: Palette) -> RowColors {
    RowColors {
        background: if selected {
            Some(hovered_row_background_spec(palette))
        } else if dragged {
            Some(palette.surface1)
        } else if focused {
            Some(palette.active_row_bg)
        } else {
            None
        },
        primary: if focused || dragged { palette.text } else { palette.subtext0 },
        bold: focused || dragged,
        secondary: if focused { palette.mauve } else { palette.overlay0 },
    }
}

/// A row's colours.
pub fn row_colors(selected: bool, dragged: bool, focused: bool, palette: &Palette) -> (colors: RowColors)
    ensures
        colors == row_colors_spec(selected, dragged, focused, *palette),
{
    let background = if selected {
        Some(hovered_row_background(palette))
    } else if dragged {
        Some(palette.surface1)
    } else if focused {
        Some(palette.active_row_bg)
    } else {
        None
    };
    RowColors {
        background,
        primary: if focused || dragged { palette.text } else { palette.subtext0 },
        bold: focused || dragged,
        secondary: if focused { palette.mauve } else { palette.overlay0 },
    }
}

/// The glyph a status is drawn as: blocked `!`, working `●`, done `✓`,
/// otherwise `○`.
pub open spec fn status_glyph_spec(status: AgentStatus) -> Seq<char> {
    match status {
        AgentStatus::Blocked => "!"@,
        AgentStatus::Working => "●"@,
        AgentStatus::Done => "✓"@,
        AgentStatus::Idle => "○"@,
        AgentStatus::Unknown => "○"@,
    }
}

/// The glyph a status is drawn as.
pub fn status_glyph(status: AgentStatus) -> (glyph: &'static str)
    ensures
        glyph@ == status_glyph_spec(status),
{
    match status {
        AgentStatus::Blocked => "!",
        AgentStatus::Working => "●",
        AgentStatus::Done => "✓",
        AgentStatus::Idle => "○",
        AgentStatus::Unknown => "○",
    }
}

/// The collapsed sidebar's sections: the workspace list on top, a divider
/// row, and the agent list below; the last column is the separator. Too
/// short a sidebar has no divider and no agent list.
pub open spec fn collapsed_sections_spec(area: Area) -> (Area, Option<u16>, Area) {
    let content = area_spec(area.x, area.y, sat_sub(area.width, 1), area.height);
    let zero = Area { x: 0, y: 0, width: 0, height: 0 };
    if content.width == 0 || content.height == 0 {
        (zero, None, zero)
    } else if content.height < 7 {
        (content, None, zero)
    } else {
        let workspace_height = ((content.height + 1) / 2) as u16;
        let divider_y = (content.y + workspace_height) as u16;
        let detail_height = sat_sub(content.height, (workspace_height + 1) as u16);
        (
            area_spec(content.x, content.y, content.width, workspace_height),
            Some(divider_y),
            area_spec(content.x, (divider_y + 1) as u16, content.width, detail_height),
        )
    }
}

/// The collapsed sidebar's sections.
pub fn collapsed_sidebar_sections(area: Area) -> (sections: (Area, Option<u16>, Area))
    ensures
        sections == collapsed_sections_spec(area),
{
    let content = Area::new(area.x, area.y, area.width.saturating_sub(1), area.height);
    if content.is_empty() {
        return (Area::zero(), None, Area::zero());
    }
    if content.height < 7 {
        return (content, None, Area::zero());
    }
    let workspace_height = content.height / 2 + content.height % 2;
    assert(workspace_height == (content.height + 1) / 2);
    let divider_y = content.y + workspace_height;
    let detail_height = content.height.saturating_sub(workspace_height + 1);
    (
        Area::new(content.x, content.y, content.width, workspace_height),
        Some(divider_y),
        Area::new(content.x, divider_y + 1, content.width, detail_height),
    )
}

/// Where the collapsed sidebar's expand toggle sits: centred under the
/// workspace column, on the last row.
pub open spec fn collapsed_toggle_spec(area: Area, workspace_area: Area) -> Area {
    if area.width == 0 || area.height == 0 || workspace_area.width == 0 {
        Area { x: 0, y: 0, width: 0, height: 0 }
    } else {
        area_spec(sat_add(workspace_area.x, workspace_area.width / 2), sat_sub(area.bottom_spec(), 1), 1, 1)
    }
}

/// Where the collapsed sidebar's expand toggle sits.
pub fn collapsed_sidebar_toggle(area: Area, workspace_area: Area) -> (toggle: Area)
    ensures
        toggle == collapsed_toggle_spec(area, workspace_area),
{
    if area.is_empty() || workspace_area.width == 0 {
        Area::zero()
    } else {
        Area::new(workspace_area.x.saturating_add(workspace_area.width / 2), area.bottom().saturating_sub(1), 1, 1)
    }
}

/// Where the expanded sidebar's collapse toggle sits: next to the separator
/// on the last row.
pub open spec fn expanded_toggle_spec(area: Area) -> Area {
    area_spec(
        sat_sub(area.right_spec(), 2),
        sat_sub(area.bottom_spec(), 1),
        if area.width > 1 { 1 } else { 0 },
        if area.height > 0 { 1 } else { 0 },
    )
}

/// Where the expanded sidebar's collapse toggle sits.
pub fn expanded_sidebar_toggle(area: Area) -> (toggle: Area)
    ensures
        toggle == expanded_toggle_spec(area),
{
    Area::new(
        area.right().saturating_sub(2),
        area.bottom().saturating_sub(1),
        if area.width > 1 { 1 } else { 0 },
        if area.height > 0 { 1 } else { 0 },
    )
}

/// The sidebar's draggable divider: its last column.
pub open spec fn sidebar_divider_spec(area: Area) -> Area {
    if area.width == 0 || area.height == 0 {
        Area { x: 0, y: 0, width: 0, height: 0 }
    } else {
        area_spec(sat_sub(area.right_spec(), 1), area.y, 1, area.height)
    }
}

/// The sidebar's draggable divider.
pub fn sidebar_divider(area: Area) -> (divider: Area)
    ensures
        divider == sidebar_divider_spec(area),
{
    if area.is_empty() {
        Area::zero()
    } else {
        Area::new(area.right().saturating_sub(1), area.y, 1, area.height)
    }
}

/// The expanded sidebar's footer hit areas on the workspace list's last row:
/// the "new" button at the left, and the global menu launcher at the right,
/// wider while the menu asks for attention.
pub open spec fn sidebar_footer_spec(workspace_area: Area, attention: bool) -> (Area, Area) {
    let footer_y = sat_sub(workspace_area.bottom_spec(), 1);
    let new_width: u16 = if workspace_area.width < 5 { workspace_area.width } else { 5 };
    let wanted: u16 = if attention { 8 } else { 6 };
    let launcher_width: u16 = if workspace_area.width < wanted { workspace_area.width } else { wanted };
    (
        area_spec(workspace_area.x, footer_y, new_width, if workspace_area.height > 0 { 1 } else { 0 }),
        area_spec(sat_sub(workspace_area.right_spec(), launcher_width), footer_y, launcher_width, 1),
    )
}

/// The expanded sidebar's footer hit areas: (new workspace, menu launcher).
pub fn sidebar_footer(workspace_area: Area, attention: bool) -> (footer: (Area, Area))
    ensures
        footer == sidebar_footer_spec(workspace_area, attention),
{
    let footer_y = workspace_area.bottom().saturating_sub(1);
    let new_width: u16 = if workspace_area.width < 5 { workspace_area.width } else { 5 };
    let wanted: u16 = if attention { 8 } else { 6 };
    let launcher_width: u16 = if workspace_area.width < wanted { workspace_area.width } else { wanted };
    (
        Area::new(workspace_area.x, footer_y, new_width, if workspace_area.height > 0 { 1 } else { 0 }),
        Area::new(workspace_area.right().saturating_sub(launcher_width), footer_y, launcher_width, 1),
    )
}

/// Whether a drag's drop indicator on line `row` is drawn: only strictly
/// between the list's header line and its footer line.
pub open spec fn drop_indicator_visible_spec(row: u16, workspace_area: Area) -> bool {
    row >= sat_add(workspace_area.y, 1) && row < sat_sub(workspace_area.bottom_spec(), 1)
}

/// Whether a drop indicator on line `row` is drawn.
pub fn drop_indicator_visible(row: u16, workspace_area: Area) -> (visible: bool)
    ensures
        visible == drop_indicator_visible_spec(row, workspace_area),
{
    row >= workspace_area.y.saturating_add(1) && row < workspace_area.bottom().saturating_sub(1)
}

/// One row of the collapsed sidebar: a workspace's number and status.
#[derive(Clone, Debug, PartialEq, Eq)]
pub struct CollapsedRowLayout {
    pub rect: Area,
    pub workspace_id: String,
    /// The number shown (1-based position).
    pub number: usize,
    pub background: Option<ThemeColor>,
    pub number_fg: ThemeColor,
    pub number_bg: Option<ThemeColor>,
    pub status: AgentStatus,
}

/// The background a selected row uses in the collapsed sidebar: a focused
/// row keeps its active background when the theme sets no selection colour.
pub open spec fn collapsed_selection_bg(focused: bool, palette: Palette) -> ThemeColor {
    if focused && palette.selection_bg == ThemeColor::Reset { palette.active_row_bg } else { palette.selection_bg }
}

/// Whether `row` is the collapsed-sidebar row for workspace `index`.
pub open spec fn collapsed_row_spec(
    row: CollapsedRowLayout,
    snapshot: ClientShellSnapshot,
    selected_id: Option<Seq<char>>,
    workspace_area: Area,
    palette: Palette,
    index: int,
) -> bool {
    let w = snapshot.workspaces@[index];
    let selected = selected_id == Some(w.workspace_id@);
    let selection_bg = collapsed_selection_bg(w.focused, palette);
    &&& row.rect == area_spec(workspace_area.x, sat_add(workspace_area.y, index as u16), workspace_area.width, 1)
    &&& row.workspace_id@ == w.workspace_id@
    &&& row.number == index + 1
    &&& row.status == w.agent_status
    &&& row.background == if selected {
        Some(selection_bg)
    } else if w.focused {
        Some(palette.active_row_bg)
    } else {
        None
    }
    &&& row.number_fg == if selected {
        palette.overlay1
    } else if w.focused {
        palette.text
    } else {
        palette.overlay0
    }
    &&& row.number_bg == if selected {
        Some(selection_bg)
    } else if w.focused {
        Some(palette.active_row_bg)
    } else {
        None
    }
}

/// The collapsed sidebar's workspace rows: one per workspace, in snapshot
/// order, as many as fit in the workspace section.
pub fn collapsed_sidebar_rows(
    snapshot: &ClientShellSnapshot,
    selected_workspace_id: Option<&String>,
    workspace_area: Area,
    palette: &Palette,
) -> (rows: Vec<CollapsedRowLayout>)
    ensures
        rows@.len() == if snapshot.workspaces@.len() < workspace_area.height { snapshot.workspaces@.len() } else { workspace_area.height as nat },
        forall|i: int| 0 <= i < rows@.len() ==> collapsed_row_spec(
            #[trigger] rows@[i],
            *snapshot,
            match selected_workspace_id { Some(s) => Some(s@), None => None },
            workspace_area,
            *palette,
            i,
        ),
{
    let ws = &snapshot.workspaces;
    let count: usize = if ws.len() < workspace_area.height as usize { ws.len() } else { workspace_area.height as usize };
    let mut rows: Vec<CollapsedRowLayout> = Vec::new();
    let mut index: usize = 0;
    while index < count
        invariant
            ws@ == snapshot.workspaces@,
            count <= ws@.len(),
            count <= workspace_area.height,
            index <= count,
            rows@.len() == index,
            forall|i: int| 0 <= i < index ==> collapsed_row_spec(
                #[trigger] rows@[i],
                *snapshot,
                match selected_workspace_id { Some(s) => Some(s@), None => None },
                workspace_area,
                *palette,
                i,
            ),
        decreases count - index,
    {
        let w = &ws[index];
        let rect = Area::new(workspace_area.x, workspace_area.y.saturating_add(index as u16), workspace_area.width, 1);
        let selected = match selected_workspace_id {
            Some(id) => *id == w.workspace_id,
            None => false,
        };
        let selection_bg = if w.focused && palette.selection_bg == ThemeColor::Reset {
            palette.active_row_bg
        } else {
            palette.selection_bg
        };
        let (background, number_fg, number_bg) = if selected {
            (Some(selection_bg), palette.overlay1, Some(selection_bg))
        } else if w.focused {
            (Some(palette.active_row_bg), palette.text, Some(palette.active_row_bg))
        } else {
            (None, palette.overlay0, None)
        };
        let row = CollapsedRowLayout {
            rect,
            workspace_id: w.workspace_id.clone(),
            number: index + 1,
            background,
            number_fg,
            number_bg,
            status: w.agent_status,
        };
        assert(collapsed_row_spec(
            row,
            *snapshot,
            match selected_workspace_id { Some(s) => Some(s@), None => None },
            workspace_area,
            *palette,
            index as int,
        ));
        rows.push(row);
        index += 1;
    }
    rows
}

/// A left-edge session marker of a sidebar row.
#[derive(Clone, Copy, Debug, PartialEq, Eq, Structural)]
pub enum RowMarker {
    /// The arrow on the hovered / navigate-selected row.
    Hovered,
    /// The bar spanning the active workspace.
    Active,
}

/// A marker's glyph: an arrow for the hovered row, a bar for the active one.
pub open spec fn marker_glyph_spec(marker: RowMarker) -> Seq<char> {
    match marker {
        RowMarker::Hovered => "❯"@,
        RowMarker::Active => "▎"@,
    }
}

/// A marker's glyph.
pub fn marker_glyph(marker: RowMarker) -> (glyph: &'static str)
    ensures
        glyph@ == marker_glyph_spec(marker),
{
    match marker {
        RowMarker::Hovered => "❯",
        RowMarker::Active => "▎",
    }
}

/// The colour markers are drawn in: the theme's accent.
pub fn marker_color(palette: &Palette) -> (color: ThemeColor)
    ensures
        color == palette.accent,
{
    palette.accent
}

/// The markers of a row's lines from line `r` on: the arrow on the first
/// line of a selected row, the bar on every other line of an active one,
/// stopping at the row's height or at `list_bottom`, whichever comes first.
pub open spec fn markers_from(y0: u16, row_height: u16, list_bottom: u16, selected: bool, active: bool, r: int) -> Seq<(u16, RowMarker)>
    decreases row_height - r,
{
    if r < 0 || r >= row_height {
        Seq::empty()
    } else {
        let y = sat_add(y0, r as u16);
        if y >= list_bottom {
            Seq::empty()
        } else {
            let here: Seq<(u16, RowMarker)> = if selected && r == 0 {
                seq![(y, RowMarker::Hovered)]
            } else if active {
                seq![(y, RowMarker::Active)]
            } else {
                Seq::empty()
            };
            here + markers_from(y0, row_height, list_bottom, selected, active, r + 1)
        }
    }
}

/// The left-edge markers of one workspace row, drawn after the row text in
/// the row's first cell: the arrow marks only the first line and wins on a
/// row that is both hovered and active; the bar spans every line.
pub fn row_markers(rect: Area, row_height: u16, list_bottom: u16, selected: bool, active: bool) -> (markers: Vec<(u16, RowMarker)>)
    ensures
        markers@ == markers_from(rect.y, row_height, list_bottom, selected, active, 0),
{
    let mut markers: Vec<(u16, RowMarker)> = Vec::new();
    let mut row_index: u16 = 0;
    while row_index < row_height
        invariant
            row_index <= row_height,
            markers@ + markers_from(rect.y, row_height, list_bottom, selected, active, row_index as int)
                == markers_from(rect.y, row_height, list_bottom, selected, active, 0),
        ensures
            markers@ == markers_from(rect.y, row_height, list_bottom, selected, active, 0),
        decreases row_height - row_index,
    {
        let y = rect.y.saturating_add(row_index);
        if y >= list_bottom {
            assert(markers_from(rect.y, row_height, list_bottom, selected, active, row_index as int) == Seq::<(u16, RowMarker)>::empty());
            assert(markers@ + Seq::<(u16, RowMarker)>::empty() == markers@);
            break;
        }
        let ghost before = markers@;
        if selected && row_index == 0 {
            markers.push((y, RowMarker::Hovered));
        } else if active {
            markers.push((y, RowMarker::Active));
        }
        assert(markers@ + markers_from(rect.y, row_height, list_bottom, selected, active, row_index + 1)
            == before + markers_from(rect.y, row_height, list_bottom, selected, active, row_index as int));
        row_index += 1;
        if row_index >= row_height {
            assert(markers_from(rect.y, row_height, list_bottom, selected, active, row_index as int) == Seq::<(u16, RowMarker)>::empty());
            assert(markers@ + Seq::<(u16, RowMarker)>::empty() == markers@);
        }
    }
    markers
}

} // verus!
