//! The expanded sidebar's workspace list: which rows show, where, with what
//! text, status and group toggle. The host draws what this computes.

use vstd::prelude::*;
use vstd::string::StrSliceExecFns;
use crate::grouping::{
    contains_id, contains_string, displayed_status_spec, displayed_workspace_status, entries_spec,
    lemma_entries_in_range, parent_group_key, parent_group_key_spec, workspace_entries,
    ClientShellSnapshot, ClientShellWorkspace, WorkspaceEntry,
};
use crate::layout::{area_spec, sat_add, sat_sub, Area};
use crate::protocol::AgentStatus;

verus! {

/// `s` without the leading `p`, when it starts with it.
pub open spec fn strip_prefix_spec(s: Seq<char>, p: Seq<char>) -> Seq<char> {
    if p.len() <= s.len() && s.take(p.len() as int) == p {
        s.skip(p.len() as int)
    } else {
        s
    }
}

/// `s` without the leading `p`, when it starts with it.
pub fn strip_prefix(s: &str, p: &str) -> (stripped: String)
    ensures
        stripped@ == strip_prefix_spec(s@, p@),
{
    let n = s.unicode_len();
    let m = p.unicode_len();
    if m > n {
        return s.to_owned();
    }
    let mut i: usize = 0;
    while i < m
        invariant
            n == s@.len(),
            m == p@.len(),
            m <= n,
            i <= m,
            forall|j: int| 0 <= j < i ==> s@[j] == p@[j],
        decreases m - i,
    {
        if s.get_char(i) != p.get_char(i) {
            assert(s@.take(m as int)[i as int] != p@[i as int]);
            return s.to_owned();
        }
        i += 1;
    }
    assert(s@.take(m as int) =~= p@);
    let rest = s.substring_char(m, n);
    assert(rest@ =~= s@.skip(m as int));
    rest.to_owned()
}

/// The name a row shows: a nested workspace without a custom label shows
/// its branch (without a `worktree/` prefix), else its label.
pub open spec fn row_label_spec(w: ClientShellWorkspace, indented: bool) -> Seq<char> {
    if indented && !w.custom_label {
        match w.branch {
            Some(b) => strip_prefix_spec(b@, "worktree/"@),
            None => w.label@,
        }
    } else {
        w.label@
    }
}

/// The tree glyphs (or indentation) in front of line `line` of a row.
pub open spec fn row_prefix_spec(indented: bool, last_child: bool, line: int) -> Seq<char> {
    if indented {
        if line == 0 {
            if last_child { "   └─ "@ } else { "   ├─ "@ }
        } else if last_child {
            "        "@
        } else {
            "   │    "@
        }
    } else if line == 0 {
        " "@
    } else {
        "   "@
    }
}

/// The text lines of a row: its name, and for a top-level row its branch
/// on a second line (nested rows suppress git details).
pub open spec fn row_lines_spec(w: ClientShellWorkspace, entry: WorkspaceEntry) -> Seq<Seq<char>> {
    let first = row_prefix_spec(entry.indented, entry.last_child, 0) + row_label_spec(w, entry.indented);
    match w.branch {
        Some(b) => if !entry.indented {
            seq![first, row_prefix_spec(false, false, 1) + b@]
        } else {
            seq![first]
        },
        None => seq![first],
    }
}

fn row_prefix(indented: bool, last_child: bool, line: usize) -> (prefix: &'static str)
    ensures
        prefix@ == row_prefix_spec(indented, last_child, line as int),
{
    if indented {
        if line == 0 {
            if last_child { "   └─ " } else { "   ├─ " }
        } else if last_child {
            "        "
        } else {
            "   │    "
        }
    } else if line == 0 {
        " "
    } else {
        "   "
    }
}

/// The name a row shows.
pub fn row_label(w: &ClientShellWorkspace, indented: bool) -> (label: String)
    ensures
        label@ == row_label_spec(*w, indented),
{
    if indented && !w.custom_label {
        match &w.branch {
            Some(b) => strip_prefix(b.as_str(), "worktree/"),
            None => w.label.clone(),
        }
    } else {
        w.label.clone()
    }
}

/// The view of a list of strings.
pub open spec fn lines_view(lines: Seq<String>) -> Seq<Seq<char>> {
    lines.map_values(|l: String| l@)
}

/// The text lines of a row.
pub fn workspace_row_lines(w: &ClientShellWorkspace, entry: WorkspaceEntry) -> (lines: Vec<String>)
    ensures
        lines_view(lines@) == row_lines_spec(*w, entry),
{
    let mut first = row_prefix(entry.indented, entry.last_child, 0).to_owned();
    let label = row_label(w, entry.indented);
    first.append(label.as_str());
    let mut lines: Vec<String> = Vec::new();
    lines.push(first);
    match &w.branch {
        Some(b) => {
            if !entry.indented {
                let mut second = row_prefix(false, false, 1).to_owned();
                second.append(b.as_str());
                lines.push(second);
            }
        },
        None => {},
    }
    assert(lines_view(lines@) =~= row_lines_spec(*w, entry));
    lines
}

/// A collapse toggle at the right edge of a group root's row.
#[derive(Clone, Debug, PartialEq, Eq)]
pub struct GroupToggle {
    pub rect: Area,
    /// The collapse-group key: the root's workspace id.
    pub key: String,
    /// Whether the group is collapsed (drawn `▸`, else `▾`).
    pub collapsed: bool,
}

/// One laid-out workspace row of the sidebar.
#[derive(Clone, Debug, PartialEq, Eq)]
pub struct SidebarRowLayout {
    pub rect: Area,
    pub entry: WorkspaceEntry,
    pub workspace_id: String,
    pub lines: Vec<String>,
    pub status: AgentStatus,
    pub selected: bool,
    pub dragged: bool,
    pub focused: bool,
    pub group_toggle: Option<GroupToggle>,
}

/// A laid-out row, by value.
pub struct SidebarRowView {
    pub rect: Area,
    pub entry: WorkspaceEntry,
    pub workspace_id: Seq<char>,
    pub lines: Seq<Seq<char>>,
    pub status: AgentStatus,
    pub selected: bool,
    pub dragged: bool,
    pub focused: bool,
    pub group_toggle: Option<(Area, Seq<char>, bool)>,
}

/// A laid-out row, by value.
pub open spec fn row_view(row: SidebarRowLayout) -> SidebarRowView {
    SidebarRowView {
        rect: row.rect,
        entry: row.entry,
        workspace_id: row.workspace_id@,
        lines: lines_view(row.lines@),
        status: row.status,
        selected: row.selected,
        dragged: row.dragged,
        focused: row.focused,
        group_toggle: match row.group_toggle {
            Some(t) => Some((t.rect, t.key@, t.collapsed)),
            None => None,
        },
    }
}

/// The height a row takes: its lines, at least one, at most the list.
pub open spec fn row_height_spec(lines: nat, body: Area) -> u16 {
    let h: nat = if lines == 0 { 1 } else { lines };
    if h > body.height { body.height } else { h as u16 }
}

/// The most lines a row can take in `body`: a row has at most two lines.
pub open spec fn row_height_bound(body: Area) -> int {
    if body.height < 2 { body.height as int } else { 2 }
}

/// The gap after row `pos`: a configured gap before the next top-level row,
/// none before a nested one or after the last.
pub open spec fn gap_after(entries: Seq<WorkspaceEntry>, pos: int, row_gap: u16) -> u16 {
    if pos + 1 < entries.len() && !entries[pos + 1].indented { row_gap } else { 0 }
}

/// Rows laid out from entry `pos` on, starting at line `y`, until one no
/// longer fits above the bottom of `body`.
pub open spec fn rows_from(
    snapshot: ClientShellSnapshot,
    collapsed: Seq<String>,
    selected: Option<Seq<char>>,
    dragged: Option<Seq<char>>,
    body: Area,
    row_gap: u16,
    entries: Seq<WorkspaceEntry>,
    pos: int,
    y: u16,
) -> Seq<SidebarRowView>
    decreases entries.len() - pos,
{
    if pos < 0 || pos >= entries.len() {
        Seq::empty()
    } else {
        let entry = entries[pos];
        let w = snapshot.workspaces@[entry.index as int];
        let lines = row_lines_spec(w, entry);
        let height = row_height_spec(lines.len(), body);
        if sat_add(y, height) > body.bottom_spec() {
            Seq::empty()
        } else {
            let rect = area_spec(body.x, y, body.width, height);
            let key = parent_group_key_spec(snapshot.workspaces@, entry.index as int);
            let row = SidebarRowView {
                rect,
                entry,
                workspace_id: w.workspace_id@,
                lines,
                status: displayed_status_spec(snapshot.workspaces@, w, collapsed),
                selected: selected == Some(w.workspace_id@),
                dragged: dragged == Some(w.workspace_id@),
                focused: w.focused,
                group_toggle: match key {
                    Some(k) => Some((area_spec(sat_sub(rect.right_spec(), 1), rect.y, 1, 1), k, contains_id(collapsed, k))),
                    None => None,
                },
            };
            seq![row] + rows_from(snapshot, collapsed, selected, dragged, body, row_gap, entries, pos + 1,
                sat_add(y, (height + gap_after(entries, pos, row_gap)) as u16))
        }
    }
}

/// The views of laid-out rows.
pub open spec fn rows_view(rows: Seq<SidebarRowLayout>) -> Seq<SidebarRowView> {
    rows.map_values(|r: SidebarRowLayout| row_view(r))
}

/// The sidebar's workspace rows, scrolled by `scroll` rows, laid out top to
/// bottom in `body` with `row_gap` blank lines before each top-level row,
/// as many as fit. Each row carries its text, displayed status, selection,
/// drag and focus state, and a collapse toggle when it heads a group.
pub fn sidebar_rows_layout(
    snapshot: &ClientShellSnapshot,
    collapsed_groups: &Vec<String>,
    selected_workspace_id: Option<&String>,
    dragged_workspace_id: Option<&String>,
    body: Area,
    scroll: usize,
    row_gap: u16,
) -> (rows: Vec<SidebarRowLayout>)
    requires
        row_height_bound(body) + row_gap <= u16::MAX,
    ensures
        rows_view(rows@) == rows_from(
            *snapshot,
            collapsed_groups@,
            match selected_workspace_id { Some(s) => Some(s@), None => None },
            match dragged_workspace_id { Some(s) => Some(s@), None => None },
            body,
            row_gap,
            entries_spec(snapshot.workspaces@, collapsed_groups@),
            scroll as int,
            body.y,
        ),
{
    let ghost sel = match selected_workspace_id { Some(s) => Some(s@), None => None };
    let ghost drag = match dragged_workspace_id { Some(s) => Some(s@), None => None };
    let entries = workspace_entries(snapshot, collapsed_groups);
    proof {
        assert(snapshot.workspaces.len() == snapshot.workspaces@.len());
        lemma_entries_in_range(snapshot.workspaces@, collapsed_groups@, snapshot.workspaces@.len() as int);
    }
    let ghost all = rows_from(*snapshot, collapsed_groups@, sel, drag, body, row_gap, entries@, scroll as int, body.y);
    let mut rows: Vec<SidebarRowLayout> = Vec::new();
    let mut y = body.y;
    let mut pos = scroll;
    while pos < entries.len()
        invariant
            row_height_bound(body) + row_gap <= u16::MAX,
            sel == match selected_workspace_id { Some(s) => Some(s@), None => None::<Seq<char>> },
            drag == match dragged_workspace_id { Some(s) => Some(s@), None => None::<Seq<char>> },
            entries@ == entries_spec(snapshot.workspaces@, collapsed_groups@),
            forall|j: int| 0 <= j < entries@.len() ==> (#[trigger] entries@[j]).index < snapshot.workspaces@.len(),
            all == rows_from(*snapshot, collapsed_groups@, sel, drag, body, row_gap, entries@, scroll as int, body.y),
            rows_view(rows@) + rows_from(*snapshot, collapsed_groups@, sel, drag, body, row_gap, entries@, pos as int, y) == all,
        ensures
            rows_view(rows@) == all,
        decreases entries@.len() - pos,
    {
        let entry = entries[pos];
        let w = &snapshot.workspaces[entry.index];
        let lines = workspace_row_lines(w, entry);
        assert(lines_view(lines@).len() == lines@.len());
        let count = lines.len();
        let height: u16 = if count == 0 {
            if 1 > body.height { body.height } else { 1 }
        } else if count > body.height as usize {
            body.height
        } else {
            count as u16
        };
        if y.saturating_add(height) > body.bottom() {
            assert(rows_view(rows@) + Seq::<SidebarRowView>::empty() == rows_view(rows@));
            break;
        }
        let rect = Area::new(body.x, y, body.width, height);
        let status = displayed_workspace_status(snapshot, w, collapsed_groups);
        let selected = match selected_workspace_id {
            Some(id) => *id == w.workspace_id,
            None => false,
        };
        let dragged = match dragged_workspace_id {
            Some(id) => *id == w.workspace_id,
            None => false,
        };
        let group_toggle = match parent_group_key(snapshot, entry.index) {
            Some(key) => {
                let collapsed = contains_string(collapsed_groups, &key);
                Some(GroupToggle { rect: Area::new(rect.right().saturating_sub(1), rect.y, 1, 1), key, collapsed })
            },
            None => None,
        };
        let gap = if pos + 1 < entries.len() && !entries[pos + 1].indented { row_gap } else { 0 };
        let row = SidebarRowLayout {
            rect,
            entry,
            workspace_id: w.workspace_id.clone(),
            lines,
            status,
            selected,
            dragged,
            focused: w.focused,
            group_toggle,
        };
        let ghost before = rows@;
        rows.push(row);
        let next_y = y.saturating_add(height + gap);
        proof {
            assert(rows_view(rows@) =~= rows_view(before).push(row_view(row)));
            let sw = snapshot.workspaces@[entry.index as int];
            assert(sw == *w);
            let slines = row_lines_spec(sw, entry);
            assert(lines_view(row.lines@) == slines);
            assert(height == row_height_spec(slines.len(), body));
            assert(!(sat_add(y, height) > body.bottom_spec()));
            assert(row_view(row).rect == area_spec(body.x, y, body.width, height));
            assert(row_view(row).status == displayed_status_spec(snapshot.workspaces@, sw, collapsed_groups@));
            assert(row_view(row).selected == (sel == Some(sw.workspace_id@)));
            assert(row_view(row).dragged == (drag == Some(sw.workspace_id@)));
            assert(gap == gap_after(entries@, pos as int, row_gap));
            assert(rows_from(*snapshot, collapsed_groups@, sel, drag, body, row_gap, entries@, pos as int, y)
                == seq![row_view(row)] + rows_from(*snapshot, collapsed_groups@, sel, drag, body, row_gap, entries@, pos + 1, next_y));
            assert(rows_view(before).push(row_view(row)) + rows_from(*snapshot, collapsed_groups@, sel, drag, body, row_gap, entries@, pos + 1, next_y)
                =~= rows_view(before) + (seq![row_view(row)] + rows_from(*snapshot, collapsed_groups@, sel, drag, body, row_gap, entries@, pos + 1, next_y)));
        }
        y = next_y;
        pos += 1;
        if pos >= entries.len() {
            assert(rows_view(rows@) + Seq::<SidebarRowView>::empty() == rows_view(rows@));
        }
    }
    rows
}

} // verus!
