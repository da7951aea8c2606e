use herdr::grouping::{ClientShellSnapshot, ClientShellWorkspace, ClientShellWorktree};
use herdr::layout::{
    collapsed_sidebar_rows, collapsed_sidebar_sections, collapsed_sidebar_toggle, drop_indicator_visible,
    expanded_sidebar_toggle, hovered_row_background, row_colors, row_markers, status_glyph, sidebar_divider, sidebar_footer, status_color,
    Area, Palette, RowMarker, ThemeColor,
};
use herdr::picker::{ClientMoveWorkspaceOverlay, ClientMoveWorkspaceTarget};
use herdr::picker_layout::{move_picker_layout, move_picker_size, visible_rows, PickerStatusKind};
use herdr::protocol::AgentStatus;
use herdr::sidebar_layout::{row_label, sidebar_rows_layout, strip_prefix, workspace_row_lines};
use herdr::grouping::WorkspaceEntry;

fn palette() -> Palette {
    Palette {
        accent: ThemeColor::Blue,
        text: ThemeColor::White,
        subtext0: ThemeColor::Gray,
        overlay0: ThemeColor::DarkGray,
        overlay1: ThemeColor::Indexed(245),
        surface0: ThemeColor::Indexed(236),
        surface1: ThemeColor::Indexed(238),
        surface_dim: ThemeColor::Indexed(234),
        mauve: ThemeColor::Magenta,
        red: ThemeColor::Red,
        yellow: ThemeColor::Yellow,
        green: ThemeColor::Green,
        panel_bg: ThemeColor::Black,
        sidebar_bg: ThemeColor::Black,
        selection_bg: ThemeColor::Indexed(239),
        active_row_bg: ThemeColor::Indexed(237),
    }
}

fn workspace(id: &str, label: &str, branch: Option<&str>) -> ClientShellWorkspace {
    ClientShellWorkspace {
        workspace_id: id.into(),
        active_tab_id: format!("tab_{id}"),
        new_workspace_cwd: "/repo".into(),
        number: 1,
        label: label.into(),
        custom_label: false,
        branch: branch.map(|b| b.to_owned()),
        git_ahead_behind: None,
        tokens: Vec::new(),
        worktree: None,
        focused: false,
        agent_status: AgentStatus::Idle,
    }
}

fn repo(linked: bool) -> Option<ClientShellWorktree> {
    Some(ClientShellWorktree { key: "repo".into(), label: "repo".into(), is_linked_worktree: linked })
}

fn grouped_snapshot() -> ClientShellSnapshot {
    let mut primary = workspace("ws_1", "herdr", Some("main"));
    primary.worktree = repo(false);
    primary.focused = true;
    let mut child = workspace("ws_2", "herdr-feature", Some("worktree/feature"));
    child.worktree = repo(true);
    ClientShellSnapshot { revision: 1, focused_workspace_id: Some("ws_1".into()), workspaces: vec![primary, child] }
}

#[test]
fn sidebar_rows_stack_with_branch_lines_and_a_group_toggle() {
    let snapshot = grouped_snapshot();
    let selected = "ws_2".to_owned();
    let rows = sidebar_rows_layout(&snapshot, &Vec::new(), Some(&selected), None, Area::new(0, 2, 26, 16), 0, 1);
    assert_eq!(rows.len(), 2);
    assert_eq!(rows[0].rect, Area::new(0, 2, 26, 2));
    assert_eq!(rows[0].lines, vec![" herdr".to_owned(), "   main".to_owned()]);
    assert!(rows[0].focused && !rows[0].selected && !rows[0].dragged);
    let toggle = rows[0].group_toggle.as_ref().expect("the group root carries a toggle");
    assert_eq!(toggle.rect, Area::new(25, 2, 1, 1));
    assert_eq!(toggle.key, "ws_1");
    assert!(!toggle.collapsed);
    // The nested row follows with no gap, shows its branch without the
    // worktree prefix, and carries no toggle.
    assert_eq!(rows[1].rect, Area::new(0, 4, 26, 1));
    assert_eq!(rows[1].lines, vec!["   └─ feature".to_owned()]);
    assert!(rows[1].entry.indented && rows[1].entry.last_child);
    assert!(rows[1].selected);
    assert!(rows[1].group_toggle.is_none());
}

#[test]
fn sidebar_rows_leave_a_gap_before_each_top_level_row() {
    let snapshot = ClientShellSnapshot {
        revision: 1,
        focused_workspace_id: None,
        workspaces: vec![
            workspace("a", "a", Some("main")),
            workspace("b", "b", None),
            workspace("c", "c", Some("dev")),
        ],
    };
    let rows = sidebar_rows_layout(&snapshot, &Vec::new(), None, None, Area::new(1, 0, 20, 30), 0, 1);
    let tops: Vec<u16> = rows.iter().map(|row| row.rect.y).collect();
    assert_eq!(tops, vec![0, 3, 5]);
    assert_eq!(rows[1].lines, vec![" b".to_owned()]);
    assert_eq!(rows[2].lines, vec![" c".to_owned(), "   dev".to_owned()]);
}

#[test]
fn sidebar_rows_stop_at_the_bottom_and_honour_the_scroll() {
    let snapshot = grouped_snapshot();
    // Only the two-line root fits in a two-line list.
    let short = sidebar_rows_layout(&snapshot, &Vec::new(), None, None, Area::new(0, 2, 26, 2), 0, 0);
    assert_eq!(short.len(), 1);
    assert_eq!(short[0].workspace_id, "ws_1");
    // Scrolled by one row, the nested row comes first.
    let scrolled = sidebar_rows_layout(&snapshot, &Vec::new(), None, None, Area::new(0, 2, 26, 10), 1, 0);
    assert_eq!(scrolled.len(), 1);
    assert_eq!(scrolled[0].workspace_id, "ws_2");
    assert_eq!(scrolled[0].rect.y, 2);
    // Scrolled past the end, nothing shows.
    assert!(sidebar_rows_layout(&snapshot, &Vec::new(), None, None, Area::new(0, 2, 26, 10), 5, 0).is_empty());
    // A list with no lines clamps every row to no height at its top.
    let flat = sidebar_rows_layout(&snapshot, &Vec::new(), None, None, Area::new(0, 2, 26, 0), 0, 0);
    assert_eq!(flat.iter().map(|row| (row.rect.y, row.rect.height)).collect::<Vec<_>>(), vec![(2, 0), (2, 0)]);
}

#[test]
fn collapsed_group_row_shows_the_loudest_status_and_a_closed_toggle() {
    let mut snapshot = grouped_snapshot();
    snapshot.workspaces[1].agent_status = AgentStatus::Working;
    let collapsed = vec!["ws_1".to_owned()];
    let dragged = "ws_1".to_owned();
    let rows = sidebar_rows_layout(&snapshot, &collapsed, None, Some(&dragged), Area::new(0, 0, 26, 10), 0, 0);
    // The unfocused child is hidden while collapsed.
    assert_eq!(rows.len(), 1);
    assert_eq!(rows[0].status, AgentStatus::Working);
    assert!(rows[0].dragged);
    assert!(rows[0].group_toggle.as_ref().unwrap().collapsed);
    assert_eq!(status_color(rows[0].status, &palette()), ThemeColor::Yellow);
    assert_eq!(status_color(AgentStatus::Done, &palette()), ThemeColor::Green);
    assert_eq!(status_color(AgentStatus::Idle, &palette()), ThemeColor::DarkGray);
}

#[test]
fn row_labels_prefer_the_branch_only_for_nested_rows() {
    assert_eq!(strip_prefix("worktree/feature", "worktree/"), "feature");
    assert_eq!(strip_prefix("feature", "worktree/"), "feature");
    assert_eq!(strip_prefix("work", "worktree/"), "work");
    let mut w = workspace("x", "label", Some("worktree/topic"));
    assert_eq!(row_label(&w, false), "label");
    assert_eq!(row_label(&w, true), "topic");
    w.custom_label = true;
    assert_eq!(row_label(&w, true), "label");
    w.custom_label = false;
    w.branch = None;
    assert_eq!(row_label(&w, true), "label");
    let middle = WorkspaceEntry { index: 0, indented: true, last_child: false };
    w.branch = Some("b".into());
    assert_eq!(workspace_row_lines(&w, middle), vec!["   ├─ b".to_owned()]);
}

#[test]
fn picker_scrolls_to_keep_the_selection_visible() {
    let entries: Vec<ClientMoveWorkspaceTarget> = (0..10)
        .map(|i| ClientMoveWorkspaceTarget {
            target_id: if i == 0 { None } else { Some(format!("ws_{i}")) },
            label: if i == 0 { "top level".into() } else { format!("w{i}") },
        })
        .collect();
    let mut overlay = ClientMoveWorkspaceOverlay {
        workspace_id: "ws_0".into(),
        label: "mine".into(),
        entries,
        selected: 9,
        error: None,
        moving: false,
    };
    assert_eq!(move_picker_size(&overlay), (64, 16));
    let layout = move_picker_layout(&overlay, Area::new(10, 4, 62, 14));
    assert_eq!(layout.title, " move mine to…");
    assert_eq!(layout.rows.len(), 8);
    assert_eq!(layout.rows.iter().map(|r| r.index).collect::<Vec<_>>(), (2..10).collect::<Vec<_>>());
    assert_eq!(layout.rows[0].rect, Area::new(10, 7, 62, 1));
    assert_eq!(layout.rows[7].text, " ▸ w9");
    assert!(layout.rows[7].selected);
    assert_eq!(layout.rows[0].text, "   w2");
    assert_eq!(layout.status_y, 15);
    assert_eq!(layout.status_kind, PickerStatusKind::Hint);
    assert_eq!(layout.status_text, " ↑/↓ or j/k to choose");

    overlay.selected = 0;
    overlay.error = Some("reparenting would create a grouping cycle".into());
    let layout = move_picker_layout(&overlay, Area::new(10, 4, 62, 14));
    assert_eq!(layout.rows[0].index, 0);
    assert_eq!(layout.rows[0].text, " ▸ top level");
    assert_eq!(layout.status_kind, PickerStatusKind::Error);
    assert_eq!(layout.status_text, " reparenting would create a grouping cycle");

    overlay.moving = true;
    let layout = move_picker_layout(&overlay, Area::new(10, 4, 62, 14));
    assert_eq!(layout.status_kind, PickerStatusKind::Moving);
    assert_eq!(layout.status_text, " moving…");
}

#[test]
fn picker_size_has_room_for_at_least_one_row() {
    assert_eq!(visible_rows(0), 1);
    assert_eq!(visible_rows(3), 3);
    assert_eq!(visible_rows(100), 8);
    let overlay = ClientMoveWorkspaceOverlay {
        workspace_id: "a".into(),
        label: "a".into(),
        entries: Vec::new(),
        selected: 0,
        error: None,
        moving: false,
    };
    assert_eq!(move_picker_size(&overlay), (64, 9));
    let layout = move_picker_layout(&overlay, Area::new(0, 0, 62, 9));
    assert!(layout.rows.is_empty());
    assert_eq!(layout.status_y, 4);
}

#[test]
fn collapsed_sidebar_splits_into_workspaces_divider_and_agents() {
    let (workspaces, divider, agents) = collapsed_sidebar_sections(Area::new(0, 0, 4, 10));
    assert_eq!(workspaces, Area::new(0, 0, 3, 5));
    assert_eq!(divider, Some(5));
    assert_eq!(agents, Area::new(0, 6, 3, 4));
    let (short, none, empty) = collapsed_sidebar_sections(Area::new(2, 1, 4, 6));
    assert_eq!(short, Area::new(2, 1, 3, 6));
    assert_eq!(none, None);
    assert_eq!(empty, Area::zero());
    assert_eq!(collapsed_sidebar_sections(Area::new(0, 0, 1, 10)), (Area::zero(), None, Area::zero()));
    assert_eq!(collapsed_sidebar_toggle(Area::new(0, 0, 4, 20), Area::new(0, 0, 3, 10)), Area::new(1, 19, 1, 1));
    assert_eq!(collapsed_sidebar_toggle(Area::new(0, 0, 0, 20), Area::new(0, 0, 3, 10)), Area::zero());
}

#[test]
fn collapsed_rows_number_workspaces_and_mark_focus_and_selection() {
    let mut snapshot = grouped_snapshot();
    snapshot.workspaces.push(workspace("ws_3", "third", None));
    let selected = "ws_2".to_owned();
    let rows = collapsed_sidebar_rows(&snapshot, Some(&selected), Area::new(0, 0, 3, 2), &palette());
    assert_eq!(rows.len(), 2);
    assert_eq!(rows[0].number, 1);
    assert_eq!(rows[0].rect, Area::new(0, 0, 3, 1));
    assert_eq!(rows[0].background, Some(ThemeColor::Indexed(237)));
    assert_eq!(rows[0].number_fg, ThemeColor::White);
    assert_eq!(rows[1].number, 2);
    assert_eq!(rows[1].rect, Area::new(0, 1, 3, 1));
    assert_eq!(rows[1].background, Some(ThemeColor::Indexed(239)));
    assert_eq!(rows[1].number_fg, ThemeColor::Indexed(245));
    // A focused, selected row keeps the active background when the theme
    // sets no selection colour.
    let mut plain = palette();
    plain.selection_bg = ThemeColor::Reset;
    let focused = "ws_1".to_owned();
    let rows = collapsed_sidebar_rows(&snapshot, Some(&focused), Area::new(0, 0, 3, 9), &plain);
    assert_eq!(rows.len(), 3);
    assert_eq!(rows[0].background, Some(ThemeColor::Indexed(237)));
    assert_eq!(rows[2].background, None);
    assert_eq!(rows[2].number_fg, ThemeColor::DarkGray);
}

#[test]
fn markers_put_the_arrow_first_and_the_bar_on_every_line() {
    let rect = Area::new(0, 3, 20, 2);
    assert_eq!(row_markers(rect, 2, 10, true, true), vec![(3, RowMarker::Hovered), (4, RowMarker::Active)]);
    assert_eq!(row_markers(rect, 2, 10, false, true), vec![(3, RowMarker::Active), (4, RowMarker::Active)]);
    assert_eq!(row_markers(rect, 2, 10, true, false), vec![(3, RowMarker::Hovered)]);
    assert_eq!(row_markers(rect, 2, 4, false, true), vec![(3, RowMarker::Active)]);
    assert!(row_markers(rect, 2, 10, false, false).is_empty());
}

#[test]
fn hovered_row_falls_back_only_when_the_theme_sets_no_selection() {
    let themed = palette();
    assert_eq!(hovered_row_background(&themed), ThemeColor::Indexed(239));
    let mut plain = palette();
    plain.selection_bg = ThemeColor::Reset;
    assert_eq!(hovered_row_background(&plain), ThemeColor::Indexed(238));
}

#[test]
fn sidebar_edges_toggles_and_footer() {
    let sidebar = Area::new(0, 0, 26, 20);
    assert_eq!(sidebar_divider(sidebar), Area::new(25, 0, 1, 20));
    assert_eq!(sidebar_divider(Area::new(0, 0, 0, 20)), Area::zero());
    assert_eq!(expanded_sidebar_toggle(sidebar), Area::new(24, 19, 1, 1));
    assert_eq!(expanded_sidebar_toggle(Area::new(0, 0, 1, 0)), Area::new(0, 0, 0, 0));
    let (new_button, launcher) = sidebar_footer(sidebar, false);
    assert_eq!(new_button, Area::new(0, 19, 5, 1));
    assert_eq!(launcher, Area::new(20, 19, 6, 1));
    let (_, loud) = sidebar_footer(sidebar, true);
    assert_eq!(loud, Area::new(18, 19, 8, 1));
    let (narrow_new, narrow_launcher) = sidebar_footer(Area::new(0, 0, 3, 4), true);
    assert_eq!(narrow_new, Area::new(0, 3, 3, 1));
    assert_eq!(narrow_launcher, Area::new(0, 3, 3, 1));
    assert!(!drop_indicator_visible(0, sidebar));
    assert!(drop_indicator_visible(1, sidebar));
    assert!(drop_indicator_visible(18, sidebar));
    assert!(!drop_indicator_visible(19, sidebar));
}

#[test]
fn areas_clamp_at_the_edge_of_the_coordinate_space() {
    let edge = Area::new(u16::MAX - 2, u16::MAX - 1, 10, 10);
    assert_eq!(edge.width, 2);
    assert_eq!(edge.height, 1);
    assert_eq!(edge.right(), u16::MAX);
    assert_eq!(edge.bottom(), u16::MAX);
    assert!(Area::new(3, 3, 0, 5).is_empty());
    assert!(!Area::new(3, 3, 1, 1).is_empty());
}

#[test]
fn row_colors_rank_hover_over_drag_over_focus() {
    let p = palette();
    let hovered = row_colors(true, true, true, &p);
    assert_eq!(hovered.background, Some(ThemeColor::Indexed(239)));
    assert_eq!(hovered.primary, ThemeColor::White);
    assert!(hovered.bold);
    assert_eq!(hovered.secondary, ThemeColor::Magenta);
    let dragged = row_colors(false, true, false, &p);
    assert_eq!(dragged.background, Some(ThemeColor::Indexed(238)));
    assert!(dragged.bold);
    assert_eq!(dragged.secondary, ThemeColor::DarkGray);
    let focused = row_colors(false, false, true, &p);
    assert_eq!(focused.background, Some(ThemeColor::Indexed(237)));
    let plain = row_colors(false, false, false, &p);
    assert_eq!(plain.background, None);
    assert_eq!(plain.primary, ThemeColor::Gray);
    assert!(!plain.bold);
}

#[test]
fn status_glyphs_tell_the_states_apart() {
    assert_eq!(status_glyph(AgentStatus::Blocked), "!");
    assert_eq!(status_glyph(AgentStatus::Working), "●");
    assert_eq!(status_glyph(AgentStatus::Done), "✓");
    assert_eq!(status_glyph(AgentStatus::Idle), "○");
    assert_eq!(status_glyph(AgentStatus::Unknown), "○");
}

#[test]
fn scrolled_rows_follow_the_entries_inside_the_body() {
    let mut snapshot = grouped_snapshot();
    snapshot.workspaces.push(workspace("ws_3", "third", None));
    let body = Area::new(2, 5, 20, 3);
    let entries = herdr::grouping::workspace_entries(&snapshot, &Vec::new());
    let rows = sidebar_rows_layout(&snapshot, &Vec::new(), None, None, body, 1, 1);
    assert_eq!(rows.len(), 2);
    for (j, row) in rows.iter().enumerate() {
        assert_eq!(row.entry, entries[1 + j]);
        assert!(row.rect.x == body.x && row.rect.y >= body.y && row.rect.bottom() <= body.bottom());
    }
    assert_eq!(rows[1].workspace_id, "ws_3");
    assert!(rows[1].group_toggle.is_none());
}
