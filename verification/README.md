# herdr workspace grouping, verified

The workspace-grouping, done-marker and reordering logic of the herdr
terminal workspace manager, written in Verus with its contracts proved.

- `src/grouping.rs` — the one grouping of the sidebar: explicit parent links
  (the `herdr:parent` token) win over git worktree inference, nesting is
  flattened to two levels; sidebar entries, top-level rows, group blocks.
- `src/app_state.rs` — the server side: `workspace.reparent` with cycle
  rejection, `workspace.acknowledge`, sticky done markers and delayed
  completion notifications, orphaned-child promotion.
- `src/reorder.rs`, `src/navigator.rs` — keyboard reordering from the
  sidebar picker and the session navigator; a group moves as one block.
- `src/client.rs`, `src/picker.rs`, `src/keys.rs` — the client shell's
  keybinds, the move-to-workspace picker and the requests they send.
- `src/layout.rs`, `src/sidebar_layout.rs`, `src/picker_layout.rs` — what the
  sidebar and the picker draw, and where.
- `src/*_laws.rs` — properties that span functions, as proof functions
  (grouping, server state, reorder, sidebar layout, client shell).
- `app/` — crossterm key conversion and ratatui drawing around the library.
