//! The "move workspace to workspace" modal picker: candidates, selection,
//! and the `workspace.reparent` it submits.

use vstd::prelude::*;
use crate::grouping::{explicit_parent_spec, ClientShellWorkspace};
use crate::protocol::opt_string_view;

verus! {

/// A candidate destination in the picker.
#[derive(Clone, Debug, PartialEq, Eq)]
pub struct ClientMoveWorkspaceTarget {
    /// Target workspace public id, or `None` for "top level" (unfile).
    pub target_id: Option<String>,
    pub label: String,
}

/// Picker for filing one workspace under another; a modal overlay.
#[derive(Clone, Debug, PartialEq, Eq)]
pub struct ClientMoveWorkspaceOverlay {
    /// Public id of the workspace being moved.
    pub workspace_id: String,
    pub label: String,
    pub entries: Vec<ClientMoveWorkspaceTarget>,
    pub selected: usize,
    pub error: Option<String>,
    /// A reparent is in flight; the picker ignores navigation until it settles.
    pub moving: bool,
}

/// The view of a picker entry: (target id, label).
pub open spec fn target_view(target: ClientMoveWorkspaceTarget) -> (Option<Seq<char>>, Seq<char>) {
    (opt_string_view(target.target_id), target.label@)
}

/// The view of the picker entries.
pub open spec fn entries_view(entries: Seq<ClientMoveWorkspaceTarget>) -> Seq<(Option<Seq<char>>, Seq<char>)> {
    entries.map_values(|t: ClientMoveWorkspaceTarget| target_view(t))
}

/// Candidates among the first `k` workspaces: every workspace but the moving one.
pub open spec fn candidates_upto(ws: Seq<ClientShellWorkspace>, moving_id: Seq<char>, k: int) -> Seq<(Option<Seq<char>>, Seq<char>)>
    decreases k,
{
    if k <= 0 {
        Seq::empty()
    } else if ws[k - 1].workspace_id@ != moving_id {
        candidates_upto(ws, moving_id, k - 1).push((Some(ws[k - 1].workspace_id@), ws[k - 1].label@))
    } else {
        candidates_upto(ws, moving_id, k - 1)
    }
}

/// The picker's entries: "top level" (unfile) first, then every other workspace.
pub open spec fn picker_entries_spec(ws: Seq<ClientShellWorkspace>, moving_id: Seq<char>) -> Seq<(Option<Seq<char>>, Seq<char>)> {
    seq![(None::<Seq<char>>, "top level"@)] + candidates_upto(ws, moving_id, ws.len() as int)
}

/// The first entry at or after `k` that targets `parent`.
pub open spec fn entry_index_from(entries: Seq<(Option<Seq<char>>, Seq<char>)>, parent: Seq<char>, k: int) -> Option<usize>
    decreases entries.len() - k,
{
    if k < 0 || k >= entries.len() {
        None
    } else if entries[k].0 == Some(parent) {
        Some(k as usize)
    } else {
        entry_index_from(entries, parent, k + 1)
    }
}

/// The picker opens on the workspace's current explicit parent, else on "top level".
pub open spec fn picker_start_spec(entries: Seq<(Option<Seq<char>>, Seq<char>)>, moving: ClientShellWorkspace) -> usize {
    match explicit_parent_spec(moving) {
        Some(parent) => match entry_index_from(entries, parent, 0) {
            Some(i) => i,
            None => 0,
        },
        None => 0,
    }
}

/// `selected + delta`, kept within the entries.
pub open spec fn moved_selection(selected: usize, delta: isize, len: nat) -> usize {
    if len == 0 {
        selected
    } else {
        let next = selected + delta;
        if next < 0 {
            0
        } else if next > len - 1 {
            (len - 1) as usize
        } else {
            next as usize
        }
    }
}

impl ClientMoveWorkspaceOverlay {
    /// The selected destination: a workspace id, or `None` for "top level"
    /// (also when the selection is out of range).
    pub fn selected_target_id(&self) -> (target: Option<String>)
        ensures
            opt_string_view(target) == (if self.selected < self.entries@.len() {
                opt_string_view(self.entries@[self.selected as int].target_id)
            } else {
                None
            }),
    {
        if self.selected < self.entries.len() {
            match &self.entries[self.selected].target_id {
                Some(id) => Some(id.clone()),
                None => None,
            }
        } else {
            None
        }
    }

    /// Moves the selection by `delta` rows, clamped to the entries.
    pub fn move_selection(&mut self, delta: isize)
        ensures
            final(self).selected == moved_selection(old(self).selected, delta, old(self).entries@.len()),
            final(self).workspace_id == old(self).workspace_id,
            final(self).label == old(self).label,
            final(self).entries == old(self).entries,
            final(self).error == old(self).error,
            final(self).moving == old(self).moving,
    {
        if self.entries.len() == 0 {
            return;
        }
        let last = self.entries.len() - 1;
        let next: i128 = self.selected as i128 + delta as i128;
        if next < 0 {
            self.selected = 0;
        } else if next > last as i128 {
            self.selected = last;
        } else {
            self.selected = next as usize;
        }
    }
}

} // verus!
