use vstd::prelude::*;

verus! {

/// Identity of a terminal that a pane is attached to.
#[derive(Clone, Copy, Debug, PartialEq, Eq, Structural)]
pub struct TerminalId(pub u64);

/// Viewport state for a pane.
///
/// Terminal identity, cwd, labels, and agent metadata live with the terminal.
#[derive(Clone, Copy, Debug, PartialEq, Eq, Structural)]
pub struct PaneState {
    pub attached_terminal_id: TerminalId,
    /// Whether the agent in this pane has been addressed since it last finished.
    /// `false` means "done": the agent completed and waits to be addressed. It
    /// stays `false` while the pane is focused or read, like an inbox item, and
    /// only flips back to `true` when the agent is addressed again.
    pub seen: bool,
}

impl PaneState {
    /// A freshly attached pane has nothing waiting to be read.
    pub fn new(attached_terminal_id: TerminalId) -> (pane: Self)
        ensures
            pane.attached_terminal_id == attached_terminal_id,
            pane.seen,
    {
        PaneState { attached_terminal_id, seen: true }
    }
}

} // verus!
