//! Workspace grouping, done-marker acknowledgement, keyboard reordering and
//! the move-to-workspace picker of the herdr terminal workspace manager.

pub mod pane;
pub mod protocol;
pub mod grouping;
pub mod grouping_laws;
pub mod app_state;
pub mod app_state_laws;
pub mod keys;
pub mod reorder;
pub mod navigator;
pub mod reorder_laws;
pub mod picker;
pub mod text;
pub mod client;
pub mod layout;
pub mod sidebar_layout;
pub mod picker_layout;
pub mod client_laws;
pub mod sidebar_laws;
pub mod reorder_group_laws;
