//! Toolbar actions that the application handles.

use vstd::prelude::*;

verus! {

/// What the user chose in the toolbar.
#[derive(Debug, Clone, Copy, PartialEq, Eq, Structural)]
pub enum ToolbarAction {
    /// User clicked Connect button
    Connect,
    /// User wants to change nickname
    OpenNickChangeDialog,
}

} // verus!
