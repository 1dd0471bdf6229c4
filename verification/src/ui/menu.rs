//! Menu bar actions that the application handles.

use vstd::prelude::*;
use crate::text::{chars_of, str_equal};

verus! {

/// What the user chose in the menu bar.
#[derive(Debug, Clone, Copy, PartialEq, Eq, Structural)]
pub enum MenuAction {
    NetworkManager,
    Help,
    ChannelBrowser,
}

/// Whether the menu offers "Part Channel": connected, and the active buffer
/// is a `#` channel (not the "System" buffer).
pub fn can_part_channel(is_connected: bool, active_buffer: &str) -> (r: bool)
    ensures
        r == (is_connected && active_buffer@ != "System"@ && active_buffer@.len() > 0 && active_buffer@[0] == '#'),
{
    let v = chars_of(active_buffer);
    let is_system = str_equal(active_buffer, "System");
    is_connected && !is_system && v.len() > 0 && v[0] == '#'
}

} // verus!
