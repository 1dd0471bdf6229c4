//! Logic behind the user interface: colors and ranks, user lists, message
//! grouping and formatting, dialogs, the quick switcher and shortcuts.

pub mod theme;
pub mod widgets;
pub mod panels;
pub mod messages;
pub mod format;
pub mod links;
pub mod topic_bar;
pub mod shortcuts;
pub mod quick_switcher;
pub mod dialogs;
pub mod menu;
pub mod toolbar;
