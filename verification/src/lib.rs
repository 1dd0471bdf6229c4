//! Verified core of the SLIRC IRC client: input validation, buffers,
//! command parsing, event handling and the registration state machine.

pub mod text;
pub mod validation;
pub mod protocol;
pub mod buffer;
pub mod buffers;
pub mod config;
pub mod state;
pub mod users;
pub mod logging;
pub mod events;
pub mod buffer_events;
pub mod commands;
pub mod input_state;
pub mod compose;
pub mod backend;
pub mod dialog_manager;
pub mod ui;
