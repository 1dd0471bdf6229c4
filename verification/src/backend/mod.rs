//! The network side of the client: IRC messages as plain values, routing of
//! incoming messages to UI events, and the registration state machine
//! (capability negotiation and SASL). Reading, writing and connecting are
//! done by the application, which hands the results to these functions.

pub mod message;
pub mod handlers;
pub mod caps;
pub mod state;
