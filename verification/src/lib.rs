//! Core of a terminal front-end for a command-line network client: a
//! selectable-list container, the text parsing for the client's output, a
//! rectangle layout engine, and the keyboard-driven application state machine.

pub mod app;
pub mod layout;
pub mod list;
pub mod nord;
pub mod text;
