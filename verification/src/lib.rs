//! A verified task-list core: an in-memory list of tasks, a selection
//! cursor with wraparound navigation, the modal editor state machine that
//! drives the interactive session, a render model for the two-pane display,
//! and a text codec that persists the list with a proved round trip.

pub mod cli;
pub mod codec;
pub mod cursor;
pub mod editor;
pub mod laws;
pub mod render;
pub mod tasks;
pub mod text;
