//! The controller of a terminal text editor: a cursor and viewport model over
//! rows of variable-width characters, an undo/redo log of invertible edit
//! events, a keystroke-driven prompt protocol, and the composition of frames.
//!
//! The library is a state machine. It takes decoded keys and the outcome of
//! file operations as plain values and answers with the next state, a frame to
//! draw and, where the outside world has to act, a request.
use vstd::prelude::*;

pub mod cursor;
pub mod document;
pub mod edit;
pub mod editor;
pub mod event;
pub mod history;
pub mod laws;
pub mod prompt;
pub mod render;
pub mod row;
pub mod search;
pub mod style;
pub mod text;
pub mod width;
