//! A container that wraps a state and records every update made to it, so that
//! updates can be undone and redone along one linear history.

pub mod history;
mod undo;

pub use history::History;
pub use undo::Undo;
