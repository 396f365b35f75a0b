//! A keyboard-driven kanban board: the task store, the board view derived
//! from it, and the modal editing session that produces validated changes.
pub mod app;
pub mod board;
pub mod cli;
pub mod data;
pub mod input;
pub mod laws;
pub mod order;
pub mod session;
pub mod store;
pub mod text;
