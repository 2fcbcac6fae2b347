//! Per-pane state: the viewport record and the keyboard modes a program set.

pub mod kitty_keyboard;
pub mod state;
