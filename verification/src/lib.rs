//! Petunia's client logic: the data model of Signal conversations, the state
//! that the user interface shows, and the decisions that the Signal worker
//! makes, each with a contract that Verus proves.

pub mod client;
pub mod clock;
pub mod config;
pub mod data;
pub mod signal;
pub mod text;
pub mod widget;
pub mod theme;
pub mod pane;
pub mod screen;
