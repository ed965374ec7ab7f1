//! Verified core of the task-stack heads-up display: the decisions behind the
//! AeroSpace command-line bridge, the task records kept in the store, and the
//! panel's placement, hotkey and jump rules.

pub mod text;
pub mod aerospace;
pub mod tasks;
pub mod panel;
