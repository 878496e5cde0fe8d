//! A single-user task tracker: an active task list and an archive with dense
//! position-derived ids, a one-slot undo log, list views (tag filter, stable
//! sorts), and the modal state machine behind the interactive screen.

pub mod cli;
pub mod controller;
pub mod models;
pub mod store;
pub mod text;
pub mod views;
