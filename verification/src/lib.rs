//! Core of a terminal task manager: projects that contain tasks, a
//! versioned on-disk store with a migration chain, wrapping list cursors,
//! a deterministic task-ordering policy, and the view-state machine that
//! drives every mutation.
pub mod app;
pub mod chars;
pub mod config;
pub mod codec;
pub mod json;
pub mod migration;
pub mod order;
pub mod project;
pub mod selection;
pub mod task;
pub mod util;
