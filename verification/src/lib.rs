//! Core engine of a tabbed terminal file explorer.
//!
//! The library holds the verified logic: the per-session pending-action
//! scheduler, the depth-limited directory scan engine, the filter engine,
//! the planners for copy / delete / permission-change tasks, and the
//! multi-session manager. All filesystem and terminal I/O stays outside;
//! callers feed the engine plain values (directory listings, key commands)
//! and perform the actions it hands back.

pub mod entry;
pub mod manager;
pub mod paths;
pub mod scan;
pub mod session;
pub mod tasks;
pub mod search;
pub mod text;
pub mod updates;
