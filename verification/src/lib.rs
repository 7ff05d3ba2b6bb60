//! Planning and navigation engine for a fleet of remotely driven construction
//! and mining robots ("turtles").
//!
//! The engine never performs I/O itself.  Every long running operation is a
//! small machine: it hands out the next remote command, is fed the reply, and
//! says when it is finished.  The caller owns the transport, the files and the
//! clock.

pub mod cmd;
pub mod coords;
pub mod entry;
pub mod inventory;
pub mod multi_builder;
pub mod nav;
pub mod scripts;
pub mod server;
pub mod single_builder;
pub mod sorting;
pub mod text;
pub mod turtle;
pub mod turtle_core;

use vstd::prelude::*;

verus! {

/// Stable identifier of a turtle; it keys the persisted state.
pub type TurtleIdentifier = usize;

/// Position of a turtle within the active fleet.
pub type TurtleIndex = usize;

/// Directory that holds the progress files.
pub const PROGRESS_DIR: &'static str = "progress";

} // verus!
