//! State, protocol and movement of a single turtle.

pub mod control;
pub mod course;
pub mod data;
pub mod file_system_storage;
pub mod heading;
pub mod inventory;
pub mod navigation;
pub mod position;
