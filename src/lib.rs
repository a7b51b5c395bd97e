//! Device-connection tracking, package catalog and removal workflow for a
//! console that drives the Android debug bridge (`adb`).
//!
//! Everything here is pure: the caller runs the bridge and hands the text it
//! printed, or whether a command succeeded, to the functions of this crate.
pub mod text;
pub mod parse;
pub mod catalog;
pub mod session;
pub mod bridge;
pub mod removal;
