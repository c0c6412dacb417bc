//! Verified core of an account-switching agent for an externally installed
//! desktop application.
//!
//! The library snapshots and restores the target application's key-value
//! configuration store, recognises and terminates its processes, plans how to
//! launch it again, and drives the switch workflows and the tray menu as
//! explicit state machines.  Calls into outside crates (the embedded store,
//! JSON canonicalisation, process enumeration) stand behind small trusted
//! wrappers; everything around them is verified.

pub mod codec;
pub mod doc;
pub mod errors;
pub mod loginfo;
pub mod launcher;
pub mod orchestrator;
pub mod paths;
pub mod platform;
pub mod process;
pub mod restore;
pub mod snapshot;
pub mod store;
pub mod text;
pub mod tray;
pub mod wire;
