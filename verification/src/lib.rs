//! Coordination logic of a storage data-plane node.
//!
//! The node exposes a virtual block device (the "nexus") that aggregates
//! one or more replica devices behind a single target, fans out writes,
//! and coordinates write-exclusive access to shared replicas through a
//! persistent-reservation protocol.  A single-threaded cooperative
//! reactor owns all device state; foreign threads reach it only through
//! the task bridge.

pub mod bridge;
pub mod endpoint;
pub mod nexus;
pub mod reactor;
pub mod replica;
pub mod status;
pub mod uri;
