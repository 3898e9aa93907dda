//! Wormhole: a decentralised storage space spanning many computers.
//!
//! This crate holds the verified core of a Wormhole pod: the inode tree that
//! every peer replicates, the paths and names that address it, the permission
//! checks, the file difference machinery used to propagate writes, the
//! in-memory disk used for testing, and the decisions taken by the file system
//! interface and the redundancy worker.
pub mod assoc;
pub mod errno;
pub mod error;
pub mod network;
pub mod pods;
pub mod providers;
pub mod text;
