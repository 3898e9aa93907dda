use vstd::prelude::*;

use crate::pods::itree::inode::Ino;

verus! {

/// A request, made by a peer, to take a copy of a file.
#[derive(Debug)]
pub struct RedundancyMission {
    pub ino: Ino,
    /// The address of the peer that asks
    pub origin: String,
    pub priority: u64,
}

} // verus!
