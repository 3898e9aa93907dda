use vstd::prelude::*;

use crate::pods::filesystem::diffs::{Delta, Signature};
use crate::pods::itree::fsentry::HostId;
use crate::pods::itree::inode::{Ino, Inode, Metadata};
use crate::pods::itree::ITree;
use crate::pods::whpath::InodeName;

verus! {

/// The requests that a pod sends to its peers about the tree it shares.
#[derive(Debug)]
pub enum Request {
    /// A new inode
    Inode(Inode),
    /// A rename: parent, new parent, name, new name, overwrite
    Rename(Ino, Ino, InodeName, InodeName, bool),
    /// The removal of an inode
    Remove(Ino),
    /// Hosts that now hold a file
    AddHosts(Ino, Vec<HostId>),
    /// New metadata of an inode
    EditMetadata(Ino, Metadata),
    /// A change of a file, as a difference against a summary of its former contents
    FileDelta(Ino, Metadata, Signature, Delta),
    /// A change of a file, without its contents
    FileChanged(Ino, Metadata),
    /// A new value of an extended attribute: inode, key, value
    SetXAttr(Ino, String, Vec<u8>),
    /// The removal of an extended attribute: inode, key
    RemoveXAttr(Ino, String),
    /// A copy of a file, sent for redundancy
    RedundancyFile(Ino, Vec<u8>),
    /// Hosts that no longer hold a file
    RemoveHosts(Ino, Vec<HostId>),
    /// The contents of a file, asked for
    RequestFile(Ino),
    /// The whole tree, asked for by a peer that joins
    RequestFs,
    /// The sender leaves the network
    Leave,
    /// A peer to drop from the network
    Bannish(HostId),
}

/// The answers that a pod gives to requests of its peers.
pub enum Response {
    Success,
    /// The request could not be handled
    Failed,
    /// The contents of a file that was asked for
    RequestedFile(Vec<u8>),
    /// The tree of the network and the peers in it, for a peer that joins
    FsAnswer(ITree, Vec<HostId>),
    /// The summary of the local copy of a file, against which a difference is asked for
    DeltaRequest(Ino, Signature),
}

} // verus!
