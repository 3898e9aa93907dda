use vstd::prelude::*;

use crate::error::WhError;
use crate::pods::filesystem::fs_interface::FsInterface;
use crate::pods::filesystem::permissions::{has_write_perm, mode_bit};
use crate::pods::itree::fsentry::{entry_children, EntryView, FsEntry, HostId};
use crate::pods::itree::inode::Ino;
use crate::pods::itree::lookup;
use crate::pods::whpath::{InodeName, WhPath};

verus! {

/// Why an inode could not be removed from the tree.
#[derive(Debug, Clone, PartialEq, Eq)]
pub enum RemoveInodeError {
    WhError { source: WhError },
    NonEmpty,
}

/// Why an inode could not be removed from the tree and from the disk.
#[derive(Debug)]
pub enum RemoveFileError {
    WhError { source: WhError },
    NonEmpty,
    LocalDeletionFailed { io: std::io::Error },
    PermissionDenied,
}

impl RemoveFileError {
    pub fn from_remove_inode(value: RemoveInodeError) -> (r: RemoveFileError)
        ensures
            value is NonEmpty ==> r is NonEmpty,
            value is WhError ==> r is WhError && r->WhError_source == value->WhError_source,
    {
        match value {
            RemoveInodeError::WhError { source } => RemoveFileError::WhError { source },
            RemoveInodeError::NonEmpty => RemoveFileError::NonEmpty,
        }
    }
}

} // verus!

verus! {

/// Whether the peer `host` is among `hosts`.
pub fn holds(hosts: &Vec<HostId>, host: HostId) -> (r: bool)
    ensures
        r == hosts@.contains(host),
{
    let mut i: usize = 0;
    while i < hosts.len()
        invariant
            i <= hosts.len(),
            forall|j: int| 0 <= j < i ==> hosts@[j] != host,
        decreases hosts.len() - i,
    {
        if hosts[i] == host {
            assert(hosts@[i as int] == host);
            return true;
        }
        i = i + 1;
    }
    false
}

/// What removing an inode does to the local disk.
#[derive(Debug)]
pub enum LocalRemoval {
    /// The file is held by this peer: it must be removed from the disk.
    File(WhPath),
    /// The file is not held by this peer: a copy left on the disk is removed
    /// if there is one, and a failure is ignored.
    StaleFile(WhPath),
    /// An empty directory.
    Dir(WhPath),
    /// A symbolic link.
    Symlink(WhPath),
}

impl LocalRemoval {
    /// The path that the removal concerns.
    pub open spec fn path(self) -> Seq<Seq<char>> {
        match self {
            LocalRemoval::File(p) => p@,
            LocalRemoval::StaleFile(p) => p@,
            LocalRemoval::Dir(p) => p@,
            LocalRemoval::Symlink(p) => p@,
        }
    }
}

impl FsInterface {
    /// The inode to remove when the system asks to remove the child `name` of
    /// `parent`, once the parent is found writable.
    pub fn fuse_remove_inode(&self, parent: Ino, name: &InodeName) -> (r: Result<Ino, RemoveFileError>)
        ensures
            !self.tree().contains_key(parent) ==> r matches Err(RemoveFileError::WhError {
                source: WhError::InodeNotFound,
            }),
            self.tree().contains_key(parent) && !mode_bit(self.tree()[parent].meta.perm, 7) ==> r matches Err(
                RemoveFileError::PermissionDenied,
            ),
            self.tree().contains_key(parent) && mode_bit(self.tree()[parent].meta.perm, 7) ==> match lookup(
                self.tree(),
                parent,
                name@,
            ) {
                Ok(c) => r == Ok::<Ino, RemoveFileError>(self.tree()[c].id),
                Err(e) => r matches Err(RemoveFileError::WhError { source }) && source == e,
            },
    {
        let itree = &self.network_interface.itree;
        let p_inode = match itree.get_inode(parent) {
            Ok(p) => p,
            Err(source) => {
                return Err(RemoveFileError::WhError { source });
            },
        };
        if !has_write_perm(p_inode.meta.perm) {
            return Err(RemoveFileError::PermissionDenied);
        }
        proof {
            crate::pods::itree::lemma_find_named_found(self.tree(), entry_children(self.tree()[parent].entry), name@);
        }
        match itree.get_inode_child_by_name(p_inode, name.as_str()) {
            Ok(child) => Ok(child.id),
            Err(source) => Err(RemoveFileError::WhError { source }),
        }
    }

    /// What removing `id` does to the local disk: see [LocalRemoval]. A
    /// directory that still has children is refused.
    pub fn remove_inode_locally(&self, id: Ino) -> (r: Result<LocalRemoval, RemoveFileError>)
        requires
            self.network_interface.itree.wf(),
        ensures
            !self.tree().contains_key(id) ==> r matches Err(RemoveFileError::WhError {
                source: WhError::InodeNotFound,
            }),
            self.tree().contains_key(id) ==> match self.tree()[id].entry {
                EntryView::File(hosts) => r matches Ok(action) && action.path()
                    == self.network_interface.itree.path_of(id).unwrap() && if hosts.contains(
                    self.network_interface.id,
                ) {
                    action is File
                } else {
                    action is StaleFile
                },
                EntryView::Directory(children) => if children.len() == 0 {
                    r matches Ok(action) && action is Dir && action.path()
                        == self.network_interface.itree.path_of(id).unwrap()
                } else {
                    r matches Err(RemoveFileError::NonEmpty)
                },
                EntryView::Symlink(_) => r matches Ok(action) && action is Symlink && action.path()
                    == self.network_interface.itree.path_of(id).unwrap(),
            },
    {
        let itree = &self.network_interface.itree;
        proof {
            itree.lemma_path_of(id);
        }
        let path = match itree.get_path_from_inode_id(id) {
            Ok(path) => path,
            Err(source) => {
                return Err(RemoveFileError::WhError { source });
            },
        };
        let inode = match itree.get_inode(id) {
            Ok(inode) => inode,
            Err(source) => {
                return Err(RemoveFileError::WhError { source });
            },
        };
        match &inode.entry {
            FsEntry::File(hosts) => if holds(hosts, self.network_interface.id) {
                Ok(LocalRemoval::File(path))
            } else {
                Ok(LocalRemoval::StaleFile(path))
            },
            FsEntry::Directory(children) => if children.len() == 0 {
                Ok(LocalRemoval::Dir(path))
            } else {
                Err(RemoveFileError::NonEmpty)
            },
            FsEntry::Symlink(_) => Ok(LocalRemoval::Symlink(path)),
        }
    }
}

} // verus!
