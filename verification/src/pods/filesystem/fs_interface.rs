use vstd::prelude::*;

use crate::error::{WhError, WhResult};
use crate::pods::disk_managers::DiskSizeInfo;
use crate::pods::filesystem::permissions::{has_execute_perm, may_execute};
use crate::pods::filesystem::make_inode::MakeInodeError;
use crate::pods::itree::fsentry::{entry_children, EntrySymlink, EntryView, FsEntry, HostId};
use crate::pods::itree::with_child;
use crate::pods::whpath::WhPath;
use crate::pods::itree::inode::{Ino, Inode, Metadata};
use crate::pods::itree::{lookup, TreeView};
use crate::pods::network::network_interface::NetworkInterface;

verus! {

/// The kinds of entry that the drive holds.
#[derive(Debug, Clone, Copy, PartialEq, Eq, Structural)]
pub enum SimpleFileType {
    File,
    Directory,
    Symlink,
}

impl SimpleFileType {
    /// The kind of an entry.
    pub fn from_entry(entry: &FsEntry) -> (r: SimpleFileType)
        ensures
            r == crate::pods::itree::fsentry::entry_kind(entry@),
    {
        entry.get_filetype()
    }
}

/// What the handlers of the system's file system calls (fuse, winfsp) see of
/// a pod: its network interface, which holds the replicated inode tree.
///
/// The disk and the network are driven by the caller: the operations that
/// change them return what is to be done.
pub struct FsInterface {
    pub network_interface: NetworkInterface,
}

/// What receiving a new inode from a peer does to the local disk.
#[derive(Debug)]
pub enum LocalCreation {
    /// A file that this peer holds: an empty file is made, with the mode given.
    File(WhPath, u16),
    /// A directory, with the mode given.
    Dir(WhPath, u16),
    /// A symbolic link, with the mode given.
    Symlink(WhPath, u16, EntrySymlink),
    /// A file that other peers hold: nothing to make.
    Nothing,
}

/// The number of inodes that can still be created, as reported to the system:
/// all inos left while fewer than half have been given out, else a fixed
/// billion.
pub open spec fn free_inodes(next_ino: u64) -> u64 {
    if next_ino < u64::MAX / 2 {
        (u64::MAX - next_ino) as u64
    } else {
        1_000_000_000
    }
}

impl FsInterface {
    pub fn new(network_interface: NetworkInterface) -> (r: FsInterface)
        ensures
            r.network_interface == network_interface,
    {
        FsInterface { network_interface }
    }

    /// The inode tree.
    pub open spec fn tree(&self) -> TreeView {
        self.network_interface.itree@
    }

    /// The child named `name` of the directory `parent`.
    ///
    /// `Ok(None)` when the directory may not be traversed.
    pub fn get_entry_from_name(&self, parent: Ino, name: &str) -> (r: WhResult<Option<Inode>>)
        ensures
            !self.tree().contains_key(parent) ==> r == Err::<Option<Inode>, WhError>(WhError::InodeNotFound),
            self.tree().contains_key(parent) && !may_execute(self.tree()[parent].meta.perm) ==> r
                == Ok::<Option<Inode>, WhError>(None),
            self.tree().contains_key(parent) && may_execute(self.tree()[parent].meta.perm) ==> match lookup(
                self.tree(),
                parent,
                name@,
            ) {
                Ok(c) => r matches Ok(Some(i)) && i@ == self.tree()[c],
                Err(e) => r == Err::<Option<Inode>, WhError>(e),
            },
    {
        let p_inode = self.network_interface.itree.get_inode(parent)?;
        if !has_execute_perm(p_inode.meta.perm) {
            return Ok(None);
        }
        proof {
            crate::pods::itree::lemma_find_named_found(
                self.tree(),
                crate::pods::itree::fsentry::entry_children(self.tree()[parent].entry),
                name@,
            );
        }
        let child = self.network_interface.itree.get_inode_child_by_name(p_inode, name)?;
        Ok(Some(child.clone()))
    }

    /// The attributes of the inode `ino`.
    pub fn get_inode_attributes(&self, ino: Ino) -> (r: WhResult<Metadata>)
        ensures
            self.tree().contains_key(ino) ==> r == Ok::<Metadata, WhError>(self.tree()[ino].meta),
            !self.tree().contains_key(ino) ==> r == Err::<Metadata, WhError>(WhError::InodeNotFound),
    {
        Ok(self.network_interface.itree.get_inode(ino)?.meta)
    }

    /// Adds to the tree an inode that a peer made, and says what to make on
    /// the local disk for it.
    pub fn recept_inode(&mut self, inode: Inode) -> (r: Result<LocalCreation, MakeInodeError>)
        requires
            old(self).network_interface.itree.wf(),
            inode.id < u64::MAX,
            entry_children(inode@.entry).len() == 0,
        ensures
            final(self).network_interface.id == old(self).network_interface.id,
            final(self).network_interface.peers == old(self).network_interface.peers,
            final(self).network_interface.itree.wf(),
            ({
                let m = old(self).tree();
                let fits = !m.contains_key(inode.id) && m.contains_key(inode.parent)
                    && m[inode.parent].entry is Directory;
                &&& !fits ==> r is Err && final(self).tree() == m
                &&& fits ==> final(self).tree() == m.insert(inode.parent, with_child(m[inode.parent], inode.id)).insert(
                    inode.id,
                    inode@,
                ) && ({
                    let path = final(self).network_interface.itree.path_of(inode.id).unwrap();
                    match inode@.entry {
                        EntryView::File(hosts) => if hosts.contains(old(self).network_interface.id) {
                            r matches Ok(LocalCreation::File(p, perm)) && p@ == path && perm == inode.meta.perm
                        } else {
                            r matches Ok(LocalCreation::Nothing)
                        },
                        EntryView::Directory(_) => r matches Ok(LocalCreation::Dir(p, perm)) && p@ == path
                            && perm == inode.meta.perm,
                        EntryView::Symlink(s) => r matches Ok(LocalCreation::Symlink(p, perm, l)) && p@ == path
                            && perm == inode.meta.perm && l@ == s,
                    }
                })
            }),
    {
        let kept = inode.clone();
        self.network_interface.acknowledge_new_file(inode)?;
        let itree = &self.network_interface.itree;
        proof {
            itree.lemma_path_of(kept.id);
        }
        let new_path = match itree.get_path_from_inode_id(kept.id) {
            Ok(path) => path,
            Err(source) => {
                return Err(MakeInodeError::WhError { source });
            },
        };
        let perm = kept.meta.perm;
        match kept.entry {
            FsEntry::File(hosts) => if crate::pods::filesystem::remove_inode::holds(&hosts, self.network_interface.id) {
                Ok(LocalCreation::File(new_path, perm))
            } else {
                Ok(LocalCreation::Nothing)
            },
            FsEntry::Directory(_) => Ok(LocalCreation::Dir(new_path, perm)),
            FsEntry::Symlink(symlink) => Ok(LocalCreation::Symlink(new_path, perm, symlink)),
        }
    }

    /// Where to store a copy of the file `id` that a peer sends for
    /// redundancy, and its mode. Once stored, this peer is added to its hosts
    /// with [crate::pods::network::network_interface::NetworkInterface::aknowledge_new_hosts].
    pub fn recept_redundancy(&self, id: Ino) -> (r: WhResult<(WhPath, u16)>)
        requires
            self.network_interface.itree.wf(),
        ensures
            !self.tree().contains_key(id) ==> r == Err::<(WhPath, u16), WhError>(WhError::InodeNotFound),
            self.tree().contains_key(id) ==> (r matches Ok((path, perm)) && path@
                == self.network_interface.itree.path_of(id).unwrap() && perm == self.tree()[id].meta.perm),
    {
        let itree = &self.network_interface.itree;
        proof {
            itree.lemma_path_of(id);
        }
        let path = itree.get_path_from_inode_id(id)?;
        let perm = itree.get_inode(id)?.meta.perm;
        Ok((path, perm))
    }

    /// Takes hosts out of a file, as a peer asked; returns the path of the
    /// local copy to delete when this peer is one of them.
    pub fn recept_remove_hosts(&mut self, id: Ino, hosts: Vec<HostId>) -> (r: WhResult<Option<WhPath>>)
        requires
            old(self).network_interface.itree.wf(),
        ensures
            final(self).network_interface.id == old(self).network_interface.id,
            final(self).network_interface.peers == old(self).network_interface.peers,
            final(self).network_interface.itree.wf(),
            !old(self).tree().contains_key(id) ==> r == Err::<Option<WhPath>, WhError>(WhError::InodeNotFound)
                && final(self).tree() == old(self).tree(),
            old(self).tree().contains_key(id) && !(old(self).tree()[id].entry is File) ==> r is Err
                && final(self).tree() == old(self).tree(),
            old(self).tree().contains_key(id) && old(self).tree()[id].entry is File ==> {
                &&& final(self).tree() == old(self).tree().insert(
                    id,
                    crate::pods::itree::with_entry(
                        old(self).tree()[id],
                        EntryView::File(
                            crate::pods::itree::hosts_without(
                                crate::pods::itree::entry_hosts(old(self).tree()[id].entry),
                                hosts@,
                            ),
                        ),
                    ),
                )
                &&& if hosts@.contains(old(self).network_interface.id) {
                    r matches Ok(Some(p)) && p@ == old(self).network_interface.itree.path_of(id).unwrap()
                } else {
                    r matches Ok(None)
                }
            },
    {
        let mut to_delete: Option<WhPath> = None;
        if crate::pods::filesystem::remove_inode::holds(&hosts, self.network_interface.id) {
            proof {
                self.network_interface.itree.lemma_path_of(id);
            }
            to_delete = Some(self.network_interface.itree.get_path_from_inode_id(id)?);
        }
        self.network_interface.aknowledge_hosts_removal(id, hosts)?;
        Ok(to_delete)
    }

    /// The size information of the drive: what the disk reports, with the
    /// number of inodes of the tree and the number still free.
    pub fn get_size_info(&self, disk_info: DiskSizeInfo) -> (r: DiskSizeInfo)
        ensures
            r == (DiskSizeInfo {
                files: self.tree().len() as u64,
                ffree: free_inodes(self.network_interface.itree.next_ino_spec()),
                ..disk_info
            }),
    {
        let files = self.network_interface.itree.len() as u64;
        let next_ino = self.network_interface.itree.next_ino();
        let ffree = if next_ino < u64::MAX / 2 {
            u64::MAX - next_ino
        } else {
            1_000_000_000
        };
        DiskSizeInfo { files, ffree, ..disk_info }
    }
}

} // verus!
