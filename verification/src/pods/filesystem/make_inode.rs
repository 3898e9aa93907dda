use vstd::prelude::*;

use crate::error::WhError;
use crate::pods::filesystem::fs_interface::{FsInterface, SimpleFileType};
use crate::pods::filesystem::permissions::{has_write_perm, mode_bit};
use crate::pods::itree::fsentry::{entry_children, EntryView, FsEntry, HostId};
use crate::pods::itree::inode::{fresh_meta, Ino, Inode};
use crate::pods::itree::{find_named, special_ino, ITree, TreeView};
use crate::pods::whpath::{name_as_path, InodeName, WhPath};

verus! {

/// Why an inode could not be made.
#[derive(Debug)]
pub enum MakeInodeError {
    WhError { source: WhError },
    AlreadyExist,
    ParentNotFound,
    ParentNotFolder,
    LocalCreationFailed { io: std::io::Error },
    ProtectedNameIsFolder,
    PermissionDenied,
}

/// Why an entry named `name` cannot be made in `parent`, if it cannot: the
/// parent is missing, may not be written, is not a directory, or already has
/// a child of that name.
pub open spec fn creation_refusal(m: TreeView, parent: Ino, name: Seq<char>) -> Option<MakeInodeError> {
    if !m.contains_key(parent) {
        Some(MakeInodeError::WhError { source: WhError::InodeNotFound })
    } else if !mode_bit(m[parent].meta.perm, 7) {
        Some(MakeInodeError::PermissionDenied)
    } else if !(m[parent].entry is Directory) {
        Some(MakeInodeError::WhError { source: WhError::InodeIsNotADirectory })
    } else if find_named(m, entry_children(m[parent].entry), name) is Some {
        Some(MakeInodeError::AlreadyExist)
    } else {
        None
    }
}

/// Nothing can be made in an existing directory whose owner write bit is
/// clear: `PermissionDenied`; and nothing is refused for permission in one
/// whose owner may write it.
pub proof fn lemma_creation_needs_write(m: TreeView, parent: Ino, name: Seq<char>)
    ensures
        m.contains_key(parent) && m[parent].meta.perm & 0o200u16 == 0 ==> creation_refusal(m, parent, name)
            == Some(MakeInodeError::PermissionDenied),
        m.contains_key(parent) && m[parent].meta.perm & 0o200u16 != 0 ==> creation_refusal(m, parent, name)
            != Some(MakeInodeError::PermissionDenied),
{
    if m.contains_key(parent) {
        crate::pods::filesystem::permissions::lemma_owner_write_bit(m[parent].meta.perm);
    }
}

/// The entry of a new inode of kind `kind` made by the peer `host`: a file
/// held by that peer alone, or an empty directory.
pub open spec fn new_entry_view(kind: SimpleFileType, host: HostId) -> EntryView {
    if kind == SimpleFileType::File {
        EntryView::File(seq![host])
    } else {
        EntryView::Directory(Seq::empty())
    }
}

impl FsInterface {
    /// Prepares a new inode named `name` in `parent_ino`.
    ///
    /// Refuses a protected name for anything but a file. Reserves the ino of
    /// the inode (a protected name has its own), checks the parent (see
    /// [creation_refusal]) and returns the inode with the path at which it is
    /// to be created on disk. The tree itself is not changed: once the disk
    /// entry is made, the inode is registered with
    /// [crate::pods::network::network_interface::NetworkInterface::register_new_inode].
    pub fn make_inode(&mut self, parent_ino: Ino, name: InodeName, permissions: u16, kind: SimpleFileType) -> (r:
        Result<(Inode, WhPath), MakeInodeError>)
        requires
            old(self).network_interface.itree.wf(),
            kind != SimpleFileType::Symlink,
        ensures
            final(self).tree() == old(self).tree(),
            final(self).network_interface.itree.wf(),
            final(self).network_interface.id == old(self).network_interface.id,
            final(self).network_interface.peers == old(self).network_interface.peers,
            ({
                let m = old(self).tree();
                let special = special_ino(name@, parent_ino);
                let next = old(self).network_interface.itree.next_ino_spec();
                let reserved = special is None && next < u64::MAX;
                let id = if special is Some { special.unwrap() } else { next };
                &&& special is Some && kind != SimpleFileType::File ==> (r is Err
                    && r->Err_0 is ProtectedNameIsFolder)
                &&& special is None && next == u64::MAX ==> (r is Err && r->Err_0 is WhError
                    && r->Err_0->source is WouldBlock)
                &&& final(self).network_interface.itree.next_ino_spec() == if reserved {
                    (next + 1) as u64
                } else {
                    next
                }
                &&& (special is Some && kind == SimpleFileType::File) || reserved ==> match creation_refusal(
                    m,
                    parent_ino,
                    name@,
                ) {
                    Some(e) => r == Err::<(Inode, WhPath), MakeInodeError>(e),
                    None => r is Ok && ({
                        let (inode, path) = r->Ok_0;
                        inode.parent == parent_ino && inode.id == id
                        && inode.name@ == name@ && inode.entry@ == new_entry_view(
                        kind,
                        old(self).network_interface.id,
                    ) && fresh_meta(inode.meta, id, inode.entry@, permissions)
                        && inode.xattrs@ == Map::<Seq<char>, Seq<u8>>::empty() && path@
                        == old(self).network_interface.itree.path_of(parent_ino).unwrap()
                        + name_as_path(name@)
                    }),
                }
            }),
            ({
                let m = old(self).tree();
                let special = special_ino(name@, parent_ino);
                let go = (special is Some && kind == SimpleFileType::File) || (special is None
                    && old(self).network_interface.itree.next_ino_spec() < u64::MAX);
                &&& go && m.contains_key(parent_ino) && m[parent_ino].meta.perm & 0o200u16 == 0 ==> (r matches Err(
                    MakeInodeError::PermissionDenied,
                ))
                &&& m.contains_key(parent_ino) && m[parent_ino].meta.perm & 0o200u16 != 0 ==> !(r matches Err(
                    MakeInodeError::PermissionDenied,
                ))
            }),
    {
        proof {
            if old(self).tree().contains_key(parent_ino) {
                crate::pods::filesystem::permissions::lemma_owner_write_bit(old(self).tree()[parent_ino].meta.perm);
            }
        }
        let new_entry = if kind == SimpleFileType::File {
            let hosts = vec![self.network_interface.id];
            assert(hosts@ =~= seq![self.network_interface.id]);
            FsEntry::File(hosts)
        } else {
            let children: Vec<Ino> = Vec::new();
            assert(children@ =~= Seq::<Ino>::empty());
            FsEntry::Directory(children)
        };
        assert(new_entry@ == new_entry_view(kind, self.network_interface.id));
        let special = ITree::get_special(name.as_str(), parent_ino);
        if special.is_some() && kind != SimpleFileType::File {
            return Err(MakeInodeError::ProtectedNameIsFolder);
        }
        let new_ino = match special {
            Some(ino) => ino,
            None => match self.network_interface.itree.reserve_ino() {
                Ok(ino) => ino,
                Err(source) => {
                    return Err(MakeInodeError::WhError { source });
                },
            },
        };
        let new_inode = Inode::new(name, parent_ino, new_ino, new_entry, permissions);
        let itree = &self.network_interface.itree;
        let parent = match itree.get_inode(parent_ino) {
            Ok(parent) => parent,
            Err(source) => {
                return Err(MakeInodeError::WhError { source });
            },
        };
        if !has_write_perm(parent.meta.perm) {
            return Err(MakeInodeError::PermissionDenied);
        }
        match itree.get_inode_child_by_name(parent, new_inode.name.as_str()) {
            Ok(_) => {
                return Err(MakeInodeError::AlreadyExist);
            },
            Err(WhError::InodeNotFound) => {},
            Err(source) => {
                return Err(MakeInodeError::WhError { source });
            },
        }
        proof {
            itree.lemma_path_of(parent_ino);
        }
        let mut new_path = match itree.get_path_from_inode_id(parent_ino) {
            Ok(path) => path,
            Err(source) => {
                return Err(MakeInodeError::WhError { source });
            },
        };
        new_path.push(WhPath::from_name(&new_inode.name));
        Ok((new_inode, new_path))
    }
}

} // verus!
