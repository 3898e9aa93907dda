use vstd::prelude::*;

use crate::error::WhError;
use crate::pods::filesystem::flush::FlushError;
use crate::pods::filesystem::fs_interface::FsInterface;
use crate::pods::filesystem::permissions::{has_write_perm, mode_bit};
use crate::pods::filesystem::read::ReadError;
use crate::pods::itree::fsentry::entry_children;
use crate::pods::itree::inode::Ino;
use crate::pods::itree::{find_named, special_ino, ITree, TreeView};
use crate::pods::whpath::InodeName;

verus! {

/// Why an entry could not be renamed.
#[derive(Debug)]
pub enum RenameError {
    WhError { source: WhError },
    OverwriteNonEmpty,
    LocalOverwriteFailed { io: std::io::Error },
    SourceParentNotFound,
    SourceParentNotFolder,
    DestinationParentNotFound,
    DestinationParentNotFolder,
    DestinationExists,
    LocalRenamingFailed { io: std::io::Error },
    ProtectedNameIsFolder,
    ReadFailed { source: ReadError },
    LocalWriteFailed { io: std::io::Error },
    FlushError { source: FlushError },
    PermissionDenied,
}

/// How a rename is to be carried out.
#[derive(Debug, Clone, Copy, PartialEq, Eq, Structural)]
pub enum RenamePlan {
    /// The entry keeps its parent and its name: nothing to do.
    Unchanged,
    /// A protected name is involved, and protected names have their own inos:
    /// the contents of `source` are copied into `dest` (into a new inode when
    /// there is none), then `source` is removed.
    Special { source: Ino, dest: Option<Ino> },
    /// `overwritten`, if any, is removed, then `source` is moved, on disk and
    /// in the tree.
    Plain { source: Ino, overwritten: Option<Ino> },
}

/// What [FsInterface::rename] decides for renaming the child `name` of `parent`
/// into `new_name` under `new_parent`.
pub open spec fn rename_plan(
    m: TreeView,
    parent: Ino,
    new_parent: Ino,
    name: Seq<char>,
    new_name: Seq<char>,
    overwrite: bool,
) -> Result<RenamePlan, RenameError> {
    if parent == new_parent && name == new_name {
        Ok(RenamePlan::Unchanged)
    } else if !m.contains_key(parent) {
        Err(RenameError::SourceParentNotFound)
    } else if !mode_bit(m[parent].meta.perm, 7) {
        Err(RenameError::PermissionDenied)
    } else if !(m[parent].entry is Directory) {
        Err(RenameError::SourceParentNotFolder)
    } else {
        match find_named(m, entry_children(m[parent].entry), name) {
            None => Err(RenameError::SourceParentNotFound),
            Some(s) => {
                let source = m[s].id;
                if !m.contains_key(new_parent) {
                    Err(RenameError::WhError { source: WhError::InodeNotFound })
                } else if !(m[new_parent].entry is Directory) {
                    Err(RenameError::WhError { source: WhError::InodeIsNotADirectory })
                } else {
                    let dest = match find_named(m, entry_children(m[new_parent].entry), new_name) {
                        Some(d) => Some(m[d].id),
                        None => None,
                    };
                    if dest is Some && !overwrite {
                        Err(RenameError::DestinationExists)
                    } else if special_ino(name, parent) is Some || special_ino(new_name, new_parent) is Some {
                        Ok(RenamePlan::Special { source, dest })
                    } else {
                        Ok(RenamePlan::Plain { source, overwritten: dest })
                    }
                }
            },
        }
    }
}

/// A rename out of a directory whose owner write bit is clear is refused with
/// `PermissionDenied`, unless nothing changes; and a rename out of a
/// directory whose owner may write it is never refused for permission.
pub proof fn lemma_rename_needs_write(
    m: TreeView,
    parent: Ino,
    new_parent: Ino,
    name: Seq<char>,
    new_name: Seq<char>,
    overwrite: bool,
)
    ensures
        m.contains_key(parent) && m[parent].meta.perm & 0o200u16 == 0 && !(parent == new_parent && name
            == new_name) ==> rename_plan(m, parent, new_parent, name, new_name, overwrite) == Err::<
            RenamePlan,
            RenameError,
        >(RenameError::PermissionDenied),
        m.contains_key(parent) && m[parent].meta.perm & 0o200u16 != 0 ==> rename_plan(
            m,
            parent,
            new_parent,
            name,
            new_name,
            overwrite,
        ) != Err::<RenamePlan, RenameError>(RenameError::PermissionDenied),
        parent == new_parent && name == new_name ==> rename_plan(m, parent, new_parent, name, new_name, overwrite)
            == Ok::<RenamePlan, RenameError>(RenamePlan::Unchanged),
{
    if m.contains_key(parent) {
        crate::pods::filesystem::permissions::lemma_owner_write_bit(m[parent].meta.perm);
    }
}

/// What [FsInterface::recept_rename] decides for a rename asked by a peer:
/// the inode to remove first, if the destination name is taken.
pub open spec fn recept_rename_plan(m: TreeView, new_parent: Ino, new_name: Seq<char>, overwrite: bool) -> Result<
    Option<Ino>,
    RenameError,
> {
    if !m.contains_key(new_parent) {
        Err(RenameError::WhError { source: WhError::InodeNotFound })
    } else if !(m[new_parent].entry is Directory) {
        Err(RenameError::WhError { source: WhError::InodeIsNotADirectory })
    } else {
        match find_named(m, entry_children(m[new_parent].entry), new_name) {
            None => Ok(None),
            Some(d) => if overwrite {
                Ok(Some(m[d].id))
            } else {
                Err(RenameError::DestinationExists)
            },
        }
    }
}

impl FsInterface {
    /// Decides how to rename the child `name` of `parent` into `new_name` under
    /// `new_parent`; see [rename_plan]. The plan is then carried out on disk
    /// and, with [crate::pods::network::network_interface::NetworkInterface::rename],
    /// in the tree of every peer.
    pub fn rename(&self, parent: Ino, new_parent: Ino, name: &InodeName, new_name: &InodeName, overwrite: bool) -> (r:
        Result<RenamePlan, RenameError>)
        ensures
            r == rename_plan(self.tree(), parent, new_parent, name@, new_name@, overwrite),
            self.tree().contains_key(parent) && self.tree()[parent].meta.perm & 0o200u16 == 0 && !(parent
                == new_parent && name@ == new_name@) ==> r == Err::<RenamePlan, RenameError>(
                RenameError::PermissionDenied,
            ),
            self.tree().contains_key(parent) && self.tree()[parent].meta.perm & 0o200u16 != 0 ==> r
                != Err::<RenamePlan, RenameError>(RenameError::PermissionDenied),
    {
        proof {
            if self.tree().contains_key(parent) {
                crate::pods::filesystem::permissions::lemma_owner_write_bit(self.tree()[parent].meta.perm);
            }
        }
        let ghost m = self.tree();
        if parent == new_parent && name.same_as(new_name) {
            return Ok(RenamePlan::Unchanged);
        }
        let itree = &self.network_interface.itree;
        let p_inode = match itree.get_inode(parent) {
            Ok(p) => p,
            Err(_) => {
                return Err(RenameError::SourceParentNotFound);
            },
        };
        if !has_write_perm(p_inode.meta.perm) {
            return Err(RenameError::PermissionDenied);
        }
        proof {
            crate::pods::itree::lemma_find_named_found(m, entry_children(m[parent].entry), name@);
        }
        let src_ino = match itree.get_inode_child_by_name(p_inode, name.as_str()) {
            Ok(src) => src.id,
            Err(WhError::InodeIsNotADirectory) => {
                return Err(RenameError::SourceParentNotFolder);
            },
            Err(_) => {
                return Err(RenameError::SourceParentNotFound);
            },
        };
        let np_inode = match itree.get_inode(new_parent) {
            Ok(p) => p,
            Err(source) => {
                return Err(RenameError::WhError { source });
            },
        };
        proof {
            crate::pods::itree::lemma_find_named_found(m, entry_children(m[new_parent].entry), new_name@);
        }
        let dest_ino = match itree.get_inode_child_by_name(np_inode, new_name.as_str()) {
            Ok(inode) => Some(inode.id),
            Err(WhError::InodeNotFound) => None,
            Err(source) => {
                return Err(RenameError::WhError { source });
            },
        };
        if dest_ino.is_some() && !overwrite {
            return Err(RenameError::DestinationExists);
        }
        if ITree::get_special(name.as_str(), parent).is_some() || ITree::get_special(
            new_name.as_str(),
            new_parent,
        ).is_some() {
            return Ok(RenamePlan::Special { source: src_ino, dest: dest_ino });
        }
        Ok(RenamePlan::Plain { source: src_ino, overwritten: dest_ino })
    }

    /// Decides how to apply a rename asked by a peer; see [recept_rename_plan].
    pub fn recept_rename(&self, new_parent: Ino, new_name: &InodeName, overwrite: bool) -> (r: Result<
        Option<Ino>,
        RenameError,
    >)
        ensures
            r == recept_rename_plan(self.tree(), new_parent, new_name@, overwrite),
    {
        let ghost m = self.tree();
        let itree = &self.network_interface.itree;
        let np_inode = match itree.get_inode(new_parent) {
            Ok(p) => p,
            Err(source) => {
                return Err(RenameError::WhError { source });
            },
        };
        proof {
            crate::pods::itree::lemma_find_named_found(m, entry_children(m[new_parent].entry), new_name@);
        }
        match itree.get_inode_child_by_name(np_inode, new_name.as_str()) {
            Ok(inode) => if overwrite {
                Ok(Some(inode.id))
            } else {
                Err(RenameError::DestinationExists)
            },
            Err(WhError::InodeNotFound) => Ok(None),
            Err(source) => Err(RenameError::WhError { source }),
        }
    }
}

} // verus!
