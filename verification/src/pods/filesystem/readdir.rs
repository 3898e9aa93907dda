use vstd::prelude::*;

use crate::error::WhError;
use crate::pods::filesystem::fs_interface::FsInterface;
use crate::pods::filesystem::permissions::{has_read_perm, mode_bit};
use crate::pods::itree::fsentry::{entry_children, EntrySymlink, EntrySymlinkView, EntryView, FsEntry};
use crate::pods::itree::inode::{Ino, Inode, InodeView};
use crate::pods::itree::TreeView;

verus! {

/// Why a directory could not be listed.
#[derive(Debug, Clone, PartialEq, Eq)]
pub enum ReadDirError {
    PermissionError,
    WhError { source: WhError },
}

/// Why a symbolic link could not be read.
#[derive(Debug, Clone, PartialEq, Eq)]
pub enum ReadLinkError {
    NotALink,
    WhError { source: WhError },
}

/// The numbers, names and inodes of a listing.
pub open spec fn listing_view(v: Seq<(u64, String, Inode)>) -> Seq<(u64, Seq<char>, InodeView)> {
    v.map_values(|e: (u64, String, Inode)| (e.0, e.1@, e.2@))
}

/// The listing of the children `children`, each under its own name.
pub open spec fn children_listing(m: TreeView, children: Seq<Ino>) -> Seq<(u64, Seq<char>, InodeView)> {
    children.map_values(|c: Ino| (m[c].id, m[c].name, m[c]))
}

/// The listing of the directory `ino`: itself as `.`, its parent as `..`, then
/// each of its children under its name.
pub open spec fn dir_listing(m: TreeView, ino: Ino) -> Seq<(u64, Seq<char>, InodeView)> {
    let dir = m[ino];
    seq![(dir.id, "."@, dir), (m[dir.parent].id, ".."@, m[dir.parent])] + children_listing(
        m,
        entry_children(dir.entry),
    )
}

/// Every child of the directory `ino`, and its parent, are in the tree.
pub open spec fn listing_complete(m: TreeView, ino: Ino) -> bool {
    &&& m.contains_key(m[ino].parent)
    &&& forall|i: int|
        0 <= i < entry_children(m[ino].entry).len() ==> m.contains_key(
            #[trigger] entry_children(m[ino].entry)[i],
        )
}

impl FsInterface {
    /// Lists the directory `ino`.
    pub fn read_dir(&self, ino: Ino) -> (r: Result<Vec<(u64, String, Inode)>, ReadDirError>)
        ensures
            !self.tree().contains_key(ino) ==> r == Err::<Vec<(u64, String, Inode)>, ReadDirError>(
                ReadDirError::WhError { source: WhError::InodeNotFound },
            ),
            self.tree().contains_key(ino) && !mode_bit(self.tree()[ino].meta.perm, 8) ==> r == Err::<
                Vec<(u64, String, Inode)>,
                ReadDirError,
            >(ReadDirError::PermissionError),
            self.tree().contains_key(ino) && mode_bit(self.tree()[ino].meta.perm, 8) && !(
            self.tree()[ino].entry is Directory) ==> r == Err::<Vec<(u64, String, Inode)>, ReadDirError>(
                ReadDirError::WhError { source: WhError::InodeIsNotADirectory },
            ),
            self.tree().contains_key(ino) && mode_bit(self.tree()[ino].meta.perm, 8)
                && self.tree()[ino].entry is Directory ==> if listing_complete(self.tree(), ino) {
                r matches Ok(v) && listing_view(v@) == dir_listing(self.tree(), ino)
            } else {
                r == Err::<Vec<(u64, String, Inode)>, ReadDirError>(
                    ReadDirError::WhError { source: WhError::InodeNotFound },
                )
            },
    {
        let dir = match self.network_interface.itree.get_inode(ino) {
            Ok(dir) => dir,
            Err(source) => {
                return Err(ReadDirError::WhError { source });
            },
        };
        if !has_read_perm(dir.meta.perm) {
            return Err(ReadDirError::PermissionError);
        }
        let ghost m = self.tree();
        let children = match &dir.entry {
            FsEntry::Directory(children) => children,
            _ => {
                return Err(ReadDirError::WhError { source: WhError::InodeIsNotADirectory });
            },
        };
        let ghost ch = children@;
        assert(ch == entry_children(m[ino].entry));
        let mut listed: Vec<(u64, String, Inode)> = Vec::new();
        let mut i: usize = 0;
        while i < children.len()
            invariant
                i <= children.len(),
                ch == children@,
                m == self.tree(),
                m.contains_key(ino),
                mode_bit(m[ino].meta.perm, 8),
                m[ino].entry is Directory,
                ch == entry_children(m[ino].entry),
                listing_view(listed@) == children_listing(m, ch.take(i as int)),
                forall|j: int| 0 <= j < i ==> m.contains_key(#[trigger] ch[j]),
            decreases children.len() - i,
        {
            let child = match self.network_interface.itree.get_inode(children[i]) {
                Ok(child) => child,
                Err(source) => {
                    return Err(ReadDirError::WhError { source });
                },
            };
            let ghost before = listed@;
            listed.push((child.id, child.name.as_str().to_owned(), child.clone()));
            assert(listing_view(listed@) =~= listing_view(before).push(
                (m[ch[i as int]].id, m[ch[i as int]].name, m[ch[i as int]]),
            ));
            assert(children_listing(m, ch.take(i + 1)) =~= children_listing(m, ch.take(i as int)).push(
                (m[ch[i as int]].id, m[ch[i as int]].name, m[ch[i as int]]),
            ));
            i = i + 1;
        }
        assert(ch.take(children.len() as int) =~= ch);
        let parent = match self.network_interface.itree.get_inode(dir.parent) {
            Ok(parent) => parent,
            Err(source) => {
                return Err(ReadDirError::WhError { source });
            },
        };
        let mut links: Vec<(u64, String, Inode)> = Vec::new();
        links.push((dir.id, ".".to_owned(), dir.clone()));
        links.push((parent.id, "..".to_owned(), parent.clone()));
        let ghost head = links@;
        let ghost tail = listed@;
        links.append(&mut listed);
        assert(links@ == head + tail);
        assert(listing_view(links@) =~= listing_view(head) + listing_view(tail));
        assert(listing_view(head) =~= seq![(m[ino].id, "."@, m[ino]), (m[m[ino].parent].id, ".."@, m[m[ino].parent])]);
        Ok(links)
    }

    /// The target of the symbolic link `ino`.
    pub fn readlink(&self, ino: Ino) -> (r: Result<EntrySymlink, ReadLinkError>)
        ensures
            !self.tree().contains_key(ino) ==> r == Err::<EntrySymlink, ReadLinkError>(
                ReadLinkError::WhError { source: WhError::InodeNotFound },
            ),
            self.tree().contains_key(ino) ==> match self.tree()[ino].entry {
                EntryView::Symlink(s) => r matches Ok(l) && l@ == s,
                _ => r == Err::<EntrySymlink, ReadLinkError>(ReadLinkError::NotALink),
            },
    {
        let inode = match self.network_interface.itree.get_inode(ino) {
            Ok(inode) => inode,
            Err(source) => {
                return Err(ReadLinkError::WhError { source });
            },
        };
        match &inode.entry {
            FsEntry::Symlink(symlink) => Ok(symlink.clone()),
            _ => Err(ReadLinkError::NotALink),
        }
    }
}

} // verus!
