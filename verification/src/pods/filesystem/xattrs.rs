use vstd::prelude::*;

use crate::error::{WhError, WhResult};
use crate::pods::filesystem::fs_interface::FsInterface;
use crate::pods::itree::inode::Ino;
use crate::text::views;

verus! {

/// Why an extended attribute could not be read.
#[derive(Debug, Clone, PartialEq, Eq)]
pub enum GetXAttrError {
    WhError { source: WhError },
    KeyNotFound,
}

impl FsInterface {
    /// The bytes stored under the extended attribute `key` of `ino`.
    pub fn get_inode_xattr(&self, ino: Ino, key: &str) -> (r: Result<Vec<u8>, GetXAttrError>)
        ensures
            !self.tree().contains_key(ino) ==> r == Err::<Vec<u8>, GetXAttrError>(
                GetXAttrError::WhError { source: WhError::InodeNotFound },
            ),
            self.tree().contains_key(ino) && self.tree()[ino].xattrs.contains_key(key@) ==> (r matches Ok(data)
                && data@ == self.tree()[ino].xattrs[key@]),
            self.tree().contains_key(ino) && !self.tree()[ino].xattrs.contains_key(key@) ==> r == Err::<
                Vec<u8>,
                GetXAttrError,
            >(GetXAttrError::KeyNotFound),
    {
        let inode = match self.network_interface.itree.get_inode(ino) {
            Ok(inode) => inode,
            Err(source) => {
                return Err(GetXAttrError::WhError { source });
            },
        };
        match inode.xattrs.get(key) {
            Some(data) => Ok(data.clone()),
            None => Err(GetXAttrError::KeyNotFound),
        }
    }

    /// Whether `ino` has the extended attribute `key`.
    pub fn xattr_exists(&self, ino: Ino, key: &str) -> (r: WhResult<bool>)
        ensures
            !self.tree().contains_key(ino) ==> r == Err::<bool, WhError>(WhError::InodeNotFound),
            self.tree().contains_key(ino) ==> r == Ok::<bool, WhError>(
                self.tree()[ino].xattrs.contains_key(key@),
            ),
    {
        let inode = self.network_interface.itree.get_inode(ino)?;
        Ok(inode.xattrs.contains_key(key))
    }

    /// The keys of the extended attributes of `ino`, each once.
    pub fn list_inode_xattr(&self, ino: Ino) -> (r: WhResult<Vec<String>>)
        ensures
            !self.tree().contains_key(ino) ==> r == Err::<Vec<String>, WhError>(WhError::InodeNotFound),
            self.tree().contains_key(ino) ==> (r matches Ok(keys) && views(keys@).no_duplicates()
                && forall|k: Seq<char>|
                views(keys@).contains(k) <==> self.tree()[ino].xattrs.contains_key(k)),
    {
        let inode = self.network_interface.itree.get_inode(ino)?;
        Ok(inode.xattrs.keys())
    }
}

} // verus!
