use vstd::prelude::*;

use crate::error::{WhError, WhResult};
use crate::network::message::{Request, Response};
use crate::pods::itree::inode::{Ino, InodeView};
use crate::pods::itree::TreeView;
use crate::pods::network::network_interface::NetworkInterface;

verus! {

/// The tree once the extended attribute `key` of `ino` holds `data`.
pub open spec fn with_xattr(m: TreeView, ino: Ino, key: Seq<char>, data: Seq<u8>) -> TreeView {
    m.insert(ino, InodeView { xattrs: m[ino].xattrs.insert(key, data), ..m[ino] })
}

/// The tree once the extended attribute `key` of `ino` is removed.
pub open spec fn without_xattr(m: TreeView, ino: Ino, key: Seq<char>) -> TreeView {
    m.insert(ino, InodeView { xattrs: m[ino].xattrs.remove(key), ..m[ino] })
}

/// Once an extended attribute is set, reading it gives what was set, and the
/// other attributes and inodes are unchanged; once it is removed, it is gone.
pub proof fn lemma_xattr_read_after_write(m: TreeView, ino: Ino, key: Seq<char>, data: Seq<u8>, other: Seq<char>)
    requires
        m.contains_key(ino),
    ensures
        with_xattr(m, ino, key, data)[ino].xattrs[key] == data,
        other != key ==> with_xattr(m, ino, key, data)[ino].xattrs.get(other) == m[ino].xattrs.get(other),
        !without_xattr(m, ino, key)[ino].xattrs.contains_key(key),
        with_xattr(m, ino, key, data).dom() == m.dom(),
{
    assert(with_xattr(m, ino, key, data).dom() =~= m.dom());
}

impl NetworkInterface {
    /// Stores `data` under the extended attribute `key` of `ino`; returns the
    /// request that tells the other peers.
    pub fn set_inode_xattr(&mut self, ino: Ino, key: &str, data: Vec<u8>) -> (r: WhResult<Request>)
        ensures
            final(self).id == old(self).id,
            final(self).peers == old(self).peers,
            final(self).itree.next_ino_spec() == old(self).itree.next_ino_spec(),
            old(self).itree.wf() ==> final(self).itree.wf(),
            !old(self).itree@.contains_key(ino) ==> r == Err::<Request, WhError>(WhError::InodeNotFound)
                && final(self).itree@ == old(self).itree@,
            old(self).itree@.contains_key(ino) ==> final(self).itree@ == with_xattr(old(self).itree@, ino, key@, data@)
                && (r matches Ok(Request::SetXAttr(i, k, d)) && i == ino && k@ == key@ && d@ == data@),
    {
        let kept = data.clone();
        self.itree.set_inode_xattr(ino, key, data)?;
        Ok(Request::SetXAttr(ino, key.to_owned(), kept))
    }

    /// Stores an extended attribute that a peer set.
    pub fn recept_inode_xattr(&mut self, ino: Ino, key: &str, data: Vec<u8>) -> (r: WhResult<Response>)
        ensures
            final(self).id == old(self).id,
            final(self).peers == old(self).peers,
            final(self).itree.next_ino_spec() == old(self).itree.next_ino_spec(),
            old(self).itree.wf() ==> final(self).itree.wf(),
            !old(self).itree@.contains_key(ino) ==> r == Err::<Response, WhError>(WhError::InodeNotFound)
                && final(self).itree@ == old(self).itree@,
            old(self).itree@.contains_key(ino) ==> final(self).itree@ == with_xattr(old(self).itree@, ino, key@, data@)
                && r matches Ok(Response::Success),
    {
        self.itree.set_inode_xattr(ino, key, data)?;
        Ok(Response::Success)
    }

    /// Removes the extended attribute `key` of `ino`; returns the request that
    /// tells the other peers.
    pub fn remove_inode_xattr(&mut self, ino: Ino, key: &str) -> (r: WhResult<Request>)
        ensures
            final(self).id == old(self).id,
            final(self).peers == old(self).peers,
            final(self).itree.next_ino_spec() == old(self).itree.next_ino_spec(),
            old(self).itree.wf() ==> final(self).itree.wf(),
            !old(self).itree@.contains_key(ino) ==> r == Err::<Request, WhError>(WhError::InodeNotFound)
                && final(self).itree@ == old(self).itree@,
            old(self).itree@.contains_key(ino) ==> final(self).itree@ == without_xattr(old(self).itree@, ino, key@)
                && (r matches Ok(Request::RemoveXAttr(i, k)) && i == ino && k@ == key@),
    {
        self.itree.remove_inode_xattr(ino, key)?;
        Ok(Request::RemoveXAttr(ino, key.to_owned()))
    }

    /// Removes an extended attribute that a peer removed.
    pub fn recept_remove_inode_xattr(&mut self, ino: Ino, key: &str) -> (r: WhResult<Response>)
        ensures
            final(self).id == old(self).id,
            final(self).peers == old(self).peers,
            final(self).itree.next_ino_spec() == old(self).itree.next_ino_spec(),
            old(self).itree.wf() ==> final(self).itree.wf(),
            !old(self).itree@.contains_key(ino) ==> r == Err::<Response, WhError>(WhError::InodeNotFound)
                && final(self).itree@ == old(self).itree@,
            old(self).itree@.contains_key(ino) ==> final(self).itree@ == without_xattr(old(self).itree@, ino, key@)
                && r matches Ok(Response::Success),
    {
        self.itree.remove_inode_xattr(ino, key)?;
        Ok(Response::Success)
    }
}

} // verus!
