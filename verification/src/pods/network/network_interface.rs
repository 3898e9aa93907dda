use vstd::prelude::*;

use crate::error::{WhError, WhResult};
use crate::network::message::{Request, Response};
use crate::pods::filesystem::make_inode::MakeInodeError;
use crate::pods::filesystem::remove_inode::RemoveInodeError;
use crate::pods::filesystem::rename::RenameError;
use crate::pods::itree::fsentry::{entry_children, EntryView, FsEntry, HostId};
use crate::pods::itree::inode::{Ino, Inode, InodeView, Metadata, WhTime, ROOT};
use crate::pods::itree::{
    entry_hosts, forget_host, hosts_without, mv_result, strictly_sorted, with_child, with_entry,
    without_child, ITree, LOCAL_CONFIG_INO,
};
use crate::pods::whpath::InodeName;

verus! {

/// What a pod shares with the network: the replicated inode tree, the peer it
/// runs as, the peers it is connected to and the addresses it listens on.
///
/// The operations that change the tree return the request to broadcast, if any;
/// sending it is left to the caller.
pub struct NetworkInterface {
    pub itree: ITree,
    pub id: HostId,
    pub peers: Vec<HostId>,
    pub listen_addrs: Vec<String>,
}

/// The texts of the addresses.
pub open spec fn addrs_view(v: Seq<String>) -> Seq<Seq<char>> {
    v.map_values(|a: String| a@)
}

/// A time that cannot be told as a distance past the epoch is replaced by the
/// time of reference.
pub open spec fn fixed_time(t: WhTime, reference: WhTime) -> WhTime {
    if t.since_epoch {
        t
    } else {
        reference
    }
}

/// The metadata `meta` with each time that lies before the epoch replaced by
/// the one of `reference`.
pub open spec fn fixed_meta(meta: Metadata, reference: Metadata) -> Metadata {
    Metadata {
        atime: fixed_time(meta.atime, reference.atime),
        ctime: fixed_time(meta.ctime, reference.ctime),
        crtime: fixed_time(meta.crtime, reference.crtime),
        mtime: fixed_time(meta.mtime, reference.mtime),
        ..meta
    }
}

/// The times of fixed metadata all lie after the epoch when those of the
/// reference do, and fixing metadata whose times all lie after the epoch
/// changes nothing.
pub proof fn lemma_fixed_meta(meta: Metadata, reference: Metadata)
    ensures
        reference.atime.since_epoch && reference.ctime.since_epoch && reference.crtime.since_epoch
            && reference.mtime.since_epoch ==> {
            let f = fixed_meta(meta, reference);
            f.atime.since_epoch && f.ctime.since_epoch && f.crtime.since_epoch && f.mtime.since_epoch
        },
        meta.atime.since_epoch && meta.ctime.since_epoch && meta.crtime.since_epoch && meta.mtime.since_epoch
            ==> fixed_meta(meta, reference) == meta,
{
}

impl NetworkInterface {
    pub fn new(itree: ITree, id: HostId, peers: Vec<HostId>) -> (r: NetworkInterface)
        ensures
            r.itree == itree,
            r.id == id,
            r.peers == peers,
            r.listen_addrs@ == Seq::<String>::empty(),
    {
        NetworkInterface { itree, id, peers, listen_addrs: Vec::new() }
    }

    /// Whether `addr` is among the addresses listened on.
    fn listens_on(&self, addr: &str) -> (r: Option<usize>)
        ensures
            match r {
                Some(i) => i < self.listen_addrs@.len() && self.listen_addrs@[i as int]@ == addr@,
                None => !addrs_view(self.listen_addrs@).contains(addr@),
            },
    {
        let mut i: usize = 0;
        while i < self.listen_addrs.len()
            invariant
                i <= self.listen_addrs@.len(),
                forall|j: int| 0 <= j < i ==> self.listen_addrs@[j]@ != addr@,
            decreases self.listen_addrs@.len() - i,
        {
            if crate::pods::whpath::str_eq(self.listen_addrs[i].as_str(), addr) {
                return Some(i);
            }
            i = i + 1;
        }
        proof {
            if addrs_view(self.listen_addrs@).contains(addr@) {
                let j = choose|j: int| 0 <= j < self.listen_addrs@.len() && addrs_view(self.listen_addrs@)[j] == addr@;
                assert(self.listen_addrs@[j]@ == addr@);
            }
        }
        None
    }

    /// The network listens on one more address: it is added, once.
    pub fn add_listen_addr(&mut self, addr: String)
        ensures
            final(self).itree == old(self).itree,
            final(self).id == old(self).id,
            final(self).peers == old(self).peers,
            addrs_view(final(self).listen_addrs@) == if addrs_view(old(self).listen_addrs@).contains(addr@) {
                addrs_view(old(self).listen_addrs@)
            } else {
                addrs_view(old(self).listen_addrs@).push(addr@)
            },
    {
        match self.listens_on(addr.as_str()) {
            Some(i) => {
                proof {
                    assert(addrs_view(self.listen_addrs@)[i as int] == addr@);
                }
            },
            None => {
                let ghost before = self.listen_addrs@;
                self.listen_addrs.push(addr);
                proof {
                    assert(addrs_view(self.listen_addrs@) =~= addrs_view(before).push(addr@));
                }
            },
        }
    }

    /// An address the network listened on expired: it is no longer listed.
    pub fn remove_listen_addr(&mut self, addr: &str)
        ensures
            final(self).itree == old(self).itree,
            final(self).id == old(self).id,
            final(self).peers == old(self).peers,
            addrs_view(old(self).listen_addrs@).no_duplicates() ==> addrs_view(final(self).listen_addrs@) == addrs_view(
                old(self).listen_addrs@,
            ).remove_value(addr@) && !addrs_view(final(self).listen_addrs@).contains(addr@),
            !addrs_view(old(self).listen_addrs@).contains(addr@) ==> final(self).listen_addrs@ == old(self).listen_addrs@,
    {
        match self.listens_on(addr) {
            Some(i) => {
                let ghost before = self.listen_addrs@;
                self.listen_addrs.remove(i);
                proof {
                    let v = addrs_view(before);
                    assert(addrs_view(self.listen_addrs@) =~= v.remove(i as int));
                    assert(v[i as int] == addr@);
                    assert(v.contains(addr@));
                    if v.no_duplicates() {
                        v.index_of_first_ensures(addr@);
                        assert(v.remove_value(addr@) == v.remove(i as int)) by {
                            let f = v.index_of_first(addr@);
                            assert(f is Some);
                            assert(f->Some_0 == i as int);
                        }
                        assert(!v.remove(i as int).contains(addr@)) by {
                            if v.remove(i as int).contains(addr@) {
                                let k = choose|k: int| 0 <= k < v.len() - 1 && v.remove(i as int)[k] == addr@;
                                if k < i {
                                    assert(v[k] == addr@);
                                } else {
                                    assert(v[k + 1] == addr@);
                                }
                            }
                        }
                    }
                }
            },
            None => {
                proof {
                    addrs_view(self.listen_addrs@).index_of_first_ensures(addr@);
                }
            },
        }
    }

    /// Adds a new inode to the tree, as a child of its parent; returns the
    /// request that tells the other peers, unless the inode is local only.
    pub fn register_new_inode(&mut self, inode: Inode) -> (r: Result<Option<Request>, MakeInodeError>)
        ensures
            final(self).id == old(self).id,
            final(self).peers == old(self).peers,
            final(self).itree.next_ino_spec() == old(self).itree.next_ino_spec(),
            ({
                let m = old(self).itree@;
                let fits = !m.contains_key(inode.id) && m.contains_key(inode.parent)
                    && m[inode.parent].entry is Directory;
                &&& fits ==> r is Ok && final(self).itree@ == m.insert(
                    inode.parent,
                    with_child(m[inode.parent], inode.id),
                ).insert(inode.id, inode@)
                &&& fits && inode.id == LOCAL_CONFIG_INO ==> r == Ok::<Option<Request>, MakeInodeError>(None)
                &&& fits && inode.id != LOCAL_CONFIG_INO ==> (r matches Ok(Some(Request::Inode(i))) && i@ == inode@)
                &&& !fits ==> r is Err && final(self).itree@ == m
                &&& m.contains_key(inode.id) ==> r is Err && r->Err_0 is AlreadyExist
                &&& !m.contains_key(inode.id) && !m.contains_key(inode.parent) ==> r is Err
                    && r->Err_0 is ParentNotFound
                &&& !m.contains_key(inode.id) && m.contains_key(inode.parent) && !(
                m[inode.parent].entry is Directory) ==> r is Err && r->Err_0 is ParentNotFolder
            }),
            old(self).itree.wf() && r is Ok && entry_children(inode@.entry).len() == 0 ==> final(self).itree.wf(),
            old(self).itree.wf() && r is Err ==> final(self).itree.wf(),
    {
        let shared = inode.clone();
        let id = inode.id;
        match self.itree.add_inode(inode) {
            Ok(()) => {},
            Err(e) => {
                return Err(e);
            },
        }
        if ITree::is_local_only(id) {
            Ok(None)
        } else {
            Ok(Some(Request::Inode(shared)))
        }
    }

    /// Moves the child `name` of `parent` under `new_parent` as `new_name`, in
    /// the tree; returns the request that tells the other peers.
    pub fn rename(&mut self, parent: Ino, new_parent: Ino, name: InodeName, new_name: InodeName, overwrite: bool) -> (r:
        Result<Request, RenameError>)
        ensures
            final(self).id == old(self).id,
            final(self).peers == old(self).peers,
            final(self).itree.next_ino_spec() == old(self).itree.next_ino_spec(),
            final(self).itree@ == mv_result(old(self).itree@, parent, new_parent, name@, new_name@).0,
            match mv_result(old(self).itree@, parent, new_parent, name@, new_name@).1 {
                Ok(_) => r matches Ok(Request::Rename(p, np, n, nn, o)) && p == parent && np == new_parent
                    && n@ == name@ && nn@ == new_name@ && o == overwrite,
                Err(e) => r matches Err(RenameError::WhError { source }) && source == e,
            },
    {
        let ghost m = self.itree@;
        let res = self.itree.mv_inode(parent, new_parent, name.as_str(), new_name.clone());
        assert(self.itree@ == mv_result(m, parent, new_parent, name@, new_name@).0);
        assert(res is Ok <==> mv_result(m, parent, new_parent, name@, new_name@).1 is Ok);
        assert(res is Err ==> res == mv_result(m, parent, new_parent, name@, new_name@).1);
        match res {
            Ok(()) => Ok(Request::Rename(parent, new_parent, name, new_name, overwrite)),
            Err(source) => Err(RenameError::WhError { source }),
        }
    }

    /// Applies in the tree a rename made by a peer.
    pub fn acknowledge_rename(&mut self, parent: Ino, new_parent: Ino, name: InodeName, new_name: InodeName) -> (r:
        Result<(), RenameError>)
        ensures
            final(self).id == old(self).id,
            final(self).peers == old(self).peers,
            final(self).itree.next_ino_spec() == old(self).itree.next_ino_spec(),
            final(self).itree@ == mv_result(old(self).itree@, parent, new_parent, name@, new_name@).0,
            match mv_result(old(self).itree@, parent, new_parent, name@, new_name@).1 {
                Ok(_) => r is Ok,
                Err(WhError::InodeNotFound) => r matches Err(RenameError::DestinationParentNotFound),
                Err(WhError::InodeIsNotADirectory) => r matches Err(RenameError::DestinationParentNotFolder),
                Err(e) => r matches Err(RenameError::WhError { source }) && source == e,
            },
    {
        let ghost m = self.itree@;
        let res = self.itree.mv_inode(parent, new_parent, name.as_str(), new_name);
        assert(self.itree@ == mv_result(m, parent, new_parent, name@, new_name@).0);
        assert(res is Ok <==> mv_result(m, parent, new_parent, name@, new_name@).1 is Ok);
        assert(res is Err ==> res == mv_result(m, parent, new_parent, name@, new_name@).1);
        match res {
            Ok(()) => Ok(()),
            Err(WhError::InodeNotFound) => Err(RenameError::DestinationParentNotFound),
            Err(WhError::InodeIsNotADirectory) => Err(RenameError::DestinationParentNotFolder),
            Err(source) => Err(RenameError::WhError { source }),
        }
    }

    /// Adds to the tree an inode made by a peer; the inos up to its own are
    /// marked as given out.
    pub fn acknowledge_new_file(&mut self, inode: Inode) -> (r: Result<(), MakeInodeError>)
        requires
            inode.id < u64::MAX,
        ensures
            final(self).id == old(self).id,
            final(self).peers == old(self).peers,
            final(self).itree.next_ino_spec() == if old(self).itree.next_ino_spec() <= inode.id {
                (inode.id + 1) as u64
            } else {
                old(self).itree.next_ino_spec()
            },
            ({
                let m = old(self).itree@;
                let fits = !m.contains_key(inode.id) && m.contains_key(inode.parent)
                    && m[inode.parent].entry is Directory;
                &&& fits ==> r is Ok && final(self).itree@ == m.insert(
                    inode.parent,
                    with_child(m[inode.parent], inode.id),
                ).insert(inode.id, inode@)
                &&& !fits ==> r is Err && final(self).itree@ == m
            }),
            old(self).itree.wf() && (r is Ok ==> entry_children(inode@.entry).len() == 0) ==> final(self).itree.wf(),
    {
        let _ = self.itree.mark_reserved_ino(inode.id);
        self.itree.add_inode(inode)
    }

    /// Removes an inode from the tree; returns the request that tells the
    /// other peers, unless the inode is local only.
    pub fn unregister_inode(&mut self, id: Ino) -> (r: Result<Option<Request>, RemoveInodeError>)
        ensures
            final(self).id == old(self).id,
            final(self).peers == old(self).peers,
            final(self).itree.next_ino_spec() == old(self).itree.next_ino_spec(),
            ({
                let m = old(self).itree@;
                let fits = m.contains_key(id) && entry_children(m[id].entry).len() == 0 && m.contains_key(
                    m[id].parent,
                ) && m[m[id].parent].entry is Directory;
                &&& fits ==> r is Ok && final(self).itree@ == m.insert(
                    m[id].parent,
                    without_child(m[m[id].parent], id),
                ).remove(id)
                &&& fits ==> (if id == LOCAL_CONFIG_INO {
                    r == Ok::<Option<Request>, RemoveInodeError>(None)
                } else {
                    r matches Ok(Some(Request::Remove(i))) && i == id
                })
                &&& !fits ==> r is Err && final(self).itree@ == m
                &&& m.contains_key(id) && entry_children(m[id].entry).len() > 0 ==> r == Err::<
                    Option<Request>,
                    RemoveInodeError,
                >(RemoveInodeError::NonEmpty)
            }),
            old(self).itree.wf() && id != ROOT && r is Ok ==> final(self).itree.wf(),
            old(self).itree.wf() && r is Err ==> final(self).itree.wf(),
    {
        match self.itree.remove_inode(id) {
            Ok(_) => {},
            Err(e) => {
                return Err(e);
            },
        }
        if ITree::is_local_only(id) {
            Ok(None)
        } else {
            Ok(Some(Request::Remove(id)))
        }
    }

    /// Removes from the tree an inode that a peer removed.
    pub fn acknowledge_unregister_inode(&mut self, id: Ino) -> (r: Result<Inode, RemoveInodeError>)
        ensures
            final(self).id == old(self).id,
            final(self).peers == old(self).peers,
            final(self).itree.next_ino_spec() == old(self).itree.next_ino_spec(),
            ({
                let m = old(self).itree@;
                let fits = m.contains_key(id) && entry_children(m[id].entry).len() == 0 && m.contains_key(
                    m[id].parent,
                ) && m[m[id].parent].entry is Directory;
                &&& fits ==> (r matches Ok(inode) && inode@ == m[id]) && final(self).itree@ == m.insert(
                    m[id].parent,
                    without_child(m[m[id].parent], id),
                ).remove(id)
                &&& !fits ==> r is Err && final(self).itree@ == m
            }),
            old(self).itree.wf() && id != ROOT && r is Ok ==> final(self).itree.wf(),
            old(self).itree.wf() && r is Err ==> final(self).itree.wf(),
    {
        self.itree.remove_inode(id)
    }

    /// Adds hosts to a file; returns the request that tells the other peers,
    /// unless the file is local only.
    pub fn add_inode_hosts(&mut self, ino: Ino, hosts: Vec<HostId>) -> (r: WhResult<Option<Request>>)
        ensures
            final(self).id == old(self).id,
            final(self).peers == old(self).peers,
            final(self).itree.next_ino_spec() == old(self).itree.next_ino_spec(),
            !old(self).itree@.contains_key(ino) ==> r == Err::<Option<Request>, WhError>(WhError::InodeNotFound)
                && final(self).itree@ == old(self).itree@,
            old(self).itree@.contains_key(ino) && !(old(self).itree@[ino].entry is File) ==> r == Err::<
                Option<Request>,
                WhError,
            >(WhError::InodeIsADirectory) && final(self).itree@ == old(self).itree@,
            old(self).itree@.contains_key(ino) && old(self).itree@[ino].entry is File ==> {
                &&& final(self).itree@ == old(self).itree@.insert(
                    ino,
                    with_entry(old(self).itree@[ino], final(self).itree@[ino].entry),
                )
                &&& final(self).itree@[ino].entry is File
                &&& strictly_sorted(entry_hosts(final(self).itree@[ino].entry))
                &&& entry_hosts(final(self).itree@[ino].entry).to_set() == (entry_hosts(
                    old(self).itree@[ino].entry,
                ) + hosts@).to_set()
                &&& if ino == LOCAL_CONFIG_INO {
                    r == Ok::<Option<Request>, WhError>(None)
                } else {
                    r matches Ok(Some(Request::AddHosts(i, h))) && i == ino && h@ == hosts@
                }
            },
            old(self).itree.wf() ==> final(self).itree.wf(),
    {
        self.itree.add_inode_hosts(ino, hosts.as_slice())?;
        if ITree::is_local_only(ino) {
            Ok(None)
        } else {
            Ok(Some(Request::AddHosts(ino, hosts)))
        }
    }

    /// Adds to a file hosts that a peer added.
    pub fn aknowledge_new_hosts(&mut self, id: Ino, new_hosts: Vec<HostId>) -> (r: WhResult<()>)
        ensures
            final(self).id == old(self).id,
            final(self).peers == old(self).peers,
            final(self).itree.next_ino_spec() == old(self).itree.next_ino_spec(),
            !old(self).itree@.contains_key(id) ==> r == Err::<(), WhError>(WhError::InodeNotFound)
                && final(self).itree@ == old(self).itree@,
            old(self).itree@.contains_key(id) && !(old(self).itree@[id].entry is File) ==> r == Err::<(), WhError>(
                WhError::InodeIsADirectory,
            ) && final(self).itree@ == old(self).itree@,
            old(self).itree@.contains_key(id) && old(self).itree@[id].entry is File ==> {
                &&& r is Ok
                &&& final(self).itree@ == old(self).itree@.insert(
                    id,
                    with_entry(old(self).itree@[id], final(self).itree@[id].entry),
                )
                &&& final(self).itree@[id].entry is File
                &&& strictly_sorted(entry_hosts(final(self).itree@[id].entry))
                &&& entry_hosts(final(self).itree@[id].entry).to_set() == (entry_hosts(
                    old(self).itree@[id].entry,
                ) + new_hosts@).to_set()
            },
            old(self).itree.wf() ==> final(self).itree.wf(),
    {
        self.itree.add_inode_hosts(id, new_hosts.as_slice())
    }

    /// Removes from a file hosts that a peer removed.
    pub fn aknowledge_hosts_removal(&mut self, id: Ino, new_hosts: Vec<HostId>) -> (r: WhResult<()>)
        ensures
            final(self).id == old(self).id,
            final(self).peers == old(self).peers,
            final(self).itree.next_ino_spec() == old(self).itree.next_ino_spec(),
            !old(self).itree@.contains_key(id) ==> r == Err::<(), WhError>(WhError::InodeNotFound)
                && final(self).itree@ == old(self).itree@,
            old(self).itree@.contains_key(id) && !(old(self).itree@[id].entry is File) ==> r == Err::<(), WhError>(
                WhError::InodeIsADirectory,
            ) && final(self).itree@ == old(self).itree@,
            old(self).itree@.contains_key(id) && old(self).itree@[id].entry is File ==> r is Ok
                && final(self).itree@ == old(self).itree@.insert(
                id,
                with_entry(
                    old(self).itree@[id],
                    EntryView::File(hosts_without(entry_hosts(old(self).itree@[id].entry), new_hosts@)),
                ),
            ),
            old(self).itree.wf() ==> final(self).itree.wf(),
    {
        self.itree.remove_inode_hosts(id, new_hosts.as_slice())
    }

    /// Replaces the metadata of an inode, keeping the former times in place of
    /// those of `meta` that lie before the epoch; returns the request that
    /// tells the other peers, unless the inode is local only.
    pub fn update_metadata(&mut self, id: Ino, meta: Metadata) -> (r: WhResult<Option<Request>>)
        ensures
            final(self).id == old(self).id,
            final(self).peers == old(self).peers,
            final(self).itree.next_ino_spec() == old(self).itree.next_ino_spec(),
            !old(self).itree@.contains_key(id) ==> r == Err::<Option<Request>, WhError>(WhError::InodeNotFound)
                && final(self).itree@ == old(self).itree@,
            old(self).itree@.contains_key(id) ==> ({
                let fixed = fixed_meta(meta, old(self).itree@[id].meta);
                &&& final(self).itree@ == old(self).itree@.insert(
                    id,
                    InodeView { meta: fixed, ..old(self).itree@[id] },
                )
                &&& if id == LOCAL_CONFIG_INO {
                    r == Ok::<Option<Request>, WhError>(None)
                } else {
                    r matches Ok(Some(Request::EditMetadata(i, m))) && i == id && m == fixed
                }
            }),
            old(self).itree.wf() ==> final(self).itree.wf(),
    {
        let reference = self.itree.get_inode(id)?.meta;
        let mut fixed = meta;
        if !fixed.atime.since_epoch {
            fixed.atime = reference.atime;
        }
        if !fixed.ctime.since_epoch {
            fixed.ctime = reference.ctime;
        }
        if !fixed.crtime.since_epoch {
            fixed.crtime = reference.crtime;
        }
        if !fixed.mtime.since_epoch {
            fixed.mtime = reference.mtime;
        }
        self.itree.set_inode_meta(id, fixed)?;
        if ITree::is_local_only(id) {
            Ok(None)
        } else {
            Ok(Some(Request::EditMetadata(id, fixed)))
        }
    }

    /// Forgets a peer that left: it is no longer a peer, nor a host of any file.
    pub fn disconnect_peer(&mut self, addr: HostId) -> (r: WhResult<Response>)
        ensures
            r matches Ok(Response::Success),
            final(self).id == old(self).id,
            final(self).peers@ == old(self).peers@.filter(|p: HostId| p != addr),
            old(self).peers@.no_duplicates() ==> final(self).peers@.no_duplicates(),
            final(self).itree@ == forget_host(old(self).itree@, addr),
            final(self).itree.next_ino_spec() == old(self).itree.next_ino_spec(),
            old(self).itree.wf() ==> final(self).itree.wf(),
    {
        let mut kept: Vec<HostId> = Vec::new();
        let mut i: usize = 0;
        proof {
            reveal(Seq::filter);
            assert(self.peers@.take(0) =~= Seq::<HostId>::empty());
        }
        while i < self.peers.len()
            invariant
                i <= self.peers.len(),
                kept@ == self.peers@.take(i as int).filter(|p: HostId| p != addr),
            decreases self.peers.len() - i,
        {
            proof {
                reveal(Seq::filter);
                assert(self.peers@.take(i + 1).drop_last() =~= self.peers@.take(i as int));
            }
            if self.peers[i] != addr {
                kept.push(self.peers[i]);
            }
            i = i + 1;
        }
        assert(self.peers@.take(self.peers.len() as int) =~= self.peers@);
        proof {
            if self.peers@.no_duplicates() {
                crate::pods::pod::lemma_filter_no_duplicates(self.peers@, |p: HostId| p != addr);
            }
        }
        self.peers = kept;
        self.itree.remove_host_from_all(addr);
        Ok(Response::Success)
    }

    /// The answer to a peer `to` that joins: the tree fit to share (see
    /// [crate::pods::itree::ITree::clean_local]), and the other peers.
    pub fn send_filesystem(&self, to: HostId) -> (r: WhResult<Response>)
        ensures
            r matches Ok(Response::FsAnswer(t, p)) && t@ == crate::pods::itree::cleaned(self.itree@)
                && p@ == self.peers@.filter(|x: HostId| x != to),
    {
        let clean = self.itree.clone().clean_local();
        let mut peers: Vec<HostId> = Vec::new();
        let mut i: usize = 0;
        proof {
            reveal(Seq::filter);
            assert(self.peers@.take(0) =~= Seq::<HostId>::empty());
        }
        while i < self.peers.len()
            invariant
                i <= self.peers@.len(),
                peers@ == self.peers@.take(i as int).filter(|x: HostId| x != to),
            decreases self.peers@.len() - i,
        {
            proof {
                reveal(Seq::filter);
                assert(self.peers@.take(i + 1).drop_last() =~= self.peers@.take(i as int));
            }
            if self.peers[i] != to {
                peers.push(self.peers[i]);
            }
            i = i + 1;
        }
        proof {
            assert(self.peers@.take(self.peers@.len() as int) =~= self.peers@);
        }
        Ok(Response::FsAnswer(clean, peers))
    }
}

} // verus!
