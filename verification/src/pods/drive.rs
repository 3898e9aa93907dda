use std::sync::Arc;

use vstd::prelude::*;

use crate::error::{new_io_error, IoKind, WhError};
use crate::network::message::{Request, Response};
use crate::pods::disk_managers::DiskManager;
use crate::pods::filesystem::diffs::{Delta, Implementors, Signature};
use crate::pods::filesystem::file_handle::{dirtied, handle_at, may_write, AccessMode, FileHandles, HandleId};
use crate::pods::filesystem::flush::{flush_request_ok, DeltaOutcome, FlushError, FlushPlan, FlushState};
use crate::pods::filesystem::fs_interface::{FsInterface, LocalCreation, SimpleFileType};
use crate::pods::filesystem::make_inode::{creation_refusal, new_entry_view, MakeInodeError};
use crate::pods::filesystem::permissions::mode_bit;
use crate::pods::filesystem::read::{ReadError, ReadSource};
use crate::pods::filesystem::remove_inode::{LocalRemoval, RemoveFileError};
use crate::pods::filesystem::rename::{recept_rename_plan, rename_plan, RenameError, RenamePlan};
use crate::pods::filesystem::write::{blocks_for, max_size, WriteError};
use crate::pods::filesystem::File;
use crate::pods::itree::fsentry::{entry_children, EntrySymlink, EntryView, FsEntry, HostId};
use crate::pods::itree::inode::{fresh_meta, Ino, Inode, InodeView, Metadata, ROOT};
use crate::pods::itree::{
    entry_hosts, forget_host, hosts_without, lookup, mv_result, special_ino, with_child, with_entry, without_child,
    ITree, TreeView, GLOBAL_CONFIG_INO, LOCAL_CONFIG_INO,
};
use crate::pods::network::network_interface::{fixed_meta, NetworkInterface};
use crate::pods::network::pull_file::{is_file_answer, last_pulled, pulled_file, PullError};
use crate::pods::network::xattrs::{with_xattr, without_xattr};
use crate::pods::pod::PodStopError;
use crate::pods::whpath::{name_is_valid, InodeName, WhPath};

verus! {

/// A pod's file system on a disk: the operations of the system handlers and
/// of the peers, each decided on the tree, done on the disk, then recorded
/// in the tree. The requests for the peers are queued in `outbox`, to one
/// peer or to every peer when none is named.
///
/// Nothing is stated of what the disk answers: each operation says what holds
/// whatever it answered.
pub struct Drive<D: DiskManager> {
    pub fs: FsInterface,
    pub disk: D,
    pub outbox: Vec<(Option<HostId>, Request)>,
    /// What the drive asked of the disk, in order.
    pub calls: Ghost<Seq<DiskCall>>,
}

/// A path on the disk, as its components.
pub type DiskPath = Seq<Seq<char>>;

/// What the drive asks of its disk: each change with its arguments, and each
/// read with the bytes it gave.
pub enum DiskCall {
    NewFile(DiskPath, u16),
    NewDir(DiskPath, u16),
    NewSymlink(DiskPath, u16),
    RemoveFile(DiskPath),
    RemoveDir(DiskPath),
    RemoveSymlink(DiskPath),
    WriteFile(DiskPath, Seq<u8>, usize),
    SetFileSize(DiskPath, usize),
    MvFile(DiskPath, DiskPath),
    Read(DiskPath, Seq<u8>),
    ReadAt(DiskPath, usize, usize),
    Stop,
}

/// The call that makes on the disk what `c` says, if any.
pub open spec fn creation_call(c: LocalCreation) -> Option<DiskCall> {
    match c {
        LocalCreation::File(p, perm) => Some(DiskCall::NewFile(p@, perm)),
        LocalCreation::Dir(p, perm) => Some(DiskCall::NewDir(p@, perm)),
        LocalCreation::Symlink(p, perm, _) => Some(DiskCall::NewSymlink(p@, perm)),
        LocalCreation::Nothing => None,
    }
}

/// The calls that carry out the creations of `plan`, in order.
pub open spec fn creation_calls(plan: Seq<LocalCreation>) -> Seq<DiskCall>
    decreases plan.len(),
{
    if plan.len() == 0 {
        Seq::empty()
    } else {
        let rest = creation_calls(plan.drop_last());
        match creation_call(plan.last()) {
            Some(c) => rest.push(c),
            None => rest,
        }
    }
}

/// The call that takes off the disk the entry `e` at `p`.
pub open spec fn removal_call(e: EntryView, p: DiskPath) -> DiskCall {
    match e {
        EntryView::File(_) => DiskCall::RemoveFile(p),
        EntryView::Directory(_) => DiskCall::RemoveDir(p),
        EntryView::Symlink(_) => DiskCall::RemoveSymlink(p),
    }
}

/// The path of the file in which the tree is kept when the pod stops.
pub open spec fn tree_file_path() -> DiskPath {
    seq![".itree"@]
}

/// The calls `after` are the calls `before` followed by more.
/// How many bytes of a pulled file of `len` bytes lie from `offset` on.
pub open spec fn pulled_len(len: nat, offset: usize) -> nat {
    if len > offset {
        (len - offset) as nat
    } else {
        0
    }
}

/// Copies into `buf` the bytes of `data` from `offset` on; returns how many.
/// `data` holds no more than `buf` can take from `offset` on.
fn copy_pulled(data: &Vec<u8>, offset: usize, buf: &mut [u8]) -> (n: usize)
    requires
        data@.len() <= offset + old(buf)@.len(),
    ensures
        n == pulled_len(data@.len(), offset),
        n == 0 ==> final(buf)@ == old(buf)@,
        n > 0 ==> final(buf)@ == data@.subrange(offset as int, offset + n) + old(buf)@.skip(n as int),
{
    if data.len() <= offset {
        return 0;
    }
    let size = data.len() - offset;
    let ghost b0 = buf@;
    let mut j: usize = 0;
    assert(b0 =~= data@.subrange(offset as int, offset as int) + b0.skip(0));
    while j < size
        invariant
            j <= size,
            offset + size == data@.len(),
            data@.len() == data.len(),
            size <= buf@.len(),
            buf@.len() == b0.len(),
            buf@ == data@.subrange(offset as int, offset + j) + b0.skip(j as int),
        decreases size - j,
    {
        buf[j] = data[offset + j];
        assert(buf@ =~= data@.subrange(offset as int, offset + j + 1) + b0.skip(j + 1));
        j = j + 1;
    }
    size
}

/// The calls that write the configuration of the network, as the text
/// `text`, into its file, when the tree `itree` has one.
pub open spec fn config_calls(itree: ITree, text: Seq<u8>) -> Seq<DiskCall> {
    if itree@.contains_key(GLOBAL_CONFIG_INO) {
        let path = itree.path_of(GLOBAL_CONFIG_INO).unwrap();
        seq![DiskCall::NewFile(path, itree@[GLOBAL_CONFIG_INO].meta.perm), DiskCall::WriteFile(path, text, 0)]
    } else {
        Seq::empty()
    }
}

/// The answer of a flush, once what it answered besides is dropped.
pub open spec fn flush_result<T>(r: Result<T, FlushError>) -> Result<(), FlushError> {
    match r {
        Ok(_) => Ok(()),
        Err(e) => Err(e),
    }
}

/// This peer, `me`, holds the file `ino` of the tree `m`.
pub open spec fn holds_file(m: TreeView, ino: Ino, me: HostId) -> bool {
    m.contains_key(ino) && (m[ino].entry matches EntryView::File(hosts) && hosts.contains(me))
}

/// The requests from `n` on in `outbox` send the change of the file `ino`,
/// whose contents are now `f`, to each of `peers` in turn, as
/// [flush_request_ok] says, and `new_sig` summarises `f`.
pub open spec fn flush_sent(
    outbox: Seq<(Option<HostId>, Request)>,
    n: nat,
    peers: Seq<HostId>,
    m: TreeView,
    ino: Ino,
    old_sig: Signature,
    new_sig: Signature,
    f: Seq<u8>,
) -> bool {
    &&& new_sig.signs(f)
    &&& forall|i: int|
        0 <= i < peers.len() ==> #[trigger] outbox[n + i].0 == Some(peers[i]) && flush_request_ok(
            outbox[n + i].1,
            peers[i],
            crate::pods::itree::entry_hosts(m[ino].entry),
            ino,
            m[ino].meta,
            old_sig,
            f,
        )
}

pub open spec fn extends(after: Seq<DiskCall>, before: Seq<DiskCall>) -> bool {
    &&& before.len() <= after.len()
    &&& forall|i: int| 0 <= i < before.len() ==> #[trigger] after[i] == before[i]
}

/// From the position `n` of `calls` on, the bytes `data` were read at `from`,
/// then a file was made at `to` with the mode `perm`, then `data` was written
/// there from its start.
pub open spec fn copied(calls: Seq<DiskCall>, n: int, from: DiskPath, to: DiskPath, data: Seq<u8>, perm: u16) -> bool {
    exists|i: int, j: int, k: int|
        #![trigger calls[i], calls[j], calls[k]]
        0 <= n <= i < j < k < calls.len() && calls[i] == DiskCall::Read(from, data) && calls[j] == DiskCall::NewFile(
            to,
            perm,
        ) && calls[k] == DiskCall::WriteFile(to, data, 0)
}

/// A copy recorded among calls stays recorded once more calls follow.
proof fn lemma_copied_kept(
    calls: Seq<DiskCall>,
    more: Seq<DiskCall>,
    n: int,
    from: DiskPath,
    to: DiskPath,
    data: Seq<u8>,
    perm: u16,
)
    requires
        copied(calls, n, from, to, data, perm),
        extends(more, calls),
    ensures
        copied(more, n, from, to, data, perm),
{
    let (i, j, k) = choose|i: int, j: int, k: int|
        #![trigger calls[i], calls[j], calls[k]]
        0 <= n <= i < j < k < calls.len() && calls[i] == DiskCall::Read(from, data) && calls[j] == DiskCall::NewFile(
            to,
            perm,
        ) && calls[k] == DiskCall::WriteFile(to, data, 0);
    assert(more[i] == calls[i] && more[j] == calls[j] && more[k] == calls[k]);
}

/// From the call `n` on, `calls` make a new file at `to` with the mode `perm`
/// and then write `data` into it from its start.
pub open spec fn placed(calls: Seq<DiskCall>, n: int, to: DiskPath, data: Seq<u8>, perm: u16) -> bool {
    exists|j: int, k: int|
        #![trigger calls[j], calls[k]]
        0 <= n <= j < k < calls.len() && calls[j] == DiskCall::NewFile(to, perm) && calls[k] == DiskCall::WriteFile(
            to,
            data,
            0,
        )
}

/// A file made and written among calls stays recorded once more calls follow.
proof fn lemma_placed_kept(calls: Seq<DiskCall>, more: Seq<DiskCall>, n: int, to: DiskPath, data: Seq<u8>, perm: u16)
    requires
        placed(calls, n, to, data, perm),
        extends(more, calls),
    ensures
        placed(more, n, to, data, perm),
{
    let (j, k) = choose|j: int, k: int|
        #![trigger calls[j], calls[k]]
        0 <= n <= j < k < calls.len() && calls[j] == DiskCall::NewFile(to, perm) && calls[k] == DiskCall::WriteFile(
            to,
            data,
            0,
        );
    assert(more[j] == calls[j] && more[k] == calls[k]);
}

/// The tree once the inode `id` is taken out of it and of its parent.
pub open spec fn removed(m: TreeView, id: Ino) -> TreeView {
    m.insert(m[id].parent, without_child(m[m[id].parent], id)).remove(id)
}

/// The io error that stands for a disk error of kind `kind`.
fn disk_error(kind: IoKind) -> std::io::Error {
    new_io_error(kind, String::new())
}

impl<D: DiskManager> Drive<D> {
    pub fn new(fs: FsInterface, disk: D) -> (r: Drive<D>)
        ensures
            r.fs == fs,
            r.disk == disk,
            r.outbox@ == Seq::<(Option<HostId>, Request)>::empty(),
            r.calls@ == Seq::<DiskCall>::empty(),
    {
        Drive { fs, disk, outbox: Vec::new(), calls: Ghost(Seq::empty()) }
    }

    /// Makes an empty file at `path` on the disk.
    fn disk_new_file(&mut self, path: &WhPath, perm: u16) -> (r: Result<(), IoKind>)
        ensures
            final(self).fs == old(self).fs,
            final(self).outbox@ == old(self).outbox@,
            final(self).calls@ == old(self).calls@.push(DiskCall::NewFile(path@, perm)),
    {
        proof {
            self.calls@ = self.calls@.push(DiskCall::NewFile(path@, perm));
        }
        self.disk.new_file(path, perm)
    }

    /// Makes a folder at `path` on the disk.
    fn disk_new_dir(&mut self, path: &WhPath, perm: u16) -> (r: Result<(), IoKind>)
        ensures
            final(self).fs == old(self).fs,
            final(self).outbox@ == old(self).outbox@,
            final(self).calls@ == old(self).calls@.push(DiskCall::NewDir(path@, perm)),
    {
        proof {
            self.calls@ = self.calls@.push(DiskCall::NewDir(path@, perm));
        }
        self.disk.new_dir(path, perm)
    }

    /// Makes a link at `path` on the disk.
    fn disk_new_symlink(&mut self, path: &WhPath, perm: u16, link: &EntrySymlink) -> (r: Result<(), IoKind>)
        ensures
            final(self).fs == old(self).fs,
            final(self).outbox@ == old(self).outbox@,
            final(self).calls@ == old(self).calls@.push(DiskCall::NewSymlink(path@, perm)),
    {
        proof {
            self.calls@ = self.calls@.push(DiskCall::NewSymlink(path@, perm));
        }
        self.disk.new_symlink(path, perm, link)
    }

    /// Removes the file at `path` from the disk.
    fn disk_remove_file(&mut self, path: &WhPath) -> (r: Result<(), IoKind>)
        ensures
            final(self).fs == old(self).fs,
            final(self).outbox@ == old(self).outbox@,
            final(self).calls@ == old(self).calls@.push(DiskCall::RemoveFile(path@)),
    {
        proof {
            self.calls@ = self.calls@.push(DiskCall::RemoveFile(path@));
        }
        self.disk.remove_file(path)
    }

    /// Removes the folder at `path` from the disk.
    fn disk_remove_dir(&mut self, path: &WhPath) -> (r: Result<(), IoKind>)
        ensures
            final(self).fs == old(self).fs,
            final(self).outbox@ == old(self).outbox@,
            final(self).calls@ == old(self).calls@.push(DiskCall::RemoveDir(path@)),
    {
        proof {
            self.calls@ = self.calls@.push(DiskCall::RemoveDir(path@));
        }
        self.disk.remove_dir(path)
    }

    /// Removes the link at `path` from the disk.
    fn disk_remove_symlink(&mut self, path: &WhPath) -> (r: Result<(), IoKind>)
        ensures
            final(self).fs == old(self).fs,
            final(self).outbox@ == old(self).outbox@,
            final(self).calls@ == old(self).calls@.push(DiskCall::RemoveSymlink(path@)),
    {
        proof {
            self.calls@ = self.calls@.push(DiskCall::RemoveSymlink(path@));
        }
        self.disk.remove_symlink(path)
    }

    /// Writes `data` at `offset` in the file at `path` on the disk.
    fn disk_write(&mut self, path: &WhPath, data: &[u8], offset: usize) -> (r: Result<usize, IoKind>)
        ensures
            final(self).fs == old(self).fs,
            final(self).outbox@ == old(self).outbox@,
            final(self).calls@ == old(self).calls@.push(DiskCall::WriteFile(path@, data@, offset)),
    {
        proof {
            self.calls@ = self.calls@.push(DiskCall::WriteFile(path@, data@, offset));
        }
        self.disk.write_file(path, data, offset)
    }

    /// Brings the file at `path` on the disk to `size` bytes.
    fn disk_set_size(&mut self, path: &WhPath, size: usize) -> (r: Result<(), IoKind>)
        ensures
            final(self).fs == old(self).fs,
            final(self).outbox@ == old(self).outbox@,
            final(self).calls@ == old(self).calls@.push(DiskCall::SetFileSize(path@, size)),
    {
        proof {
            self.calls@ = self.calls@.push(DiskCall::SetFileSize(path@, size));
        }
        self.disk.set_file_size(path, size)
    }

    /// Moves the entry at `from` on the disk to `to`.
    fn disk_mv(&mut self, from: &WhPath, to: &WhPath) -> (r: Result<(), IoKind>)
        ensures
            final(self).fs == old(self).fs,
            final(self).outbox@ == old(self).outbox@,
            final(self).calls@ == old(self).calls@.push(DiskCall::MvFile(from@, to@)),
    {
        proof {
            self.calls@ = self.calls@.push(DiskCall::MvFile(from@, to@));
        }
        self.disk.mv_file(from, to)
    }

    /// The inode tree.
    pub open spec fn tree(&self) -> TreeView {
        self.fs.tree()
    }

    /// The tree is well formed.
    pub open spec fn wf(&self) -> bool {
        self.fs.network_interface.itree.wf()
    }

    /// `other` runs as the same peer, among the same peers.
    pub open spec fn same_peer(&self, other: &Self) -> bool {
        &&& other.fs.network_interface.id == self.fs.network_interface.id
        &&& other.fs.network_interface.peers == self.fs.network_interface.peers
    }

    /// Reads the file at `path` into a buffer of `size` bytes: what the disk
    /// read, never more than `size` bytes.
    fn read_bytes(&self, path: &WhPath, size: u64) -> (r: Result<Vec<u8>, IoKind>)
        requires
            size <= usize::MAX,
        ensures
            r matches Ok(v) ==> v@.len() <= size,
    {
        let mut data: Vec<u8> = vec![0u8; size as usize];
        let read = self.disk.read_file(path, 0, data.as_mut_slice())?;
        let kept = if read < size as usize {
            read
        } else {
            size as usize
        };
        data.truncate(kept);
        Ok(data)
    }

    /// Reads the file at `path` as [Self::read_bytes] does, and records what
    /// was read.
    fn read_recorded(&mut self, path: &WhPath, size: u64) -> (r: Result<Vec<u8>, IoKind>)
        requires
            size <= usize::MAX,
        ensures
            final(self).fs == old(self).fs,
            final(self).outbox@ == old(self).outbox@,
            r matches Ok(v) ==> v@.len() <= size && final(self).calls@ == old(self).calls@.push(
                DiskCall::Read(path@, v@),
            ),
            r is Err ==> final(self).calls@ == old(self).calls@,
    {
        match self.read_bytes(path, size) {
            Ok(v) => {
                proof {
                    self.calls@ = self.calls@.push(DiskCall::Read(path@, v@));
                }
                Ok(v)
            },
            Err(kind) => Err(kind),
        }
    }

    /// The file at `path`, read whole from the disk as [Self::read_bytes] does.
    fn read_whole(&self, path: &WhPath, size: u64) -> (r: Result<File, IoKind>)
        requires
            size <= usize::MAX,
        ensures
            r matches Ok(f) ==> f@.len() <= size,
    {
        let data = self.read_bytes(path, size)?;
        Ok(File(Arc::new(data)))
    }

    // SECTION creation

    /// Makes an entry named `name` of kind `kind` in `parent`: the ino is
    /// reserved and the parent checked as [FsInterface::make_inode] does, the
    /// entry is made on the disk, then added to the tree; the peers are told.
    ///
    /// `LocalCreationFailed` for a name that holds a path separator, for a
    /// link (links are made by the system on the disk and indexed), and when
    /// the disk fails: the tree is then unchanged, though an ino may be lost.
    pub fn make_inode(&mut self, parent: Ino, name: &str, permissions: u16, kind: SimpleFileType) -> (r: Result<
        Inode,
        MakeInodeError,
    >)
        requires
            old(self).wf(),
        ensures
            final(self).wf(),
            old(self).same_peer(&*final(self)),
            !name_is_valid(name@) ==> (r matches Err(MakeInodeError::LocalCreationFailed { .. })),
            name_is_valid(name@) && kind == SimpleFileType::Symlink ==> (r matches Err(
                MakeInodeError::LocalCreationFailed { .. },
            )),
            ({
                let m = old(self).tree();
                let special = special_ino(name@, parent);
                let next = old(self).fs.network_interface.itree.next_ino_spec();
                &&& name_is_valid(name@) && kind == SimpleFileType::Directory && special is Some ==> (r matches Err(
                    MakeInodeError::ProtectedNameIsFolder,
                )) && final(self).calls@ == old(self).calls@
                &&& name_is_valid(name@) && kind != SimpleFileType::Symlink && special is None && next == u64::MAX
                    ==> (r matches Err(MakeInodeError::WhError { source: WhError::WouldBlock { .. } }))
                    && final(self).calls@ == old(self).calls@
                &&& name_is_valid(name@) && kind != SimpleFileType::Symlink && (special is Some && kind
                    == SimpleFileType::File || special is None && next < u64::MAX) && creation_refusal(
                    m,
                    parent,
                    name@,
                ) is Some ==> r == Err::<Inode, MakeInodeError>(creation_refusal(m, parent, name@).unwrap())
                    && final(self).calls@ == old(self).calls@
            }),
            r is Err ==> final(self).tree() == old(self).tree() && final(self).outbox@ == old(self).outbox@,
            extends(final(self).calls@, old(self).calls@),
            !name_is_valid(name@) || kind == SimpleFileType::Symlink ==> final(self).calls@ == old(self).calls@,
            r is Ok ==> {
                let p = old(self).fs.network_interface.itree.path_of(parent).unwrap() + crate::pods::whpath::name_as_path(
                    name@,
                );
                final(self).calls@ == old(self).calls@.push(
                    if kind == SimpleFileType::File {
                        DiskCall::NewFile(p, permissions)
                    } else {
                        DiskCall::NewDir(p, permissions)
                    },
                )
            },
            r matches Ok(i) ==> {
                let m = old(self).tree();
                &&& creation_refusal(m, parent, name@) is None
                &&& i.parent == parent
                &&& i.name@ == name@
                &&& i.entry@ == new_entry_view(kind, old(self).fs.network_interface.id)
                &&& fresh_meta(i.meta, i.id, i.entry@, permissions)
                &&& !m.contains_key(i.id)
                &&& final(self).tree() == m.insert(parent, with_child(m[parent], i.id)).insert(i.id, i@)
                &&& if i.id == LOCAL_CONFIG_INO {
                    final(self).outbox@ == old(self).outbox@
                } else {
                    final(self).outbox@.len() == old(self).outbox@.len() + 1 && final(self).outbox@.drop_last()
                        == old(self).outbox@ && (final(self).outbox@.last() matches (None, Request::Inode(j))
                        && j@ == i@)
                }
            },
    {
        let name = match InodeName::try_from_str(name) {
            Ok(n) => n,
            Err(_) => {
                return Err(MakeInodeError::LocalCreationFailed { io: disk_error(IoKind::InvalidFilename) });
            },
        };
        if kind == SimpleFileType::Symlink {
            return Err(MakeInodeError::LocalCreationFailed { io: disk_error(IoKind::InvalidInput) });
        }
        let (inode, path) = self.fs.make_inode(parent, name, permissions, kind)?;
        let made = if kind == SimpleFileType::File {
            self.disk_new_file(&path, permissions)
        } else {
            self.disk_new_dir(&path, permissions)
        };
        if let Err(kind) = made {
            return Err(MakeInodeError::LocalCreationFailed { io: disk_error(kind) });
        }
        assert(entry_children(inode@.entry).len() == 0);
        let request = self.fs.network_interface.register_new_inode(inode.clone())?;
        if let Some(request) = request {
            self.outbox.push((None, request));
        }
        Ok(inode)
    }

    /// Makes on the disk what `creation` says; nothing for a file that other
    /// peers hold.
    fn apply_creation(&mut self, creation: &LocalCreation) -> (r: Result<(), IoKind>)
        ensures
            final(self).fs == old(self).fs,
            final(self).outbox@ == old(self).outbox@,
            creation is Nothing ==> r is Ok && final(self).disk == old(self).disk,
            final(self).calls@ == match creation_call(*creation) {
                Some(c) => old(self).calls@.push(c),
                None => old(self).calls@,
            },
    {
        match creation {
            LocalCreation::File(path, perm) => self.disk_new_file(path, *perm),
            LocalCreation::Dir(path, perm) => self.disk_new_dir(path, *perm),
            LocalCreation::Symlink(path, perm, link) => self.disk_new_symlink(path, *perm, link),
            LocalCreation::Nothing => Ok(()),
        }
    }

    /// Adds to the tree an inode that a peer made, as
    /// [FsInterface::recept_inode] does, then makes on the disk what it says.
    ///
    /// The inode is refused when it has the last ino (`WouldBlock`) or is a
    /// directory that already has children (`ParentNotFolder`): the tree is
    /// then unchanged. `LocalCreationFailed` when the disk fails: the inode is
    /// in the tree then.
    pub fn recept_inode(&mut self, inode: Inode) -> (r: Result<Response, MakeInodeError>)
        requires
            old(self).wf(),
        ensures
            final(self).wf(),
            old(self).same_peer(&*final(self)),
            final(self).outbox@ == old(self).outbox@,
            ({
                let m = old(self).tree();
                let fits = !m.contains_key(inode.id) && m.contains_key(inode.parent)
                    && m[inode.parent].entry is Directory;
                let acceptable = inode.id < u64::MAX && entry_children(inode@.entry).len() == 0;
                &&& inode.id == u64::MAX ==> (r matches Err(MakeInodeError::WhError { source: WhError::WouldBlock { .. } }))
                &&& inode.id < u64::MAX && entry_children(inode@.entry).len() > 0 ==> (r matches Err(
                    MakeInodeError::ParentNotFolder,
                ))
                &&& !(acceptable && fits) ==> r is Err && final(self).tree() == m
                &&& acceptable && fits ==> final(self).tree() == m.insert(
                    inode.parent,
                    with_child(m[inode.parent], inode.id),
                ).insert(inode.id, inode@)
                &&& !(acceptable && fits) ==> final(self).calls@ == old(self).calls@
                &&& acceptable && fits ==> {
                    let path = final(self).fs.network_interface.itree.path_of(inode.id).unwrap();
                    final(self).calls@ == match inode@.entry {
                        EntryView::File(hosts) => if hosts.contains(old(self).fs.network_interface.id) {
                            old(self).calls@.push(DiskCall::NewFile(path, inode.meta.perm))
                        } else {
                            old(self).calls@
                        },
                        EntryView::Directory(_) => old(self).calls@.push(DiskCall::NewDir(path, inode.meta.perm)),
                        EntryView::Symlink(_) => old(self).calls@.push(DiskCall::NewSymlink(path, inode.meta.perm)),
                    }
                }
                &&& r is Ok ==> r == Ok::<Response, MakeInodeError>(Response::Success)
            }),
    {
        if inode.id == u64::MAX {
            return Err(MakeInodeError::WhError { source: WhError::WouldBlock { called_from: String::new() } });
        }
        let childless = match &inode.entry {
            FsEntry::Directory(children) => children.len() == 0,
            _ => true,
        };
        if !childless {
            return Err(MakeInodeError::ParentNotFolder);
        }
        let creation = self.fs.recept_inode(inode)?;
        if let Err(kind) = self.apply_creation(&creation) {
            return Err(MakeInodeError::LocalCreationFailed { io: disk_error(kind) });
        }
        Ok(Response::Success)
    }

    /// Makes on the disk every directory and link of the tree, parents first
    /// (see [crate::pods::itree::creation::create_all_shared]); one that
    /// exists already is kept. Files are pulled later.
    pub fn create_all_shared(&mut self) -> (r: Result<(), IoKind>)
        requires
            old(self).wf(),
        ensures
            final(self).fs == old(self).fs,
            final(self).outbox@ == old(self).outbox@,
            r matches Err(k) ==> k != IoKind::AlreadyExists,
            (forall|k: Ino| !crate::pods::itree::creation::is_shared(old(self).tree(), k)) ==> r is Ok
                && final(self).disk == old(self).disk,
            r is Ok ==> exists|plan: Seq<LocalCreation>|
                #[trigger] crate::pods::itree::creation::sharing_plan(old(self).fs.network_interface.itree, ROOT, plan)
                    && final(self).calls@ == old(self).calls@ + creation_calls(plan),
            r is Err ==> exists|plan: Seq<LocalCreation>, k: int|
                #![trigger crate::pods::itree::creation::sharing_plan(old(self).fs.network_interface.itree, ROOT, plan), plan.take(k + 1)]
                crate::pods::itree::creation::sharing_plan(old(self).fs.network_interface.itree, ROOT, plan)
                    && 0 <= k < plan.len() && creation_call(plan[k]) is Some && final(self).calls@ == old(self).calls@
                    + creation_calls(plan.take(k + 1)),
    {
        proof {
            self.fs.network_interface.itree.lemma_path_of(ROOT);
        }
        let creations = match crate::pods::itree::creation::create_all_shared(&self.fs.network_interface.itree, ROOT) {
            Ok(c) => c,
            Err(_) => {
                assert(false);
                return Err(IoKind::NotFound);
            },
        };
        proof {
            if creations@.len() > 0 {
                assert(crate::pods::itree::creation::made_by_sharing(self.fs.network_interface.itree, creations@[0]));
                let k = choose|k: Ino| #[trigger]
                    crate::pods::itree::creation::shared_creation(self.fs.network_interface.itree, k, creations@[0]);
                assert(crate::pods::itree::creation::is_shared(self.tree(), k));
            }
        }
        let mut i: usize = 0;
        while i < creations.len()
            invariant
                i <= creations@.len(),
                creations@.len() > 0 ==> exists|k: Ino| crate::pods::itree::creation::is_shared(old(self).tree(), k),
                self.fs == old(self).fs,
                self.outbox@ == old(self).outbox@,
                i == 0 ==> self.disk == old(self).disk,
                crate::pods::itree::creation::sharing_plan(old(self).fs.network_interface.itree, ROOT, creations@),
                self.calls@ == old(self).calls@ + creation_calls(creations@.take(i as int)),
            decreases creations.len() - i,
        {
            let ghost before = self.calls@;
            let done = self.apply_creation(&creations[i]);
            proof {
                let t = creations@.take(i + 1);
                assert(t.drop_last() =~= creations@.take(i as int));
                assert(t.last() == creations@[i as int]);
                assert(self.calls@ =~= old(self).calls@ + creation_calls(t));
            }
            match done {
                Err(IoKind::AlreadyExists) => {},
                Err(kind) => {
                    proof {
                        if creation_call(creations@[i as int]) is None {
                            assert(done is Ok);
                        }
                    }
                    return Err(kind);
                },
                Ok(()) => {},
            }
            i = i + 1;
        }
        assert(creations@.take(creations@.len() as int) =~= creations@);
        Ok(())
    }

    /// Readies the disk for the tree of a network that this pod joins: every
    /// directory and link is made (see [Self::create_all_shared]), then,
    /// when the tree has the configuration of the network, a file is made at
    /// its path, whether or not one was there, and `global_config`, the
    /// configuration as text, is written into it from its start.
    pub fn initiate_itree(&mut self, global_config: &[u8]) -> (r: Result<(), IoKind>)
        requires
            old(self).wf(),
        ensures
            final(self).fs == old(self).fs,
            final(self).outbox@ == old(self).outbox@,
            extends(final(self).calls@, old(self).calls@),
            r is Ok ==> exists|plan: Seq<LocalCreation>|
                #[trigger] crate::pods::itree::creation::sharing_plan(old(self).fs.network_interface.itree, ROOT, plan)
                    && final(self).calls@ == old(self).calls@ + creation_calls(plan) + config_calls(
                    old(self).fs.network_interface.itree,
                    global_config@,
                ),
    {
        self.create_all_shared()?;
        let ghost c1 = self.calls@;
        let perm = match self.fs.network_interface.itree.get_inode(GLOBAL_CONFIG_INO) {
            Ok(inode) => inode.meta.perm,
            Err(_) => {
                return Ok(());
            },
        };
        proof {
            self.fs.network_interface.itree.lemma_path_of(GLOBAL_CONFIG_INO);
        }
        let path = match self.fs.network_interface.itree.get_path_from_inode_id(GLOBAL_CONFIG_INO) {
            Ok(p) => p,
            Err(_) => {
                assert(false);
                return Ok(());
            },
        };
        let _ = self.disk_new_file(&path, perm);
        let written = self.disk_write(&path, global_config, 0);
        proof {
            assert(self.calls@ =~= c1 + config_calls(self.fs.network_interface.itree, global_config@));
        }
        match written {
            Ok(_) => Ok(()),
            Err(kind) => Err(kind),
        }
    }

    // SECTION removal

    fn apply_removal(&mut self, removal: &LocalRemoval) -> (r: Result<(), RemoveFileError>)
        ensures
            final(self).calls@ == old(self).calls@.push(
                match removal {
                    LocalRemoval::Dir(p) => DiskCall::RemoveDir(p@),
                    LocalRemoval::Symlink(p) => DiskCall::RemoveSymlink(p@),
                    _ => DiskCall::RemoveFile(removal.path()),
                },
            ),
            final(self).fs == old(self).fs,
            final(self).outbox@ == old(self).outbox@,
            removal is StaleFile ==> r is Ok,
            r is Err ==> (r matches Err(RemoveFileError::LocalDeletionFailed { .. })),
    {
        let done = match removal {
            LocalRemoval::File(path) => self.disk_remove_file(path),
            LocalRemoval::StaleFile(path) => {
                let _ = self.disk_remove_file(path);
                Ok(())
            },
            LocalRemoval::Dir(path) => self.disk_remove_dir(path),
            LocalRemoval::Symlink(path) => self.disk_remove_symlink(path),
        };
        match done {
            Ok(()) => Ok(()),
            Err(kind) => Err(RemoveFileError::LocalDeletionFailed { io: disk_error(kind) }),
        }
    }

    /// Removes `id` from the disk as [FsInterface::remove_inode_locally] says,
    /// then from the tree.
    fn remove_everywhere(&mut self, id: Ino) -> (r: Result<Option<Request>, RemoveFileError>)
        requires
            old(self).wf(),
        ensures
            extends(final(self).calls@, old(self).calls@),
            r is Ok ==> final(self).calls@ == old(self).calls@.push(
                removal_call(old(self).tree()[id].entry, old(self).fs.network_interface.itree.path_of(id).unwrap()),
            ),
            id != ROOT || r is Err ==> final(self).wf(),
            old(self).same_peer(&*final(self)),
            final(self).outbox@ == old(self).outbox@,
            ({
                let m = old(self).tree();
                &&& !m.contains_key(id) ==> (r matches Err(RemoveFileError::WhError { source: WhError::InodeNotFound }))
                &&& m.contains_key(id) && entry_children(m[id].entry).len() > 0 ==> (r matches Err(
                    RemoveFileError::NonEmpty,
                ))
                &&& m.contains_key(id) && entry_children(m[id].entry).len() == 0 && id != ROOT ==> r is Ok || (r matches Err(
                    RemoveFileError::LocalDeletionFailed { .. },
                ))
                &&& r is Err ==> final(self).tree() == m
                &&& r is Ok ==> m.contains_key(id) && final(self).tree() == removed(m, id) && if id
                    == LOCAL_CONFIG_INO {
                    r == Ok::<Option<Request>, RemoveFileError>(None)
                } else {
                    r matches Ok(Some(Request::Remove(i))) && i == id
                }
            }),
    {
        proof {
            self.fs.network_interface.itree.lemma_wf_shape();
        }
        let removal = self.fs.remove_inode_locally(id)?;
        self.apply_removal(&removal)?;
        match self.fs.network_interface.unregister_inode(id) {
            Ok(request) => Ok(request),
            Err(e) => Err(RemoveFileError::from_remove_inode(e)),
        }
    }

    /// Removes `id`, as the system asked: from the disk (see
    /// [FsInterface::remove_inode_locally]), then from the tree; the peers
    /// are told. A directory that has children is refused.
    pub fn remove_inode(&mut self, id: Ino) -> (r: Result<(), RemoveFileError>)
        requires
            old(self).wf(),
        ensures
            extends(final(self).calls@, old(self).calls@),
            r is Ok ==> final(self).calls@ == old(self).calls@.push(
                removal_call(old(self).tree()[id].entry, old(self).fs.network_interface.itree.path_of(id).unwrap()),
            ),
            id != ROOT || r is Err ==> final(self).wf(),
            old(self).same_peer(&*final(self)),
            ({
                let m = old(self).tree();
                &&& !m.contains_key(id) ==> (r matches Err(RemoveFileError::WhError { source: WhError::InodeNotFound }))
                &&& m.contains_key(id) && entry_children(m[id].entry).len() > 0 ==> (r matches Err(
                    RemoveFileError::NonEmpty,
                ))
                &&& r is Err ==> final(self).tree() == m && final(self).outbox@ == old(self).outbox@
                &&& r is Ok ==> m.contains_key(id) && final(self).tree() == removed(m, id) && if id
                    == LOCAL_CONFIG_INO {
                    final(self).outbox@ == old(self).outbox@
                } else {
                    final(self).outbox@ == old(self).outbox@.push((None, Request::Remove(id)))
                }
            }),
    {
        let request = self.remove_everywhere(id)?;
        if let Some(request) = request {
            self.outbox.push((None, request));
        }
        Ok(())
    }

    /// Removes the child `name` of `parent`, as the system asked: the parent
    /// must be writable (see [FsInterface::fuse_remove_inode]); then see
    /// [Self::remove_inode].
    pub fn fuse_remove_inode(&mut self, parent: Ino, name: &InodeName) -> (r: Result<(), RemoveFileError>)
        requires
            old(self).wf(),
        ensures
            final(self).wf(),
            old(self).same_peer(&*final(self)),
            ({
                let m = old(self).tree();
                &&& !m.contains_key(parent) ==> (r matches Err(RemoveFileError::WhError { source: WhError::InodeNotFound }))
                &&& m.contains_key(parent) && !mode_bit(m[parent].meta.perm, 7) ==> (r matches Err(
                    RemoveFileError::PermissionDenied,
                ))
                &&& m.contains_key(parent) && mode_bit(m[parent].meta.perm, 7) && lookup(m, parent, name@) is Err
                    ==> (r matches Err(RemoveFileError::WhError { source }) && Err::<Ino, WhError>(source) == lookup(
                    m,
                    parent,
                    name@,
                ))
                &&& r is Err ==> final(self).tree() == m && final(self).outbox@ == old(self).outbox@
                &&& r is Ok ==> (lookup(m, parent, name@) matches Ok(c) && final(self).tree() == removed(m, c)
                    && if c == LOCAL_CONFIG_INO {
                    final(self).outbox@ == old(self).outbox@
                } else {
                    final(self).outbox@ == old(self).outbox@.push((None, Request::Remove(c)))
                })
            }),
    {
        let ghost m = self.tree();
        let id = self.fs.fuse_remove_inode(parent, name)?;
        proof {
            self.fs.network_interface.itree.lemma_wf_shape();
            let c = lookup(m, parent, name@)->Ok_0;
            crate::pods::itree::lemma_find_named_found(m, entry_children(m[parent].entry), name@);
            assert(entry_children(m[parent].entry).contains(c));
            assert(m.contains_key(c) && c != ROOT && m[c].id == c);
        }
        self.remove_inode(id)
    }

    /// Removes `id`, as a peer asked: from the disk (see
    /// [FsInterface::remove_inode_locally]), then from the tree.
    pub fn recept_remove_inode(&mut self, id: Ino) -> (r: Result<Response, RemoveFileError>)
        requires
            old(self).wf(),
        ensures
            extends(final(self).calls@, old(self).calls@),
            r is Ok ==> final(self).calls@ == old(self).calls@.push(
                removal_call(old(self).tree()[id].entry, old(self).fs.network_interface.itree.path_of(id).unwrap()),
            ),
            id != ROOT || r is Err ==> final(self).wf(),
            old(self).same_peer(&*final(self)),
            final(self).outbox@ == old(self).outbox@,
            ({
                let m = old(self).tree();
                &&& !m.contains_key(id) ==> (r matches Err(RemoveFileError::WhError { source: WhError::InodeNotFound }))
                &&& m.contains_key(id) && entry_children(m[id].entry).len() > 0 ==> (r matches Err(
                    RemoveFileError::NonEmpty,
                ))
                &&& m.contains_key(id) && entry_children(m[id].entry).len() == 0 && id != ROOT ==> r is Ok || (r matches Err(
                    RemoveFileError::LocalDeletionFailed { .. },
                ))
                &&& r is Err ==> final(self).tree() == m
                &&& r is Ok ==> r == Ok::<Response, RemoveFileError>(Response::Success) && m.contains_key(id)
                    && final(self).tree() == removed(m, id)
            }),
    {
        self.remove_everywhere(id)?;
        Ok(Response::Success)
    }

    /// Takes hosts out of a file, as a peer asked (see
    /// [FsInterface::recept_remove_hosts]); the local copy is deleted when
    /// this peer is one of them, and a failure to delete it is ignored.
    pub fn recept_remove_hosts(&mut self, id: Ino, hosts: Vec<HostId>) -> (r: Result<Response, WhError>)
        requires
            old(self).wf(),
        ensures
            extends(final(self).calls@, old(self).calls@),
            final(self).wf(),
            old(self).same_peer(&*final(self)),
            final(self).outbox@ == old(self).outbox@,
            ({
                let m = old(self).tree();
                &&& !m.contains_key(id) ==> r == Err::<Response, WhError>(WhError::InodeNotFound)
                    && final(self).tree() == m
                &&& m.contains_key(id) && !(m[id].entry is File) ==> r is Err && final(self).tree() == m
                &&& m.contains_key(id) && m[id].entry is File ==> r == Ok::<Response, WhError>(Response::Success)
                    && final(self).tree() == m.insert(
                    id,
                    with_entry(m[id], EntryView::File(hosts_without(entry_hosts(m[id].entry), hosts@))),
                )
                &&& final(self).calls@ == if m.contains_key(id) && m[id].entry is File && hosts@.contains(
                    old(self).fs.network_interface.id,
                ) {
                    old(self).calls@.push(DiskCall::RemoveFile(old(self).fs.network_interface.itree.path_of(id).unwrap()))
                } else {
                    old(self).calls@
                }
            }),
    {
        if let Some(path) = self.fs.recept_remove_hosts(id, hosts)? {
            let _ = self.disk_remove_file(&path);
        }
        Ok(Response::Success)
    }

    /// Stores the copy of the file `id` that a peer sent for redundancy, then
    /// counts this peer among its hosts.
    ///
    /// `WouldBlock` when the disk fails: the file is then not taken, and the
    /// tree is unchanged.
    pub fn recept_redundancy(&mut self, id: Ino, binary: &[u8]) -> (r: Result<Response, WhError>)
        requires
            old(self).wf(),
        ensures
            extends(final(self).calls@, old(self).calls@),
            final(self).wf(),
            old(self).same_peer(&*final(self)),
            final(self).outbox@ == old(self).outbox@,
            ({
                let m = old(self).tree();
                let me = old(self).fs.network_interface.id;
                &&& !m.contains_key(id) ==> r == Err::<Response, WhError>(WhError::InodeNotFound)
                &&& r is Err ==> final(self).tree() == m
                &&& r is Ok ==> final(self).calls@ == old(self).calls@.push(
                    DiskCall::NewFile(old(self).fs.network_interface.itree.path_of(id).unwrap(), m[id].meta.perm),
                ).push(DiskCall::WriteFile(old(self).fs.network_interface.itree.path_of(id).unwrap(), binary@, 0))
                &&& r is Ok ==> r == Ok::<Response, WhError>(Response::Success) && m.contains_key(id)
                    && m[id].entry is File && final(self).tree() == m.insert(
                    id,
                    with_entry(m[id], final(self).tree()[id].entry),
                ) && final(self).tree()[id].entry is File && entry_hosts(final(self).tree()[id].entry).to_set()
                    == entry_hosts(m[id].entry).to_set().insert(me)
            }),
    {
        let (path, perm) = self.fs.recept_redundancy(id)?;
        let stored = match self.disk_new_file(&path, perm) {
            Ok(()) => self.disk_write(&path, binary, 0),
            Err(kind) => Err(kind),
        };
        if stored.is_err() {
            return Err(WhError::WouldBlock { called_from: String::new() });
        }
        let me = self.fs.network_interface.id;
        let hosts = [me];
        let ghost m = self.tree();
        self.fs.network_interface.itree.add_inode_hosts(id, &hosts)?;
        proof {
            assert(hosts@ =~= seq![me]);
            assert((entry_hosts(m[id].entry) + seq![me]).to_set() =~= entry_hosts(m[id].entry).to_set().insert(me)) by {
                broadcast use vstd::seq_lib::group_seq_properties;
            }
        }
        Ok(Response::Success)
    }

    // SECTION contents

    /// The local copy of the file `ino`, read from the disk, when this peer
    /// holds it; see [FsInterface::get_local_file].
    fn local_file(&mut self, ino: Ino) -> (r: Result<Option<File>, ReadError>)
        requires
            old(self).wf(),
        ensures
            final(self).fs == old(self).fs,
            final(self).outbox@ == old(self).outbox@,
            r matches Ok(Some(f)) ==> f@.len() <= old(self).tree()[ino].meta.size && final(self).calls@ == old(
                self,
            ).calls@.push(DiskCall::Read(old(self).fs.network_interface.itree.path_of(ino).unwrap(), f@)),
            !(r matches Ok(Some(_))) ==> final(self).calls@ == old(self).calls@,
            !old(self).tree().contains_key(ino) ==> (r matches Err(ReadError::WhError { source: WhError::InodeNotFound })),
            old(self).tree().contains_key(ino) && !(old(self).tree()[ino].entry is File) ==> (r matches Err(
                ReadError::WhError { source: WhError::InodeIsADirectory },
            )),
            old(self).tree().contains_key(ino) && (old(self).tree()[ino].entry matches EntryView::File(hosts)
                && !hosts.contains(old(self).fs.network_interface.id)) ==> (r matches Ok(None)),
            r matches Ok(Some(_)) ==> old(self).tree().contains_key(ino) && (old(self).tree()[ino].entry matches EntryView::File(
                hosts,
            ) && hosts.contains(old(self).fs.network_interface.id)),
            old(self).tree().contains_key(ino) && (old(self).tree()[ino].entry matches EntryView::File(hosts) && hosts.contains(
                old(self).fs.network_interface.id,
            )) ==> (r matches Ok(Some(_))) || (r matches Err(ReadError::LocalReadFailed { .. })),
    {
        match self.fs.get_local_file(ino)? {
            Some((path, size)) => {
                if size > usize::MAX as u64 {
                    return Err(ReadError::LocalReadFailed { io: Arc::new(disk_error(IoKind::Other)) });
                }
                match self.read_recorded(&path, size) {
                    Ok(v) => Ok(Some(File(Arc::new(v)))),
                    Err(kind) => Err(ReadError::LocalReadFailed { io: Arc::new(disk_error(kind)) }),
                }
            },
            None => Ok(None),
        }
    }

    // SECTION rename

    /// The paths of the child `name` of `parent` and of `new_name` under
    /// `new_parent`; `InodeNotFound` when a parent is not in the tree.
    fn rename_paths(&self, parent: Ino, new_parent: Ino, name: &InodeName, new_name: &InodeName) -> (r: Result<
        (WhPath, WhPath),
        WhError,
    >)
        requires
            self.wf(),
        ensures
            self.tree().contains_key(parent) && self.tree().contains_key(new_parent) ==> (r matches Ok((from, to))
                && from@ == self.fs.network_interface.itree.path_of(parent).unwrap()
                + crate::pods::whpath::name_as_path(name@) && to@ == self.fs.network_interface.itree.path_of(
                new_parent,
            ).unwrap() + crate::pods::whpath::name_as_path(new_name@)),
            !(self.tree().contains_key(parent) && self.tree().contains_key(new_parent)) ==> r == Err::<
                (WhPath, WhPath),
                WhError,
            >(WhError::InodeNotFound),
    {
        proof {
            self.fs.network_interface.itree.lemma_path_of(parent);
            self.fs.network_interface.itree.lemma_path_of(new_parent);
        }
        let itree = &self.fs.network_interface.itree;
        let mut from = itree.get_path_from_inode_id(parent)?;
        from.push(WhPath::from_name(name));
        let mut to = itree.get_path_from_inode_id(new_parent)?;
        to.push(WhPath::from_name(new_name));
        Ok((from, to))
    }

    /// Moves the entry at `from` on the disk to `to`, when the disk has it.
    fn rename_locally(&mut self, from: &WhPath, to: &WhPath) -> (r: Result<(), IoKind>)
        ensures
            final(self).fs == old(self).fs,
            final(self).outbox@ == old(self).outbox@,
            final(self).calls@ == old(self).calls@ || final(self).calls@ == old(self).calls@.push(
                DiskCall::MvFile(from@, to@),
            ),
            r is Err ==> final(self).calls@ == old(self).calls@.push(DiskCall::MvFile(from@, to@)),
    {
        if self.disk.file_exists(from) {
            self.disk_mv(from, to)
        } else {
            Ok(())
        }
    }

    /// Removes the inode `dest` that a rename overwrites, from the disk and
    /// from the tree.
    fn overwrite(&mut self, dest: Ino) -> (r: Result<(), RenameError>)
        requires
            old(self).wf(),
            dest != ROOT,
        ensures
            final(self).wf(),
            old(self).same_peer(&*final(self)),
            final(self).outbox@ == old(self).outbox@,
            r is Err ==> final(self).tree() == old(self).tree(),
            r is Ok ==> old(self).tree().contains_key(dest) && final(self).tree() == removed(old(self).tree(), dest),
            extends(final(self).calls@, old(self).calls@),
            r is Ok ==> final(self).calls@ == old(self).calls@.push(
                removal_call(old(self).tree()[dest].entry, old(self).fs.network_interface.itree.path_of(dest).unwrap()),
            ),
            ({
                let m = old(self).tree();
                &&& !m.contains_key(dest) ==> (r matches Err(RenameError::WhError { source: WhError::InodeNotFound }))
                &&& m.contains_key(dest) && entry_children(m[dest].entry).len() > 0 ==> (r matches Err(
                    RenameError::OverwriteNonEmpty,
                ))
                &&& m.contains_key(dest) && entry_children(m[dest].entry).len() == 0 ==> r is Ok || (r matches Err(
                    RenameError::LocalOverwriteFailed { .. },
                ))
            }),
    {
        match self.recept_remove_inode(dest) {
            Ok(_) => Ok(()),
            Err(RemoveFileError::LocalDeletionFailed { io }) => Err(RenameError::LocalOverwriteFailed { io }),
            Err(RemoveFileError::NonEmpty) => Err(RenameError::OverwriteNonEmpty),
            Err(RemoveFileError::WhError { source }) => Err(RenameError::WhError { source }),
            Err(RemoveFileError::PermissionDenied) => Err(RenameError::PermissionDenied),
        }
    }

    /// Sets the size of `ino` on the disk, then its metadata to `meta` in the
    /// tree (see [crate::pods::network::network_interface::NetworkInterface::update_metadata]);
    /// the peers are told.
    pub fn set_meta_size(&mut self, ino: Ino, meta: crate::pods::itree::inode::Metadata) -> (r: Result<(), RenameError>)
        requires
            old(self).wf(),
        ensures
            final(self).wf(),
            old(self).same_peer(&*final(self)),
            !old(self).tree().contains_key(ino) ==> (r matches Err(
                RenameError::WhError { source: WhError::InodeNotFound },
            )),
            old(self).tree().contains_key(ino) ==> r is Ok || (r matches Err(RenameError::LocalOverwriteFailed { .. })),
            old(self).tree().contains_key(ino) ==> final(self).calls@ == old(self).calls@.push(
                DiskCall::SetFileSize(old(self).fs.network_interface.itree.path_of(ino).unwrap(), meta.size as usize),
            ),
            !old(self).tree().contains_key(ino) ==> final(self).calls@ == old(self).calls@,
            r is Err ==> final(self).tree() == old(self).tree() && final(self).outbox@ == old(self).outbox@,
            r is Ok ==> old(self).tree().contains_key(ino) && final(self).tree() == old(self).tree().insert(
                ino,
                crate::pods::itree::inode::InodeView {
                    meta: crate::pods::network::network_interface::fixed_meta(meta, old(self).tree()[ino].meta),
                    ..old(self).tree()[ino]
                },
            ) && if ino == LOCAL_CONFIG_INO {
                final(self).outbox@ == old(self).outbox@
            } else {
                final(self).outbox@ == old(self).outbox@.push(
                    (
                        None,
                        Request::EditMetadata(
                            ino,
                            crate::pods::network::network_interface::fixed_meta(meta, old(self).tree()[ino].meta),
                        ),
                    ),
                )
            },
    {
        proof {
            self.fs.network_interface.itree.lemma_path_of(ino);
        }
        let path = match self.fs.network_interface.itree.get_path_from_inode_id(ino) {
            Ok(p) => p,
            Err(source) => {
                return Err(RenameError::WhError { source });
            },
        };
        if let Err(kind) = self.disk_set_size(&path, meta.size as usize) {
            return Err(RenameError::LocalOverwriteFailed { io: disk_error(kind) });
        }
        match self.fs.network_interface.update_metadata(ino, meta) {
            Ok(Some(request)) => {
                self.outbox.push((None, request));
            },
            Ok(None) => {},
            Err(source) => {
                return Err(RenameError::WhError { source });
            },
        }
        Ok(())
    }

    /// What [Self::rename_special] leaves, `after`, and answers, `r`, when it
    /// renames `source` into `new_name`, the hosts of a file held elsewhere
    /// having given `answers`: an error, with nothing done, when `source` is
    /// not a file or cannot be pulled; on success the source is gone and, for
    /// a file, its bytes were read from the disk, or pulled when this peer
    /// does not hold it, a new file made under the new name, and the bytes
    /// written into it from its start.
    pub open spec fn special_renamed(
        &self,
        after: &Self,
        new_name: Seq<char>,
        source: Ino,
        answers: Seq<Option<Response>>,
        r: Result<(), RenameError>,
    ) -> bool {
        let m = self.tree();
        let me = self.fs.network_interface.id;
        let untouched = after.tree() == m && after.outbox@ == self.outbox@ && after.calls@ == self.calls@;
        &&& self.same_peer(after)
        &&& extends(after.calls@, self.calls@)
        &&& r is Ok ==> !after.tree().contains_key(source)
        &&& !m.contains_key(source) ==> untouched && (r matches Err(RenameError::WhError { source: WhError::InodeNotFound }))
        &&& m.contains_key(source) && !(m[source].entry is File) ==> untouched && (r matches Err(
            RenameError::WhError { source: WhError::InodeIsADirectory },
        ))
        &&& m.contains_key(source) && m[source].entry is File && !holds_file(m, source, me) && last_pulled(answers) is None
            ==> untouched && (r matches Err(
            RenameError::ReadFailed { source: ReadError::PullError { source: PullError::NoHostAvailable } },
        ))
        &&& r is Ok && m[source].meta.kind == SimpleFileType::File && !holds_file(m, source, me) ==> exists|
            above: DiskPath,
        |
            #![trigger above + crate::pods::whpath::name_as_path(new_name)]
            last_pulled(answers) matches Some(data) && placed(
                after.calls@,
                self.calls@.len() as int,
                above + crate::pods::whpath::name_as_path(new_name),
                data,
                m[source].meta.perm,
            )
        &&& r is Ok && m[source].meta.kind == SimpleFileType::File && holds_file(m, source, me) ==> exists|
            data: Seq<u8>,
            above: DiskPath,
        |
            #[trigger] copied(
                after.calls@,
                self.calls@.len() as int,
                self.fs.network_interface.itree.path_of(source).unwrap(),
                above + crate::pods::whpath::name_as_path(new_name),
                data,
                m[source].meta.perm,
            ) && data.len() <= m[source].meta.size
    }

    /// A rename where a protected name is involved, protected names having
    /// their own inos: the contents of `source` are read, the entry that the
    /// new name overwrites, `dest`, is removed, a new entry `new_name` is made
    /// in `new_parent` and the contents are written into it; it is then
    /// flushed to the peers, and `source` is removed.
    ///
    /// The local copy of `source` is read: `ReadFailed` when this peer does
    /// not hold it. When a step fails, the steps done before stay done.
    fn rename_special(
        &mut self,
        new_parent: Ino,
        new_name: &InodeName,
        source: Ino,
        dest: Option<Ino>,
        answers: Vec<Option<Response>>,
    ) -> (r: Result<(), RenameError>)
        requires
            old(self).wf(),
            source != ROOT,
            dest != Some(ROOT),
            forall|i: int| 0 <= i < answers@.len() ==> is_file_answer(#[trigger] answers@[i]),
        ensures
            old(self).special_renamed(&*final(self), new_name@, source, answers@, r),
    {
        let ghost n = self.calls@.len() as int;
        let meta = match self.fs.network_interface.itree.get_inode(source) {
            Ok(inode) => inode.meta,
            Err(source) => {
                return Err(RenameError::WhError { source });
            },
        };
        let held = match self.fs.network_interface.pull_file(source) {
            Ok(None) => true,
            Ok(Some(_)) => false,
            Err(PullError::WhError { source }) => {
                return Err(RenameError::WhError { source });
            },
            Err(source) => {
                return Err(RenameError::ReadFailed { source: ReadError::PullError { source } });
            },
        };
        let ghost mut from_path: DiskPath = Seq::empty();
        let data = if held {
            let (from, size) = match self.fs.get_local_file(source) {
                Ok(Some(found)) => found,
                Ok(None) => {
                    return Err(RenameError::ReadFailed { source: ReadError::CantPull });
                },
                Err(ReadError::WhError { source }) => {
                    return Err(RenameError::WhError { source });
                },
                Err(source) => {
                    return Err(RenameError::ReadFailed { source });
                },
            };
            if size > usize::MAX as u64 {
                return Err(
                    RenameError::ReadFailed { source: ReadError::LocalReadFailed { io: Arc::new(disk_error(IoKind::Other)) } },
                );
            }
            let data = match self.read_recorded(&from, size) {
                Ok(data) => data,
                Err(kind) => {
                    return Err(
                        RenameError::ReadFailed { source: ReadError::LocalReadFailed { io: Arc::new(disk_error(kind)) } },
                    );
                },
            };
            proof {
                from_path = from@;
            }
            data
        } else {
            match pulled_file(answers) {
                Ok(data) => data,
                Err(source) => {
                    return Err(RenameError::ReadFailed { source: ReadError::PullError { source } });
                },
            }
        };
        let ghost read_at = self.calls@.len() - 1;
        if let Some(dest) = dest {
            match self.remove_inode(dest) {
                Ok(()) => {},
                Err(RemoveFileError::WhError { source }) => {
                    return Err(RenameError::WhError { source });
                },
                Err(RemoveFileError::NonEmpty) => {
                    return Err(RenameError::OverwriteNonEmpty);
                },
                Err(RemoveFileError::LocalDeletionFailed { io }) => {
                    return Err(RenameError::LocalOverwriteFailed { io });
                },
                Err(RemoveFileError::PermissionDenied) => {
                    return Err(RenameError::PermissionDenied);
                },
            }
        }
        let parent_path = self.fs.network_interface.itree.get_path_from_inode_id(new_parent);
        let ghost made_at = self.calls@.len() as int;
        let made = match self.make_inode(new_parent, new_name.as_str(), meta.perm, meta.kind) {
            Ok(inode) => inode.id,
            Err(MakeInodeError::WhError { source }) => {
                return Err(RenameError::WhError { source });
            },
            Err(MakeInodeError::AlreadyExist) => {
                return Err(RenameError::DestinationExists);
            },
            Err(MakeInodeError::ParentNotFound) => {
                return Err(RenameError::DestinationParentNotFound);
            },
            Err(MakeInodeError::ParentNotFolder) => {
                return Err(RenameError::DestinationParentNotFolder);
            },
            Err(MakeInodeError::LocalCreationFailed { io }) => {
                return Err(RenameError::LocalRenamingFailed { io });
            },
            Err(MakeInodeError::ProtectedNameIsFolder) => {
                return Err(RenameError::ProtectedNameIsFolder);
            },
            Err(MakeInodeError::PermissionDenied) => {
                return Err(RenameError::LocalRenamingFailed { io: disk_error(IoKind::PermissionDenied) });
            },
        };
        let mut path = match parent_path {
            Ok(p) => p,
            Err(source) => {
                return Err(RenameError::WhError { source });
            },
        };
        path.push(WhPath::from_name(new_name));
        if let Err(kind) = self.disk_write(&path, data.as_slice(), 0) {
            return Err(RenameError::LocalWriteFailed { io: disk_error(kind) });
        }
        proof {
            let c = self.calls@;
            assert(held ==> c[read_at] == DiskCall::Read(from_path, data@));
            assert(c[made_at] == DiskCall::NewFile(path@, meta.perm) || meta.kind != SimpleFileType::File);
            assert(c[c.len() - 1] == DiskCall::WriteFile(path@, data@, 0));
            if meta.kind == SimpleFileType::File {
                if held {
                    assert(copied(c, n, from_path, path@, data@, meta.perm));
                } else {
                    assert(placed(c, n, path@, data@, meta.perm));
                }
            }
        }
        let ghost written = self.calls@;
        let mut handle = FlushState { signature: None, dirty: false };
        let peers = self.fs.network_interface.peers.clone();
        match self.fs.flush(made, &mut handle, None, &peers) {
            Ok(FlushPlan::Broadcast(request)) => {
                self.outbox.push((None, request));
            },
            Ok(_) => {},
            Err(source) => {
                return Err(RenameError::FlushError { source });
            },
        }
        let result = match self.remove_inode(source) {
            Ok(()) => Ok(()),
            Err(RemoveFileError::WhError { source }) => Err(RenameError::WhError { source }),
            Err(RemoveFileError::NonEmpty) => Err(RenameError::OverwriteNonEmpty),
            Err(RemoveFileError::LocalDeletionFailed { io }) => Err(RenameError::LocalRenamingFailed { io }),
            Err(RemoveFileError::PermissionDenied) => Err(RenameError::PermissionDenied),
        };
        proof {
            if meta.kind == SimpleFileType::File {
                assert(path@ == parent_path->Ok_0@ + crate::pods::whpath::name_as_path(new_name@));
                if held {
                    lemma_copied_kept(written, self.calls@, n, from_path, path@, data@, meta.perm);
                    assert(copied(
                        self.calls@,
                        n,
                        from_path,
                        parent_path->Ok_0@ + crate::pods::whpath::name_as_path(new_name@),
                        data@,
                        meta.perm,
                    ));
                } else {
                    lemma_placed_kept(written, self.calls@, n, path@, data@, meta.perm);
                    assert(placed(
                        self.calls@,
                        n,
                        parent_path->Ok_0@ + crate::pods::whpath::name_as_path(new_name@),
                        data@,
                        meta.perm,
                    ));
                }
            }
        }
        result
    }

    /// Renames the child `name` of `parent` into `new_name` under
    /// `new_parent`, as [FsInterface::rename] plans it (see [rename_plan]):
    /// nothing to do when nothing changes; with a protected name, see
    /// [Self::rename_special]; else the entry that the new name overwrites is
    /// removed, the entry is moved on the disk, then in the tree, and the
    /// peers are told.
    ///
    /// When a step fails, the steps done before stay done.
    pub fn rename(
        &mut self,
        parent: Ino,
        new_parent: Ino,
        name: &InodeName,
        new_name: &InodeName,
        overwrite: bool,
        answers: Vec<Option<Response>>,
    ) -> (r: Result<(), RenameError>)
        requires
            old(self).wf(),
            forall|i: int| 0 <= i < answers@.len() ==> is_file_answer(#[trigger] answers@[i]),
        ensures
            old(self).same_peer(&*final(self)),
            ({
                let m = old(self).tree();
                let itree = old(self).fs.network_interface.itree;
                let mv = DiskCall::MvFile(
                    itree.path_of(parent).unwrap() + crate::pods::whpath::name_as_path(name@),
                    itree.path_of(new_parent).unwrap() + crate::pods::whpath::name_as_path(new_name@),
                );
                match rename_plan(m, parent, new_parent, name@, new_name@, overwrite) {
                    Err(e) => r == Err::<(), RenameError>(e) && final(self).tree() == m && final(self).outbox@
                        == old(self).outbox@ && final(self).calls@ == old(self).calls@,
                    Ok(RenamePlan::Unchanged) => r is Ok && final(self).tree() == m && final(self).outbox@
                        == old(self).outbox@ && final(self).calls@ == old(self).calls@,
                    Ok(RenamePlan::Plain { source, overwritten }) => {
                        let m1 = match overwritten {
                            Some(d) => removed(m, d),
                            None => m,
                        };
                        let c1 = match overwritten {
                            Some(d) => old(self).calls@.push(removal_call(m[d].entry, itree.path_of(d).unwrap())),
                            None => old(self).calls@,
                        };
                        let moved = mv_result(m1, parent, new_parent, name@, new_name@);
                        &&& extends(final(self).calls@, old(self).calls@)
                        &&& r is Ok ==> final(self).calls@ == c1 || final(self).calls@ == c1.push(mv)
                        &&& r is Ok ==> final(self).tree() == moved.0 && moved.1 is Ok && final(self).outbox@.len()
                            == old(self).outbox@.len() + 1 && final(self).outbox@.drop_last() == old(self).outbox@
                            && (final(self).outbox@.last() matches (None, Request::Rename(p, np, n, nn, o)) && p
                            == parent && np == new_parent && n@ == name@ && nn@ == new_name@ && o == overwrite)
                        &&& r is Err ==> final(self).outbox@ == old(self).outbox@ && (final(self).tree() == m
                            || final(self).tree() == m1 || final(self).tree() == moved.0)
                    },
                    Ok(RenamePlan::Special { source, dest }) => old(self).special_renamed(
                        &*final(self),
                        new_name@,
                        source,
                        answers@,
                        r,
                    ),
                }
            }),
    {
        let ghost m = self.tree();
        let plan = self.fs.rename(parent, new_parent, name, new_name, overwrite)?;
        proof {
            self.fs.network_interface.itree.lemma_wf_shape();
        }
        match plan {
            RenamePlan::Unchanged => Ok(()),
            RenamePlan::Special { source, dest } => {
                proof {
                    crate::pods::itree::lemma_find_named_found(m, entry_children(m[parent].entry), name@);
                    let s = crate::pods::itree::find_named(m, entry_children(m[parent].entry), name@)->Some_0;
                    assert(entry_children(m[parent].entry).contains(s));
                    if dest is Some {
                        crate::pods::itree::lemma_find_named_found(m, entry_children(m[new_parent].entry), new_name@);
                        let d = crate::pods::itree::find_named(m, entry_children(m[new_parent].entry), new_name@)->Some_0;
                        assert(entry_children(m[new_parent].entry).contains(d));
                    }
                }
                self.rename_special(new_parent, new_name, source, dest, answers)
            },
            RenamePlan::Plain { source, overwritten } => {
                let paths = self.rename_paths(parent, new_parent, name, new_name);
                if let Some(dest) = overwritten {
                    proof {
                        crate::pods::itree::lemma_find_named_found(m, entry_children(m[new_parent].entry), new_name@);
                        let d = crate::pods::itree::find_named(m, entry_children(m[new_parent].entry), new_name@)->Some_0;
                        assert(entry_children(m[new_parent].entry).contains(d));
                    }
                    self.overwrite(dest)?;
                }
                let (from, to) = match paths {
                    Ok(p) => p,
                    Err(source) => {
                        return Err(RenameError::WhError { source });
                    },
                };
                if let Err(kind) = self.rename_locally(&from, &to) {
                    return Err(RenameError::LocalRenamingFailed { io: disk_error(kind) });
                }
                let request = self.fs.network_interface.rename(
                    parent,
                    new_parent,
                    name.clone(),
                    new_name.clone(),
                    overwrite,
                )?;
                self.outbox.push((None, request));
                Ok(())
            },
        }
    }

    /// A rename that a peer made: the entry that the new name overwrites, if
    /// any, is removed (see [recept_rename_plan]), the entry is moved on the
    /// disk when it is there, then in the tree.
    pub fn recept_rename(
        &mut self,
        parent: Ino,
        new_parent: Ino,
        name: InodeName,
        new_name: InodeName,
        overwrite: bool,
    ) -> (r: Result<Response, RenameError>)
        requires
            old(self).wf(),
        ensures
            old(self).same_peer(&*final(self)),
            final(self).outbox@ == old(self).outbox@,
            ({
                let m = old(self).tree();
                let itree = old(self).fs.network_interface.itree;
                let mv = DiskCall::MvFile(
                    itree.path_of(parent).unwrap() + crate::pods::whpath::name_as_path(name@),
                    itree.path_of(new_parent).unwrap() + crate::pods::whpath::name_as_path(new_name@),
                );
                match recept_rename_plan(m, new_parent, new_name@, overwrite) {
                    Err(e) => r == Err::<Response, RenameError>(e) && final(self).tree() == m && final(self).calls@
                        == old(self).calls@,
                    Ok(overwritten) => {
                        let m1 = match overwritten {
                            Some(d) => removed(m, d),
                            None => m,
                        };
                        let c1 = match overwritten {
                            Some(d) => old(self).calls@.push(removal_call(m[d].entry, itree.path_of(d).unwrap())),
                            None => old(self).calls@,
                        };
                        let moved = mv_result(m1, parent, new_parent, name@, new_name@);
                        &&& extends(final(self).calls@, old(self).calls@)
                        &&& r is Ok ==> final(self).calls@ == c1 || final(self).calls@ == c1.push(mv)
                        &&& r is Ok ==> r == Ok::<Response, RenameError>(Response::Success) && final(self).tree()
                            == moved.0 && moved.1 is Ok
                        &&& r is Err ==> final(self).tree() == m || final(self).tree() == m1 || final(self).tree()
                            == moved.0
                    },
                }
            }),
    {
        let ghost m = self.tree();
        let overwritten = self.fs.recept_rename(new_parent, &new_name, overwrite)?;
        let paths = self.rename_paths(parent, new_parent, &name, &new_name);
        if let Some(dest) = overwritten {
            proof {
                self.fs.network_interface.itree.lemma_wf_shape();
                crate::pods::itree::lemma_find_named_found(m, entry_children(m[new_parent].entry), new_name@);
                let d = crate::pods::itree::find_named(m, entry_children(m[new_parent].entry), new_name@)->Some_0;
                assert(entry_children(m[new_parent].entry).contains(d));
            }
            self.overwrite(dest)?;
        }
        let (from, to) = match paths {
            Ok(p) => p,
            Err(source) => {
                return Err(RenameError::WhError { source });
            },
        };
        match self.rename_locally(&from, &to) {
            Ok(()) => {},
            Err(IoKind::NotFound) => {},
            Err(kind) => {
                return Err(RenameError::LocalRenamingFailed { io: disk_error(kind) });
            },
        }
        self.fs.network_interface.acknowledge_rename(parent, new_parent, name, new_name)?;
        Ok(Response::Success)
    }

    // SECTION writes and flushes

    /// Writes `data` at `offset` in the file `id` through the open file `fh`
    /// of `handles`: the handle must be open (`NoFileHandle`) and allow
    /// writing (`NoWritePermission`). The data is written on the disk, the
    /// handle marked as written, then the write recorded in the tree (see
    /// [FsInterface::affect_write_locally]); the peers learn of it at the next
    /// flush. Returns the number of bytes written.
    pub fn write(&mut self, id: Ino, data: &[u8], offset: usize, handles: &mut FileHandles, fh: HandleId) -> (r:
        Result<usize, WriteError>)
        requires
            old(self).wf(),
            offset + data@.len() <= usize::MAX,
        ensures
            final(self).wf(),
            old(self).same_peer(&*final(self)),
            final(self).outbox@ == old(self).outbox@,
            ({
                let s = old(handles).handles@;
                let unchanged = final(handles).handles@ == s && final(self).tree() == old(self).tree()
                    && final(self).calls@ == old(self).calls@;
                match handle_at(s, fh) {
                    None => unchanged && (r matches Err(WriteError::NoFileHandle)),
                    Some(i) => if !may_write(s[i].1.perm) {
                        unchanged && (r matches Err(WriteError::NoWritePermission))
                    } else {
                        &&& final(handles).handles@ == s.update(i, dirtied(s[i]))
                        &&& !old(self).tree().contains_key(id) ==> (r matches Err(
                            WriteError::WhError { source: WhError::InodeNotFound },
                        )) && final(self).calls@ == old(self).calls@
                        &&& old(self).tree().contains_key(id) ==> final(self).calls@ == old(self).calls@.push(
                            DiskCall::WriteFile(old(self).fs.network_interface.itree.path_of(id).unwrap(), data@, offset),
                        )
                    },
                }
            }),
            r is Err ==> final(self).tree() == old(self).tree(),
            r is Ok ==> {
                let m = old(self).tree();
                let meta = final(self).tree()[id].meta;
                &&& m.contains_key(id)
                &&& final(self).tree() == m.insert(id, InodeView { meta, ..m[id] })
                &&& meta.size == max_size((offset + data@.len()) as u64, m[id].meta.size)
                &&& meta.blocks == blocks_for(meta.size)
                &&& meta == (Metadata { size: meta.size, blocks: meta.blocks, mtime: meta.mtime, ..m[id].meta })
            },
    {
        let i = match handles.find(fh) {
            Some(i) => i,
            None => {
                return Err(WriteError::NoFileHandle);
            },
        };
        match handles.handles[i].1.perm {
            AccessMode::Write | AccessMode::ReadWrite => {},
            _ => {
                return Err(WriteError::NoWritePermission);
            },
        }
        handles.set_dirty(i);
        proof {
            self.fs.network_interface.itree.lemma_path_of(id);
        }
        let path = match self.fs.network_interface.itree.get_path_from_inode_id(id) {
            Ok(p) => p,
            Err(source) => {
                return Err(WriteError::WhError { source });
            },
        };
        let new_size = offset + data.len();
        let written = match self.disk_write(&path, data, offset) {
            Ok(n) => n,
            Err(kind) => {
                return Err(WriteError::LocalWriteFailed { io: Arc::new(disk_error(kind)) });
            },
        };
        match self.fs.affect_write_locally(id, new_size) {
            Ok(_) => Ok(written),
            Err(source) => Err(WriteError::WhError { source }),
        }
    }

    /// What [Self::flush] leaves, `after`, and answers, `r`, when it sends the
    /// changes of the file `ino` whose handle kept `before` and keeps `now`,
    /// the hosts of a file held elsewhere having given `answers`.
    pub open spec fn flush_done(
        &self,
        after: &Self,
        ino: Ino,
        before: FlushState,
        now: FlushState,
        answers: Seq<Option<Response>>,
        r: Result<(), FlushError>,
    ) -> bool {
        let m = self.tree();
        let me = self.fs.network_interface.id;
        &&& after.fs == self.fs
        &&& !m.contains_key(ino) ==> (r matches Err(FlushError::WhError { source: WhError::InodeNotFound }))
            && now == before
        &&& r is Err ==> after.outbox@ == self.outbox@
        &&& r is Ok ==> m.contains_key(ino) && (m[ino].entry is File)
        &&& m.contains_key(ino) && !(m[ino].entry is File) ==> (r matches Err(
            FlushError::WhError { source: WhError::InodeIsADirectory },
        )) && now == before
        &&& m.contains_key(ino) && m[ino].entry is File && (before.signature is None || !before.dirty) ==> r is Ok
        &&& m.contains_key(ino) && m[ino].entry is File && before.signature is Some && before.dirty && !holds_file(
            m,
            ino,
            me,
        ) && last_pulled(answers) is None ==> (r matches Err(
            FlushError::ReadError { source: ReadError::PullError { source: PullError::NoHostAvailable } },
        ))
        &&& r is Ok && before.signature is None ==> after.outbox@ == self.outbox@.push(
            (None, Request::FileChanged(ino, m[ino].meta)),
        ) && now == before
        &&& r is Ok && before.signature is Some && !before.dirty ==> after.outbox@ == self.outbox@ && now == before
        &&& r is Ok && before.signature is Some && before.dirty ==> {
            let n = self.outbox@.len();
            let peers = self.fs.network_interface.peers@;
            &&& after.outbox@.len() == n + peers.len()
            &&& after.outbox@.take(n as int) == self.outbox@
            &&& !now.dirty
            &&& holds_file(m, ino, me) ==> {
                &&& after.calls@.len() == self.calls@.len() + 1
                &&& after.calls@.drop_last() == self.calls@
                &&& (after.calls@.last() matches DiskCall::Read(p, f) && p == self.fs.network_interface.itree.path_of(
                    ino,
                ).unwrap() && f.len() <= m[ino].meta.size && flush_sent(
                    after.outbox@,
                    n,
                    peers,
                    m,
                    ino,
                    before.signature->Some_0,
                    now.signature->Some_0,
                    f,
                ))
            }
            &&& !holds_file(m, ino, me) ==> after.calls@ == self.calls@ && (last_pulled(answers) matches Some(f)
                && flush_sent(after.outbox@, n, peers, m, ino, before.signature->Some_0, now.signature->Some_0, f))
        }
        &&& !(before.signature is Some && before.dirty) ==> after.calls@ == self.calls@
        &&& extends(after.calls@, self.calls@)
    }

    /// Sends the changes of the file `ino` to the peers, as
    /// [FsInterface::flush] decides. When the handle needs the contents, they
    /// are read from the disk where this peer holds the file, else pulled:
    /// `answers` are those of its hosts, asked in turn (see
    /// [NetworkInterface::pull_file] and [pulled_file]).
    pub fn flush(&mut self, ino: Ino, handle: &mut FlushState, answers: Vec<Option<Response>>) -> (r: Result<(), FlushError>)
        requires
            old(self).wf(),
            forall|i: int| 0 <= i < answers@.len() ==> is_file_answer(#[trigger] answers@[i]),
        ensures
            old(self).flush_done(&*final(self), ino, *old(handle), *final(handle), answers@, r),
    {
        match self.fs.network_interface.itree.get_inode(ino) {
            Ok(inode) => match &inode.entry {
                FsEntry::File(_) => {},
                _ => {
                    return Err(FlushError::WhError { source: WhError::InodeIsADirectory });
                },
            },
            Err(source) => {
                return Err(FlushError::WhError { source });
            },
        }
        let contents = if handle.needs_contents() {
            let held = match self.fs.network_interface.pull_file(ino) {
                Ok(None) => true,
                Ok(Some(_)) => false,
                Err(source) => {
                    return Err(FlushError::ReadError { source: ReadError::PullError { source } });
                },
            };
            if held {
                proof {
                    self.fs.network_interface.itree.lemma_path_of(ino);
                }
                let path = match self.fs.network_interface.itree.get_path_from_inode_id(ino) {
                    Ok(p) => p,
                    Err(source) => {
                        return Err(FlushError::WhError { source });
                    },
                };
                let size = match self.fs.get_inode_attributes(ino) {
                    Ok(meta) => meta.size,
                    Err(source) => {
                        return Err(FlushError::WhError { source });
                    },
                };
                if size > usize::MAX as u64 {
                    return Err(FlushError::ReadError { source: ReadError::LocalReadFailed { io: Arc::new(disk_error(IoKind::Other)) } });
                }
                match self.read_recorded(&path, size) {
                    Ok(v) => {
                        proof {
                            assert(self.calls@.drop_last() =~= old(self).calls@);
                        }
                        Some(File(Arc::new(v)))
                    },
                    Err(kind) => {
                        return Err(FlushError::ReadError { source: ReadError::LocalReadFailed { io: Arc::new(disk_error(kind)) } });
                    },
                }
            } else {
                match pulled_file(answers) {
                    Ok(v) => Some(File(Arc::new(v))),
                    Err(source) => {
                        return Err(FlushError::ReadError { source: ReadError::PullError { source } });
                    },
                }
            }
        } else {
            None
        };
        let peers = self.fs.network_interface.peers.clone();
        let ghost n = self.outbox@.len();
        let ghost calls_now = self.calls@;
        let plan = match self.fs.flush(ino, handle, contents.as_ref(), &peers) {
            Ok(plan) => plan,
            Err(e) => {
                return Err(e);
            },
        };
        match plan {
            FlushPlan::Nothing => {},
            FlushPlan::Broadcast(request) => {
                self.outbox.push((None, request));
            },
            FlushPlan::ToPeers(requests) => {
                let ghost reqs = requests@;
                let ghost before = self.outbox@;
                let count = requests.len();
                let mut requests = requests;
                let mut rev: Vec<(Option<HostId>, Request)> = Vec::new();
                let mut i: usize = 0;
                assert(reqs.take(count as int) =~= reqs);
                while i < count
                    invariant
                        self.fs == old(self).fs,
                        self.calls@ == calls_now,
                        self.outbox@ == before,
                        count == reqs.len(),
                        i <= count,
                        requests@ == reqs.take(count - i),
                        rev@.len() == i,
                        forall|j: int|
                            0 <= j < i ==> #[trigger] rev@[j] == (Some(reqs[count - 1 - j].0), reqs[count - 1 - j].1),
                    decreases count - i,
                {
                    assert(reqs.take(count - i).drop_last() =~= reqs.take(count - (i + 1)));
                    let (peer, request) = requests.pop().unwrap();
                    rev.push((Some(peer), request));
                    i = i + 1;
                }
                let mut k: usize = 0;
                while k < count
                    invariant
                        self.fs == old(self).fs,
                        self.calls@ == calls_now,
                        count == reqs.len(),
                        k <= count,
                        rev@.len() == count - k,
                        forall|j: int|
                            0 <= j < count - k ==> #[trigger] rev@[j] == (Some(reqs[count - 1 - j].0), reqs[count - 1 - j].1),
                        self.outbox@.len() == before.len() + k,
                        self.outbox@.take(before.len() as int) == before,
                        forall|j: int|
                            0 <= j < k ==> #[trigger] self.outbox@[before.len() + j] == (Some(reqs[j].0), reqs[j].1),
                    decreases count - k,
                {
                    let item = rev.pop().unwrap();
                    let ghost prev = self.outbox@;
                    self.outbox.push(item);
                    proof {
                        assert(self.outbox@.take(before.len() as int) =~= prev.take(before.len() as int));
                        assert forall|j: int| 0 <= j < k + 1 implies #[trigger] self.outbox@[before.len() + j] == (
                            Some(reqs[j].0),
                            reqs[j].1,
                        ) by {
                            if j < k {
                                assert(self.outbox@[before.len() + j] == prev[before.len() + j]);
                            }
                        }
                    }
                    k = k + 1;
                }
            },
        }
        Ok(())
    }

    /// Reads into `buf` the bytes of the file `ino` from `offset` on, for the
    /// handle `fh` among `handles`, where [FsInterface::read_file] says: from
    /// the disk where this peer holds the file, else from the contents pulled
    /// from its hosts, whose `answers` are given (see [pulled_file]).
    /// Returns the number of bytes read.
    ///
    /// `NoFileHandle` when no file is open under `fh`, `NoReadPermission`
    /// when it was opened for writing only, a pulling error when `ino` is not
    /// a file or none of its hosts sent it, `LocalReadFailed` when the disk
    /// fails. The pulled contents must fit in `buf` from `offset` on.
    pub fn read_file(
        &mut self,
        ino: Ino,
        offset: usize,
        buf: &mut [u8],
        handles: &FileHandles,
        fh: HandleId,
        answers: Vec<Option<Response>>,
    ) -> (r: Result<usize, ReadError>)
        requires
            old(self).wf(),
            forall|i: int| 0 <= i < answers@.len() ==> is_file_answer(#[trigger] answers@[i]),
            last_pulled(answers@) matches Some(d) ==> d.len() <= offset + old(buf)@.len(),
        ensures
            final(self).fs == old(self).fs,
            final(self).outbox@ == old(self).outbox@,
            ({
                let s = handles.handles@;
                let m = old(self).tree();
                let me = old(self).fs.network_interface.id;
                let unchanged = final(self).calls@ == old(self).calls@ && final(buf)@ == old(buf)@;
                match handle_at(s, fh) {
                    None => unchanged && (r matches Err(ReadError::NoFileHandle)),
                    Some(i) => if s[i].1.perm is Write {
                        unchanged && (r matches Err(ReadError::NoReadPermission))
                    } else if !m.contains_key(ino) {
                        unchanged && (r matches Err(
                            ReadError::PullError { source: PullError::WhError { source: WhError::InodeNotFound } },
                        ))
                    } else if !(m[ino].entry is File) {
                        unchanged && (r matches Err(
                            ReadError::PullError { source: PullError::WhError { source: WhError::InodeIsADirectory } },
                        ))
                    } else if entry_hosts(m[ino].entry).len() == 0 {
                        unchanged && (r matches Err(ReadError::PullError { source: PullError::NoHostAvailable }))
                    } else if holds_file(m, ino, me) {
                        &&& final(self).calls@ == old(self).calls@.push(
                            DiskCall::ReadAt(
                                old(self).fs.network_interface.itree.path_of(ino).unwrap(),
                                offset,
                                old(buf)@.len() as usize,
                            ),
                        )
                        &&& r is Ok || (r matches Err(ReadError::LocalReadFailed { .. }))
                    } else {
                        &&& final(self).calls@ == old(self).calls@
                        &&& match last_pulled(answers@) {
                            None => (r matches Err(ReadError::PullError { source: PullError::NoHostAvailable }))
                                && final(buf)@ == old(buf)@,
                            Some(d) => {
                                let n = pulled_len(d.len(), offset);
                                &&& r == Ok::<usize, ReadError>(n as usize)
                                &&& n == 0 ==> final(buf)@ == old(buf)@
                                &&& n > 0 ==> final(buf)@ == d.subrange(offset as int, offset + n) + old(buf)@.skip(
                                    n as int,
                                )
                            },
                        }
                    },
                }
            }),
    {
        let source = self.fs.read_file(ino, handles, fh)?;
        match source {
            ReadSource::Local(path) => {
                let done = self.disk.read_file(&path, offset, buf);
                proof {
                    self.calls@ = self.calls@.push(DiskCall::ReadAt(path@, offset, old(buf)@.len() as usize));
                }
                match done {
                    Ok(n) => Ok(n),
                    Err(kind) => Err(ReadError::LocalReadFailed { io: Arc::new(disk_error(kind)) }),
                }
            },
            ReadSource::Pull(_) => match pulled_file(answers) {
                Ok(data) => Ok(copy_pulled(&data, offset, buf)),
                Err(source) => Err(ReadError::PullError { source }),
            },
        }
    }

    /// Closes the file open under the handle `fh` among `handles`; when it was
    /// written, its changes are sent as [Self::flush] does, the hosts of a
    /// file held elsewhere having given `answers`. Returns whether the file
    /// was written, its redundancy being then to be applied anew.
    ///
    /// `InodeNotFound` when no file is open under `fh`.
    pub fn release(&mut self, handles: &mut FileHandles, fh: HandleId, answers: Vec<Option<Response>>) -> (r: Result<
        bool,
        FlushError,
    >)
        requires
            old(self).wf(),
            forall|i: int| 0 <= i < answers@.len() ==> is_file_answer(#[trigger] answers@[i]),
        ensures
            match handle_at(old(handles).handles@, fh) {
                None => (r matches Err(FlushError::WhError { source: WhError::InodeNotFound }))
                    && final(handles).handles@ == old(handles).handles@ && *final(self) == *old(self),
                Some(i) => {
                    let h = old(handles).handles@[i].1;
                    &&& final(handles).handles@ == old(handles).handles@.remove(i)
                    &&& !h.state.dirty ==> r == Ok::<bool, FlushError>(false) && *final(self) == *old(self)
                    &&& h.state.dirty ==> (r is Ok ==> r == Ok::<bool, FlushError>(true)) && exists|now: FlushState|
                        #[trigger] old(self).flush_done(
                            &*final(self),
                            h.ino,
                            h.state,
                            now,
                            answers@,
                            flush_result(r),
                        )
                },
            },
    {
        let mut handle = match handles.close(fh) {
            Some(h) => h,
            None => {
                return Err(FlushError::WhError { source: WhError::InodeNotFound });
            },
        };
        if !handle.state.dirty {
            return Ok(false);
        }
        let ghost before = handle.state;
        let ghost ans = answers@;
        let ghost start = *self;
        let flushed = self.flush(handle.ino, &mut handle.state, answers);
        proof {
            assert(start.flush_done(&*self, handle.ino, before, handle.state, ans, flushed));
        }
        let ghost fl = flushed;
        let r = match flushed {
            Ok(()) => Ok(true),
            Err(e) => Err(e),
        };
        proof {
            if fl is Ok {
                let u: () = fl->Ok_0;
                assert(u == ());
                assert(fl == Ok::<(), FlushError>(u));
                assert(flush_result(r) == Ok::<(), FlushError>(()));
            } else {
                assert(flush_result(r) == fl);
            }
            assert(flush_result(r) == fl);
            assert(start.flush_done(&*self, handle.ino, before, handle.state, ans, flush_result(r)));
        }
        r
    }

    /// The local copy of the file `ino`, as many bytes as its metadata gives,
    /// read from the disk from its start; the bytes the disk does not fill
    /// stay zero. `InodeNotFound` when `ino` is not in the tree or the disk
    /// fails.
    pub fn read_local_file(&mut self, ino: Ino) -> (r: Result<Vec<u8>, WhError>)
        requires
            old(self).wf(),
        ensures
            final(self).fs == old(self).fs,
            final(self).outbox@ == old(self).outbox@,
            !old(self).tree().contains_key(ino) ==> r == Err::<Vec<u8>, WhError>(WhError::InodeNotFound)
                && final(self).calls@ == old(self).calls@,
            old(self).tree().contains_key(ino) && old(self).tree()[ino].meta.size > usize::MAX ==> r == Err::<
                Vec<u8>,
                WhError,
            >(WhError::InodeNotFound) && final(self).calls@ == old(self).calls@,
            old(self).tree().contains_key(ino) && old(self).tree()[ino].meta.size <= usize::MAX ==> {
                &&& final(self).calls@ == old(self).calls@.push(
                    DiskCall::ReadAt(
                        old(self).fs.network_interface.itree.path_of(ino).unwrap(),
                        0,
                        old(self).tree()[ino].meta.size as usize,
                    ),
                )
                &&& r matches Ok(v) ==> v@.len() == old(self).tree()[ino].meta.size
                &&& r matches Err(e) ==> e == WhError::InodeNotFound
            },
    {
        proof {
            self.fs.network_interface.itree.lemma_path_of(ino);
        }
        let path = match self.fs.network_interface.itree.get_path_from_inode_id(ino) {
            Ok(p) => p,
            Err(_) => {
                return Err(WhError::InodeNotFound);
            },
        };
        let size = match self.fs.network_interface.itree.get_inode(ino) {
            Ok(inode) => inode.meta.size,
            Err(_) => {
                return Err(WhError::InodeNotFound);
            },
        };
        if size > usize::MAX as u64 {
            return Err(WhError::InodeNotFound);
        }
        let mut buf: Vec<u8> = vec![0u8; size as usize];
        let done = self.disk.read_file(&path, 0, buf.as_mut_slice());
        proof {
            self.calls@ = self.calls@.push(DiskCall::ReadAt(path@, 0, size as usize));
        }
        match done {
            Ok(_) => Ok(buf),
            Err(_) => Err(WhError::InodeNotFound),
        }
    }

    /// The local copy of a file, for the exchanges of changes.
    fn local_file_for_flush(&mut self, ino: Ino) -> (r: Result<Option<File>, FlushError>)
        requires
            old(self).wf(),
        ensures
            final(self).fs == old(self).fs,
            final(self).outbox@ == old(self).outbox@,
            r matches Ok(Some(f)) ==> f@.len() <= old(self).tree()[ino].meta.size && final(self).calls@ == old(
                self,
            ).calls@.push(DiskCall::Read(old(self).fs.network_interface.itree.path_of(ino).unwrap(), f@)),
            !(r matches Ok(Some(_))) ==> final(self).calls@ == old(self).calls@,
            !old(self).tree().contains_key(ino) ==> (r matches Err(FlushError::WhError { source: WhError::InodeNotFound })),
            old(self).tree().contains_key(ino) && (old(self).tree()[ino].entry matches EntryView::File(hosts)
                && !hosts.contains(old(self).fs.network_interface.id)) ==> (r matches Ok(None)),
            r matches Ok(Some(_)) ==> old(self).tree().contains_key(ino) && (old(self).tree()[ino].entry matches EntryView::File(
                hosts,
            ) && hosts.contains(old(self).fs.network_interface.id)),
            old(self).tree().contains_key(ino) && !(old(self).tree()[ino].entry is File) ==> (r matches Err(
                FlushError::WhError { source: WhError::InodeIsADirectory },
            )),
            old(self).tree().contains_key(ino) && (old(self).tree()[ino].entry matches EntryView::File(hosts) && hosts.contains(
                old(self).fs.network_interface.id,
            )) ==> (r matches Ok(Some(_))) || (r matches Err(FlushError::WriteError { .. })),
    {
        match self.local_file(ino) {
            Ok(f) => Ok(f),
            Err(ReadError::WhError { source }) => Err(FlushError::WhError { source }),
            Err(ReadError::LocalReadFailed { io }) => Err(FlushError::WriteError { source: WriteError::LocalWriteFailed { io } }),
            Err(_) => Err(FlushError::WhError { source: WhError::InodeNotFound }),
        }
    }

    /// A peer changed the file `ino`: its metadata is taken (see
    /// [crate::pods::network::network_interface::NetworkInterface::update_metadata]),
    /// and, when this peer holds the file, the difference is asked for against
    /// the signature of the local copy (see [FsInterface::accept_file_changed]).
    pub fn accept_file_changed(&mut self, ino: Ino, meta: Metadata) -> (r: Result<Response, FlushError>)
        requires
            old(self).wf(),
        ensures
            extends(final(self).calls@, old(self).calls@),
            final(self).wf(),
            old(self).same_peer(&*final(self)),
            final(self).outbox@ == old(self).outbox@,
            ({
                let m = old(self).tree();
                let me = old(self).fs.network_interface.id;
                &&& !m.contains_key(ino) ==> (r matches Err(FlushError::WhError { source: WhError::InodeNotFound }))
                    && final(self).tree() == m
                &&& m.contains_key(ino) ==> final(self).tree() == m.insert(
                    ino,
                    InodeView { meta: fixed_meta(meta, m[ino].meta), ..m[ino] },
                )
                &&& m.contains_key(ino) && (m[ino].entry matches EntryView::File(hosts) && !hosts.contains(me)) ==> r
                    == Ok::<Response, FlushError>(Response::Success)
                &&& (r matches Ok(Response::DeltaRequest(i, s)) ==> i == ino && s.method() == Implementors::RSync)
                &&& (r matches Ok(x) ==> x is Success || x is DeltaRequest)
                &&& !holds_file(m, ino, me) ==> final(self).calls@ == old(self).calls@
                &&& (r matches Ok(Response::DeltaRequest(_, s)) ==> final(self).calls@.len() == old(self).calls@.len()
                    + 1 && final(self).calls@.drop_last() == old(self).calls@ && (final(self).calls@.last() matches DiskCall::Read(
                    q,
                    f,
                ) && q == final(self).fs.network_interface.itree.path_of(ino).unwrap() && s.signs(f)))
            }),
    {
        if let Err(source) = self.fs.network_interface.update_metadata(ino, meta) {
            return Err(FlushError::WhError { source });
        }
        let ghost updated = self.tree();
        assert(self.tree().contains_key(ino) ==> self.tree()[ino].entry == old(self).tree()[ino].entry);
        let local = match self.local_file_for_flush(ino) {
            Ok(l) => l,
            Err(e) => {
                return Err(e);
            },
        };
        proof {
            if local is Some {
                assert(self.calls@.drop_last() =~= old(self).calls@);
            }
        }
        let r = self.fs.accept_file_changed(ino, local);
        proof {
            if !holds_file(old(self).tree(), ino, old(self).fs.network_interface.id) {
                assert(!holds_file(updated, ino, old(self).fs.network_interface.id));
            }
        }
        r
    }

    /// Whether `after` and `r` are what [Self::respond_delta] leaves and answers
    /// when it sends to `origin` the difference of the local copy of `ino`
    /// against `sig`: an error of the tree when `ino` is not a file that this
    /// peer holds, else the request queued, unless the disk or the difference
    /// failed.
    pub open spec fn delta_sent(&self, after: &Self, ino: Ino, sig: Signature, origin: HostId, r: Result<(), FlushError>) -> bool {
        let m = self.tree();
        let me = self.fs.network_interface.id;
        &&& after.fs == self.fs
        &&& !m.contains_key(ino) ==> (r matches Err(FlushError::WhError { source: WhError::InodeNotFound }))
        &&& m.contains_key(ino) && !(m[ino].entry is File) ==> (r matches Err(
            FlushError::WhError { source: WhError::InodeIsADirectory },
        ))
        &&& m.contains_key(ino) && (m[ino].entry matches EntryView::File(hosts) && !hosts.contains(me)) ==> (r matches Err(
            FlushError::WhError { source: WhError::InodeNotFound },
        ))
        &&& m.contains_key(ino) && (m[ino].entry matches EntryView::File(hosts) && hosts.contains(me)) ==> r is Ok || (r matches Err(
            FlushError::WriteError { .. },
        )) || (r matches Err(FlushError::DiffError { .. }))
        &&& r is Err ==> after.outbox@ == self.outbox@
        &&& extends(after.calls@, self.calls@)
        &&& r is Ok ==> {
            &&& m.contains_key(ino)
            &&& after.outbox@.len() == self.outbox@.len() + 1
            &&& after.outbox@.drop_last() == self.outbox@
            &&& after.outbox@.last().0 == Some(origin)
            &&& after.calls@.len() == self.calls@.len() + 1
            &&& after.calls@.drop_last() == self.calls@
            &&& (after.calls@.last() matches DiskCall::Read(q, f) && q == self.fs.network_interface.itree.path_of(
                ino,
            ).unwrap() && (after.outbox@.last().1 matches Request::FileDelta(i, meta, s, d) && i == ino && meta
                == m[ino].meta && s == sig && d.made_of(sig, f)))
        }
    }

    /// Sends to `origin` the difference of the local copy of `ino` against the
    /// signature `sig` that it sent (see [FsInterface::respond_delta]).
    pub fn respond_delta(&mut self, ino: Ino, sig: Signature, origin: HostId) -> (r: Result<(), FlushError>)
        requires
            old(self).wf(),
        ensures
            old(self).delta_sent(&*final(self), ino, sig, origin, r),
    {
        let local = match self.local_file_for_flush(ino) {
            Ok(local) => local,
            Err(e) => {
                return Err(e);
            },
        };
        let ghost f = local.unwrap()@;
        let request = match self.fs.respond_delta(ino, sig, local) {
            Ok(request) => request,
            Err(e) => {
                return Err(e);
            },
        };
        assert(request matches Request::FileDelta(i, meta, s, d) ==> d.made_of(s, f));
        self.outbox.push((Some(origin), request));
        assert(self.outbox@.drop_last() =~= old(self).outbox@);
        assert(self.calls@.drop_last() =~= old(self).calls@);
        Ok(())
    }

    /// Applies the difference that a peer sent for the file `ino` (see
    /// [FsInterface::accept_delta]): when this peer holds the file and its
    /// copy has the signature the difference was made against, the patched
    /// file is written on the disk and the metadata `meta` taken; when the
    /// copy differs, the difference is asked for again against its own
    /// signature.
    pub fn accept_delta(&mut self, ino: Ino, meta: Metadata, sig: Signature, delta: Delta) -> (r: Result<
        Response,
        FlushError,
    >)
        requires
            old(self).wf(),
        ensures
            final(self).wf(),
            old(self).same_peer(&*final(self)),
            final(self).outbox@ == old(self).outbox@,
            ({
                let m = old(self).tree();
                let me = old(self).fs.network_interface.id;
                &&& !m.contains_key(ino) ==> r is Err && final(self).tree() == m
                &&& m.contains_key(ino) && (m[ino].entry matches EntryView::File(hosts) && !hosts.contains(me)) ==> r
                    == Ok::<Response, FlushError>(Response::Success) && final(self).tree() == m
                &&& (r matches Ok(Response::DeltaRequest(i, s)) ==> i == ino && s.method() == sig.method()
                    && final(self).tree() == m)
                &&& (r matches Ok(x) ==> x is Success || x is DeltaRequest)
                &&& final(self).tree() == m || (r == Ok::<Response, FlushError>(Response::Success)
                    && final(self).tree() == m.insert(ino, InodeView { meta: fixed_meta(meta, m[ino].meta), ..m[ino] }))
                &&& m.contains_key(ino) && (m[ino].entry matches EntryView::File(hosts) && hosts.contains(me)) ==> r is Ok
                    || (r matches Err(FlushError::WriteError { .. })) || (r matches Err(FlushError::DiffError { .. }))
                &&& extends(final(self).calls@, old(self).calls@)
                &&& (r matches Ok(Response::DeltaRequest(_, _))) ==> final(self).calls@.len() == old(self).calls@.len() + 1
                    && final(self).calls@.drop_last() == old(self).calls@ && (final(self).calls@.last() matches DiskCall::Read(
                    q,
                    _,
                ) && q == old(self).fs.network_interface.itree.path_of(ino).unwrap())
                &&& final(self).tree() != m ==> {
                    let path = old(self).fs.network_interface.itree.path_of(ino).unwrap();
                    let n = old(self).calls@.len();
                    &&& final(self).calls@.len() == n + 3
                    &&& final(self).calls@.take(n as int) == old(self).calls@
                    &&& (final(self).calls@[n as int] matches DiskCall::Read(q, f) && q == path
                        && final(self).calls@[n + 1int] == DiskCall::WriteFile(path, delta.patched(f), 0))
                    &&& final(self).calls@[n + 2int] == DiskCall::SetFileSize(path, meta.size as usize)
                }
            }),
    {
        let local = match self.local_file_for_flush(ino) {
            Ok(local) => local,
            Err(e) => {
                return Err(e);
            },
        };
        let ghost read = self.calls@;
        proof {
            if local is Some {
                assert(read.drop_last() =~= old(self).calls@);
            }
        }
        let outcome = match self.fs.accept_delta(&sig, &delta, local) {
            Ok(outcome) => outcome,
            Err(e) => {
                return Err(e);
            },
        };
        match outcome {
            DeltaOutcome::NotTracked => Ok(Response::Success),
            DeltaOutcome::Mismatch(local_sig) => Ok(Response::DeltaRequest(ino, local_sig)),
            DeltaOutcome::Patched(patched) => {
                proof {
                    self.fs.network_interface.itree.lemma_path_of(ino);
                }
                let path = match self.fs.network_interface.itree.get_path_from_inode_id(ino) {
                    Ok(p) => p,
                    Err(source) => {
                        return Err(FlushError::WhError { source });
                    },
                };
                if let Err(kind) = self.disk_write(&path, patched.0.as_slice(), 0) {
                    return Err(FlushError::WriteError { source: WriteError::LocalWriteFailed { io: Arc::new(disk_error(kind)) } });
                }
                if meta.size > usize::MAX as u64 {
                    return Err(FlushError::WriteError { source: WriteError::LocalWriteFailed { io: Arc::new(disk_error(IoKind::Other)) } });
                }
                if let Err(kind) = self.disk_set_size(&path, meta.size as usize) {
                    return Err(FlushError::WriteError { source: WriteError::LocalWriteFailed { io: Arc::new(disk_error(kind)) } });
                }
                if let Err(source) = self.fs.network_interface.update_metadata(ino, meta) {
                    return Err(FlushError::WhError { source });
                }
                assert(self.calls@.take(old(self).calls@.len() as int) =~= old(self).calls@);
                Ok(Response::Success)
            },
        }
    }

    /// The contents of the file `ino` as the disk has them, for the peer that
    /// asked.
    pub fn send_file(&mut self, ino: Ino) -> (r: Result<Response, IoKind>)
        requires
            old(self).wf(),
        ensures
            final(self).fs == old(self).fs,
            final(self).outbox@ == old(self).outbox@,
            !old(self).tree().contains_key(ino) ==> r == Err::<Response, IoKind>(IoKind::NotFound),
            r is Ok ==> (r matches Ok(Response::RequestedFile(data)) && data@.len() <= old(self).tree()[ino].meta.size
                && final(self).calls@ == old(self).calls@.push(
                DiskCall::Read(old(self).fs.network_interface.itree.path_of(ino).unwrap(), data@),
            )),
            r is Err ==> final(self).calls@ == old(self).calls@,
    {
        proof {
            self.fs.network_interface.itree.lemma_path_of(ino);
        }
        let path = match self.fs.network_interface.itree.get_path_from_inode_id(ino) {
            Ok(p) => p,
            Err(_) => {
                return Err(IoKind::NotFound);
            },
        };
        let size = match self.fs.get_inode_attributes(ino) {
            Ok(meta) => meta.size,
            Err(_) => {
                return Err(IoKind::NotFound);
            },
        };
        if size > usize::MAX as u64 {
            return Err(IoKind::Other);
        }
        match self.read_recorded(&path, size) {
            Ok(data) => Ok(Response::RequestedFile(data)),
            Err(kind) => Err(kind),
        }
    }

    // SECTION requests of the peers

    /// Handles a request that `peer` sent, and gives the answer to send back:
    /// `Failed` when the operation fails. Each request is the operation of the
    /// same name: [Self::recept_inode], [Self::recept_remove_inode],
    /// [Self::recept_remove_hosts], [Self::recept_redundancy],
    /// [Self::recept_rename], [Self::accept_delta],
    /// [Self::accept_file_changed], [Self::send_file]; the hosts, metadata and
    /// extended attributes are taken as the network interface does; the tree
    /// is sent as [crate::pods::network::network_interface::NetworkInterface::send_filesystem]
    /// makes it; `Leave` forgets the peer that sent it, `Bannish` the peer it
    /// names.
    pub fn handle_request_message(&mut self, request: Request, peer: HostId) -> (r: Response)
        requires
            old(self).wf(),
        ensures
            extends(final(self).calls@, old(self).calls@),
            ({
                let m = old(self).tree();
                let itree = old(self).fs.network_interface.itree;
                let n = old(self).calls@;
                match request {
                    Request::Inode(inode) => r is Success ==> {
                        let path = final(self).fs.network_interface.itree.path_of(inode.id).unwrap();
                        final(self).calls@ == match inode@.entry {
                            EntryView::File(hosts) => if hosts.contains(old(self).fs.network_interface.id) {
                                n.push(DiskCall::NewFile(path, inode.meta.perm))
                            } else {
                                n
                            },
                            EntryView::Directory(_) => n.push(DiskCall::NewDir(path, inode.meta.perm)),
                            EntryView::Symlink(_) => n.push(DiskCall::NewSymlink(path, inode.meta.perm)),
                        }
                    },
                    Request::Remove(id) => r is Success ==> final(self).calls@ == n.push(
                        removal_call(m[id].entry, itree.path_of(id).unwrap()),
                    ),
                    Request::RedundancyFile(id, binary) => r is Success ==> final(self).calls@ == n.push(
                        DiskCall::NewFile(itree.path_of(id).unwrap(), m[id].meta.perm),
                    ).push(DiskCall::WriteFile(itree.path_of(id).unwrap(), binary@, 0)),
                    Request::RequestFile(ino) => (r matches Response::RequestedFile(data) ==> final(self).calls@
                        == n.push(DiskCall::Read(itree.path_of(ino).unwrap(), data@))) && (r is Failed
                        ==> final(self).calls@ == n),
                    Request::AddHosts(_, _) => final(self).calls@ == n,
                    Request::EditMetadata(_, _) => final(self).calls@ == n,
                    Request::SetXAttr(_, _, _) => final(self).calls@ == n,
                    Request::RemoveXAttr(_, _) => final(self).calls@ == n,
                    Request::RequestFs => final(self).calls@ == n,
                    Request::Leave => final(self).calls@ == n,
                    Request::Bannish(_) => final(self).calls@ == n,
                    Request::RemoveHosts(id, hosts) => final(self).calls@ == if m.contains_key(id) && m[id].entry is File
                        && hosts@.contains(old(self).fs.network_interface.id) {
                        n.push(DiskCall::RemoveFile(itree.path_of(id).unwrap()))
                    } else {
                        n
                    },
                    Request::Rename(parent, new_parent, name, new_name, overwrite) => match recept_rename_plan(
                        m,
                        new_parent,
                        new_name@,
                        overwrite,
                    ) {
                        Err(_) => final(self).calls@ == n,
                        Ok(overwritten) => {
                            let c1 = match overwritten {
                                Some(d) => n.push(removal_call(m[d].entry, itree.path_of(d).unwrap())),
                                None => n,
                            };
                            r is Success ==> final(self).calls@ == c1 || final(self).calls@ == c1.push(
                                DiskCall::MvFile(
                                    itree.path_of(parent).unwrap() + crate::pods::whpath::name_as_path(name@),
                                    itree.path_of(new_parent).unwrap() + crate::pods::whpath::name_as_path(new_name@),
                                ),
                            )
                        },
                    },
                    Request::FileDelta(ino, meta, _, delta) => {
                        &&& (r is DeltaRequest ==> final(self).calls@.len() == n.len() + 1 && final(self).calls@.drop_last()
                            == n && (final(self).calls@.last() matches DiskCall::Read(q, _) && q == itree.path_of(
                            ino,
                        ).unwrap()))
                        &&& final(self).tree() != m ==> {
                            let path = itree.path_of(ino).unwrap();
                            &&& final(self).calls@.len() == n.len() + 3
                            &&& final(self).calls@.take(n.len() as int) == n
                            &&& (final(self).calls@[n.len() as int] matches DiskCall::Read(q, f) && q == path
                                && final(self).calls@[n.len() + 1int] == DiskCall::WriteFile(path, delta.patched(f), 0))
                            &&& final(self).calls@[n.len() + 2int] == DiskCall::SetFileSize(path, meta.size as usize)
                        }
                    },
                    Request::FileChanged(ino, _) => {
                        &&& !holds_file(m, ino, old(self).fs.network_interface.id) ==> final(self).calls@ == n
                        &&& (r matches Response::DeltaRequest(_, s) ==> final(self).calls@.len() == n.len() + 1
                            && final(self).calls@.drop_last() == n && (final(self).calls@.last() matches DiskCall::Read(
                            q,
                            f,
                        ) && q == final(self).fs.network_interface.itree.path_of(ino).unwrap() && s.signs(f)))
                    },
                }
            }),
            final(self).fs.network_interface.id == old(self).fs.network_interface.id,
            r is Success || r is Failed || r is DeltaRequest || r is RequestedFile || r is FsAnswer,
            !(request is Rename) && !(request matches Request::Remove(i) && i == ROOT) ==> final(self).wf(),
            !(request is Leave || request is Bannish) ==> old(self).same_peer(&*final(self)),
            !(request is FileDelta || request is FileChanged || request is RequestFile || request is RequestFs) ==> r is Success
                || r is Failed,
            ({
                let m = old(self).tree();
                let me = old(self).fs.network_interface.id;
                match request {
                    Request::Inode(inode) => {
                        let fits = !m.contains_key(inode.id) && m.contains_key(inode.parent)
                            && m[inode.parent].entry is Directory;
                        let acceptable = inode.id < u64::MAX && entry_children(inode@.entry).len() == 0;
                        &&& !(acceptable && fits) ==> r is Failed && final(self).tree() == m
                        &&& r is Success ==> acceptable && fits && final(self).tree() == m.insert(
                            inode.parent,
                            with_child(m[inode.parent], inode.id),
                        ).insert(inode.id, inode@)
                    },
                    Request::Remove(id) => {
                        &&& r is Failed ==> final(self).tree() == m
                        &&& r is Success ==> m.contains_key(id) && final(self).tree() == removed(m, id)
                        &&& !m.contains_key(id) ==> r is Failed
                    },
                    Request::AddHosts(id, hosts) => {
                        &&& (r is Success <==> m.contains_key(id) && m[id].entry is File)
                        &&& r is Failed ==> final(self).tree() == m
                        &&& r is Success ==> final(self).tree() == m.insert(id, with_entry(m[id], final(self).tree()[id].entry))
                            && final(self).tree()[id].entry is File && entry_hosts(final(self).tree()[id].entry).to_set()
                            == (entry_hosts(m[id].entry) + hosts@).to_set()
                    },
                    Request::RemoveHosts(id, hosts) => {
                        &&& (r is Success <==> m.contains_key(id) && m[id].entry is File)
                        &&& r is Failed ==> final(self).tree() == m
                        &&& r is Success ==> final(self).tree() == m.insert(
                            id,
                            with_entry(m[id], EntryView::File(hosts_without(entry_hosts(m[id].entry), hosts@))),
                        )
                    },
                    Request::EditMetadata(id, meta) => {
                        &&& (r is Success <==> m.contains_key(id))
                        &&& r is Failed ==> final(self).tree() == m
                        &&& r is Success ==> final(self).tree() == m.insert(
                            id,
                            InodeView { meta: fixed_meta(meta, m[id].meta), ..m[id] },
                        )
                    },
                    Request::RedundancyFile(id, _) => {
                        &&& !m.contains_key(id) ==> r is Failed
                        &&& r is Failed ==> final(self).tree() == m
                        &&& r is Success ==> m.contains_key(id) && m[id].entry is File && final(self).tree() == m.insert(
                            id,
                            with_entry(m[id], final(self).tree()[id].entry),
                        ) && final(self).tree()[id].entry is File && entry_hosts(
                            final(self).tree()[id].entry,
                        ).to_set() == entry_hosts(m[id].entry).to_set().insert(me)
                    },
                    Request::RequestFile(ino) => final(self).tree() == m && (!m.contains_key(ino) ==> r is Failed)
                        && (r is Failed || r is RequestedFile),
                    Request::RequestFs => final(self).tree() == m && (r matches Response::FsAnswer(t, p) && t@
                        == crate::pods::itree::cleaned(m) && p@ == old(self).fs.network_interface.peers@.filter(
                        |x: HostId| x != peer,
                    )),
                    Request::Rename(parent, new_parent, name, new_name, overwrite) => match recept_rename_plan(
                        m,
                        new_parent,
                        new_name@,
                        overwrite,
                    ) {
                        Err(_) => r is Failed && final(self).tree() == m,
                        Ok(overwritten) => {
                            let m1 = match overwritten {
                                Some(d) => removed(m, d),
                                None => m,
                            };
                            let moved = mv_result(m1, parent, new_parent, name@, new_name@);
                            &&& r is Success ==> final(self).tree() == moved.0 && moved.1 is Ok
                            &&& r is Failed ==> final(self).tree() == m || final(self).tree() == m1
                                || final(self).tree() == moved.0
                        },
                    },
                    Request::SetXAttr(ino, key, data) => {
                        &&& (r is Success <==> m.contains_key(ino))
                        &&& r is Success ==> final(self).tree() == with_xattr(m, ino, key@, data@)
                        &&& r is Failed ==> final(self).tree() == m
                    },
                    Request::RemoveXAttr(ino, key) => {
                        &&& (r is Success <==> m.contains_key(ino))
                        &&& r is Success ==> final(self).tree() == without_xattr(m, ino, key@)
                        &&& r is Failed ==> final(self).tree() == m
                    },
                    Request::FileDelta(ino, meta, sig, _) => {
                        &&& !m.contains_key(ino) ==> r is Failed && final(self).tree() == m
                        &&& m.contains_key(ino) && (m[ino].entry matches EntryView::File(hosts) && !hosts.contains(me))
                            ==> r is Success && final(self).tree() == m
                        &&& (r matches Response::DeltaRequest(i, s) ==> i == ino && s.method() == sig.method()
                            && final(self).tree() == m)
                        &&& final(self).tree() == m || (r is Success && final(self).tree() == m.insert(
                            ino,
                            InodeView { meta: fixed_meta(meta, m[ino].meta), ..m[ino] },
                        ))
                    },
                    Request::FileChanged(ino, meta) => {
                        &&& !m.contains_key(ino) ==> r is Failed && final(self).tree() == m
                        &&& m.contains_key(ino) ==> final(self).tree() == m.insert(
                            ino,
                            InodeView { meta: fixed_meta(meta, m[ino].meta), ..m[ino] },
                        )
                        &&& m.contains_key(ino) && (m[ino].entry matches EntryView::File(hosts) && !hosts.contains(me))
                            ==> r is Success
                        &&& (r matches Response::DeltaRequest(i, s) ==> i == ino && s.method() == Implementors::RSync)
                        &&& r is Success || r is Failed || r is DeltaRequest
                    },
                    Request::Leave => r is Success && final(self).tree() == forget_host(m, peer)
                        && final(self).fs.network_interface.peers@ == old(self).fs.network_interface.peers@.filter(
                        |p: HostId| p != peer,
                    ),
                    Request::Bannish(banned) => r is Success && final(self).tree() == forget_host(m, banned)
                        && final(self).fs.network_interface.peers@ == old(self).fs.network_interface.peers@.filter(
                        |p: HostId| p != banned,
                    ),
                }
            }),
    {
        match request {
            Request::RedundancyFile(id, binary) => match self.recept_redundancy(id, binary.as_slice()) {
                Ok(answer) => answer,
                Err(_) => Response::Failed,
            },
            Request::Inode(inode) => match self.recept_inode(inode) {
                Ok(answer) => answer,
                Err(_) => Response::Failed,
            },
            Request::AddHosts(id, hosts) => match self.fs.network_interface.aknowledge_new_hosts(id, hosts) {
                Ok(()) => Response::Success,
                Err(_) => Response::Failed,
            },
            Request::RemoveHosts(id, hosts) => match self.recept_remove_hosts(id, hosts) {
                Ok(answer) => answer,
                Err(_) => Response::Failed,
            },
            Request::EditMetadata(id, meta) => match self.fs.network_interface.update_metadata(id, meta) {
                Ok(_) => Response::Success,
                Err(_) => Response::Failed,
            },
            Request::Remove(id) => match self.recept_remove_inode(id) {
                Ok(answer) => answer,
                Err(_) => Response::Failed,
            },
            Request::RequestFile(ino) => match self.send_file(ino) {
                Ok(answer) => answer,
                Err(_) => Response::Failed,
            },
            Request::RequestFs => match self.fs.network_interface.send_filesystem(peer) {
                Ok(answer) => answer,
                Err(_) => Response::Failed,
            },
            Request::Rename(parent, new_parent, name, new_name, overwrite) => match self.recept_rename(
                parent,
                new_parent,
                name,
                new_name,
                overwrite,
            ) {
                Ok(answer) => answer,
                Err(_) => Response::Failed,
            },
            Request::SetXAttr(ino, key, data) => match self.fs.network_interface.recept_inode_xattr(
                ino,
                key.as_str(),
                data,
            ) {
                Ok(answer) => answer,
                Err(_) => Response::Failed,
            },
            Request::RemoveXAttr(ino, key) => match self.fs.network_interface.recept_remove_inode_xattr(
                ino,
                key.as_str(),
            ) {
                Ok(answer) => answer,
                Err(_) => Response::Failed,
            },
            Request::FileDelta(ino, meta, sig, delta) => match self.accept_delta(ino, meta, sig, delta) {
                Ok(answer) => answer,
                Err(_) => Response::Failed,
            },
            Request::FileChanged(ino, meta) => match self.accept_file_changed(ino, meta) {
                Ok(answer) => answer,
                Err(_) => Response::Failed,
            },
            Request::Leave => match self.fs.network_interface.disconnect_peer(peer) {
                Ok(answer) => answer,
                Err(_) => Response::Failed,
            },
            Request::Bannish(banned) => match self.fs.network_interface.disconnect_peer(banned) {
                Ok(answer) => answer,
                Err(_) => Response::Failed,
            },
        }
    }

    /// Handles the answer of `peer` to one of this pod's requests: a request
    /// for a difference is answered with [Self::respond_delta]; the other
    /// answers need nothing.
    pub fn handle_response_message(&mut self, response: Response, peer: HostId) -> (r: Result<(), FlushError>)
        requires
            old(self).wf(),
        ensures
            final(self).fs == old(self).fs,
            !(response is DeltaRequest) ==> r is Ok && final(self).outbox@ == old(self).outbox@,
            response matches Response::DeltaRequest(ino, sig) ==> old(self).delta_sent(&*final(self), ino, sig, peer, r),
    {
        match response {
            Response::DeltaRequest(ino, sig) => self.respond_delta(ino, sig, peer),
            _ => Ok(()),
        }
    }

    // SECTION stop

    /// The contents of the file `ino` that this peer alone may hold, read from
    /// the disk to be offered to the other peers before the pod stops.
    ///
    /// `FileNotReadable` when this peer does not hold the file or the disk
    /// fails; nothing is read then.
    pub fn offer_contents(&mut self, ino: Ino) -> (r: Result<Vec<u8>, PodStopError>)
        requires
            old(self).wf(),
        ensures
            final(self).fs == old(self).fs,
            final(self).outbox@ == old(self).outbox@,
            ({
                let m = old(self).tree();
                let held = m.contains_key(ino) && (m[ino].entry matches EntryView::File(hosts) && hosts.contains(
                    old(self).fs.network_interface.id,
                ));
                &&& !held ==> (r matches Err(PodStopError::FileNotReadable { file, .. }) && file == ino)
                &&& r is Err ==> (r matches Err(PodStopError::FileNotReadable { file, .. }) && file == ino)
                    && final(self).calls@ == old(self).calls@
                &&& r matches Ok(data) ==> held && data@.len() <= m[ino].meta.size && final(self).calls@ == old(
                    self,
                ).calls@.push(DiskCall::Read(old(self).fs.network_interface.itree.path_of(ino).unwrap(), data@))
            }),
    {
        match self.local_file(ino) {
            Ok(Some(f)) => {
                let data = (*f.0).clone();
                assert(data@ =~= f@);
                Ok(data)
            },
            Ok(None) => Err(PodStopError::FileNotReadable { file: ino, reason: "not held by this peer".to_owned() }),
            Err(_) => Err(PodStopError::FileNotReadable { file: ino, reason: "the disk could not read it".to_owned() }),
        }
    }

    /// Saves the tree, serialised as `bytes`, in its file on the disk (see
    /// [tree_file_path]), made with the mode `0o600` when the disk does not
    /// have it; the file is written from its start.
    ///
    /// `ITreeSavingFailed` when the disk fails.
    pub fn save_tree(&mut self, bytes: &[u8]) -> (r: Result<(), PodStopError>)
        ensures
            final(self).fs == old(self).fs,
            final(self).outbox@ == old(self).outbox@,
            extends(final(self).calls@, old(self).calls@),
            r is Err ==> (r matches Err(PodStopError::ITreeSavingFailed { .. })),
            r is Ok ==> final(self).calls@ == old(self).calls@.push(
                DiskCall::WriteFile(tree_file_path(), bytes@, 0),
            ) || final(self).calls@ == old(self).calls@.push(DiskCall::NewFile(tree_file_path(), 0o600)).push(
                DiskCall::WriteFile(tree_file_path(), bytes@, 0),
            ),
    {
        proof {
            reveal_strlit(".itree");
        }
        let name = match InodeName::try_from_str(".itree") {
            Ok(n) => n,
            Err(_) => {
                return Err(PodStopError::ITreeSavingFailed { source: disk_error(IoKind::InvalidFilename) });
            },
        };
        let path = WhPath::from_name(&name);
        assert(path@ == tree_file_path());
        if !self.disk.file_exists(&path) {
            if let Err(kind) = self.disk_new_file(&path, 0o600) {
                return Err(PodStopError::ITreeSavingFailed { source: disk_error(kind) });
            }
        }
        match self.disk_write(&path, bytes, 0) {
            Ok(_) => Ok(()),
            Err(kind) => Err(PodStopError::ITreeSavingFailed { source: disk_error(kind) }),
        }
    }

    /// Releases the disk once the pod stops.
    ///
    /// `DiskManagerStopFailed` when the disk fails.
    pub fn stop_disk(&mut self) -> (r: Result<(), PodStopError>)
        ensures
            final(self).fs == old(self).fs,
            final(self).outbox@ == old(self).outbox@,
            final(self).calls@ == old(self).calls@.push(DiskCall::Stop),
            r is Err ==> (r matches Err(PodStopError::DiskManagerStopFailed { .. })),
    {
        proof {
            self.calls@ = self.calls@.push(DiskCall::Stop);
        }
        match self.disk.stop() {
            Ok(()) => Ok(()),
            Err(kind) => Err(PodStopError::DiskManagerStopFailed { e: disk_error(kind) }),
        }
    }
}

} // verus!
