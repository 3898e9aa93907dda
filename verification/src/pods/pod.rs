use vstd::prelude::*;

use crate::assoc::{assoc, assoc_keys, lemma_assoc_contains, lemma_assoc_push, lemma_assoc_update};
use crate::error::WhError;
use crate::network::message::Request;
use crate::pods::filesystem::fs_interface::FsInterface;
use crate::pods::itree::fsentry::{path_iter, EntryView, FsEntry, HostId};
use crate::pods::itree::inode::{Ino, ROOT};
use crate::pods::itree::{held_only_in, resolve, TreeView, GLOBAL_CONFIG_INO, ITREE_FILE_INO, LOCAL_CONFIG_INO};
use crate::pods::whpath::{str_eq, WhPath};

verus! {

/// Why information on a pod could not be given.
#[derive(Debug, Clone, PartialEq, Eq)]
pub enum PodInfoError {
    WhError { source: WhError },
    WrongFileType { detail: String },
    FileNotFound,
}

/// Why a pod could not stop cleanly.
#[derive(Debug)]
pub enum PodStopError {
    WhError { source: WhError },
    ITreeSavingFailed { source: std::io::Error },
    FileNotReadable { file: Ino, reason: String },
    FileNotSent { file: Ino },
    DiskManagerStopFailed { e: std::io::Error },
}

/// What to do next while a file that this peer alone holds is offered to the
/// other peers before the pod stops.
#[derive(Debug)]
pub enum OfferStep {
    /// Send this request, a copy of the file, to this peer and wait for its
    /// answer.
    Send(HostId, Request),
    /// A peer took the file: tell every peer that this one no longer holds it.
    Done(Request),
    /// No peer took the file.
    Failed(PodStopError),
}

/// A file that this peer alone holds, with its contents, offered to the peers
/// `hosts` one after the other, in order, until one of them takes it.
#[derive(Debug)]
pub struct HostOffer {
    pub ino: Ino,
    pub me: HostId,
    pub contents: Vec<u8>,
    pub hosts: Vec<HostId>,
    /// The position in `hosts` of the next peer to offer the file to.
    pub next: usize,
}

impl HostOffer {
    /// The file `ino`, held by `me` with the bytes `contents`, to be offered
    /// to `hosts`, none asked yet.
    pub fn new(ino: Ino, me: HostId, contents: Vec<u8>, hosts: Vec<HostId>) -> (r: HostOffer)
        ensures
            r.ino == ino,
            r.me == me,
            r.contents@ == contents@,
            r.hosts@ == hosts@,
            r.next == 0,
    {
        HostOffer { ino, me, contents, hosts, next: 0 }
    }

    /// The next peer to offer the file to, in order; when none is left, the
    /// file could not be sent (`FileNotSent`).
    pub fn next_step(&mut self) -> (r: OfferStep)
        ensures
            final(self).ino == old(self).ino,
            final(self).me == old(self).me,
            final(self).contents@ == old(self).contents@,
            final(self).hosts@ == old(self).hosts@,
            old(self).next < old(self).hosts@.len() ==> (r matches OfferStep::Send(h, Request::RedundancyFile(i, d))
                && h == old(self).hosts@[old(self).next as int] && i == old(self).ino && d@ == old(self).contents@)
                && final(self).next == old(self).next + 1,
            old(self).next >= old(self).hosts@.len() ==> (r matches OfferStep::Failed(
                PodStopError::FileNotSent { file },
            ) && file == old(self).ino) && final(self).next == old(self).next,
    {
        if self.next < self.hosts.len() {
            let host = self.hosts[self.next];
            self.next = self.next + 1;
            let copy = self.contents.clone();
            assert(copy@ =~= self.contents@);
            OfferStep::Send(host, Request::RedundancyFile(self.ino, copy))
        } else {
            OfferStep::Failed(PodStopError::FileNotSent { file: self.ino })
        }
    }

    /// The answer of the peer last offered the file came: when it took the
    /// file, every peer is to be told that this one no longer holds it
    /// (`RemoveHosts` of the file and this peer); else the next peer is tried.
    pub fn on_answer(&mut self, success: bool) -> (r: OfferStep)
        ensures
            final(self).ino == old(self).ino,
            final(self).me == old(self).me,
            final(self).contents@ == old(self).contents@,
            final(self).hosts@ == old(self).hosts@,
            success ==> (r matches OfferStep::Done(Request::RemoveHosts(i, h)) && i == old(self).ino && h@ == seq![
                old(self).me,
            ]) && final(self).next == old(self).next,
            !success && old(self).next < old(self).hosts@.len() ==> (r matches OfferStep::Send(
                h,
                Request::RedundancyFile(i, d),
            ) && h == old(self).hosts@[old(self).next as int] && i == old(self).ino && d@ == old(self).contents@)
                && final(self).next == old(self).next + 1,
            !success && old(self).next >= old(self).hosts@.len() ==> (r matches OfferStep::Failed(
                PodStopError::FileNotSent { file },
            ) && file == old(self).ino) && final(self).next == old(self).next,
    {
        if success {
            let me = vec![self.me];
            assert(me@ =~= seq![self.me]);
            OfferStep::Done(Request::RemoveHosts(self.ino, me))
        } else {
            self.next_step()
        }
    }
}

/// The configuration shared by the peers of a network, as far as a pod reads
/// it: the peers to dial when it starts, and how many copies of each file the
/// network keeps.
#[derive(Debug, Clone)]
pub struct GlobalConfig {
    pub entrypoints: Vec<String>,
    pub redundancy: u64,
}

/// A step of stopping a pod.
#[derive(Debug, Clone, Copy, PartialEq, Eq, Structural)]
pub enum StopStep {
    /// Offer this file, which this peer alone holds, to the other peers (see
    /// [HostOffer]); a file that no peer takes does not stop the pod.
    OfferFile(Ino),
    /// Leave the network and wait for the last answers.
    CloseNetwork,
    /// Save the tree on the disk; a failure ends the stop with its error.
    SaveTree,
    /// Release the disk.
    StopDisk,
    /// The pod is stopped.
    Done,
}

/// How far stopping a pod has gone.
#[derive(Debug, Clone, Copy, PartialEq, Eq, Structural)]
pub enum StopStage {
    Offering,
    Saving,
    Releasing,
    Stopped,
}

/// The steps of stopping a pod, in order: every file it alone holds is
/// offered to the other peers, then the network is left, the tree saved, and
/// the disk released.
#[derive(Debug)]
pub struct StopSequence {
    pub files: Vec<Ino>,
    pub offered: usize,
    pub stage: StopStage,
}

impl StopSequence {
    /// Stopping a pod whose files to offer are `files`; nothing done yet.
    pub fn new(files: Vec<Ino>) -> (r: StopSequence)
        ensures
            r.files@ == files@,
            r.offered == 0,
            r.stage == StopStage::Offering,
    {
        StopSequence { files, offered: 0, stage: StopStage::Offering }
    }

    /// The next step.
    pub fn next_step(&mut self) -> (r: StopStep)
        ensures
            final(self).files@ == old(self).files@,
            old(self).stage == StopStage::Offering && old(self).offered < old(self).files@.len() ==> r
                == StopStep::OfferFile(old(self).files@[old(self).offered as int]) && final(self).offered == old(
                self,
            ).offered + 1 && final(self).stage == StopStage::Offering,
            old(self).stage == StopStage::Offering && old(self).offered >= old(self).files@.len() ==> r
                == StopStep::CloseNetwork && final(self).offered == old(self).offered && final(self).stage
                == StopStage::Saving,
            old(self).stage == StopStage::Saving ==> r == StopStep::SaveTree && final(self).offered == old(
                self,
            ).offered && final(self).stage == StopStage::Releasing,
            old(self).stage == StopStage::Releasing ==> r == StopStep::StopDisk && final(self).offered == old(
                self,
            ).offered && final(self).stage == StopStage::Stopped,
            old(self).stage == StopStage::Stopped ==> r == StopStep::Done && final(self).offered == old(
                self,
            ).offered && final(self).stage == StopStage::Stopped,
    {
        match self.stage {
            StopStage::Offering => if self.offered < self.files.len() {
                let ino = self.files[self.offered];
                self.offered = self.offered + 1;
                StopStep::OfferFile(ino)
            } else {
                self.stage = StopStage::Saving;
                StopStep::CloseNetwork
            },
            StopStage::Saving => {
                self.stage = StopStage::Releasing;
                StopStep::SaveTree
            },
            StopStage::Releasing => {
                self.stage = StopStage::Stopped;
                StopStep::StopDisk
            },
            StopStage::Stopped => StopStep::Done,
        }
    }
}

/// The entrypoints of the network dialled in order when a pod starts, until
/// one of them answers.
#[derive(Debug)]
pub struct EntrypointDial {
    pub entrypoints: Vec<String>,
    /// The position of the next entrypoint to dial.
    pub next: usize,
}

impl EntrypointDial {
    /// None of `entrypoints` dialled yet.
    pub fn new(entrypoints: Vec<String>) -> (r: EntrypointDial)
        ensures
            r.entrypoints@ == entrypoints@,
            r.next == 0,
    {
        EntrypointDial { entrypoints, next: 0 }
    }

    /// The address of the next entrypoint to dial, in order: `ws://` followed
    /// by the entrypoint; `None` once every one was tried, and the pod then
    /// starts without having dialled any peer.
    pub fn next_address(&mut self) -> (r: Option<String>)
        ensures
            final(self).entrypoints@ == old(self).entrypoints@,
            old(self).next < old(self).entrypoints@.len() ==> (r matches Some(a) && a@ == "ws://"@ + old(
                self,
            ).entrypoints@[old(self).next as int]@) && final(self).next == old(self).next + 1,
            old(self).next >= old(self).entrypoints@.len() ==> r is None && final(self).next == old(self).next,
    {
        if self.next < self.entrypoints.len() {
            let mut address = "ws://".to_owned();
            address.append(self.entrypoints[self.next].as_str());
            self.next = self.next + 1;
            Some(address)
        } else {
            None
        }
    }
}

/// A pod: a drive shared with other peers, mounted at a path of this system.
pub struct Pod {
    pub fs_interface: FsInterface,
    pub global_config: GlobalConfig,
    pub mountpoint: String,
    pub name: String,
    pub nickname: String,
    pub should_restart: bool,
    pub allow_other_users: bool,
}

/// The name of a file after its last `.`, or `unknown` when it has none.
pub open spec fn extension(name: Seq<char>) -> Seq<char> {
    match last_dot(name) {
        Some(i) => name.skip(i + 1),
        None => "unknown"@,
    }
}

/// The position of the last `.` of a name.
pub open spec fn last_dot(name: Seq<char>) -> Option<int>
    decreases name.len(),
{
    if name.len() == 0 {
        None
    } else if name.last() == '.' {
        Some(name.len() - 1)
    } else {
        last_dot(name.drop_last())
    }
}

/// The last `.` of a name, found: it is at `i` when `name[i]` is a `.` and
/// none follows; a name without `.` has none.
proof fn lemma_last_dot(name: Seq<char>, i: int)
    ensures
        0 <= i < name.len() && name[i] == '.' && (forall|j: int| i < j < name.len() ==> name[j] != '.')
            ==> last_dot(name) == Some(i),
        !name.contains('.') ==> last_dot(name) is None,
    decreases name.len(),
{
    if name.len() > 0 {
        let d = name.drop_last();
        lemma_last_dot(d, i);
        if !name.contains('.') {
            assert(name[name.len() - 1] != '.');
            assert(!d.contains('.')) by {
                if d.contains('.') {
                    let k = choose|k: int| 0 <= k < d.len() && d[k] == '.';
                    assert(name[k] == '.');
                }
            }
        }
        if 0 <= i < name.len() - 1 && name[i] == '.' && (forall|j: int| i < j < name.len() ==> name[j] != '.') {
            assert(name.last() == name[name.len() - 1]);
            assert(d[i] == name[i]);
            assert forall|j: int| i < j < d.len() implies d[j] != '.' by {
                assert(d[j] == name[j]);
            }
        }
    }
}

/// The extension of a name that holds a `.` is the text after its last `.`,
/// whatever its position, the first one included; a name without `.` has
/// the extension `unknown`.
pub proof fn lemma_extension(name: Seq<char>, i: int)
    ensures
        0 <= i < name.len() && name[i] == '.' && (forall|j: int| i < j < name.len() ==> name[j] != '.')
            ==> extension(name) == name.skip(i + 1),
        !name.contains('.') ==> extension(name) == "unknown"@,
{
    lemma_last_dot(name, i);
}

/// The inode `k` is a file of extension `e`.
pub open spec fn counted(m: TreeView, e: Seq<char>, k: Ino) -> bool {
    m[k].entry is File && extension(m[k].name) == e
}

/// The number of files of the tree whose extension is `e`.
pub open spec fn files_of_extension(m: TreeView, e: Seq<char>) -> nat {
    m.dom().filter(|k: Ino| counted(m, e, k)).len()
}

/// The inos of `s` that are files of extension `e`.
pub open spec fn counted_in(m: TreeView, e: Seq<char>, s: Seq<Ino>) -> Seq<Ino> {
    s.filter(|k: Ino| counted(m, e, k))
}

/// The extensions and counts of a list of statistics.
pub open spec fn stats_view(v: Seq<(String, u64)>) -> Seq<(Seq<char>, u64)> {
    v.map_values(|p: (String, u64)| (p.0@, p.1))
}

/// The files of the tree that `host` alone holds and that are to be sent
/// elsewhere when it leaves: all but the configuration and tree files.
pub open spec fn to_send_when_stopping(m: TreeView, host: HostId, iv: crate::pods::itree::inode::InodeView) -> bool {
    held_only_in(m, iv, host) && iv.id != GLOBAL_CONFIG_INO && iv.id != LOCAL_CONFIG_INO && iv.id != ITREE_FILE_INO
}

/// `ino` is the number of an inode of the tree that is to be sent elsewhere
/// when `host` stops.
pub open spec fn sendable(m: TreeView, host: HostId, ino: Ino) -> bool {
    exists|k: Ino| #![trigger m[k]] m.contains_key(k) && m[k].id == ino && to_send_when_stopping(m, host, m[k])
}

/// The position of the statistics of extension `ext`, if there are some.
fn stats_position(acc: &Vec<(String, u64)>, ext: &str) -> (r: Option<usize>)
    ensures
        match r {
            Some(j) => j < acc@.len() && stats_view(acc@)[j as int].0 == ext@,
            None => forall|x: int| 0 <= x < acc@.len() ==> stats_view(acc@)[x].0 != ext@,
        },
{
    let mut j: usize = 0;
    while j < acc.len()
        invariant
            j <= acc.len(),
            forall|x: int| 0 <= x < j ==> stats_view(acc@)[x].0 != ext@,
        decreases acc.len() - j,
    {
        if str_eq(acc[j].0.as_str(), ext) {
            return Some(j);
        }
        j = j + 1;
    }
    None
}

proof fn lemma_filter_within<A>(s: Seq<A>, p: spec_fn(A) -> bool)
    ensures
        forall|i: int| 0 <= i < s.filter(p).len() ==> s.contains(#[trigger] s.filter(p)[i]),
    decreases s.len(),
{
    reveal(Seq::filter);
    if s.len() > 0 {
        lemma_filter_within(s.drop_last(), p);
        let t = s.drop_last().filter(p);
        assert forall|i: int| 0 <= i < s.filter(p).len() implies s.contains(#[trigger] s.filter(p)[i]) by {
            if i < t.len() {
                assert(s.filter(p)[i] == t[i]);
                assert(s.drop_last().contains(t[i]));
                let j = choose|j: int| 0 <= j < s.drop_last().len() && s.drop_last()[j] == t[i];
                assert(s[j] == t[i]);
            } else {
                assert(s[s.len() - 1] == s.filter(p)[i]);
            }
        }
    }
}

/// Keeping some elements of a list without repetition leaves none repeated.
pub proof fn lemma_filter_no_duplicates<A>(s: Seq<A>, p: spec_fn(A) -> bool)
    requires
        s.no_duplicates(),
    ensures
        s.filter(p).no_duplicates(),
    decreases s.len(),
{
    reveal(Seq::filter);
    if s.len() > 0 {
        let d = s.drop_last();
        assert(d.no_duplicates()) by {
            assert forall|a: int, b: int| 0 <= a < b < d.len() implies d[a] != d[b] by {
                assert(d[a] == s[a] && d[b] == s[b]);
            }
        }
        lemma_filter_no_duplicates(d, p);
        lemma_filter_within(d, p);
        let t = d.filter(p);
        if p(s.last()) {
            assert(!t.contains(s.last())) by {
                if t.contains(s.last()) {
                    let i = choose|i: int| 0 <= i < t.len() && t[i] == s.last();
                    assert(d.contains(t[i]));
                    let j = choose|j: int| 0 <= j < d.len() && d[j] == t[i];
                    assert(s[j] == s[s.len() - 1]);
                }
            }
            assert forall|a: int, b: int| 0 <= a < b < s.filter(p).len() implies s.filter(p)[a] != s.filter(p)[b] by {
                if b == s.filter(p).len() - 1 {
                    assert(s.filter(p)[a] == t[a]);
                } else {
                    assert(s.filter(p)[a] == t[a] && s.filter(p)[b] == t[b]);
                }
            }
        }
    }
}

/// Counting the elements of a list without repetition that meet `p` is
/// counting those of its set.
proof fn lemma_filter_count<A>(s: Seq<A>, p: spec_fn(A) -> bool)
    requires
        s.no_duplicates(),
    ensures
        s.filter(p).len() == s.to_set().filter(p).len(),
{
    let f = s.filter(p);
    lemma_filter_no_duplicates(s, p);
    lemma_filter_within(s, p);
    broadcast use vstd::seq_lib::group_filter_ensures;
    assert(f.to_set() =~= s.to_set().filter(p)) by {
        assert forall|x: A| f.to_set().contains(x) implies s.to_set().filter(p).contains(x) by {
            let i = choose|i: int| 0 <= i < f.len() && f[i] == x;
            assert(p(f[i]));
            assert(s.contains(f[i]));
        }
        assert forall|x: A| s.to_set().filter(p).contains(x) implies f.to_set().contains(x) by {
            let i = choose|i: int| 0 <= i < s.len() && s[i] == x;
            assert(f.contains(s[i]));
        }
    }
    f.unique_seq_to_set();
}

/// The extension of a name: see [extension]; the text after its last `.`,
/// or `unknown` when it holds none.
fn extension_of(name: &str) -> (r: String)
    ensures
        r@ == extension(name@),
        forall|i: int|
            0 <= i < name@.len() && #[trigger] name@[i] == '.' && (forall|j: int| i < j < name@.len() ==> name@[j]
                != '.') ==> r@ == name@.skip(i + 1),
        !name@.contains('.') ==> r@ == "unknown"@,
{
    let r = scan_extension(name);
    proof {
        assert forall|i: int|
            0 <= i < name@.len() && #[trigger] name@[i] == '.' && (forall|j: int| i < j < name@.len() ==> name@[j]
                != '.') implies extension(name@) == name@.skip(i + 1) by {
            lemma_extension(name@, i);
        }
        lemma_extension(name@, 0);
    }
    r
}

/// The extension of a name, found by scanning it from its end.
fn scan_extension(name: &str) -> (r: String)
    ensures
        r@ == extension(name@),
{
    let n = name.unicode_len();
    let mut i: usize = n;
    assert(name@.take(n as int) =~= name@);
    while i > 0
        invariant
            i <= n,
            n == name@.len(),
            last_dot(name@) == last_dot(name@.take(i as int)),
        decreases i,
    {
        assert(name@.take(i as int).drop_last() =~= name@.take(i - 1));
        assert(name@.take(i as int).last() == name@[i - 1]);
        if name.get_char(i - 1) == '.' {
            assert(last_dot(name@) == Some(i - 1));
            let r = name.substring_char(i, n).to_owned();
            assert(r@ =~= name@.skip(i as int));
            return r;
        }
        i = i - 1;
    }
    proof {
        reveal_strlit("unknown");
        assert(name@.take(0) =~= Seq::<char>::empty());
    }
    "unknown".to_owned()
}

impl Pod {
    /// A pod named `name`, mounted at `mountpoint`, run by the host known as
    /// `host_nickname`, in a network configured by `global_config`: the pod's
    /// nickname is the host's, a colon and its name.
    pub fn new(
        fs_interface: FsInterface,
        global_config: GlobalConfig,
        mountpoint: String,
        name: String,
        host_nickname: String,
        should_restart: bool,
        allow_other_users: bool,
    ) -> (r: Pod)
        ensures
            r.fs_interface == fs_interface,
            r.global_config == global_config,
            r.mountpoint == mountpoint,
            r.name == name,
            r.nickname@ == host_nickname@ + seq![':'] + name@,
            r.should_restart == should_restart,
            r.allow_other_users == allow_other_users,
    {
        let mut nickname = host_nickname;
        nickname.append(":");
        nickname.append(name.as_str());
        proof {
            reveal_strlit(":");
        }
        Pod { fs_interface, global_config, mountpoint, name, nickname, should_restart, allow_other_users }
    }

    /// The path of this system at which the pod is mounted.
    pub fn get_mountpoint(&self) -> (r: &String)
        ensures
            r@ == self.mountpoint@,
    {
        &self.mountpoint
    }

    /// Whether `path` lies in the drive: its components start with those of
    /// the mountpoint.
    pub fn contains(&self, path: &str) -> (r: bool)
        ensures
            r == path_iter(self.mountpoint@).is_prefix_of(path_iter(path@)),
    {
        let mount = crate::pods::itree::fsentry::path_components(self.mountpoint.as_str());
        let comps = crate::pods::itree::fsentry::path_components(path);
        let ghost mv = crate::text::views(mount@);
        let ghost pv = crate::text::views(comps@);
        if mount.len() > comps.len() {
            return false;
        }
        let mut i: usize = 0;
        while i < mount.len()
            invariant
                i <= mount.len(),
                mount.len() <= comps.len(),
                mv == crate::text::views(mount@),
                pv == crate::text::views(comps@),
                mv == path_iter(self.mountpoint@),
                pv == path_iter(path@),
                forall|j: int| 0 <= j < i ==> mv[j] == pv[j],
            decreases mount.len() - i,
        {
            if !str_eq(mount[i].as_str(), comps[i].as_str()) {
                assert(pv.subrange(0, mv.len() as int)[i as int] != mv[i as int]);
                return false;
            }
            i = i + 1;
        }
        assert(mv =~= pv.subrange(0, mv.len() as int));
        true
    }

    /// The hosts of the file at `path`.
    ///
    /// `FileNotFound` when no inode lies at `path`, `WrongFileType` when it is
    /// not a file.
    pub fn get_file_hosts(&self, path: &WhPath) -> (r: Result<Vec<HostId>, PodInfoError>)
        requires
            self.fs_interface.tree().contains_key(ROOT),
        ensures
            ({
                let m = self.fs_interface.tree();
                match resolve(m, ROOT, path@) {
                    Ok(ino) => match m[ino].entry {
                        EntryView::File(hosts) => r matches Ok(h) && h@ == hosts,
                        _ => r matches Err(PodInfoError::WrongFileType { detail }) && detail@
                            == "Requested path not a file (only files have hosts)"@,
                    },
                    Err(_) => r matches Err(PodInfoError::FileNotFound),
                }
            }),
    {
        let itree = &self.fs_interface.network_interface.itree;
        let inode = match itree.get_inode_from_path(path) {
            Ok(inode) => inode,
            Err(_) => {
                return Err(PodInfoError::FileNotFound);
            },
        };
        match &inode.entry {
            FsEntry::File(hosts) => Ok(hosts.clone()),
            _ => Err(
                PodInfoError::WrongFileType {
                    detail: "Requested path not a file (only files have hosts)".to_owned(),
                },
            ),
        }
    }

    /// The files that this peer alone holds, to be sent to other peers before
    /// it stops; see [to_send_when_stopping].
    pub fn files_to_send_when_stopping(&self) -> (r: Vec<Ino>)
        ensures
            forall|i: int|
                0 <= i < r@.len() ==> sendable(
                    self.fs_interface.tree(),
                    self.fs_interface.network_interface.id,
                    #[trigger] r@[i],
                ),
            forall|k: Ino|
                #[trigger] self.fs_interface.tree().contains_key(k) && to_send_when_stopping(
                    self.fs_interface.tree(),
                    self.fs_interface.network_interface.id,
                    self.fs_interface.tree()[k],
                ) ==> r@.contains(self.fs_interface.tree()[k].id),
    {
        let itree = &self.fs_interface.network_interface.itree;
        let id = self.fs_interface.network_interface.id;
        let hosted = itree.files_hosted_only_by(id);
        let mut r: Vec<Ino> = Vec::new();
        let mut i: usize = 0;
        while i < hosted.len()
            invariant
                i <= hosted.len(),
                id == self.fs_interface.network_interface.id,
                forall|j: int| 0 <= j < hosted@.len() ==> held_only_in(itree@, #[trigger] hosted@[j]@, id),
                itree@ == self.fs_interface.tree(),
                forall|j: int| 0 <= j < r@.len() ==> sendable(itree@, id, #[trigger] r@[j]),
                forall|j: int|
                    0 <= j < i && #[trigger] hosted@[j].id != GLOBAL_CONFIG_INO && hosted@[j].id != LOCAL_CONFIG_INO
                        && hosted@[j].id != ITREE_FILE_INO ==> r@.contains(hosted@[j].id),
            decreases hosted.len() - i,
        {
            let ino = hosted[i].id;
            if ino != GLOBAL_CONFIG_INO && ino != LOCAL_CONFIG_INO && ino != ITREE_FILE_INO {
                let ghost before = r@;
                r.push(ino);
                proof {
                    assert(held_only_in(itree@, hosted@[i as int]@, id));
                    let k = choose|k: Ino|
                        #![trigger itree@[k]]
                        itree@.contains_key(k) && itree@[k] == hosted@[i as int]@ && hosted@[i as int]@.entry
                            == EntryView::File(seq![id]);
                    assert(to_send_when_stopping(itree@, id, itree@[k]));
                    assert(sendable(itree@, id, ino));
                    assert forall|j: int| 0 <= j < r@.len() implies sendable(itree@, id, #[trigger] r@[j]) by {
                        if j < before.len() {
                            assert(r@[j] == before[j]);
                        }
                    }
                    assert(r@[r@.len() - 1] == ino);
                    assert forall|x: Ino| before.contains(x) implies r@.contains(x) by {
                        let w = choose|w: int| 0 <= w < before.len() && before[w] == x;
                        assert(r@[w] == x);
                    }
                }
            }
            i = i + 1;
        }
        proof {
            assert forall|k: Ino|
                #[trigger] itree@.contains_key(k) && to_send_when_stopping(itree@, id, itree@[k]) implies r@.contains(
                itree@[k].id,
            ) by {
                let w = choose|w: Ino| #![trigger itree@[w]] itree@.contains_key(w) && itree@[w] == itree@[k]
                    && itree@[k].entry == EntryView::File(seq![id]);
                assert(itree@.contains_key(k) && itree@[k].entry == EntryView::File(seq![id]));
                let j = choose|j: int| 0 <= j < hosted@.len() && hosted@[j]@ == itree@[k];
                assert(hosted@[j].id == itree@[k].id);
            }
        }
        r
    }

    /// The steps of stopping this pod: see [StopSequence]; the files to
    /// offer are [Self::files_to_send_when_stopping].
    pub fn stop_sequence(&self) -> (r: StopSequence)
        ensures
            r.offered == 0,
            r.stage == StopStage::Offering,
            forall|i: int|
                0 <= i < r.files@.len() ==> sendable(
                    self.fs_interface.tree(),
                    self.fs_interface.network_interface.id,
                    #[trigger] r.files@[i],
                ),
            forall|k: Ino|
                #[trigger] self.fs_interface.tree().contains_key(k) && to_send_when_stopping(
                    self.fs_interface.tree(),
                    self.fs_interface.network_interface.id,
                    self.fs_interface.tree()[k],
                ) ==> r.files@.contains(self.fs_interface.tree()[k].id),
    {
        StopSequence::new(self.files_to_send_when_stopping())
    }

    /// How many files of the drive have each extension; see [extension].
    pub fn get_stats_per_filetype(&self) -> (r: Vec<(String, u64)>)
        ensures
            assoc_keys(stats_view(r@)).no_duplicates(),
            forall|e: Seq<char>|
                #[trigger] assoc(stats_view(r@)).contains_key(e) <==> files_of_extension(self.fs_interface.tree(), e) > 0,
            forall|e: Seq<char>|
                #[trigger] assoc(stats_view(r@)).contains_key(e) ==> assoc(stats_view(r@))[e]
                    == files_of_extension(self.fs_interface.tree(), e),
    {
        let itree = &self.fs_interface.network_interface.itree;
        let ghost m = itree@;
        let inos = itree.inos();
        let mut acc: Vec<(String, u64)> = Vec::new();
        let mut i: usize = 0;
        proof {
            assert(stats_view(acc@) =~= Seq::<(Seq<char>, u64)>::empty());
            assert(assoc_keys(stats_view(acc@)) =~= Seq::<Seq<char>>::empty());
            assert(assoc(stats_view(acc@)) == Map::<Seq<char>, u64>::empty());
        }
        while i < inos.len()
            invariant
                i <= inos.len(),
                m == itree@,
                inos@.to_set() == m.dom(),
                inos@.no_duplicates(),
                assoc_keys(stats_view(acc@)).no_duplicates(),
                forall|e: Seq<char>|
                    #[trigger] assoc(stats_view(acc@)).contains_key(e) <==> counted_in(m, e, inos@.take(i as int)).len()
                        > 0,
                forall|e: Seq<char>|
                    #[trigger] assoc(stats_view(acc@)).contains_key(e) ==> assoc(stats_view(acc@))[e] == counted_in(
                        m,
                        e,
                        inos@.take(i as int),
                    ).len(),
            decreases inos.len() - i,
        {
            let ino = inos[i];
            assert(inos@.to_set().contains(ino));
            let inode = itree.get_inode(ino).unwrap();
            proof {
                assert(inos@.take(i + 1) =~= inos@.take(i as int).push(ino));
                assert forall|e: Seq<char>|
                    counted_in(m, e, inos@.take(i + 1)) == if counted(m, e, ino) {
                        counted_in(m, e, inos@.take(i as int)).push(ino)
                    } else {
                        counted_in(m, e, inos@.take(i as int))
                    } by {
                    reveal(Seq::filter);
                    assert(inos@.take(i + 1).drop_last() =~= inos@.take(i as int));
                }
                assert forall|e: Seq<char>| #[trigger] counted_in(m, e, inos@.take(i as int)).len() <= i by {
                    broadcast use vstd::seq_lib::group_filter_ensures;
                }
            }
            match &inode.entry {
                FsEntry::File(_) => {
                    let ext = extension_of(inode.name.as_str());
                    let ghost ev = ext@;
                    let ghost sv = stats_view(acc@);
                    proof {
                        lemma_assoc_contains(sv, ev);
                    }
                    let found = stats_position(&acc, ext.as_str());
                    match found {
                        Some(j) => {
                            assert(sv[j as int].0 == ev);
                            assert(assoc_keys(sv)[j as int] == ev);
                            let count = acc[j].1;
                            assert(count == sv[j as int].1);
                            assert(count == assoc(sv)[ev]);
                            assert(count < inos.len());
                            let key = acc[j].0.clone();
                            acc.set(j, (key, count + 1));
                            proof {
                                lemma_assoc_update(sv, j as int, (count + 1) as u64);
                                assert(stats_view(acc@) =~= sv.update(j as int, (sv[j as int].0, (count + 1) as u64)));
                            }
                        },
                        None => {
                            proof {
                                assert(!assoc_keys(sv).contains(ev)) by {
                                    if assoc_keys(sv).contains(ev) {
                                        let x = choose|x: int| 0 <= x < assoc_keys(sv).len() && assoc_keys(sv)[x] == ev;
                                        assert(sv[x].0 == ev);
                                    }
                                }
                            }
                            acc.push((ext, 1));
                            proof {
                                lemma_assoc_push(sv, ev, 1u64);
                                assert(stats_view(acc@) =~= sv.push((ev, 1u64)));
                            }
                        },
                    }
                    proof {
                        assert(m[ino] == inode@);
                        assert(counted(m, ev, ino));
                        let a = assoc(sv);
                        let b = assoc(stats_view(acc@));
                        assert(b == a.insert(ev, if a.contains_key(ev) { (a[ev] + 1) as u64 } else { 1u64 }));
                        assert forall|e: Seq<char>|
                            #[trigger] b.contains_key(e) <==> counted_in(m, e, inos@.take(i + 1)).len() > 0 by {
                            if e != ev {
                                assert(!counted(m, e, ino));
                                assert(a.contains_key(e) <==> counted_in(m, e, inos@.take(i as int)).len() > 0);
                            }
                        }
                        assert forall|e: Seq<char>|
                            #[trigger] b.contains_key(e) implies b[e] == counted_in(m, e, inos@.take(i + 1)).len() by {
                            if e != ev {
                                assert(!counted(m, e, ino));
                                assert(a.contains_key(e) ==> a[e] == counted_in(m, e, inos@.take(i as int)).len());
                            } else {
                                assert(a.contains_key(ev) <==> counted_in(m, ev, inos@.take(i as int)).len() > 0);
                                assert(a.contains_key(ev) ==> a[ev] == counted_in(m, ev, inos@.take(i as int)).len());
                            }
                        }
                    }
                },
                _ => {
                    proof {
                        assert(m[ino] == inode@);
                        let b = assoc(stats_view(acc@));
                        assert forall|e: Seq<char>|
                            #[trigger] b.contains_key(e) <==> counted_in(m, e, inos@.take(i + 1)).len() > 0 by {
                            assert(!counted(m, e, ino));
                        }
                        assert forall|e: Seq<char>|
                            #[trigger] b.contains_key(e) implies b[e] == counted_in(m, e, inos@.take(i + 1)).len() by {
                            assert(!counted(m, e, ino));
                        }
                    }
                },
            }
            i = i + 1;
        }
        proof {
            assert(inos@.take(inos.len() as int) =~= inos@);
            assert forall|e: Seq<char>| counted_in(m, e, inos@).len() == files_of_extension(m, e) by {
                lemma_filter_count(inos@, |k: Ino| counted(m, e, k));
                assert(inos@.to_set().filter(|k: Ino| counted(m, e, k)) =~= m.dom().filter(|k: Ino| counted(m, e, k)));
            }
        }
        acc
    }
}

} // verus!
