use vstd::prelude::*;

use crate::error::WhError;
use crate::network::message::{Request, Response};
use crate::pods::filesystem::diffs::{Delta, DiffError, Dlt, Sig, Signature, lemma_diff_rebuilds};
use crate::pods::filesystem::fs_interface::FsInterface;
use crate::pods::filesystem::read::ReadError;
use crate::pods::filesystem::write::WriteError;
use crate::pods::filesystem::File;
use crate::pods::itree::fsentry::{EntryView, FsEntry, HostId};
use crate::pods::itree::inode::Ino;

verus! {

/// Why a change of a file could not be sent or applied.
#[derive(Debug, Clone)]
pub enum FlushError {
    WhError { source: WhError },
    ReadError { source: ReadError },
    WriteError { source: WriteError },
    DiffError { source: DiffError },
}

/// What the handle of an open file keeps for sending its changes: the summary
/// of the contents last sent, and whether it was written since.
#[derive(Debug)]
pub struct FlushState {
    pub signature: Option<Signature>,
    pub dirty: bool,
}

/// The messages that send a change of a file.
#[derive(Debug)]
pub enum FlushPlan {
    /// Nothing changed since the last flush.
    Nothing,
    /// One request, for every peer.
    Broadcast(Request),
    /// One request for each peer, in the order of the peers.
    ToPeers(Vec<(HostId, Request)>),
}

/// What to do of a difference received from a peer.
#[derive(Debug)]
pub enum DeltaOutcome {
    /// The file is not held here: nothing to do.
    NotTracked,
    /// The difference applies to the local copy: this is the new file, to be written.
    Patched(File),
    /// The local copy is not the one the difference was made against: the
    /// difference is to be asked again against this summary of the local copy.
    Mismatch(Signature),
}

impl FlushState {
    /// The handle has a summary and was written since: flushing it needs the
    /// contents of the file.
    pub fn needs_contents(&self) -> (r: bool)
        ensures
            r == (self.signature is Some && self.dirty),
    {
        self.signature.is_some() && self.dirty
    }
}

/// The request that sends to `peer` the change of the file `ino`, whose hosts
/// are `hosts`: the difference against the former summary to a host, a
/// notice to the others.
pub open spec fn flush_request_ok(
    req: Request,
    peer: HostId,
    hosts: Seq<HostId>,
    ino: Ino,
    meta: crate::pods::itree::inode::Metadata,
    old_sig: Signature,
    contents: Seq<u8>,
) -> bool {
    match req {
        Request::FileDelta(i, m, s, d) => hosts.contains(peer) && i == ino && m == meta && s.same_bytes(old_sig)
            && d.made_of(old_sig, contents),
        Request::FileChanged(i, m) => !hosts.contains(peer) && i == ino && m == meta,
        _ => false,
    }
}

impl FsInterface {
    /// Decides how to send the changes of the file `ino` to the peers `peers`.
    ///
    /// Without a summary in the handle (or without a handle: a state without
    /// summary stands for it), every peer is told that the file changed. With
    /// one, nothing is sent unless the handle was written since the last
    /// flush; then each host of the file gets the difference of the new
    /// contents `contents` against the handle's summary, each other peer a
    /// notice, and the handle takes the summary of the new contents and is
    /// clean again.
    pub fn flush(&self, ino: Ino, handle: &mut FlushState, contents: Option<&File>, peers: &Vec<HostId>) -> (r:
        Result<FlushPlan, FlushError>)
        requires
            old(handle).signature is Some && old(handle).dirty ==> contents is Some,
        ensures
            !self.tree().contains_key(ino) ==> (r matches Err(FlushError::WhError { source: WhError::InodeNotFound }))
                && *final(handle) == *old(handle),
            self.tree().contains_key(ino) ==> match self.tree()[ino].entry {
                EntryView::File(hosts) => {
                    let meta = self.tree()[ino].meta;
                    match old(handle).signature {
                        Some(old_sig) => if !old(handle).dirty {
                            r matches Ok(FlushPlan::Nothing) && *final(handle) == *old(handle)
                        } else {
                            let f = contents.unwrap()@;
                            match r {
                                Ok(FlushPlan::ToPeers(v)) => {
                                    &&& v@.len() == peers@.len()
                                    &&& forall|i: int| 0 <= i < v@.len() ==> #[trigger] v@[i].0 == peers@[i]
                                    &&& forall|i: int|
                                        0 <= i < v@.len() ==> flush_request_ok(
                                            #[trigger] v@[i].1,
                                            peers@[i],
                                            hosts,
                                            ino,
                                            meta,
                                            old_sig,
                                            f,
                                        )
                                    &&& !final(handle).dirty
                                    &&& final(handle).signature is Some
                                    &&& final(handle).signature->Some_0.method()
                                        == crate::pods::filesystem::diffs::Implementors::RSync
                                    &&& final(handle).signature->Some_0.signs(f)
                                },
                                Err(e) => e is DiffError && *final(handle) == *old(handle),
                                _ => false,
                            }
                        },
                        None => (r matches Ok(FlushPlan::Broadcast(Request::FileChanged(i, m))) && i == ino
                            && m == meta) && *final(handle) == *old(handle),
                    }
                },
                _ => (r matches Err(FlushError::WhError { source: WhError::InodeIsADirectory })) && *final(handle)
                    == *old(handle),
            },
    {
        let inode = match self.network_interface.itree.get_inode(ino) {
            Ok(inode) => inode,
            Err(source) => {
                return Err(FlushError::WhError { source });
            },
        };
        let tracking = match &inode.entry {
            FsEntry::File(tracking) => tracking,
            _ => {
                return Err(FlushError::WhError { source: WhError::InodeIsADirectory });
            },
        };
        let meta = inode.meta;
        let h = handle;
        if !h.dirty && h.signature.is_some() {
            return Ok(FlushPlan::Nothing);
        }
        let ghost orig = h.signature->Some_0;
        let (delta, old_sig) = match &h.signature {
            Some(sig) => {
                let file = contents.unwrap();
                match sig.diff(file) {
                    Ok(delta) => (delta, sig.clone()),
                    Err(source) => {
                        return Err(FlushError::DiffError { source });
                    },
                }
            },
            None => {
                return Ok(FlushPlan::Broadcast(Request::FileChanged(ino, meta)));
            },
        };
        let file = contents.unwrap();
        let new_sig = match Signature::new(file) {
            Ok(s) => s,
            Err(source) => {
                return Err(FlushError::DiffError { source });
            },
        };
        h.signature = Some(new_sig);
        h.dirty = false;
        let mut messages: Vec<(HostId, Request)> = Vec::new();
        let mut i: usize = 0;
        while i < peers.len()
            invariant
                i <= peers.len(),
                messages@.len() == i,
                self.tree().contains_key(ino),
                self.tree()[ino].entry == EntryView::File(tracking@),
                forall|j: int| 0 <= j < i ==> #[trigger] messages@[j].0 == peers@[j],
                forall|j: int|
                    0 <= j < i ==> flush_request_ok(
                        #[trigger] messages@[j].1,
                        peers@[j],
                        tracking@,
                        ino,
                        meta,
                        orig,
                        file@,
                    ),
                delta.made_of(orig, file@),
                old_sig.same_bytes(orig),
            decreases peers.len() - i,
        {
            let peer = peers[i];
            let ghost before = messages@;
            assert(forall|j: int| 0 <= j < i ==> flush_request_ok(#[trigger] before[j].1, peers@[j], tracking@, ino, meta, orig, file@));
            if crate::pods::filesystem::remove_inode::holds(tracking, peer) {
                let s = old_sig.clone();
                let d = delta.clone();
                assert(s.same_bytes(orig));
                assert(d.made_of(orig, file@));
                messages.push((peer, Request::FileDelta(ino, meta, s, d)));
            } else {
                messages.push((peer, Request::FileChanged(ino, meta)));
            }
            assert(flush_request_ok(messages@[i as int].1, peers@[i as int], tracking@, ino, meta, orig, file@));
            assert(forall|j: int| 0 <= j < i ==> #[trigger] messages@[j] == before[j]);
            assert(messages@[i as int].0 == peers@[i as int]);
            i = i + 1;
        }
        Ok(FlushPlan::ToPeers(messages))
    }

    /// Answers the notice that a peer changed a file: when this peer holds the
    /// file (`local` is its copy), asks for the difference against the
    /// summary of the local copy.
    pub fn accept_file_changed(&self, ino: Ino, local: Option<File>) -> (r: Result<Response, FlushError>)
        ensures
            local is None ==> r matches Ok(Response::Success),
            local matches Some(f) ==> match r {
                Ok(Response::DeltaRequest(i, s)) => i == ino && s.method()
                    == crate::pods::filesystem::diffs::Implementors::RSync && s.signs(f@),
                Ok(_) => false,
                Err(e) => e is DiffError,
            },
    {
        let file = match local {
            Some(file) => file,
            None => {
                return Ok(Response::Success);
            },
        };
        match Signature::new(&file) {
            Ok(local_sig) => Ok(Response::DeltaRequest(ino, local_sig)),
            Err(source) => Err(FlushError::DiffError { source }),
        }
    }

    /// The request that sends to a peer the difference of the local copy of
    /// the file `ino` against the summary `sig` that the peer sent.
    pub fn respond_delta(&self, ino: Ino, sig: Signature, local: Option<File>) -> (r: Result<Request, FlushError>)
        ensures
            local is None ==> r matches Err(FlushError::WhError { source: WhError::InodeNotFound }),
            local matches Some(f) ==> match r {
                Ok(Request::FileDelta(i, m, s, d)) => i == ino && self.tree().contains_key(ino) && m
                    == self.tree()[ino].meta && s == sig && d.made_of(sig, f@),
                Ok(_) => false,
                Err(FlushError::WhError { source }) => source == WhError::InodeNotFound && !self.tree().contains_key(ino),
                Err(e) => e is DiffError,
            },
    {
        let file = match local {
            Some(file) => file,
            None => {
                return Err(FlushError::WhError { source: WhError::InodeNotFound });
            },
        };
        let delta = match sig.diff(&file) {
            Ok(delta) => delta,
            Err(source) => {
                return Err(FlushError::DiffError { source });
            },
        };
        let meta = match self.network_interface.itree.get_inode(ino) {
            Ok(inode) => inode.meta,
            Err(source) => {
                return Err(FlushError::WhError { source });
            },
        };
        Ok(Request::FileDelta(ino, meta, sig, delta))
    }

    /// Decides what to do of the difference `delta`, made by a peer against the
    /// summary `sig`, given the local copy of the file, when this peer holds it.
    ///
    /// The local copy is summarised by the method of `sig`; when both summaries
    /// are the same, the local copy is patched. Whenever `delta` is the
    /// difference of a file `new` against `sig`, the patched file is `new`.
    pub fn accept_delta(&self, sig: &Signature, delta: &Delta, local: Option<File>) -> (r: Result<DeltaOutcome, FlushError>)
        ensures
            local is None ==> r matches Ok(DeltaOutcome::NotTracked),
            local matches Some(f) ==> match r {
                Ok(DeltaOutcome::NotTracked) => false,
                Ok(DeltaOutcome::Patched(p)) => p@ == delta.patched(f@) && sig.signs(f@),
                Ok(DeltaOutcome::Mismatch(s)) => s.signs(f@) && s.method() == sig.method() && !(
                sig.signs(f@)),
                Err(e) => e is DiffError,
            },
            forall|new: Seq<u8>|
                #[trigger] delta.made_of(*sig, new) ==> (r matches Ok(DeltaOutcome::Patched(p)) ==> p@ == new),
            forall|new: Seq<u8>|
                #[trigger] delta.made_of(*sig, new) && (local matches Some(f) && sig.signs(f@)) ==> (r matches Ok(
                    DeltaOutcome::Patched(p),
                ) && p@ == new) || (sig is RSyncSig && r matches Err(FlushError::DiffError { .. })),
            local matches Some(f) && !sig.signs(f@) ==> (r matches Ok(DeltaOutcome::Mismatch(_))) || (sig is RSyncSig
                && r matches Err(FlushError::DiffError { .. })),
    {
        let file = match local {
            Some(file) => file,
            None => {
                return Ok(DeltaOutcome::NotTracked);
            },
        };
        let local_sig = match Signature::new_using(&file, sig.implementor()) {
            Ok(s) => s,
            Err(source) => {
                return Err(FlushError::DiffError { source });
            },
        };
        if local_sig.same_as(sig) {
            proof {
                assert forall|new: Seq<u8>| #[trigger] delta.made_of(*sig, new) implies delta.rebuilds(file@, new) by {
                    lemma_diff_rebuilds(*sig, *delta, file@, new);
                }
            }
            match delta.patch(&file) {
                Ok(patched) => Ok(DeltaOutcome::Patched(patched)),
                Err(source) => Err(FlushError::DiffError { source }),
            }
        } else {
            Ok(DeltaOutcome::Mismatch(local_sig))
        }
    }
}

} // verus!
