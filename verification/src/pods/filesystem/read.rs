use vstd::prelude::*;

use std::sync::Arc;

use crate::error::WhError;
use crate::pods::filesystem::fs_interface::FsInterface;
use crate::pods::filesystem::file_handle::{handle_at, AccessMode, FileHandles, HandleId};
use crate::pods::itree::fsentry::{EntryView, FsEntry, HostId};
use crate::pods::itree::inode::Ino;
use crate::pods::network::pull_file::PullError;
use crate::pods::whpath::WhPath;

verus! {

/// Why a file could not be read.
#[derive(Debug, Clone)]
pub enum ReadError {
    WhError { source: WhError },
    PullError { source: PullError },
    LocalReadFailed { io: Arc<std::io::Error> },
    CantPull,
    NoReadPermission,
    NoFileHandle,
}

/// Where the bytes of a file are read: the local copy at a path, or the
/// contents pulled from hosts, asked in this order.
#[derive(Debug)]
pub enum ReadSource {
    Local(WhPath),
    Pull(Vec<HostId>),
}

impl FsInterface {
    /// Where to read the file `ino` for the handle `fh` among `handles`: its
    /// local copy when this peer holds it, else its hosts, to pull it from.
    ///
    /// `NoFileHandle` when no file is open under `fh`, `NoReadPermission`
    /// when it was opened for writing only, a pulling error when `ino` is not
    /// a file or no peer holds it.
    pub fn read_file(&self, ino: Ino, handles: &FileHandles, fh: HandleId) -> (r: Result<ReadSource, ReadError>)
        requires
            self.network_interface.itree.wf(),
        ensures
            ({
                let s = handles.handles@;
                let m = self.tree();
                match handle_at(s, fh) {
                    None => r matches Err(ReadError::NoFileHandle),
                    Some(i) => if s[i].1.perm is Write {
                        r matches Err(ReadError::NoReadPermission)
                    } else if !m.contains_key(ino) {
                        r matches Err(
                            ReadError::PullError { source: PullError::WhError { source: WhError::InodeNotFound } },
                        )
                    } else {
                        match m[ino].entry {
                            EntryView::File(hosts) => if hosts.len() == 0 {
                                r matches Err(ReadError::PullError { source: PullError::NoHostAvailable })
                            } else if hosts.contains(self.network_interface.id) {
                                r matches Ok(ReadSource::Local(p)) && p@ == self.network_interface.itree.path_of(
                                    ino,
                                ).unwrap()
                            } else {
                                r matches Ok(ReadSource::Pull(h)) && h@ == hosts
                            },
                            _ => r matches Err(
                                ReadError::PullError { source: PullError::WhError { source: WhError::InodeIsADirectory } },
                            ),
                        }
                    },
                }
            }),
    {
        match handles.find(fh) {
            Some(i) => {
                if handles.handles[i].1.perm == AccessMode::Write {
                    return Err(ReadError::NoReadPermission);
                }
            },
            None => {
                return Err(ReadError::NoFileHandle);
            },
        }
        match self.network_interface.pull_file(ino) {
            Ok(None) => {
                proof {
                    self.network_interface.itree.lemma_path_of(ino);
                }
                match self.network_interface.itree.get_path_from_inode_id(ino) {
                    Ok(p) => Ok(ReadSource::Local(p)),
                    Err(source) => Err(ReadError::WhError { source }),
                }
            },
            Ok(Some(hosts)) => Ok(ReadSource::Pull(hosts)),
            Err(source) => Err(ReadError::PullError { source }),
        }
    }

    /// Where to read the local copy of the file `ino`, and how many bytes it
    /// has, when this peer holds it; `None` when it does not.
    ///
    /// `InodeIsADirectory` for a directory or a link.
    pub fn get_local_file(&self, ino: Ino) -> (r: Result<Option<(WhPath, u64)>, ReadError>)
        requires
            self.network_interface.itree.wf(),
        ensures
            !self.tree().contains_key(ino) ==> r matches Err(ReadError::WhError { source: WhError::InodeNotFound }),
            self.tree().contains_key(ino) ==> match self.tree()[ino].entry {
                EntryView::File(hosts) => if hosts.contains(self.network_interface.id) {
                    r matches Ok(Some((path, size))) && path@ == self.network_interface.itree.path_of(ino).unwrap()
                        && size == self.tree()[ino].meta.size
                } else {
                    r matches Ok(None)
                },
                _ => r matches Err(ReadError::WhError { source: WhError::InodeIsADirectory }),
            },
    {
        let itree = &self.network_interface.itree;
        let inode = match itree.get_inode(ino) {
            Ok(inode) => inode,
            Err(source) => {
                return Err(ReadError::WhError { source });
            },
        };
        let size = match &inode.entry {
            FsEntry::File(hosts) => if crate::pods::filesystem::remove_inode::holds(hosts, self.network_interface.id) {
                inode.meta.size
            } else {
                return Ok(None);
            },
            _ => {
                return Err(ReadError::WhError { source: WhError::InodeIsADirectory });
            },
        };
        proof {
            itree.lemma_path_of(ino);
        }
        match itree.get_path_from_inode_id(ino) {
            Ok(path) => Ok(Some((path, size))),
            Err(source) => Err(ReadError::WhError { source }),
        }
    }
}

} // verus!
