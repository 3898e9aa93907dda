use std::sync::Arc;

use vstd::prelude::*;

use crate::error::WhError;
use crate::network::message::Response;
use crate::pods::itree::fsentry::{EntryView, FsEntry, HostId};
use crate::pods::itree::inode::Ino;
use crate::pods::network::network_interface::NetworkInterface;

verus! {

/// Why a file could not be pulled from the network.
#[derive(Debug, Clone)]
pub enum PullError {
    WhError { source: WhError },
    NoHostAvailable,
    WriteError { io: Arc<std::io::Error> },
}

/// The contents that pulling a file ends with, given the answers of its hosts
/// in the order they were asked (`None` for a host that did not answer): the
/// last file that was sent.
pub open spec fn last_pulled(answers: Seq<Option<Response>>) -> Option<Seq<u8>>
    decreases answers.len(),
{
    if answers.len() == 0 {
        None
    } else {
        match answers.last() {
            Some(Response::RequestedFile(data)) => Some(data@),
            _ => last_pulled(answers.drop_last()),
        }
    }
}

/// Whether an answer to a request for a file is one that such a request gets:
/// none, or a file.
pub open spec fn is_file_answer(answer: Option<Response>) -> bool {
    answer is None || answer matches Some(Response::RequestedFile(_))
}

impl NetworkInterface {
    /// The peers to ask for the contents of the file `ino`, in the order they
    /// are to be asked: its hosts; `None` when this peer is one of them, the
    /// file being on its disk already. Pulling changes neither the tree nor
    /// the disk.
    ///
    /// `InodeIsADirectory` for anything but a file, `NoHostAvailable` for a
    /// file that no peer holds.
    pub fn pull_file(&self, ino: Ino) -> (r: Result<Option<Vec<HostId>>, PullError>)
        ensures
            !self.itree@.contains_key(ino) ==> r matches Err(PullError::WhError { source: WhError::InodeNotFound }),
            self.itree@.contains_key(ino) ==> match self.itree@[ino].entry {
                EntryView::File(hosts) => if hosts.len() == 0 {
                    r matches Err(PullError::NoHostAvailable)
                } else if hosts.contains(self.id) {
                    r matches Ok(None)
                } else {
                    r matches Ok(Some(h)) && h@ == hosts
                },
                _ => r matches Err(PullError::WhError { source: WhError::InodeIsADirectory }),
            },
    {
        let hosts = match self.itree.get_inode(ino) {
            Ok(inode) => match &inode.entry {
                FsEntry::File(hosts) => hosts.clone(),
                _ => {
                    return Err(PullError::WhError { source: WhError::InodeIsADirectory });
                },
            },
            Err(source) => {
                return Err(PullError::WhError { source });
            },
        };
        if hosts.len() == 0 {
            return Err(PullError::NoHostAvailable);
        }
        if crate::pods::filesystem::remove_inode::holds(&hosts, self.id) {
            Ok(None)
        } else {
            Ok(Some(hosts))
        }
    }
}

/// The contents pulled, once each host returned by
/// [NetworkInterface::pull_file] was asked in turn: the last file sent (see
/// [last_pulled]); `NoHostAvailable` when none was.
pub fn pulled_file(answers: Vec<Option<Response>>) -> (r: Result<Vec<u8>, PullError>)
    requires
        forall|i: int| 0 <= i < answers@.len() ==> is_file_answer(#[trigger] answers@[i]),
    ensures
        match last_pulled(answers@) {
            Some(data) => r matches Ok(v) && v@ == data,
            None => r matches Err(PullError::NoHostAvailable),
        },
{
    let ghost all = answers@;
    let mut file: Option<Vec<u8>> = None;
    let mut answers = answers;
    let mut n: usize = answers.len();
    proof {
        assert(all.take(n as int) =~= all);
    }
    while n > 0
        invariant
            n <= all.len(),
            answers@ == all.take(n as int),
            last_pulled(all) == match file {
                Some(f) => Some(f@),
                None => last_pulled(all.take(n as int)),
            },
            file is Some ==> last_pulled(all) is Some,
        decreases n,
    {
        let answer = answers.pop().unwrap();
        proof {
            assert(all.take(n as int).drop_last() =~= all.take(n - 1));
            assert(all.take(n as int).last() == answer);
        }
        if file.is_none() {
            match answer {
                Some(Response::RequestedFile(data)) => {
                    file = Some(data);
                },
                _ => {},
            }
        }
        n = n - 1;
    }
    match file {
        Some(data) => Ok(data),
        None => Err(PullError::NoHostAvailable),
    }
}

} // verus!
