use vstd::prelude::*;

use crate::pods::filesystem::flush::FlushState;
use crate::pods::itree::inode::Ino;

verus! {

/// The number by which the system names an open file.
pub type HandleId = u64;

/// How a file was opened.
#[derive(Debug, Clone, Copy, PartialEq, Eq, Structural)]
pub enum AccessMode {
    Read,
    Write,
    ReadWrite,
    Execute,
}

/// A file opened this way may be written.
pub open spec fn may_write(perm: AccessMode) -> bool {
    perm is Write || perm is ReadWrite
}

/// An open file: its inode, how it was opened, and what is kept to send its
/// changes to the peers.
#[derive(Debug)]
pub struct FileHandle {
    pub ino: Ino,
    pub perm: AccessMode,
    pub state: FlushState,
}

/// The open files of a drive, each with the number of its handle.
#[derive(Debug)]
pub struct FileHandles {
    pub handles: Vec<(HandleId, FileHandle)>,
}

/// The position of the handle numbered `fh`: the first entry with that
/// number.
pub open spec fn handle_at(s: Seq<(HandleId, FileHandle)>, fh: HandleId) -> Option<int>
    decreases s.len(),
{
    if s.len() == 0 {
        None
    } else {
        match handle_at(s.drop_last(), fh) {
            Some(i) => Some(i),
            None => if s.last().0 == fh {
                Some(s.len() - 1)
            } else {
                None
            },
        }
    }
}

/// The entry `e` once its file was written: it is to be flushed.
pub open spec fn dirtied(e: (HandleId, FileHandle)) -> (HandleId, FileHandle) {
    (e.0, FileHandle { state: FlushState { dirty: true, ..e.1.state }, ..e.1 })
}

proof fn lemma_handle_at_step(s: Seq<(HandleId, FileHandle)>, fh: HandleId, i: int)
    requires
        0 <= i < s.len(),
        handle_at(s.take(i), fh) is None,
    ensures
        handle_at(s.take(i + 1), fh) == if s[i].0 == fh {
            Some(i)
        } else {
            None::<int>
        },
{
    assert(s.take(i + 1).drop_last() =~= s.take(i));
}

proof fn lemma_handle_at_bounds(s: Seq<(HandleId, FileHandle)>, fh: HandleId)
    ensures
        handle_at(s, fh) matches Some(i) ==> 0 <= i < s.len() && s[i].0 == fh,
    decreases s.len(),
{
    if s.len() > 0 {
        lemma_handle_at_bounds(s.drop_last(), fh);
    }
}

impl FileHandles {
    /// No open file.
    pub fn new() -> (r: FileHandles)
        ensures
            r.handles@ == Seq::<(HandleId, FileHandle)>::empty(),
    {
        FileHandles { handles: Vec::new() }
    }

    /// The file `handle` is open under the number `fh`; a handle that already
    /// had that number is kept before it and goes on being the one found.
    pub fn open(&mut self, fh: HandleId, handle: FileHandle)
        ensures
            final(self).handles@ == old(self).handles@.push((fh, handle)),
    {
        self.handles.push((fh, handle));
    }

    /// Where the handle numbered `fh` lies, if a file is open under it; see
    /// [handle_at].
    pub fn find(&self, fh: HandleId) -> (r: Option<usize>)
        ensures
            r matches Some(i) ==> handle_at(self.handles@, fh) == Some(i as int),
            r is None ==> handle_at(self.handles@, fh) is None,
            handle_at(self.handles@, fh) matches Some(i) ==> 0 <= i < self.handles@.len()
                && self.handles@[i].0 == fh,
    {
        proof {
            lemma_handle_at_bounds(self.handles@, fh);
        }
        let ghost s = self.handles@;
        let mut i: usize = 0;
        assert(s.take(0) =~= Seq::<(HandleId, FileHandle)>::empty());
        while i < self.handles.len()
            invariant
                s == self.handles@,
                i <= s.len(),
                handle_at(s.take(i as int), fh) is None,
            decreases s.len() - i,
        {
            proof {
                lemma_handle_at_step(s, fh, i as int);
            }
            if self.handles[i].0 == fh {
                proof {
                    lemma_handle_at_prefix(s, fh, (i + 1) as int);
                }
                return Some(i);
            }
            i = i + 1;
        }
        assert(s.take(s.len() as int) =~= s);
        None
    }

    /// Closes the file open under the handle numbered `fh`, if any: the handle
    /// found (see [handle_at]) is taken out and returned.
    pub fn close(&mut self, fh: HandleId) -> (r: Option<FileHandle>)
        ensures
            match handle_at(old(self).handles@, fh) {
                None => r is None && final(self).handles@ == old(self).handles@,
                Some(i) => r == Some(old(self).handles@[i].1) && final(self).handles@ == old(self).handles@.remove(i),
            },
    {
        match self.find(fh) {
            Some(i) => {
                let (_, handle) = self.handles.remove(i);
                Some(handle)
            },
            None => None,
        }
    }

    /// The file open under the handle at position `i` was written.
    pub fn set_dirty(&mut self, i: usize)
        requires
            i < old(self).handles@.len(),
        ensures
            final(self).handles@ == old(self).handles@.update(i as int, dirtied(old(self).handles@[i as int])),
    {
        let (fh, mut handle) = self.handles.remove(i);
        handle.state.dirty = true;
        self.handles.insert(i, (fh, handle));
        assert(self.handles@ =~= old(self).handles@.update(i as int, dirtied(old(self).handles@[i as int])));
    }
}

/// A handle found among the first entries is the one found among all.
proof fn lemma_handle_at_prefix(s: Seq<(HandleId, FileHandle)>, fh: HandleId, n: int)
    requires
        0 <= n <= s.len(),
        handle_at(s.take(n), fh) is Some,
    ensures
        handle_at(s, fh) == handle_at(s.take(n), fh),
    decreases s.len(),
{
    if n < s.len() {
        assert(s.drop_last().take(n) =~= s.take(n));
        lemma_handle_at_prefix(s.drop_last(), fh, n);
    } else {
        assert(s.take(n) =~= s);
    }
}

} // verus!
