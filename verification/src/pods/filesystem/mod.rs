use vstd::prelude::*;

use std::sync::Arc;

pub mod diffs;
pub mod file_handle;
pub mod flush;
pub mod fs_interface;
pub mod make_inode;
pub mod permissions;
pub mod read;
pub mod readdir;
pub mod remove_inode;
pub mod rename;
pub mod write;
pub mod xattrs;

verus! {

/// The whole contents of a file, shared without copying.
#[derive(Debug, Clone)]
pub struct File(pub Arc<Vec<u8>>);

impl View for File {
    type V = Seq<u8>;

    open spec fn view(&self) -> Seq<u8> {
        self.0@
    }
}

impl File {
    /// A file with no bytes.
    pub fn empty() -> (r: File)
        ensures
            r@ == Seq::<u8>::empty(),
    {
        File(Arc::new(Vec::new()))
    }
}

} // verus!
