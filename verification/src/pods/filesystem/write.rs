use vstd::prelude::*;

use crate::error::{WhError, WhResult};
use crate::pods::filesystem::fs_interface::FsInterface;
use crate::pods::itree::inode::{now, Ino, InodeView, Metadata, BLOCK_SIZE};

use std::sync::Arc;

verus! {

/// Why a write failed.
#[derive(Debug, Clone)]
pub enum WriteError {
    WhError { source: WhError },
    LocalWriteFailed { io: Arc<std::io::Error> },
    NoFileHandle,
    NoWritePermission,
}

/// The number of blocks of `BLOCK_SIZE` bytes that `size` bytes take.
pub open spec fn blocks_for(size: u64) -> int {
    (size + BLOCK_SIZE - 1) / BLOCK_SIZE as int
}

/// The larger of two sizes.
pub open spec fn max_size(a: u64, b: u64) -> u64 {
    if a < b { b } else { a }
}

impl FsInterface {
    /// Records in the tree that a write ending at `new_size` was made to `id`:
    /// the file grows to that size if it was smaller, its block count follows
    /// and its modification time is now.
    pub fn affect_write_locally(&mut self, id: Ino, new_size: usize) -> (r: WhResult<Metadata>)
        ensures
            final(self).network_interface.id == old(self).network_interface.id,
            final(self).network_interface.peers == old(self).network_interface.peers,
            final(self).network_interface.itree.next_ino_spec() == old(self).network_interface.itree.next_ino_spec(),
            old(self).network_interface.itree.wf() ==> final(self).network_interface.itree.wf(),
            !old(self).tree().contains_key(id) ==> r == Err::<Metadata, WhError>(WhError::InodeNotFound)
                && final(self).tree() == old(self).tree(),
            old(self).tree().contains_key(id) ==> (r matches Ok(meta)
                && meta.size == max_size(new_size as u64, old(self).tree()[id].meta.size)
                && meta.blocks == blocks_for(meta.size)
                && meta == (Metadata {
                    size: meta.size,
                    blocks: meta.blocks,
                    mtime: meta.mtime,
                    ..old(self).tree()[id].meta
                })
                && final(self).tree() == old(self).tree().insert(
                    id,
                    InodeView { meta, ..old(self).tree()[id] },
                )),
    {
        let inode = self.network_interface.itree.get_inode(id)?;
        let mut meta = inode.meta;
        let asked = new_size as u64;
        let size = if asked < meta.size { meta.size } else { asked };
        meta.size = size;
        meta.blocks = size / BLOCK_SIZE + if size % BLOCK_SIZE != 0 { 1 } else { 0 };
        assert(meta.blocks == blocks_for(size)) by (nonlinear_arith)
            requires
                meta.blocks == size / 512 + if size % 512 != 0 { 1int } else { 0int },
        {}
        meta.mtime = now();
        let r = self.network_interface.itree.set_inode_meta(id, meta);
        proof {
            assert(r is Ok);
        }
        Ok(meta)
    }
}

} // verus!
