use vstd::prelude::*;

use crate::error::IoKind;
use crate::pods::itree::fsentry::EntrySymlink;
use crate::pods::whpath::WhPath;

pub mod dummy_disk_manager;

verus! {

/// How much room the local disk of a pod has.
#[derive(Debug, Clone, Copy, PartialEq, Eq, Structural)]
pub struct DiskSizeInfo {
    pub free_size: usize,
    pub total_size: usize,
    /// Total number of inodes (files)
    pub files: u64,
    /// Free inodes available
    pub ffree: u64,
    /// Block size in bytes
    pub bsize: u32,
}

/// What a pod needs of the disk that holds its files; paths are relative to
/// the folder that the pod mirrors.
///
/// Nothing is stated of what a disk answers: the operations built on a disk
/// say what holds whatever it answered.
pub trait DiskManager {
    fn new_file(&mut self, path: &WhPath, permissions: u16) -> Result<(), IoKind>;

    fn new_dir(&mut self, path: &WhPath, permissions: u16) -> Result<(), IoKind>;

    fn new_symlink(&mut self, path: &WhPath, permissions: u16, link: &EntrySymlink) -> Result<(), IoKind>;

    fn remove_file(&mut self, path: &WhPath) -> Result<(), IoKind>;

    fn remove_dir(&mut self, path: &WhPath) -> Result<(), IoKind>;

    fn remove_symlink(&mut self, path: &WhPath) -> Result<(), IoKind>;

    /// Writes `binary` at `offset`; returns the number of bytes written.
    fn write_file(&mut self, path: &WhPath, binary: &[u8], offset: usize) -> Result<usize, IoKind>;

    fn set_file_size(&mut self, path: &WhPath, size: usize) -> Result<(), IoKind>;

    fn mv_file(&mut self, path: &WhPath, new_path: &WhPath) -> Result<(), IoKind>;

    /// Reads from `offset` into `buf`; returns the number of bytes read.
    /// `buf` keeps its length.
    fn read_file(&self, path: &WhPath, offset: usize, buf: &mut [u8]) -> (r: Result<usize, IoKind>)
        ensures
            final(buf)@.len() == old(buf)@.len(),
    ;

    fn file_exists(&self, path: &WhPath) -> bool;

    /// Releases the disk once the pod stops.
    fn stop(&mut self) -> Result<(), IoKind>;
}

} // verus!
