use std::sync::Arc;

use wormhole::errno::Errno;
use wormhole::error::WhError;
use wormhole::network::message::{Request, Response};
use wormhole::pods::disk_managers::DiskSizeInfo;
use wormhole::pods::filesystem::diffs::{Delta, Dlt, Implementors, Sig, Signature};
use wormhole::pods::filesystem::flush::{DeltaOutcome, FlushError, FlushPlan, FlushState};
use wormhole::pods::filesystem::fs_interface::{FsInterface, LocalCreation, SimpleFileType};
use wormhole::pods::filesystem::make_inode::MakeInodeError;
use wormhole::pods::filesystem::readdir::{ReadDirError, ReadLinkError};
use wormhole::pods::filesystem::remove_inode::{LocalRemoval, RemoveFileError};
use wormhole::pods::filesystem::rename::{RenameError, RenamePlan};
use wormhole::pods::filesystem::xattrs::GetXAttrError;
use wormhole::pods::filesystem::File;
use wormhole::pods::filesystem::file_handle::{AccessMode, FileHandle, FileHandles};
use wormhole::pods::filesystem::read::{ReadError, ReadSource};
use wormhole::pods::network::pull_file::PullError;
use wormhole::pods::itree::fsentry::{EntrySymlink, FsEntry};
use wormhole::pods::itree::inode::{Inode, ROOT};
use wormhole::pods::itree::{ITree, FIRST_INO, GLOBAL_CONFIG_FNAME, GLOBAL_CONFIG_INO};
use wormhole::pods::network::network_interface::NetworkInterface;
use wormhole::pods::whpath::InodeName;

const ME: u64 = 7;

fn name(s: &str) -> InodeName {
    InodeName::try_from_str(s).unwrap()
}

/// root/a (dir 11), root/a/f (file 12, held here), root/g (file 13, held by 8), root/l (link 14),
/// root/locked (dir 15, mode 0), root/e (empty dir 16)
fn fsi() -> FsInterface {
    let mut t = ITree::new();
    t.mark_reserved_ino(20).unwrap();
    t.add_inode(Inode::new(name("a"), ROOT, 11, FsEntry::new_directory(), 0o755)).unwrap();
    t.add_inode(Inode::new(name("f"), 11, 12, FsEntry::File(vec![ME]), 0o644)).unwrap();
    t.add_inode(Inode::new(name("g"), ROOT, 13, FsEntry::File(vec![8]), 0o644)).unwrap();
    t.add_inode(Inode::new(name("l"), ROOT, 14, FsEntry::Symlink(EntrySymlink::default()), 0o777)).unwrap();
    t.add_inode(Inode::new(name("locked"), ROOT, 15, FsEntry::new_directory(), 0)).unwrap();
    t.add_inode(Inode::new(name("e"), ROOT, 16, FsEntry::new_directory(), 0o755)).unwrap();
    FsInterface::new(NetworkInterface::new(t, ME, vec![8, 9]))
}

fn file(bytes: &[u8]) -> File {
    File(Arc::new(bytes.to_vec()))
}

#[test]
fn entries_by_name_need_the_execute_bit() {
    let f = fsi();
    assert_eq!(f.get_entry_from_name(ROOT, "g").unwrap().unwrap().id, 13);
    assert!(f.get_entry_from_name(15, "x").unwrap().is_none());
    assert!(matches!(f.get_entry_from_name(ROOT, "zz"), Err(WhError::InodeNotFound)));
    assert!(matches!(f.get_entry_from_name(99, "g"), Err(WhError::InodeNotFound)));
    assert!(f.get_entry_from_name(12, "g").unwrap().is_none());
    assert!(matches!(f.get_entry_from_name(14, "g"), Err(WhError::InodeIsNotADirectory)));
}

#[test]
fn attributes() {
    let f = fsi();
    assert_eq!(f.get_inode_attributes(12).unwrap().perm, 0o644);
    assert!(matches!(f.get_inode_attributes(99), Err(WhError::InodeNotFound)));
}

#[test]
fn listing_a_directory() {
    let f = fsi();
    let list = f.read_dir(11).unwrap();
    let names: Vec<(u64, String)> = list.iter().map(|(i, n, _)| (*i, n.clone())).collect();
    assert_eq!(names, vec![(11, ".".to_string()), (ROOT, "..".to_string()), (12, "f".to_string())]);
    assert!(matches!(f.read_dir(15), Err(ReadDirError::PermissionError)));
    assert!(matches!(f.read_dir(12), Err(ReadDirError::WhError { source: WhError::InodeIsNotADirectory })));
    assert!(matches!(f.read_dir(99), Err(ReadDirError::WhError { source: WhError::InodeNotFound })));
}

#[test]
fn reading_links() {
    let f = fsi();
    assert!(f.readlink(14).is_ok());
    assert!(matches!(f.readlink(12), Err(ReadLinkError::NotALink)));
    assert!(matches!(f.readlink(99), Err(ReadLinkError::WhError { source: WhError::InodeNotFound })));
}

#[test]
fn extended_attributes() {
    let mut f = fsi();
    f.network_interface.set_inode_xattr(12, "user.a", vec![5]).unwrap();
    assert_eq!(f.get_inode_xattr(12, "user.a").unwrap(), vec![5]);
    assert!(matches!(f.get_inode_xattr(12, "user.b"), Err(GetXAttrError::KeyNotFound)));
    assert!(matches!(f.get_inode_xattr(99, "user.a"), Err(GetXAttrError::WhError { source: WhError::InodeNotFound })));
    assert!(f.xattr_exists(12, "user.a").unwrap());
    assert!(!f.xattr_exists(12, "user.b").unwrap());
    assert_eq!(f.list_inode_xattr(12).unwrap(), vec!["user.a".to_string()]);
    f.network_interface.remove_inode_xattr(12, "user.a").unwrap();
    assert!(!f.xattr_exists(12, "user.a").unwrap());
}

#[test]
fn writes_grow_files_by_blocks() {
    let mut f = fsi();
    let meta = f.affect_write_locally(12, 1000).unwrap();
    assert_eq!(meta.size, 1000);
    assert_eq!(meta.blocks, 2);
    let meta = f.affect_write_locally(12, 10).unwrap();
    assert_eq!(meta.size, 1000);
    let meta = f.affect_write_locally(12, 1025).unwrap();
    assert_eq!(meta.blocks, 3);
    assert!(matches!(f.affect_write_locally(99, 1), Err(WhError::InodeNotFound)));
}

#[test]
fn size_information() {
    let f = fsi();
    let disk = DiskSizeInfo { free_size: 5, total_size: 6, files: 0, ffree: 0, bsize: 512 };
    let info = f.get_size_info(disk);
    assert_eq!(info.files, 7);
    assert_eq!(info.ffree, u64::MAX - 21);
    assert_eq!(info.free_size, 5);
    assert_eq!(info.bsize, 512);
}

#[test]
fn making_inodes() {
    let mut f = fsi();
    let (inode, path) = f.make_inode(11, name("new"), 0o600, SimpleFileType::File).unwrap();
    assert_eq!(inode.id, 21);
    assert_eq!(path.as_string(), "a/new");
    assert!(matches!(&inode.entry, FsEntry::File(h) if h == &vec![ME]));
    assert!(f.network_interface.register_new_inode(inode).unwrap().is_some());
    assert!(matches!(f.make_inode(11, name("new"), 0o600, SimpleFileType::File), Err(MakeInodeError::AlreadyExist)));
    assert!(matches!(f.make_inode(15, name("x"), 0o600, SimpleFileType::File), Err(MakeInodeError::PermissionDenied)));
    assert!(matches!(
        f.make_inode(ROOT, name(GLOBAL_CONFIG_FNAME), 0o600, SimpleFileType::Directory),
        Err(MakeInodeError::ProtectedNameIsFolder)
    ));
    let (special, _) = f.make_inode(ROOT, name(GLOBAL_CONFIG_FNAME), 0o600, SimpleFileType::File).unwrap();
    assert_eq!(special.id, GLOBAL_CONFIG_INO);
    let (d, _) = f.make_inode(ROOT, name("d"), 0o700, SimpleFileType::Directory).unwrap();
    assert!(matches!(d.entry, FsEntry::Directory(_)));
}

#[test]
fn rename_plans() {
    let f = fsi();
    assert_eq!(f.rename(ROOT, ROOT, &name("g"), &name("g"), false).unwrap(), RenamePlan::Unchanged);
    assert_eq!(
        f.rename(ROOT, 11, &name("g"), &name("h"), false).unwrap(),
        RenamePlan::Plain { source: 13, overwritten: None }
    );
    assert!(matches!(f.rename(ROOT, 11, &name("g"), &name("f"), false), Err(RenameError::DestinationExists)));
    assert_eq!(
        f.rename(ROOT, 11, &name("g"), &name("f"), true).unwrap(),
        RenamePlan::Plain { source: 13, overwritten: Some(12) }
    );
    assert_eq!(
        f.rename(ROOT, ROOT, &name("g"), &name(GLOBAL_CONFIG_FNAME), false).unwrap(),
        RenamePlan::Special { source: 13, dest: None }
    );
    assert!(matches!(f.rename(ROOT, ROOT, &name("zz"), &name("y"), false), Err(RenameError::SourceParentNotFound)));
    assert!(matches!(f.rename(15, ROOT, &name("x"), &name("y"), false), Err(RenameError::PermissionDenied)));
    assert!(matches!(f.rename(99, ROOT, &name("x"), &name("y"), false), Err(RenameError::SourceParentNotFound)));
    assert!(matches!(f.rename(12, ROOT, &name("x"), &name("y"), false), Err(RenameError::SourceParentNotFolder)));
    assert!(matches!(
        f.rename(ROOT, 99, &name("g"), &name("y"), false),
        Err(RenameError::WhError { source: WhError::InodeNotFound })
    ));
    assert_eq!(f.recept_rename(11, &name("f"), true).unwrap(), Some(12));
    assert!(matches!(f.recept_rename(11, &name("f"), false), Err(RenameError::DestinationExists)));
    assert_eq!(f.recept_rename(11, &name("new"), false).unwrap(), None);
}

#[test]
fn renaming_in_the_tree() {
    let mut f = fsi();
    let req = f.network_interface.rename(ROOT, 11, name("g"), name("h"), false).unwrap();
    assert!(matches!(req, Request::Rename(ROOT, 11, _, _, false)));
    assert_eq!(f.network_interface.itree.get_path_from_inode_id(13).unwrap().as_string(), "a/h");
    assert!(matches!(
        f.network_interface.acknowledge_rename(ROOT, 11, name("g"), name("h")),
        Err(RenameError::DestinationParentNotFound)
    ));
}

#[test]
fn removing_inodes() {
    let f = fsi();
    assert_eq!(f.fuse_remove_inode(11, &name("f")).unwrap(), 12);
    assert!(matches!(f.fuse_remove_inode(15, &name("x")), Err(RemoveFileError::PermissionDenied)));
    assert!(matches!(
        f.fuse_remove_inode(ROOT, &name("zz")),
        Err(RemoveFileError::WhError { source: WhError::InodeNotFound })
    ));
    assert!(matches!(f.remove_inode_locally(12).unwrap(), LocalRemoval::File(p) if p.as_string() == "a/f"));
    assert!(matches!(f.remove_inode_locally(13).unwrap(), LocalRemoval::StaleFile(_)));
    assert!(matches!(f.remove_inode_locally(16).unwrap(), LocalRemoval::Dir(_)));
    assert!(matches!(f.remove_inode_locally(14).unwrap(), LocalRemoval::Symlink(_)));
    assert!(matches!(f.remove_inode_locally(11), Err(RemoveFileError::NonEmpty)));
    assert!(matches!(f.remove_inode_locally(99), Err(RemoveFileError::WhError { source: WhError::InodeNotFound })));
}

#[test]
fn local_files() {
    let f = fsi();
    let (path, size) = f.get_local_file(12).unwrap().unwrap();
    assert_eq!(path.as_string(), "a/f");
    assert_eq!(size, 0);
    assert!(f.get_local_file(13).unwrap().is_none());
    assert!(f.get_local_file(11).is_err());
    let (rpath, perm) = f.recept_redundancy(13).unwrap();
    assert_eq!(rpath.as_string(), "g");
    assert_eq!(perm, 0o644);
}

#[test]
fn receiving_inodes_and_hosts() {
    let mut f = fsi();
    let held = Inode::new(name("n1"), ROOT, 30, FsEntry::File(vec![ME]), 0o640);
    assert!(matches!(f.recept_inode(held).unwrap(), LocalCreation::File(p, 0o640) if p.as_string() == "n1"));
    let other = Inode::new(name("n2"), ROOT, 31, FsEntry::File(vec![8]), 0o640);
    assert!(matches!(f.recept_inode(other).unwrap(), LocalCreation::Nothing));
    let d = Inode::new(name("n3"), 11, 32, FsEntry::new_directory(), 0o750);
    assert!(matches!(f.recept_inode(d).unwrap(), LocalCreation::Dir(p, _) if p.as_string() == "a/n3"));
    let dup = Inode::new(name("n4"), ROOT, 30, FsEntry::new_directory(), 0o750);
    assert!(f.recept_inode(dup).is_err());
    assert_eq!(f.network_interface.itree.reserve_ino().unwrap(), 33);
    let gone = f.recept_remove_hosts(12, vec![ME]).unwrap();
    assert_eq!(gone.unwrap().as_string(), "a/f");
    assert!(f.recept_remove_hosts(13, vec![9]).unwrap().is_none());
}

#[test]
fn flushing_changes() {
    let f = fsi();
    let base = file(b"hello world, hello world");
    let new = file(b"hello there, hello world!");
    let mut none = FlushState { signature: None, dirty: true };
    assert!(matches!(f.flush(12, &mut none, None, &vec![8]).unwrap(), FlushPlan::Broadcast(Request::FileChanged(12, _))));
    let mut clean = FlushState { signature: Some(Signature::new(&base).unwrap()), dirty: false };
    assert!(matches!(f.flush(12, &mut clean, None, &vec![8]).unwrap(), FlushPlan::Nothing));
    let mut dirty = FlushState { signature: Some(Signature::new(&base).unwrap()), dirty: true };
    let plan = f.flush(13, &mut dirty, Some(&new), &vec![8, 9]).unwrap();
    assert!(!dirty.dirty);
    assert!(dirty.signature.as_ref().unwrap().same_as(&Signature::new(&new).unwrap()));
    match plan {
        FlushPlan::ToPeers(v) => {
            assert_eq!(v.len(), 2);
            assert_eq!(v[0].0, 8);
            assert_eq!(v[1].0, 9);
            match &v[0].1 {
                Request::FileDelta(13, _, _, d) => {
                    let patched = d.patch(&base).unwrap();
                    assert_eq!(patched.0, new.0);
                }
                _ => panic!("a host gets the difference"),
            }
            assert!(matches!(&v[1].1, Request::FileChanged(13, _)));
        }
        _ => panic!("expected messages for each peer"),
    }
    let mut any = FlushState { signature: None, dirty: false };
    assert!(matches!(f.flush(11, &mut any, None, &vec![]), Err(FlushError::WhError { source: WhError::InodeIsADirectory })));
    assert!(matches!(f.flush(99, &mut any, None, &vec![]), Err(FlushError::WhError { source: WhError::InodeNotFound })));
}

#[test]
fn accepting_differences() {
    let f = fsi();
    let base = file(b"version one of the file");
    let new = file(b"version two of the file, longer");
    let sig = Signature::new_using(&base, Implementors::RSync).unwrap();
    let delta = sig.diff(&new).unwrap();
    match f.accept_delta(&sig, &delta, Some(base.clone())).unwrap() {
        DeltaOutcome::Patched(p) => assert_eq!(p.0, new.0),
        _ => panic!("the local copy matches the summary"),
    }
    match f.accept_delta(&sig, &delta, Some(file(b"something else"))).unwrap() {
        DeltaOutcome::Mismatch(s) => assert!(s.same_as(&Signature::new(&file(b"something else")).unwrap())),
        _ => panic!("the local copy differs"),
    }
    assert!(matches!(f.accept_delta(&sig, &delta, None).unwrap(), DeltaOutcome::NotTracked));
    let un = Signature::new_using(&base, Implementors::UnDelta).unwrap();
    let un_delta = un.diff(&new).unwrap();
    assert!(matches!(un_delta, Delta::UnDelta(_)));
    match f.accept_delta(&un, &un_delta, Some(base.clone())).unwrap() {
        DeltaOutcome::Patched(p) => assert_eq!(p.0, new.0),
        _ => panic!("the uncompressed method always applies"),
    }
    assert!(matches!(f.accept_file_changed(12, None).unwrap(), Response::Success));
    assert!(matches!(f.accept_file_changed(12, Some(base.clone())).unwrap(), Response::DeltaRequest(12, _)));
    match f.respond_delta(12, sig, Some(new.clone())).unwrap() {
        Request::FileDelta(12, _, _, d) => {
            let d: Delta = d;
            assert_eq!(d.patch(&base).unwrap().0, new.0);
        }
        _ => panic!("expected a difference"),
    }
    let s2 = Signature::new(&base).unwrap();
    assert!(matches!(f.respond_delta(12, s2, None), Err(FlushError::WhError { source: WhError::InodeNotFound })));
}

#[test]
fn first_ino_is_after_the_reserved_ones() {
    assert_eq!(FIRST_INO, 11);
}

#[test]
fn errors_name_their_error_numbers() {
    assert_eq!(WhError::InodeNotFound.to_errno(), Errno::ENOENT);
    assert_eq!(wormhole::pods::whpath::InodeNameError {}.to_errno(), Errno::EACCES);
    assert_eq!(wormhole::pods::whpath::ConversionError {}.to_errno(), Errno::EILSEQ);
}

#[test]
fn reading_goes_to_the_local_copy_or_to_the_hosts() {
    let f = fsi();
    let mut hs = FileHandles::new();
    hs.open(1, FileHandle { ino: 12, perm: AccessMode::Read, state: FlushState { signature: None, dirty: false } });
    hs.open(2, FileHandle { ino: 12, perm: AccessMode::Write, state: FlushState { signature: None, dirty: false } });
    assert!(matches!(f.read_file(12, &hs, 1), Ok(ReadSource::Local(p)) if p.as_string() == "a/f"));
    assert!(matches!(f.read_file(13, &hs, 1), Ok(ReadSource::Pull(h)) if h == vec![8]));
    assert!(matches!(f.read_file(12, &hs, 2), Err(ReadError::NoReadPermission)));
    assert!(matches!(f.read_file(12, &hs, 3), Err(ReadError::NoFileHandle)));
    assert!(matches!(
        f.read_file(11, &hs, 1),
        Err(ReadError::PullError { source: PullError::WhError { source: WhError::InodeIsADirectory } })
    ));
}
