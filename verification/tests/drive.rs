use std::sync::Arc;

use wormhole::error::WhError;
use wormhole::network::message::{Request, Response};
use wormhole::pods::filesystem::flush::FlushError;
use wormhole::pods::filesystem::write::WriteError;
use wormhole::pods::disk_managers::dummy_disk_manager::DummyDiskManager;
use wormhole::pods::drive::Drive;
use wormhole::pods::filesystem::diffs::{Implementors, Sig, Signature};
use wormhole::pods::filesystem::file_handle::{AccessMode, FileHandle, FileHandles};
use wormhole::pods::filesystem::flush::FlushState;
use wormhole::pods::filesystem::read::ReadError;
use wormhole::pods::network::pull_file::PullError;
use wormhole::pods::filesystem::fs_interface::{FsInterface, SimpleFileType};
use wormhole::pods::filesystem::make_inode::MakeInodeError;
use wormhole::pods::filesystem::remove_inode::RemoveFileError;
use wormhole::pods::filesystem::rename::RenameError;
use wormhole::pods::filesystem::File;
use wormhole::pods::itree::fsentry::FsEntry;
use wormhole::pods::itree::inode::{Inode, ROOT};
use wormhole::pods::itree::{ITree, GLOBAL_CONFIG_FNAME, GLOBAL_CONFIG_INO};
use wormhole::pods::network::network_interface::NetworkInterface;
use wormhole::pods::pod::PodStopError;
use wormhole::pods::whpath::{InodeName, WhPath};

const ME: u64 = 7;

fn drive() -> Drive<DummyDiskManager> {
    let fs = FsInterface::new(NetworkInterface::new(ITree::new(), ME, vec![8]));
    Drive::new(fs, DummyDiskManager::new("/mnt").unwrap())
}

fn p(s: &str) -> WhPath {
    WhPath::try_from_str(s).unwrap()
}

fn name(s: &str) -> InodeName {
    InodeName::try_from_str(s).unwrap()
}

fn opened(ino: u64, perm: AccessMode, signature: Option<Signature>) -> FileHandles {
    let mut hs = FileHandles::new();
    hs.open(1, FileHandle { ino, perm, state: FlushState { signature, dirty: false } });
    hs
}

fn on_disk(d: &Drive<DummyDiskManager>, path: &str) -> Vec<u8> {
    let mut buf = vec![0u8; 64];
    let n = d.disk.read_file(&p(path), 0, &mut buf).unwrap();
    buf.truncate(n);
    buf
}

#[test]
fn made_entries_are_on_disk_in_the_tree_and_told() {
    let mut d = drive();
    let dir = d.make_inode(ROOT, "docs", 0o755, SimpleFileType::Directory).unwrap();
    let file = d.make_inode(dir.id, "a.txt", 0o644, SimpleFileType::File).unwrap();
    assert!(d.disk.file_exists(&p("docs")));
    assert!(d.disk.file_exists(&p("docs/a.txt")));
    assert_eq!(d.fs.network_interface.itree.get_inode(file.id).unwrap().parent, dir.id);
    assert_eq!(d.outbox.len(), 2);
    assert!(matches!(&d.outbox[1], (None, Request::Inode(i)) if i.id == file.id));
    assert!(matches!(
        d.make_inode(dir.id, "a.txt", 0o644, SimpleFileType::File),
        Err(MakeInodeError::AlreadyExist)
    ));
    assert!(matches!(
        d.make_inode(ROOT, "x/y", 0o644, SimpleFileType::File),
        Err(MakeInodeError::LocalCreationFailed { .. })
    ));
    assert!(matches!(
        d.make_inode(ROOT, "l", 0o777, SimpleFileType::Symlink),
        Err(MakeInodeError::LocalCreationFailed { .. })
    ));
    assert_eq!(d.outbox.len(), 2);
}

#[test]
fn writes_reach_the_disk_and_flushes_tell_the_peers() {
    let mut d = drive();
    let f = d.make_inode(ROOT, "f", 0o644, SimpleFileType::File).unwrap();
    let mut hs = opened(f.id, AccessMode::ReadWrite, None);
    assert_eq!(d.write(f.id, b"hello", 0, &mut hs, 1).unwrap(), 5);
    assert!(hs.handles[0].1.state.dirty);
    assert_eq!(on_disk(&d, "f"), b"hello".to_vec());
    assert_eq!(d.fs.get_inode_attributes(f.id).unwrap().size, 5);
    d.outbox.clear();
    d.flush(f.id, &mut hs.handles[0].1.state, vec![]).unwrap();
    assert!(matches!(&d.outbox[..], [(None, Request::FileChanged(i, m))] if *i == f.id && m.size == 5));
}

#[test]
fn a_flush_with_a_signature_sends_a_difference_to_the_hosts() {
    let mut d = drive();
    let f = d.make_inode(ROOT, "f", 0o644, SimpleFileType::File).unwrap();
    let sig = Signature::new_using(&File(Arc::new(Vec::new())), Implementors::RSync).unwrap();
    let mut hs = opened(f.id, AccessMode::Write, Some(sig));
    d.write(f.id, b"new contents", 0, &mut hs, 1).unwrap();
    d.outbox.clear();
    d.flush(f.id, &mut hs.handles[0].1.state, vec![]).unwrap();
    assert!(!hs.handles[0].1.state.dirty);
    assert_eq!(d.outbox.len(), 1);
    assert!(matches!(&d.outbox[0], (Some(8), Request::FileChanged(i, _)) if *i == f.id));
    d.outbox.clear();
    d.flush(f.id, &mut hs.handles[0].1.state, vec![]).unwrap();
    assert!(d.outbox.is_empty());
}

#[test]
fn a_difference_sent_by_a_peer_patches_the_local_copy() {
    let mut a = drive();
    let f = a.make_inode(ROOT, "f", 0o644, SimpleFileType::File).unwrap();
    a.write(f.id, b"old contents", 0, &mut opened(f.id, AccessMode::Write, None), 1).unwrap();
    let old = File(Arc::new(b"old contents".to_vec()));
    let sig = Signature::new_using(&old, Implementors::RSync).unwrap();
    let new = File(Arc::new(b"brand new contents".to_vec()));
    let delta = sig.diff(&new).unwrap();
    let mut meta = a.fs.get_inode_attributes(f.id).unwrap();
    meta.size = 18;
    let answer = a.handle_request_message(Request::FileDelta(f.id, meta, sig, delta), 8);
    assert!(matches!(answer, Response::Success));
    assert_eq!(on_disk(&a, "f"), b"brand new contents".to_vec());
    assert_eq!(a.fs.get_inode_attributes(f.id).unwrap().size, 18);
}

#[test]
fn a_difference_against_another_copy_is_asked_again() {
    let mut a = drive();
    let f = a.make_inode(ROOT, "f", 0o644, SimpleFileType::File).unwrap();
    a.write(f.id, b"local", 0, &mut opened(f.id, AccessMode::Write, None), 1).unwrap();
    let sig = Signature::new_using(&File(Arc::new(b"elsewhere".to_vec())), Implementors::RSync).unwrap();
    let delta = sig.diff(&File(Arc::new(b"x".to_vec()))).unwrap();
    let meta = a.fs.get_inode_attributes(f.id).unwrap();
    let answer = a.handle_request_message(Request::FileDelta(f.id, meta, sig, delta), 8);
    assert!(matches!(answer, Response::DeltaRequest(i, _) if i == f.id));
    assert_eq!(on_disk(&a, "f"), b"local".to_vec());
}

#[test]
fn renames_move_on_disk_and_in_the_tree() {
    let mut d = drive();
    let dir = d.make_inode(ROOT, "dir", 0o755, SimpleFileType::Directory).unwrap();
    let f = d.make_inode(ROOT, "f", 0o644, SimpleFileType::File).unwrap();
    d.outbox.clear();
    d.rename(ROOT, dir.id, &name("f"), &name("g"), false, vec![]).unwrap();
    assert!(d.disk.file_exists(&p("dir/g")));
    assert!(!d.disk.file_exists(&p("f")));
    assert_eq!(d.fs.network_interface.itree.get_path_from_inode_id(f.id).unwrap().as_string(), "dir/g");
    assert!(matches!(&d.outbox[..], [(None, Request::Rename(p, np, _, _, false))] if *p == ROOT && *np == dir.id));
    d.make_inode(ROOT, "h", 0o644, SimpleFileType::File).unwrap();
    assert!(matches!(
        d.rename(ROOT, dir.id, &name("h"), &name("g"), false, vec![]),
        Err(RenameError::DestinationExists)
    ));
    d.rename(ROOT, dir.id, &name("h"), &name("g"), true, vec![]).unwrap();
    assert!(d.fs.network_interface.itree.get_inode(f.id).is_err());
    assert!(matches!(d.rename(ROOT, ROOT, &name("zz"), &name("y"), false, vec![]), Err(RenameError::SourceParentNotFound)));
}

#[test]
fn removals_leave_disk_and_tree() {
    let mut d = drive();
    let dir = d.make_inode(ROOT, "dir", 0o755, SimpleFileType::Directory).unwrap();
    let f = d.make_inode(dir.id, "f", 0o644, SimpleFileType::File).unwrap();
    assert!(matches!(d.remove_inode(dir.id), Err(RemoveFileError::NonEmpty)));
    d.outbox.clear();
    d.fuse_remove_inode(dir.id, &name("f")).unwrap();
    assert!(!d.disk.file_exists(&p("dir/f")));
    assert!(d.fs.network_interface.itree.get_inode(f.id).is_err());
    assert!(matches!(&d.outbox[..], [(None, Request::Remove(i))] if *i == f.id));
    d.remove_inode(dir.id).unwrap();
    assert!(!d.disk.file_exists(&p("dir")));
}

#[test]
fn requests_of_peers_are_answered() {
    let mut d = drive();
    let inode = Inode::new(name("shared"), ROOT, 30, FsEntry::File(vec![ME]), 0o644);
    assert!(matches!(d.handle_request_message(Request::Inode(inode), 8), Response::Success));
    assert!(d.disk.file_exists(&p("shared")));
    let elsewhere = Inode::new(name("far"), ROOT, 31, FsEntry::File(vec![8]), 0o644);
    assert!(matches!(d.handle_request_message(Request::Inode(elsewhere), 8), Response::Success));
    assert!(!d.disk.file_exists(&p("far")));
    assert!(matches!(d.handle_request_message(Request::AddHosts(31, vec![9]), 8), Response::Success));
    assert_eq!(d.fs.network_interface.itree.get_inode_hosts(31).unwrap(), &[8, 9]);
    assert!(matches!(d.handle_request_message(Request::RedundancyFile(31, b"copy".to_vec()), 8), Response::Success));
    assert_eq!(on_disk(&d, "far"), b"copy".to_vec());
    assert_eq!(d.fs.network_interface.itree.get_inode_hosts(31).unwrap(), &[7, 8, 9]);
    assert!(matches!(d.handle_request_message(Request::RequestFile(31), 8), Response::RequestedFile(v) if v.is_empty()));
    assert!(matches!(
        d.handle_request_message(Request::RequestFs, 8),
        Response::FsAnswer(t, p) if t.len() == d.fs.network_interface.itree.len() && p.is_empty()
    ));
    assert!(matches!(d.handle_request_message(Request::Remove(30), 8), Response::Success));
    assert!(!d.disk.file_exists(&p("shared")));
    assert!(matches!(d.handle_request_message(Request::Remove(30), 8), Response::Failed));
    assert!(matches!(d.handle_request_message(Request::Leave, 8), Response::Success));
    assert!(d.fs.network_interface.peers.is_empty());
    assert_eq!(d.fs.network_interface.itree.get_inode_hosts(31).unwrap(), &[7, 9]);
    assert!(matches!(
        d.handle_request_message(Request::Rename(ROOT, ROOT, name("far"), name("near"), false), 8),
        Response::Success
    ));
    assert!(d.disk.file_exists(&p("near")));
}

#[test]
fn writes_and_flushes_of_what_is_not_a_file_fail() {
    let mut d = drive();
    let mut handle = FlushState { signature: None, dirty: false };
    let mut hs = opened(99, AccessMode::Write, None);
    assert!(matches!(
        d.write(99, b"x", 0, &mut hs, 1),
        Err(WriteError::WhError { source: WhError::InodeNotFound })
    ));
    assert!(matches!(d.flush(99, &mut handle, vec![]), Err(FlushError::WhError { source: WhError::InodeNotFound })));
    assert!(matches!(d.flush(ROOT, &mut handle, vec![]), Err(FlushError::WhError { source: WhError::InodeIsADirectory })));
    assert!(d.outbox.is_empty());
}

#[test]
fn a_rename_by_a_peer_of_a_file_not_held_here_only_moves_the_tree() {
    let mut d = drive();
    let far = Inode::new(name("far"), ROOT, 31, FsEntry::File(vec![8]), 0o644);
    d.recept_inode(far).unwrap();
    let answer = d.recept_rename(ROOT, ROOT, name("far"), name("near"), false).unwrap();
    assert!(matches!(answer, Response::Success));
    assert_eq!(d.fs.network_interface.itree.get_path_from_inode_id(31).unwrap().as_string(), "near");
    assert!(d.outbox.is_empty());
}

#[test]
fn writes_need_a_handle_open_for_writing() {
    let mut d = drive();
    let f = d.make_inode(ROOT, "f", 0o644, SimpleFileType::File).unwrap();
    let mut hs = opened(f.id, AccessMode::Read, None);
    assert!(matches!(d.write(f.id, b"x", 0, &mut hs, 2), Err(WriteError::NoFileHandle)));
    assert!(matches!(d.write(f.id, b"x", 0, &mut hs, 1), Err(WriteError::NoWritePermission)));
    assert!(!hs.handles[0].1.state.dirty);
    assert_eq!(on_disk(&d, "f"), Vec::<u8>::new());
    hs.open(3, FileHandle { ino: f.id, perm: AccessMode::Execute, state: FlushState { signature: None, dirty: false } });
    assert!(matches!(d.write(f.id, b"x", 0, &mut hs, 3), Err(WriteError::NoWritePermission)));
}

#[test]
fn saving_the_tree_makes_its_file_and_writes_it() {
    let mut d = drive();
    d.save_tree(b"tree bytes").unwrap();
    assert_eq!(on_disk(&d, ".itree"), b"tree bytes".to_vec());
    d.save_tree(b"again").unwrap();
    assert_eq!(&on_disk(&d, ".itree")[..5], b"again");
    d.stop_disk().unwrap();
}

#[test]
fn a_rename_onto_a_protected_name_copies_the_contents_into_a_new_entry() {
    let mut d = drive();
    let src = d.make_inode(ROOT, "draft", 0o644, SimpleFileType::File).unwrap();
    let mut hs = opened(src.id, AccessMode::Write, None);
    d.write(src.id, b"short", 0, &mut hs, 1).unwrap();
    let old = d.make_inode(ROOT, ".global_config.toml", 0o644, SimpleFileType::File).unwrap();
    let mut hs2 = opened(old.id, AccessMode::Write, None);
    d.write(old.id, b"a much longer former text", 0, &mut hs2, 1).unwrap();
    d.rename(ROOT, ROOT, &name("draft"), &name(".global_config.toml"), true, vec![]).unwrap();
    assert_eq!(on_disk(&d, ".global_config.toml"), b"short".to_vec());
    assert!(d.fs.get_inode_attributes(src.id).is_err());
    assert!(!d.disk.file_exists(&p("draft")));
}

#[test]
fn files_offered_before_stopping_are_read_from_the_disk() {
    let mut d = drive();
    let f = d.make_inode(ROOT, "f", 0o644, SimpleFileType::File).unwrap();
    d.write(f.id, b"kept", 0, &mut opened(f.id, AccessMode::Write, None), 1).unwrap();
    assert_eq!(d.offer_contents(f.id).unwrap(), b"kept".to_vec());
    assert!(matches!(d.offer_contents(99), Err(PodStopError::FileNotReadable { file: 99, .. })));
}

#[test]
fn a_flush_of_a_file_held_elsewhere_pulls_its_contents() {
    let mut d = drive();
    let far = Inode::new(name("far"), ROOT, 31, FsEntry::File(vec![8]), 0o644);
    d.recept_inode(far).unwrap();
    let sig = Signature::new_using(&File(Arc::new(Vec::new())), Implementors::RSync).unwrap();
    let mut state = FlushState { signature: Some(sig), dirty: true };
    assert!(matches!(
        d.flush(31, &mut state, vec![None]),
        Err(FlushError::ReadError { source: ReadError::PullError { source: PullError::NoHostAvailable } })
    ));
    assert!(state.dirty);
    d.outbox.clear();
    d.flush(31, &mut state, vec![None, Some(Response::RequestedFile(b"remote".to_vec()))]).unwrap();
    assert!(!state.dirty);
    assert!(matches!(&d.outbox[..], [(Some(8), Request::FileDelta(i, _, _, _))] if *i == 31));
    assert!(!d.disk.file_exists(&p("far")));
    let pulled = File(Arc::new(b"remote".to_vec()));
    let expected = Signature::new_using(&pulled, Implementors::RSync).unwrap();
    assert!(state.signature.as_ref().unwrap().same_as(&expected));
}

#[test]
fn a_protected_rename_of_a_file_held_elsewhere_pulls_it() {
    let mut d = drive();
    let far = Inode::new(name("far"), ROOT, 31, FsEntry::File(vec![8]), 0o644);
    d.recept_inode(far).unwrap();
    assert!(matches!(
        d.rename(ROOT, ROOT, &name("far"), &name(".global_config.toml"), false, vec![None]),
        Err(RenameError::ReadFailed { source: ReadError::PullError { source: PullError::NoHostAvailable } })
    ));
    assert!(d.fs.get_inode_attributes(31).is_ok());
    d.outbox.clear();
    d.rename(
        ROOT,
        ROOT,
        &name("far"),
        &name(".global_config.toml"),
        false,
        vec![Some(Response::RequestedFile(b"pulled".to_vec()))],
    )
    .unwrap();
    assert_eq!(on_disk(&d, ".global_config.toml"), b"pulled".to_vec());
    assert!(d.fs.get_inode_attributes(31).is_err());
}

#[test]
fn reads_go_to_the_disk_or_to_the_pulled_contents() {
    let mut d = drive();
    let f = d.make_inode(ROOT, "f", 0o644, SimpleFileType::File).unwrap();
    let mut hs = opened(f.id, AccessMode::ReadWrite, None);
    d.write(f.id, b"hello world", 0, &mut hs, 1).unwrap();
    let mut buf = [0u8; 5];
    assert_eq!(d.read_file(f.id, 6, &mut buf, &hs, 1, vec![]).unwrap(), 5);
    assert_eq!(&buf, b"world");
    assert!(matches!(d.read_file(f.id, 0, &mut buf, &hs, 2, vec![]), Err(ReadError::NoFileHandle)));
    let w = opened(f.id, AccessMode::Write, None);
    assert!(matches!(d.read_file(f.id, 0, &mut buf, &w, 1, vec![]), Err(ReadError::NoReadPermission)));
    assert!(matches!(
        d.read_file(99, 0, &mut buf, &hs, 1, vec![]),
        Err(ReadError::PullError { source: PullError::WhError { source: WhError::InodeNotFound } })
    ));
    let far = Inode::new(name("far"), ROOT, 31, FsEntry::File(vec![8]), 0o644);
    d.recept_inode(far).unwrap();
    let mut big = [9u8; 8];
    let answers = vec![None, Some(Response::RequestedFile(b"remote!".to_vec()))];
    assert_eq!(d.read_file(31, 2, &mut big, &hs, 1, answers).unwrap(), 5);
    assert_eq!(&big, b"mote!\x09\x09\x09");
    assert_eq!(d.read_file(31, 9, &mut big, &hs, 1, vec![Some(Response::RequestedFile(b"remote!".to_vec()))]).unwrap(), 0);
    assert!(matches!(
        d.read_file(31, 0, &mut big, &hs, 1, vec![None]),
        Err(ReadError::PullError { source: PullError::NoHostAvailable })
    ));
}

#[test]
fn joining_makes_the_folders_and_writes_the_configuration() {
    let mut t = ITree::new();
    t.add_inode(Inode::new(name("docs"), ROOT, 40, FsEntry::new_directory(), 0o755)).unwrap();
    t.add_inode(Inode::new(name("sub"), 40, 41, FsEntry::new_directory(), 0o700)).unwrap();
    t.add_inode(Inode::new(name("far"), 41, 42, FsEntry::File(vec![8]), 0o644)).unwrap();
    t.add_inode(Inode::new(name(GLOBAL_CONFIG_FNAME), ROOT, GLOBAL_CONFIG_INO, FsEntry::File(vec![8]), 0o644)).unwrap();
    let fs = FsInterface::new(NetworkInterface::new(t, ME, vec![8]));
    let mut d = Drive::new(fs, DummyDiskManager::new("/mnt").unwrap());
    d.initiate_itree(b"name = \"net\"").unwrap();
    assert!(d.disk.file_exists(&p("docs")));
    assert!(d.disk.file_exists(&p("docs/sub")));
    assert!(!d.disk.file_exists(&p("docs/sub/far")));
    assert_eq!(on_disk(&d, GLOBAL_CONFIG_FNAME), b"name = \"net\"".to_vec());
    d.initiate_itree(b"x").unwrap();
    assert_eq!(on_disk(&d, GLOBAL_CONFIG_FNAME), b"x".to_vec());
}

#[test]
fn releasing_a_written_file_sends_its_changes() {
    let mut d = drive();
    let f = d.make_inode(ROOT, "f", 0o644, SimpleFileType::File).unwrap();
    let mut hs = opened(f.id, AccessMode::ReadWrite, None);
    hs.open(2, FileHandle { ino: f.id, perm: AccessMode::Read, state: FlushState { signature: None, dirty: false } });
    d.write(f.id, b"data", 0, &mut hs, 1).unwrap();
    d.outbox.clear();
    assert_eq!(d.release(&mut hs, 1, vec![]).unwrap(), true);
    assert!(matches!(&d.outbox[..], [(None, Request::FileChanged(i, m))] if *i == f.id && m.size == 4));
    assert_eq!(hs.handles.len(), 1);
    assert!(matches!(d.release(&mut hs, 1, vec![]), Err(FlushError::WhError { source: WhError::InodeNotFound })));
    d.outbox.clear();
    assert_eq!(d.release(&mut hs, 2, vec![]).unwrap(), false);
    assert!(d.outbox.is_empty());
    assert!(hs.handles.is_empty());
}

#[test]
fn the_local_copy_is_read_whole() {
    let mut d = drive();
    let f = d.make_inode(ROOT, "f", 0o644, SimpleFileType::File).unwrap();
    d.write(f.id, b"hey", 0, &mut opened(f.id, AccessMode::Write, None), 1).unwrap();
    assert_eq!(d.read_local_file(f.id).unwrap(), b"hey".to_vec());
    assert!(matches!(d.read_local_file(99), Err(WhError::InodeNotFound)));
}
