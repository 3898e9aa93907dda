use wormhole::error::WhError;
use wormhole::pods::filesystem::fs_interface::SimpleFileType;
use wormhole::pods::filesystem::make_inode::MakeInodeError;
use wormhole::pods::filesystem::remove_inode::RemoveInodeError;
use wormhole::pods::itree::fsentry::SystemPath;
use wormhole::pods::filesystem::fs_interface::LocalCreation;
use wormhole::pods::itree::creation::{create_all_shared, index_entry};
use wormhole::pods::itree::fsentry::EntrySymlink;
use wormhole::pods::itree::fsentry::{FsEntry, SymlinkPath};
use wormhole::pods::itree::inode::{Inode, ROOT};
use wormhole::pods::itree::{ITree, FIRST_INO, GLOBAL_CONFIG_FNAME, GLOBAL_CONFIG_INO, LOCAL_CONFIG_INO};
use wormhole::pods::whpath::{InodeName, WhPath};
use wormhole::error::IoKind;

fn name(s: &str) -> InodeName {
    InodeName::try_from_str(s).unwrap()
}

fn dir(n: &str, parent: u64, id: u64) -> Inode {
    Inode::new(name(n), parent, id, FsEntry::new_directory(), 0o755)
}

fn file(n: &str, parent: u64, id: u64, hosts: Vec<u64>) -> Inode {
    Inode::new(name(n), parent, id, FsEntry::File(hosts), 0o644)
}

/// root/a (dir 11), root/a/f (file 12, host 7), root/g (file 13, hosts 7 and 8)
fn sample() -> ITree {
    let mut t = ITree::new();
    t.add_inode(dir("a", ROOT, 11)).unwrap();
    t.add_inode(file("f", 11, 12, vec![7])).unwrap();
    t.add_inode(file("g", ROOT, 13, vec![7, 8])).unwrap();
    t
}

#[test]
fn new_tree_holds_the_root_only() {
    let t = ITree::new();
    assert_eq!(t.len(), 1);
    assert_eq!(t.next_ino(), FIRST_INO);
    let root = t.get_inode(ROOT).unwrap();
    assert_eq!(root.meta.perm, 0o755);
    assert_eq!(root.meta.nlink, 2);
    assert!(matches!(t.get_inode(42), Err(WhError::InodeNotFound)));
}

#[test]
fn add_inode_refuses_bad_parents_and_duplicates() {
    let mut t = sample();
    assert!(matches!(t.add_inode(file("x", 12, 20, vec![])), Err(MakeInodeError::ParentNotFolder)));
    assert!(matches!(t.add_inode(file("x", 99, 20, vec![])), Err(MakeInodeError::ParentNotFound)));
    assert!(matches!(t.add_inode(file("x", ROOT, 12, vec![])), Err(MakeInodeError::AlreadyExist)));
    assert_eq!(t.len(), 4);
}

#[test]
fn paths_lead_back_to_their_inodes() {
    let t = sample();
    let p = t.get_path_from_inode_id(12).unwrap();
    assert_eq!(p.as_string(), "a/f");
    assert_eq!(t.get_inode_from_path(&p).unwrap().id, 12);
    assert_eq!(t.get_path_from_inode_id(ROOT).unwrap().as_string(), "");
    assert!(matches!(t.get_path_from_inode_id(99), Err(WhError::InodeNotFound)));
    let missing = WhPath::try_from_str("a/nope").unwrap();
    assert!(matches!(t.get_inode_from_path(&missing), Err(WhError::InodeNotFound)));
    let through_file = WhPath::try_from_str("g/x").unwrap();
    assert!(matches!(t.get_inode_from_path(&through_file), Err(WhError::InodeIsNotADirectory)));
}

#[test]
fn child_by_name() {
    let t = sample();
    let root = t.get_inode(ROOT).unwrap();
    assert_eq!(t.get_inode_child_by_name(root, "g").unwrap().id, 13);
    assert!(matches!(t.get_inode_child_by_name(root, "h"), Err(WhError::InodeNotFound)));
    let g = t.get_inode(13).unwrap();
    assert!(matches!(t.get_inode_child_by_name(g, "h"), Err(WhError::InodeIsNotADirectory)));
}

#[test]
fn inos_are_reserved_once() {
    let mut t = ITree::new();
    assert_eq!(t.reserve_ino().unwrap(), FIRST_INO);
    assert_eq!(t.reserve_ino().unwrap(), FIRST_INO + 1);
    assert!(t.mark_reserved_ino(5).is_err());
    t.mark_reserved_ino(100).unwrap();
    assert_eq!(t.reserve_ino().unwrap(), 101);
}

#[test]
fn special_names() {
    assert_eq!(ITree::get_special(GLOBAL_CONFIG_FNAME, ROOT), Some(GLOBAL_CONFIG_INO));
    assert_eq!(ITree::get_special(GLOBAL_CONFIG_FNAME, 11), None);
    assert_eq!(ITree::get_special("other", ROOT), None);
    assert!(ITree::is_special(10));
    assert!(!ITree::is_special(11));
    assert!(ITree::is_local_only(LOCAL_CONFIG_INO));
    assert!(!ITree::is_local_only(GLOBAL_CONFIG_INO));
}

#[test]
fn remove_inode_refuses_non_empty_directories() {
    let mut t = sample();
    assert!(matches!(t.remove_inode(11), Err(RemoveInodeError::NonEmpty)));
    assert_eq!(t.remove_inode(12).unwrap().id, 12);
    assert_eq!(t.remove_inode(11).unwrap().id, 11);
    assert!(matches!(
        t.remove_inode(11),
        Err(RemoveInodeError::WhError { source: WhError::InodeNotFound })
    ));
    assert_eq!(t.len(), 2);
}

#[test]
fn hosts_are_kept_sorted_without_repetition() {
    let mut t = sample();
    t.add_inode_hosts(13, &[9, 7, 1]).unwrap();
    assert_eq!(t.get_inode_hosts(13).unwrap(), &[1, 7, 8, 9]);
    t.remove_inode_hosts(13, &[7, 9]).unwrap();
    assert_eq!(t.get_inode_hosts(13).unwrap(), &[1, 8]);
    assert!(matches!(t.add_inode_hosts(11, &[1]), Err(WhError::InodeIsADirectory)));
    assert!(matches!(t.remove_inode_hosts(99, &[1]), Err(WhError::InodeNotFound)));
}

#[test]
fn files_hosted_only_by_one_peer() {
    let t = sample();
    let only7: Vec<u64> = t.files_hosted_only_by(7).iter().map(|i| i.id).collect();
    assert_eq!(only7, vec![12]);
    assert!(t.files_hosted_only_by(8).is_empty());
}

#[test]
fn forgetting_a_host() {
    let mut t = sample();
    t.remove_host_from_all(7);
    assert!(t.get_inode_hosts(12).unwrap().is_empty());
    assert_eq!(t.get_inode_hosts(13).unwrap(), &[8]);
    t.remove_host_from_all(7);
    assert_eq!(t.get_inode_hosts(13).unwrap(), &[8]);
    let mut inos = t.inos();
    inos.sort();
    assert_eq!(inos, vec![ROOT, 11, 12, 13]);
}

#[test]
fn moving_an_inode() {
    let mut t = sample();
    t.mv_inode(ROOT, 11, "g", name("h")).unwrap();
    assert_eq!(t.get_path_from_inode_id(13).unwrap().as_string(), "a/h");
    assert!(matches!(t.mv_inode(ROOT, 11, "g", name("h")), Err(WhError::InodeNotFound)));
    assert!(matches!(t.mv_inode(12, 11, "x", name("y")), Err(WhError::InodeIsNotADirectory)));
    assert!(t.is_within(13, 11));
    assert!(!t.is_within(11, 13));
}

#[test]
fn metadata_and_extended_attributes() {
    let mut t = sample();
    t.set_inode_size(12, 42).unwrap();
    assert_eq!(t.get_inode(12).unwrap().meta.size, 42);
    t.set_inode_xattr(12, "user.k", vec![1, 2]).unwrap();
    assert_eq!(t.get_inode(12).unwrap().xattrs.get("user.k"), Some(&vec![1, 2]));
    t.remove_inode_xattr(12, "user.k").unwrap();
    assert!(!t.get_inode(12).unwrap().xattrs.contains_key("user.k"));
    assert!(matches!(t.set_inode_size(99, 1), Err(WhError::InodeNotFound)));
}

#[test]
fn clean_local_drops_the_local_configuration() {
    let mut t = sample();
    t.add_inode(file(".local_config.toml", ROOT, LOCAL_CONFIG_INO, vec![7])).unwrap();
    let cleaned = t.clean_local();
    assert!(cleaned.get_inode(LOCAL_CONFIG_INO).is_err());
    let root = cleaned.get_inode(ROOT).unwrap();
    assert!(cleaned.get_inode_child_by_name(root, ".local_config.toml").is_err());
    assert_eq!(cleaned.len(), 4);
}

#[test]
fn indexing_entries() {
    let mut t = ITree::new();
    let meta = t.get_inode(ROOT).unwrap().meta;
    let d = index_entry(&mut t, ROOT, "docs", SimpleFileType::Directory, 0o700, meta, "", 7, "/mnt/pod").unwrap();
    assert_eq!(d, FIRST_INO);
    assert_eq!(t.get_inode(d).unwrap().meta.ino, d);
    let f = index_entry(&mut t, d, "a.txt", SimpleFileType::File, 0o600, meta, "", 7, "/mnt/pod").unwrap();
    assert_eq!(t.get_inode_hosts(f).unwrap(), &[7]);
    let l = index_entry(&mut t, ROOT, "link", SimpleFileType::Symlink, 0o777, meta, "/mnt/pod/docs/a.txt", 7, "/mnt/pod")
        .unwrap();
    match &t.get_inode(l).unwrap().entry {
        FsEntry::Symlink(s) => match &s.target {
            SymlinkPath::SymlinkPathAbsolute(p) => assert_eq!(p.as_string(), "docs/a.txt"),
            _ => panic!("expected a link inside the drive"),
        },
        _ => panic!("expected a link"),
    }
    let g = index_entry(&mut t, ROOT, GLOBAL_CONFIG_FNAME, SimpleFileType::File, 0o600, meta, "", 7, "/mnt/pod").unwrap();
    assert_eq!(g, GLOBAL_CONFIG_INO);
    assert!(matches!(
        index_entry(&mut t, ROOT, ".local_config.toml", SimpleFileType::Directory, 0o600, meta, "", 7, "/mnt/pod"),
        Err(IoKind::InvalidData)
    ));
    assert!(matches!(
        index_entry(&mut t, ROOT, "a/b", SimpleFileType::File, 0o600, meta, "", 7, "/mnt/pod"),
        Err(IoKind::InvalidFilename)
    ));
}

#[test]
fn joining_makes_directories_and_links_parents_first() {
    let mut t = sample();
    t.add_inode(dir("b", 11, 14)).unwrap();
    t.add_inode(dir("c", 14, 15)).unwrap();
    t.add_inode(Inode::new(name("l"), 14, 16, FsEntry::Symlink(EntrySymlink::default()), 0o777)).unwrap();
    let made: Vec<(String, u16, bool)> = create_all_shared(&t, ROOT)
        .unwrap()
        .into_iter()
        .map(|c| match c {
            LocalCreation::Dir(p, perm) => (p.as_string(), perm, false),
            LocalCreation::Symlink(p, perm, _) => (p.as_string(), perm, true),
            other => panic!("unexpected creation {other:?}"),
        })
        .collect();
    assert_eq!(made.len(), 4);
    assert_eq!(made[0], ("a".to_string(), 0o755, false));
    assert_eq!(made[1], ("a/b".to_string(), 0o755, false));
    let rest: Vec<&(String, u16, bool)> = made[2..].iter().collect();
    assert!(rest.contains(&&("a/b/c".to_string(), 0o755, false)));
    assert!(rest.contains(&&("a/b/l".to_string(), 0o777, true)));
    let below: Vec<String> = create_all_shared(&t, 14)
        .unwrap()
        .into_iter()
        .map(|c| match c {
            LocalCreation::Dir(p, _) => p.as_string(),
            LocalCreation::Symlink(p, _, _) => p.as_string(),
            other => panic!("unexpected creation {other:?}"),
        })
        .collect();
    assert_eq!(below[0], "a/b".to_string());
    assert_eq!(below.len(), 3);
    assert!(below.contains(&"a/b/c".to_string()) && below.contains(&"a/b/l".to_string()));
    assert!(matches!(create_all_shared(&t, 99), Err(WhError::InodeNotFound)));
}

#[test]
fn removing_what_was_added_gives_the_tree_back() {
    let mut t = sample();
    let before: Vec<u64> = t.get_inode(11).unwrap().entry.get_children().unwrap().clone();
    let n = t.len();
    t.add_inode(file("new", 11, 20, vec![7])).unwrap();
    assert_eq!(t.len(), n + 1);
    let removed = t.remove_inode(20).unwrap();
    assert_eq!(removed.id, 20);
    assert_eq!(t.len(), n);
    assert_eq!(t.get_inode(11).unwrap().entry.get_children().unwrap(), &before);
    assert!(t.get_inode(20).is_err());
}

#[test]
fn listing_shows_what_is_not_a_directory_depth_first() {
    let t = sample();
    let lines: Vec<(u8, u64, String)> = t
        .get_file_tree_and_hosts(None)
        .unwrap()
        .into_iter()
        .map(|(ind, ino, path, _)| (ind, ino, path.as_string()))
        .collect();
    assert_eq!(lines, vec![(2, 12, "a/f".to_string()), (1, 13, "g".to_string())]);
    let a = WhPath::try_from_str("a").unwrap();
    let under_a = t.get_file_tree_and_hosts(Some(&a)).unwrap();
    assert_eq!(under_a.len(), 1);
    assert_eq!((under_a[0].0, under_a[0].1), (1, 12));
    assert!(matches!(under_a[0].3, FsEntry::File(ref h) if h == &vec![7]));
    let g = WhPath::try_from_str("g").unwrap();
    let only_g = t.get_file_tree_and_hosts(Some(&g)).unwrap();
    assert_eq!((only_g[0].0, only_g[0].1, only_g[0].2.as_string()), (0, 13, "g".to_string()));
    let missing = WhPath::try_from_str("zz").unwrap();
    assert!(matches!(t.get_file_tree_and_hosts(Some(&missing)), Err(WhError::InodeNotFound)));
}

#[test]
fn a_copied_tree_has_the_same_inodes() {
    let t = sample();
    let c = t.clone();
    assert_eq!(c.len(), t.len());
    assert_eq!(c.next_ino(), t.next_ino());
    assert_eq!(c.get_path_from_inode_id(12).unwrap().as_string(), "a/f");
    assert_eq!(c.get_inode_hosts(13).unwrap(), &[7, 8]);
}

#[test]
fn adding_the_same_hosts_twice_changes_nothing_more() {
    let mut t = sample();
    t.add_inode_hosts(13, &[9, 7, 1]).unwrap();
    let once = t.get_inode_hosts(13).unwrap().to_vec();
    t.add_inode_hosts(13, &[9, 7, 1]).unwrap();
    assert_eq!(t.get_inode_hosts(13).unwrap(), &once[..]);
    assert_eq!(once, vec![1, 7, 8, 9]);
}

fn text(p: SystemPath) -> String {
    match p {
        SystemPath::Text(t) => t,
        SystemPath::Bytes(_) => panic!("expected a text path"),
    }
}

#[test]
fn link_targets_as_paths_of_the_system() {
    let rel = SymlinkPath::SymlinkPathRelative("../x".to_string());
    let abs = SymlinkPath::SymlinkPathAbsolute(WhPath::try_from_str("a/b").unwrap());
    let ext = SymlinkPath::SymlinkPathExternal(b"/etc/hosts".to_vec());
    assert_eq!(text(rel.realize("/mnt")), "../x");
    assert_eq!(text(abs.realize("/mnt")), "/mnt/a/b");
    assert_eq!(text(abs.realize("/mnt/")), "/mnt/a/b");
    assert!(matches!(ext.realize("/mnt"), SystemPath::Bytes(b) if b == b"/etc/hosts".to_vec()));
    let link = WhPath::try_from_str("d/e/link").unwrap();
    assert_eq!(text(rel.resolve("/mnt", &link)), "/mnt/d/e/../x");
    assert_eq!(text(abs.resolve("/mnt", &link)), "/mnt/a/b");
    assert_eq!(text(rel.resolve("/mnt", &WhPath::root())), "/mnt/../x");
}
