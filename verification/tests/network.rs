use wormhole::error::WhError;
use wormhole::network::message::{Request, Response};
use wormhole::pods::filesystem::remove_inode::RemoveInodeError;
use wormhole::pods::itree::fsentry::FsEntry;
use wormhole::pods::itree::inode::{Inode, WhTime, ROOT};
use wormhole::pods::itree::{ITree, LOCAL_CONFIG_INO};
use wormhole::pods::network::callbacks::{Callbacks, Request as Call};
use wormhole::pods::network::network_interface::NetworkInterface;
use wormhole::pods::network::pull_file::{pulled_file, PullError};
use wormhole::pods::network::redundancy::{eligible_to_apply, redundancy_targets, select_for_redundancy, RedundancyPush};
use wormhole::pods::whpath::InodeName;

fn name(s: &str) -> InodeName {
    InodeName::try_from_str(s).unwrap()
}

fn ni() -> NetworkInterface {
    let mut t = ITree::new();
    t.add_inode(Inode::new(name("f"), ROOT, 12, FsEntry::File(vec![3, 5]), 0o644)).unwrap();
    t.add_inode(Inode::new(name("g"), ROOT, 13, FsEntry::File(vec![5]), 0o644)).unwrap();
    NetworkInterface::new(t, 3, vec![5, 6])
}

#[test]
fn registering_and_unregistering() {
    let mut n = ni();
    let inode = Inode::new(name("h"), ROOT, 20, FsEntry::new_directory(), 0o755);
    assert!(matches!(n.register_new_inode(inode).unwrap(), Some(Request::Inode(i)) if i.id == 20));
    let local = Inode::new(name(".local_config.toml"), ROOT, LOCAL_CONFIG_INO, FsEntry::File(vec![3]), 0o600);
    assert!(n.register_new_inode(local).unwrap().is_none());
    assert!(matches!(n.unregister_inode(20).unwrap(), Some(Request::Remove(20))));
    assert!(n.unregister_inode(LOCAL_CONFIG_INO).unwrap().is_none());
    assert!(matches!(
        n.unregister_inode(20),
        Err(RemoveInodeError::WhError { source: WhError::InodeNotFound })
    ));
    let again = Inode::new(name("k"), ROOT, 40, FsEntry::File(vec![6]), 0o644);
    n.acknowledge_new_file(again).unwrap();
    assert_eq!(n.itree.next_ino(), 41);
    assert_eq!(n.acknowledge_unregister_inode(40).unwrap().id, 40);
}

#[test]
fn hosts_requests() {
    let mut n = ni();
    assert!(matches!(n.add_inode_hosts(13, vec![6]).unwrap(), Some(Request::AddHosts(13, h)) if h == vec![6]));
    assert_eq!(n.itree.get_inode_hosts(13).unwrap(), &[5, 6]);
    n.aknowledge_new_hosts(13, vec![1]).unwrap();
    assert_eq!(n.itree.get_inode_hosts(13).unwrap(), &[1, 5, 6]);
    n.aknowledge_hosts_removal(13, vec![5]).unwrap();
    assert_eq!(n.itree.get_inode_hosts(13).unwrap(), &[1, 6]);
    assert!(matches!(n.add_inode_hosts(ROOT, vec![6]), Err(WhError::InodeIsADirectory)));
}

#[test]
fn metadata_times_before_the_epoch_are_kept() {
    let mut n = ni();
    let mut meta = n.itree.get_inode(12).unwrap().meta;
    let reference = meta;
    meta.size = 77;
    meta.atime = WhTime { since_epoch: false, secs: 3, nanos: 0 };
    meta.mtime = WhTime { since_epoch: true, secs: 99, nanos: 1 };
    match n.update_metadata(12, meta).unwrap() {
        Some(Request::EditMetadata(12, m)) => {
            assert_eq!(m.size, 77);
            assert_eq!(m.atime, reference.atime);
            assert_eq!(m.mtime, WhTime { since_epoch: true, secs: 99, nanos: 1 });
        }
        _ => panic!("expected a metadata request"),
    }
    assert_eq!(n.itree.get_inode(12).unwrap().meta.size, 77);
    assert!(matches!(n.update_metadata(99, meta), Err(WhError::InodeNotFound)));
}

#[test]
fn disconnecting_a_peer() {
    let mut n = ni();
    assert!(matches!(n.disconnect_peer(5).unwrap(), Response::Success));
    assert_eq!(n.peers, vec![6]);
    assert_eq!(n.itree.get_inode_hosts(12).unwrap(), &[3]);
    assert!(n.itree.get_inode_hosts(13).unwrap().is_empty());
}

#[test]
fn extended_attribute_requests() {
    let mut n = ni();
    assert!(matches!(n.set_inode_xattr(12, "k", vec![1]).unwrap(), Request::SetXAttr(12, k, d) if k == "k" && d == vec![1]));
    assert!(matches!(n.recept_inode_xattr(12, "j", vec![2]).unwrap(), Response::Success));
    assert!(matches!(n.remove_inode_xattr(12, "k").unwrap(), Request::RemoveXAttr(12, k) if k == "k"));
    assert!(matches!(n.recept_remove_inode_xattr(12, "j").unwrap(), Response::Success));
    assert!(matches!(n.set_inode_xattr(99, "k", vec![]), Err(WhError::InodeNotFound)));
}

#[test]
fn only_the_first_host_applies_redundancy() {
    let entry = FsEntry::File(vec![9, 4]);
    assert_eq!(eligible_to_apply(12, &entry, 3, 5, 4), Some(12));
    assert_eq!(eligible_to_apply(12, &entry, 3, 5, 9), None);
    assert_eq!(eligible_to_apply(12, &entry, 2, 5, 4), None);
    assert_eq!(eligible_to_apply(12, &entry, 3, 2, 4), None);
    assert_eq!(eligible_to_apply(LOCAL_CONFIG_INO, &entry, 3, 5, 4), None);
    assert_eq!(eligible_to_apply(12, &FsEntry::new_directory(), 3, 5, 4), None);
    assert_eq!(eligible_to_apply(12, &FsEntry::File(vec![]), 3, 5, 4), None);
}

#[test]
fn selecting_files_for_redundancy() {
    let n = ni();
    let mut selected = select_for_redundancy(&n.itree, 3, 4, 5);
    selected.sort();
    assert_eq!(selected, vec![13]);
    let mut mine = select_for_redundancy(&n.itree, 3, 4, 3);
    mine.sort();
    assert_eq!(mine, vec![12]);
}

#[test]
fn redundancy_targets_formula() {
    assert_eq!(redundancy_targets(3, 5), (2, 0));
    assert_eq!(redundancy_targets(5, 2), (2, 3));
    assert_eq!(redundancy_targets(3, 2), (2, 0));
    assert_eq!(redundancy_targets(1, 0), (0, 0));
}

#[test]
fn callbacks_let_one_caller_run() {
    let mut c = Callbacks::new();
    assert!(c.request(&Call::Pull(4)));
    assert!(!c.request(&Call::Pull(4)));
    assert!(c.request(&Call::GetSignature(4, "a".to_string())));
    assert!(!c.request(&Call::GetSignature(4, "a".to_string())));
    assert!(c.request(&Call::GetSignature(4, "b".to_string())));
    c.resolve(&Call::Pull(4)).unwrap();
    assert!(matches!(c.resolve(&Call::Pull(4)), Err(WhError::InodeNotFound)));
    assert!(c.request(&Call::Pull(4)));
    assert!(c.request(&Call::PullFs));
    assert!(Call::PullFs.same_as(&Call::PullFs));
    assert!(!Call::Pull(1).same_as(&Call::Pull(2)));
}

#[test]
fn pulling_asks_the_hosts_unless_held_here() {
    let mut n = ni();
    assert!(n.pull_file(12).unwrap().is_none());
    assert_eq!(n.pull_file(13).unwrap(), Some(vec![5]));
    assert!(matches!(n.pull_file(ROOT), Err(PullError::WhError { source: WhError::InodeIsADirectory })));
    assert!(matches!(n.pull_file(99), Err(PullError::WhError { source: WhError::InodeNotFound })));
    n.aknowledge_hosts_removal(13, vec![5]).unwrap();
    assert!(matches!(n.pull_file(13), Err(PullError::NoHostAvailable)));
}

#[test]
fn the_last_file_sent_is_the_one_pulled() {
    let got = pulled_file(vec![
        Some(Response::RequestedFile(vec![1])),
        None,
        Some(Response::RequestedFile(vec![2, 2])),
        None,
    ]);
    assert_eq!(got.unwrap(), vec![2, 2]);
    assert!(matches!(pulled_file(vec![None, None]), Err(PullError::NoHostAvailable)));
    assert!(matches!(pulled_file(vec![]), Err(PullError::NoHostAvailable)));
}

#[test]
fn copies_go_to_the_next_peer_when_one_fails() {
    let (mut push, first) = RedundancyPush::new(3, vec![5, 6, 7, 8], 2);
    assert_eq!(first, vec![5, 6]);
    push.on_success(5);
    assert_eq!(push.on_failure(6), Some(7));
    assert_eq!(push.on_failure(7), Some(8));
    push.on_success(8);
    assert!(push.pending.is_empty());
    assert_eq!(push.on_failure(8), None);
    assert_eq!(push.hosts, vec![3, 5, 8]);
    let (mut few, first) = RedundancyPush::new(3, vec![5], 4);
    assert_eq!(first, vec![5]);
    assert_eq!(few.on_failure(5), None);
    assert_eq!(few.hosts, vec![3]);
}

#[test]
fn a_peer_counted_once_and_never_more_than_asked() {
    let (mut push, first) = RedundancyPush::new(1, vec![2, 3, 4], 2);
    assert_eq!(first, vec![2, 3]);
    push.on_success(2);
    push.on_success(2);
    push.on_success(4);
    push.on_success(3);
    assert_eq!(push.hosts, vec![1, 2, 3]);
    assert_eq!(push.on_failure(3), None);
    assert_eq!(push.hosts.len(), 3);
}

#[test]
fn a_joining_peer_gets_the_shared_tree_and_the_other_peers() {
    let mut n = ni();
    let local = Inode::new(name(".local_config.toml"), ROOT, LOCAL_CONFIG_INO, FsEntry::File(vec![3]), 0o600);
    n.register_new_inode(local).unwrap();
    match n.send_filesystem(5).unwrap() {
        Response::FsAnswer(tree, peers) => {
            assert_eq!(peers, vec![6]);
            assert!(tree.get_inode(LOCAL_CONFIG_INO).is_err());
            assert!(tree.get_inode(12).is_ok());
            assert!(!tree.get_inode(ROOT).unwrap().entry.get_children().unwrap().contains(&LOCAL_CONFIG_INO));
        }
        _ => panic!("expected the tree"),
    }
}

#[test]
fn listen_addresses_are_kept_once_and_forgotten_when_expired() {
    let mut n = ni();
    assert!(n.listen_addrs.is_empty());
    n.add_listen_addr("/ip4/127.0.0.1/tcp/8080".to_string());
    n.add_listen_addr("/ip4/10.0.0.2/tcp/8080".to_string());
    n.add_listen_addr("/ip4/127.0.0.1/tcp/8080".to_string());
    assert_eq!(n.listen_addrs, vec!["/ip4/127.0.0.1/tcp/8080".to_string(), "/ip4/10.0.0.2/tcp/8080".to_string()]);
    n.remove_listen_addr("/ip4/127.0.0.1/tcp/8080");
    assert_eq!(n.listen_addrs, vec!["/ip4/10.0.0.2/tcp/8080".to_string()]);
    n.remove_listen_addr("/ip4/127.0.0.1/tcp/8080");
    assert_eq!(n.listen_addrs.len(), 1);
}
