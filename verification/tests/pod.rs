use wormhole::pods::filesystem::fs_interface::FsInterface;
use wormhole::pods::itree::fsentry::FsEntry;
use wormhole::pods::itree::inode::{Inode, ROOT};
use wormhole::pods::itree::{ITree, GLOBAL_CONFIG_INO};
use wormhole::pods::network::network_interface::NetworkInterface;
use wormhole::network::message::Request;
use wormhole::pods::pod::{
    EntrypointDial, GlobalConfig, HostOffer, OfferStep, Pod, PodInfoError, PodStopError, StopSequence, StopStep,
};
use wormhole::pods::whpath::{InodeName, WhPath};

fn name(s: &str) -> InodeName {
    InodeName::try_from_str(s).unwrap()
}

fn pod() -> Pod {
    let mut t = ITree::new();
    t.add_inode(Inode::new(name("a.txt"), ROOT, 12, FsEntry::File(vec![3]), 0o644)).unwrap();
    t.add_inode(Inode::new(name("b.txt"), ROOT, 13, FsEntry::File(vec![3, 4]), 0o644)).unwrap();
    t.add_inode(Inode::new(name("photo.tar.gz"), ROOT, 14, FsEntry::File(vec![4]), 0o644)).unwrap();
    t.add_inode(Inode::new(name("README"), ROOT, 15, FsEntry::File(vec![3]), 0o644)).unwrap();
    t.add_inode(Inode::new(name("dir.d"), ROOT, 16, FsEntry::new_directory(), 0o755)).unwrap();
    t.add_inode(Inode::new(name(".global_config.toml"), ROOT, GLOBAL_CONFIG_INO, FsEntry::File(vec![3]), 0o644))
        .unwrap();
    let fsi = FsInterface::new(NetworkInterface::new(t, 3, vec![4]));
    Pod::new(fsi, GlobalConfig { entrypoints: vec![], redundancy: 2 }, "/mnt/pod".to_string(), "pod".to_string(), "nick".to_string(), true, false)
}

#[test]
fn statistics_per_extension() {
    let p = pod();
    let mut stats = p.get_stats_per_filetype();
    stats.sort();
    assert_eq!(
        stats,
        vec![
            ("gz".to_string(), 1),
            ("toml".to_string(), 1),
            ("txt".to_string(), 2),
            ("unknown".to_string(), 1),
        ]
    );
}

#[test]
fn paths_of_the_drive() {
    let p = pod();
    assert!(p.contains("/mnt/pod/a.txt"));
    assert!(p.contains("/mnt/pod"));
    assert!(!p.contains("/mnt/podcast"));
    assert!(!p.contains("/mnt"));
    assert_eq!(p.get_mountpoint(), "/mnt/pod");
}

#[test]
fn hosts_of_a_file() {
    let p = pod();
    assert_eq!(p.get_file_hosts(&WhPath::try_from_str("b.txt").unwrap()).unwrap(), vec![3, 4]);
    assert!(matches!(p.get_file_hosts(&WhPath::try_from_str("zz").unwrap()), Err(PodInfoError::FileNotFound)));
    assert!(matches!(
        p.get_file_hosts(&WhPath::try_from_str("dir.d").unwrap()),
        Err(PodInfoError::WrongFileType { .. })
    ));
}

#[test]
fn files_to_hand_over_when_stopping() {
    let p = pod();
    let mut ids = p.files_to_send_when_stopping();
    ids.sort();
    assert_eq!(ids, vec![12, 15]);
}

#[test]
fn the_pod_nickname_joins_host_and_pod_names() {
    let p = pod();
    assert_eq!(p.nickname, "nick:pod");
    assert_eq!(p.name, "pod");
    assert_eq!(p.get_mountpoint(), "/mnt/pod");
}

#[test]
fn a_file_is_offered_to_each_peer_in_turn_until_one_takes_it() {
    let mut offer = HostOffer::new(12, 1, b"data".to_vec(), vec![5, 6, 7]);
    match offer.next_step() {
        OfferStep::Send(5, Request::RedundancyFile(12, d)) => assert_eq!(d, b"data".to_vec()),
        other => panic!("unexpected step {:?}", other),
    }
    assert!(matches!(offer.on_answer(false), OfferStep::Send(6, Request::RedundancyFile(12, _))));
    match offer.on_answer(true) {
        OfferStep::Done(Request::RemoveHosts(ino, hosts)) => {
            assert_eq!(ino, 12);
            assert_eq!(hosts, vec![1]);
        },
        other => panic!("unexpected step {:?}", other),
    }
}

#[test]
fn a_file_no_peer_takes_is_not_sent() {
    let mut offer = HostOffer::new(12, 1, vec![], vec![5]);
    assert!(matches!(offer.next_step(), OfferStep::Send(5, _)));
    assert!(matches!(offer.on_answer(false), OfferStep::Failed(PodStopError::FileNotSent { file: 12 })));
    let mut nobody = HostOffer::new(13, 1, vec![], vec![]);
    assert!(matches!(nobody.next_step(), OfferStep::Failed(PodStopError::FileNotSent { file: 13 })));
}

#[test]
fn stopping_offers_the_files_then_leaves_saves_and_releases() {
    let mut stop = StopSequence::new(vec![20, 21]);
    assert_eq!(stop.next_step(), StopStep::OfferFile(20));
    assert_eq!(stop.next_step(), StopStep::OfferFile(21));
    assert_eq!(stop.next_step(), StopStep::CloseNetwork);
    assert_eq!(stop.next_step(), StopStep::SaveTree);
    assert_eq!(stop.next_step(), StopStep::StopDisk);
    assert_eq!(stop.next_step(), StopStep::Done);
    assert_eq!(stop.next_step(), StopStep::Done);
}

#[test]
fn entrypoints_are_dialled_in_order_as_websocket_addresses() {
    let mut dial = EntrypointDial::new(vec!["10.0.0.1:8080".to_string(), "peer:9".to_string()]);
    assert_eq!(dial.next_address(), Some("ws://10.0.0.1:8080".to_string()));
    assert_eq!(dial.next_address(), Some("ws://peer:9".to_string()));
    assert_eq!(dial.next_address(), None);
}
