use wormhole::network::message::Request;
use wormhole::pods::network::event_loop::{EventLoop, NextEvent};

#[test]
fn a_new_loop_runs_and_wants_the_tree_when_asked() {
    let l = EventLoop::new(true);
    assert!(l.running());
    assert!(l.accepts_requests());
    assert!(!l.refuses_connections());
    assert_eq!(l.need_initialisation, Some(None));
    assert_eq!(EventLoop::new(false).need_initialisation, None);
}

#[test]
fn leaving_forgets_peers_and_waits_for_answers() {
    let mut l = EventLoop::new(false);
    let mut peers = vec![4, 5, 6];
    assert_eq!(l.next_event(), NextEvent::NetworkOrOutgoing);
    let told = l.leave(&mut peers);
    assert_eq!(told.len(), 3);
    for (k, (peer, request)) in told.iter().enumerate() {
        assert_eq!(*peer, [4, 5, 6][k]);
        assert!(matches!(request, Request::Leave));
    }
    for id in [10, 11, 12, 11] {
        l.await_answer(id);
    }
    assert_eq!(l.answers, vec![10, 11, 12]);
    assert!(peers.is_empty());
    assert!(!l.accepts_requests());
    assert!(l.refuses_connections());
    assert!(l.running());
    assert_eq!(l.next_event(), NextEvent::NetworkOnly);
    assert_eq!(l.on_response(10), (true, false));
    assert!(l.running());
    assert_eq!(l.on_response(10), (false, false));
    assert_eq!(l.on_outbound_failure(11), (true, false));
    assert_eq!(l.on_response(12), (true, false));
    assert!(!l.running());
    assert_eq!(l.next_event(), NextEvent::Stop);
}

#[test]
fn responses_are_matched_to_their_requests() {
    let mut l = EventLoop::new(false);
    l.await_answer(1);
    l.await_answer(2);
    l.await_answer(3);
    assert_eq!(l.on_response(2), (true, true));
    assert_eq!(l.answers, vec![1, 3]);
    assert_eq!(l.on_response(7), (false, true));
    assert_eq!(l.answers, vec![1, 3]);
}

#[test]
fn a_failed_tree_request_is_retried_elsewhere() {
    let mut l = EventLoop::new(true);
    let mut peers = vec![];
    assert!(l.on_identify(8, &mut peers));
    assert!(l.on_identify(8, &mut peers));
    assert_eq!(peers, vec![8]);
    l.fs_requested(40);
    assert!(!l.on_identify(9, &mut peers));
    assert_eq!(peers, vec![8, 9]);
    assert_eq!(l.on_outbound_failure(41), (false, false));
    assert_eq!(l.on_outbound_failure(40), (false, true));
    assert_eq!(EventLoop::retry_target(8, &vec![8, 8, 9, 10]), 9);
    assert_eq!(EventLoop::retry_target(8, &vec![8]), 8);
    assert_eq!(EventLoop::retry_target(8, &vec![]), 8);
    l.on_fs_answer();
    assert_eq!(l.need_initialisation, None);
    assert!(!l.on_identify(10, &mut peers));
}
