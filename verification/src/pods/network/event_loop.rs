use vstd::prelude::*;

use crate::network::message::Request;
use crate::pods::itree::fsentry::HostId;

verus! {

/// The number the network layer gives to a request sent to a peer, by which
/// its answer is recognised.
pub type RequestId = u64;

/// What the network loop of a pod decides from one event to the next: whether
/// it is closing, whether it still needs the tree of the network (and which
/// request asked for it), and the requests whose answers are awaited.
///
/// The loop itself (receiving events, sending messages) is driven by the
/// caller: each method takes an event and says what is to be done.
#[derive(Debug)]
pub struct EventLoop {
    pub closing: bool,
    /// `None` once the tree is known; `Some(None)` while it is to be asked
    /// for; `Some(Some(id))` while the request `id` asks for it.
    pub need_initialisation: Option<Option<RequestId>>,
    /// The requests whose answers are awaited, in the order they were sent.
    pub answers: Vec<RequestId>,
}

/// Where the loop takes its next event from.
#[derive(Debug, Clone, Copy, PartialEq, Eq, Structural)]
pub enum NextEvent {
    /// The loop is over.
    Stop,
    /// Only from the network: no message going out is taken any more.
    NetworkOnly,
    /// From the network, or a message to send from the queue of the pod.
    NetworkOrOutgoing,
}

/// The awaited answers once the answer to `id` came.
pub open spec fn without(answers: Seq<RequestId>, id: RequestId) -> Seq<RequestId> {
    answers.filter(other_than(id))
}

/// Whether a number is not `id`.
pub open spec fn other_than(id: RequestId) -> spec_fn(RequestId) -> bool {
    |x: RequestId| x != id
}

/// The first peer of `connected` that is not `failing`.
pub open spec fn first_other(connected: Seq<HostId>, failing: HostId) -> Option<HostId>
    decreases connected.len(),
{
    if connected.len() == 0 {
        None
    } else if connected[0] != failing {
        Some(connected[0])
    } else {
        first_other(connected.drop_first(), failing)
    }
}

/// Where to ask the tree again after `failing` did not answer: the first other
/// connected peer, else `failing` itself.
pub open spec fn retry_peer(connected: Seq<HostId>, failing: HostId) -> HostId {
    match first_other(connected, failing) {
        Some(p) => p,
        None => failing,
    }
}

proof fn lemma_first_other_step(connected: Seq<HostId>, failing: HostId, i: int)
    requires
        0 <= i < connected.len(),
        forall|j: int| 0 <= j < i ==> connected[j] == failing,
    ensures
        first_other(connected, failing) == first_other(connected.subrange(i, connected.len() as int), failing),
    decreases i,
{
    if i > 0 {
        assert(connected[0] == failing);
        let rest = connected.drop_first();
        assert(rest.subrange(i - 1, rest.len() as int) =~= connected.subrange(i, connected.len() as int));
        assert forall|j: int| 0 <= j < i - 1 implies rest[j] == failing by {
            assert(rest[j] == connected[j + 1]);
        }
        lemma_first_other_step(rest, failing, i - 1);
    } else {
        assert(connected.subrange(0, connected.len() as int) =~= connected);
    }
}

proof fn lemma_without_step(s: Seq<RequestId>, id: RequestId, i: int)
    requires
        0 <= i < s.len(),
    ensures
        without(s.take(i + 1), id) == if s[i] != id {
            without(s.take(i), id).push(s[i])
        } else {
            without(s.take(i), id)
        },
{
    assert(s.take(i + 1).drop_last() =~= s.take(i));
    reveal_with_fuel(Seq::filter, 1);
}

impl EventLoop {
    /// A loop that has not left; it asks for the tree of the network at the
    /// first peer it meets when `need_initialisation`.
    pub fn new(need_initialisation: bool) -> (r: EventLoop)
        ensures
            !r.closing,
            r.answers@ == Seq::<RequestId>::empty(),
            r.need_initialisation == if need_initialisation {
                Some(None::<RequestId>)
            } else {
                None
            },
    {
        EventLoop {
            closing: false,
            need_initialisation: if need_initialisation {
                Some(None)
            } else {
                None
            },
            answers: Vec::new(),
        }
    }

    /// Whether the loop goes on: until it has left and every awaited answer
    /// has come.
    pub fn running(&self) -> (r: bool)
        ensures
            r == (!self.closing || self.answers@.len() > 0),
    {
        !self.closing || self.answers.len() > 0
    }

    /// Where the next event is taken from: the loop goes on until it has left
    /// and every awaited answer has come, and once it has left no message
    /// going out is taken.
    pub fn next_event(&self) -> (r: NextEvent)
        ensures
            self.closing && self.answers@.len() == 0 ==> r == NextEvent::Stop,
            self.closing && self.answers@.len() > 0 ==> r == NextEvent::NetworkOnly,
            !self.closing ==> r == NextEvent::NetworkOrOutgoing,
    {
        if !self.running() {
            NextEvent::Stop
        } else if self.closing {
            NextEvent::NetworkOnly
        } else {
            NextEvent::NetworkOrOutgoing
        }
    }

    /// Leaves the network: every known peer is forgotten and returned, in
    /// order, with the `Leave` request to send it; the number of each request
    /// sent is then given to [Self::await_answer], and the loop goes on until
    /// every answer came. From then on no request of a peer is handled.
    pub fn leave(&mut self, peers: &mut Vec<HostId>) -> (r: Vec<(HostId, Request)>)
        ensures
            final(self).closing,
            final(self).need_initialisation == old(self).need_initialisation,
            final(self).answers@ == old(self).answers@,
            r@.len() == old(peers)@.len(),
            forall|i: int| 0 <= i < r@.len() ==> #[trigger] r@[i].0 == old(peers)@[i] && r@[i].1 is Leave,
            final(peers)@ == Seq::<HostId>::empty(),
    {
        self.closing = true;
        let mut drained: Vec<HostId> = Vec::new();
        std::mem::swap(&mut drained, peers);
        let mut told: Vec<(HostId, Request)> = Vec::new();
        let mut i: usize = 0;
        while i < drained.len()
            invariant
                drained@ == old(peers)@,
                i <= drained@.len(),
                told@.len() == i,
                forall|j: int| 0 <= j < i ==> #[trigger] told@[j].0 == drained@[j] && told@[j].1 is Leave,
            decreases drained@.len() - i,
        {
            let ghost before = told@;
            let peer = drained[i];
            let leave = Request::Leave;
            assert(leave is Leave);
            told.push((peer, leave));
            assert(told@[i as int] == (peer, leave));
            assert forall|j: int| 0 <= j < i + 1 implies #[trigger] told@[j].0 == drained@[j] && told@[j].1 is Leave by {
                if j < i {
                    assert(told@[j] == before[j]);
                }
            }
            i = i + 1;
        }
        told
    }

    /// The request `id` was sent, and its answer is awaited; a number already
    /// awaited is kept once.
    pub fn await_answer(&mut self, id: RequestId)
        ensures
            final(self).closing == old(self).closing,
            final(self).need_initialisation == old(self).need_initialisation,
            final(self).answers@ == if old(self).answers@.contains(id) {
                old(self).answers@
            } else {
                old(self).answers@.push(id)
            },
            old(self).answers@.no_duplicates() ==> final(self).answers@.no_duplicates(),
    {
        let mut i: usize = 0;
        while i < self.answers.len()
            invariant
                i <= self.answers@.len(),
                forall|j: int| 0 <= j < i ==> self.answers@[j] != id,
            decreases self.answers@.len() - i,
        {
            if self.answers[i] == id {
                return;
            }
            i = i + 1;
        }
        self.answers.push(id);
    }

    /// Takes `id` out of the awaited answers; returns whether it was awaited.
    fn take_answer(&mut self, id: RequestId) -> (r: bool)
        ensures
            final(self).closing == old(self).closing,
            final(self).need_initialisation == old(self).need_initialisation,
            r == old(self).answers@.contains(id),
            final(self).answers@ == without(old(self).answers@, id),
            old(self).answers@.no_duplicates() ==> final(self).answers@.no_duplicates(),
    {
        let ghost s = self.answers@;
        let mut kept: Vec<RequestId> = Vec::new();
        let mut found = false;
        let mut i: usize = 0;
        while i < self.answers.len()
            invariant
                s == self.answers@,
                i <= s.len(),
                kept@ == without(s.take(i as int), id),
                found == s.take(i as int).contains(id),
            decreases s.len() - i,
        {
            proof {
                lemma_without_step(s, id, i as int);
                assert(s.take(i + 1).drop_last() =~= s.take(i as int));
                assert(s.take(i + 1).last() == s[i as int]);
            }
            let x = self.answers[i];
            if x != id {
                kept.push(x);
            } else {
                found = true;
            }
            assert(s.take(i as int + 1).contains(id) == (s.take(i as int).contains(id) || s[i as int] == id));
            i = i + 1;
        }
        assert(s.take(s.len() as int) =~= s);
        proof {
            if s.no_duplicates() {
                crate::pods::pod::lemma_filter_no_duplicates(s, other_than(id));
            }
        }
        self.answers = kept;
        found
    }

    /// Whether a request received from a peer is handled: not once the loop
    /// has left.
    pub fn accepts_requests(&self) -> (r: bool)
        ensures
            r == !self.closing,
    {
        !self.closing
    }

    /// The answer to the request `id` came: returns whether it was awaited
    /// (its awaiter is then given the answer) and whether the answer is to be
    /// handled (not once the loop has left).
    pub fn on_response(&mut self, id: RequestId) -> (r: (bool, bool))
        ensures
            final(self).closing == old(self).closing,
            final(self).need_initialisation == old(self).need_initialisation,
            r.0 == old(self).answers@.contains(id),
            r.1 == !old(self).closing,
            final(self).answers@ == without(old(self).answers@, id),
            old(self).answers@.no_duplicates() ==> final(self).answers@.no_duplicates(),
    {
        let awaited = self.take_answer(id);
        (awaited, !self.closing)
    }

    /// The request `id` could not be sent: returns whether it was awaited (its
    /// awaiter is then told there is no answer) and whether the tree of the
    /// network is to be asked again, which is when `id` was asking for it and
    /// the loop has not left.
    pub fn on_outbound_failure(&mut self, id: RequestId) -> (r: (bool, bool))
        ensures
            final(self).closing == old(self).closing,
            final(self).need_initialisation == old(self).need_initialisation,
            r.0 == old(self).answers@.contains(id),
            r.1 == (old(self).need_initialisation == Some(Some(id)) && !old(self).closing),
            final(self).answers@ == without(old(self).answers@, id),
            old(self).answers@.no_duplicates() ==> final(self).answers@.no_duplicates(),
    {
        let awaited = self.take_answer(id);
        let retry = match self.need_initialisation {
            Some(Some(asked)) => asked == id && !self.closing,
            _ => false,
        };
        (awaited, retry)
    }

    /// The peer to ask the tree again after `failing` did not answer: the
    /// first connected peer other than it, else itself.
    pub fn retry_target(failing: HostId, connected: &Vec<HostId>) -> (r: HostId)
        ensures
            r == retry_peer(connected@, failing),
    {
        let mut i: usize = 0;
        while i < connected.len()
            invariant
                i <= connected@.len(),
                forall|j: int| 0 <= j < i ==> connected@[j] == failing,
            decreases connected@.len() - i,
        {
            if connected[i] != failing {
                proof {
                    lemma_first_other_step(connected@, failing, i as int);
                    let rest = connected@.subrange(i as int, connected@.len() as int);
                    assert(rest[0] == connected@[i as int]);
                    assert(first_other(rest, failing) == Some(connected@[i as int]));
                }
                return connected[i];
            }
            i = i + 1;
        }
        proof {
            if connected@.len() > 0 {
                lemma_first_other_step(connected@, failing, connected@.len() - 1);
                let last = connected@.subrange(connected@.len() - 1, connected@.len() as int);
                assert(last[0] == failing);
                assert(first_other(last.drop_first(), failing) is None);
                assert(first_other(last, failing) is None);
            } else {
                assert(first_other(connected@, failing) is None);
            }
        }
        failing
    }

    /// The tree of the network was asked for with the request `id`.
    pub fn fs_requested(&mut self, id: RequestId)
        ensures
            final(self).closing == old(self).closing,
            final(self).answers@ == old(self).answers@,
            final(self).need_initialisation == Some(Some(id)),
    {
        self.need_initialisation = Some(Some(id));
    }

    /// The tree of the network came: it is no longer needed.
    pub fn on_fs_answer(&mut self)
        ensures
            final(self).closing == old(self).closing,
            final(self).answers@ == old(self).answers@,
            final(self).need_initialisation is None,
    {
        self.need_initialisation = None;
    }

    /// The peer `peer` identified itself: it joins the known peers, and the
    /// result says whether to ask it for the tree of the network, which is
    /// when the tree is wanted and not yet asked for.
    pub fn on_identify(&self, peer: HostId, peers: &mut Vec<HostId>) -> (r: bool)
        ensures
            r == (self.need_initialisation == Some(None::<RequestId>)),
            final(peers)@ == if old(peers)@.contains(peer) {
                old(peers)@
            } else {
                old(peers)@.push(peer)
            },
            old(peers)@.no_duplicates() ==> final(peers)@.no_duplicates(),
    {
        let mut i: usize = 0;
        let mut known = false;
        while i < peers.len()
            invariant
                i <= peers@.len(),
                known == peers@.take(i as int).contains(peer),
            decreases peers@.len() - i,
        {
            assert(peers@.take(i as int + 1) =~= peers@.take(i as int).push(peers@[i as int]));
            assert(peers@.take(i as int + 1).contains(peer) == (peers@.take(i as int).contains(peer)
                || peers@[i as int] == peer)) by {
                if peers@[i as int] == peer {
                    assert(peers@.take(i as int + 1)[i as int] == peer);
                }
                if peers@.take(i as int).contains(peer) {
                    let k = choose|k: int| 0 <= k < i && peers@.take(i as int)[k] == peer;
                    assert(peers@.take(i as int + 1)[k] == peer);
                }
            }
            if peers[i] == peer {
                known = true;
            }
            i = i + 1;
        }
        assert(peers@.take(peers@.len() as int) =~= peers@);
        if !known {
            peers.push(peer);
            proof {
                let o = peers@.drop_last();
                assert forall|a: int, b: int| 0 <= a < b < peers@.len() && o.no_duplicates() implies peers@[a]
                    != peers@[b] by {
                    if b == peers@.len() - 1 {
                        assert(o[a] == peers@[a]);
                        assert(o.contains(peers@[a]));
                    } else {
                        assert(o[a] == peers@[a] && o[b] == peers@[b]);
                    }
                }
            }
        }
        match self.need_initialisation {
            Some(None) => true,
            _ => false,
        }
    }

    /// Whether an incoming connection is closed at once: while the loop
    /// leaves.
    pub fn refuses_connections(&self) -> (r: bool)
        ensures
            r == self.closing,
    {
        self.closing
    }
}

} // verus!
