use vstd::prelude::*;

use crate::error::WhError;
use crate::pods::itree::fsentry::{EntryView, FsEntry, HostId};
use crate::pods::itree::inode::Ino;
use crate::pods::itree::{ITree, TreeView, LOCAL_CONFIG_INO};

verus! {

/// Why the redundancy of a file could not be applied.
#[derive(Debug, Clone, PartialEq, Eq)]
pub enum RedundancyError {
    WhError { source: WhError },
    /// Not enough nodes to satisfy the target number of copies (a warning only)
    InsufficientHosts,
}

/// `h` is the smallest of the non-empty `hosts`.
pub open spec fn is_first_host(hosts: Seq<HostId>, h: HostId) -> bool {
    &&& hosts.contains(h)
    &&& forall|i: int| 0 <= i < hosts.len() ==> h <= #[trigger] hosts[i]
}

/// Whether the peer `self_addr` is to give more copies of the file `ino`, of
/// entry `entry`: the file is shared, has fewer hosts than `target_redundancy`,
/// the network has more peers than it has hosts, and `self_addr` is the first
/// of its hosts (so that a single host acts).
pub open spec fn eligible(ino: Ino, entry: EntryView, target_redundancy: u64, available_peers: usize, self_addr: HostId) -> bool {
    &&& ino != LOCAL_CONFIG_INO
    &&& entry matches EntryView::File(hosts)
    &&& hosts.len() < target_redundancy
    &&& available_peers > hosts.len()
    &&& is_first_host(hosts, self_addr)
}

/// At most one peer is to give more copies of a given file: the first of its
/// hosts.
pub proof fn lemma_single_applier(
    ino: Ino,
    entry: EntryView,
    target_redundancy: u64,
    available_peers: usize,
    a: HostId,
    b: HostId,
)
    requires
        eligible(ino, entry, target_redundancy, available_peers, a),
        eligible(ino, entry, target_redundancy, available_peers, b),
    ensures
        a == b,
{
    let hosts = entry->File_0;
    let i = choose|i: int| 0 <= i < hosts.len() && hosts[i] == a;
    let j = choose|j: int| 0 <= j < hosts.len() && hosts[j] == b;
    assert(a <= hosts[j]);
    assert(b <= hosts[i]);
}

/// The smallest of the non-empty `hosts`.
fn first_host(hosts: &Vec<HostId>) -> (r: HostId)
    requires
        hosts@.len() > 0,
    ensures
        is_first_host(hosts@, r),
{
    let mut best = hosts[0];
    let mut i: usize = 1;
    assert(hosts@.take(1)[0] == hosts@[0]);
    while i < hosts.len()
        invariant
            1 <= i <= hosts.len(),
            hosts@.take(i as int).contains(best),
            forall|j: int| 0 <= j < i ==> best <= #[trigger] hosts@[j],
        decreases hosts.len() - i,
    {
        if hosts[i] < best {
            best = hosts[i];
        }
        assert(hosts@.take(i + 1)[i as int] == hosts@[i as int]);
        i = i + 1;
    }
    assert(hosts@.take(hosts.len() as int) =~= hosts@);
    best
}

/// The file `ino` if this peer is to give it more copies; see [eligible].
pub fn eligible_to_apply(ino: Ino, entry: &FsEntry, target_redundancy: u64, available_peers: usize, self_addr: HostId) -> (r:
    Option<Ino>)
    ensures
        r == if eligible(ino, entry@, target_redundancy, available_peers, self_addr) {
            Some(ino)
        } else {
            None::<Ino>
        },
{
    if ITree::is_local_only(ino) {
        return None;
    }
    let hosts = match entry {
        FsEntry::File(hosts) => hosts,
        _ => {
            return None;
        },
    };
    if (hosts.len() as u64) < target_redundancy && available_peers > hosts.len() && hosts.len() > 0 && first_host(hosts)
        == self_addr {
        Some(ino)
    } else {
        proof {
            if hosts@.len() > 0 && is_first_host(hosts@, self_addr) {
                let i = choose|i: int| 0 <= i < hosts@.len() && hosts@[i] == self_addr;
                assert(self_addr <= hosts@[0]);
                if (hosts.len() as u64) < target_redundancy && available_peers > hosts.len() {
                    assert forall|j: int| 0 <= j < hosts@.len() implies self_addr <= #[trigger] hosts@[j] by {}
                }
            }
        }
        None
    }
}

/// The files of the tree that this peer is to give more copies, each once.
pub fn select_for_redundancy(itree: &ITree, target_redundancy: u64, available_peers: usize, self_addr: HostId) -> (r: Vec<Ino>)
    ensures
        r@.no_duplicates(),
        forall|k: Ino|
            r@.contains(k) <==> itree@.contains_key(k) && eligible(
                k,
                #[trigger] itree@[k].entry,
                target_redundancy,
                available_peers,
                self_addr,
            ),
{
    let inos = itree.inos();
    let mut r: Vec<Ino> = Vec::new();
    let mut i: usize = 0;
    while i < inos.len()
        invariant
            i <= inos.len(),
            inos@.to_set() == itree@.dom(),
            inos@.no_duplicates(),
            r@.no_duplicates(),
            forall|k: Ino|
                r@.contains(k) <==> inos@.take(i as int).contains(k) && eligible(
                    k,
                    #[trigger] itree@[k].entry,
                    target_redundancy,
                    available_peers,
                    self_addr,
                ),
        decreases inos.len() - i,
    {
        let ino = inos[i];
        assert(inos@.to_set().contains(ino));
        let inode = match itree.get_inode(ino) {
            Ok(inode) => inode,
            Err(_) => {
                assert(false);
                return r;
            },
        };
        let ghost before = r@;
        assert(before.contains(ino) ==> inos@.take(i as int).contains(ino) && eligible(
            ino,
            itree@[ino].entry,
            target_redundancy,
            available_peers,
            self_addr,
        ));
        assert(!inos@.take(i as int).contains(ino)) by {
            if inos@.take(i as int).contains(ino) {
                let j = choose|j: int| 0 <= j < i && inos@.take(i as int)[j] == ino;
                assert(inos@[j] == inos@[i as int]);
            }
        }
        assert(inos@.take(i + 1) =~= inos@.take(i as int).push(ino));
        match eligible_to_apply(ino, &inode.entry, target_redundancy, available_peers, self_addr) {
            Some(k) => {
                r.push(k);
                assert forall|x: Ino| r@.contains(x) <==> inos@.take(i + 1).contains(x) && eligible(
                    x,
                    #[trigger] itree@[x].entry,
                    target_redundancy,
                    available_peers,
                    self_addr,
                ) by {
                    broadcast use vstd::seq_lib::group_seq_properties;
                    assert(before.contains(x) <==> inos@.take(i as int).contains(x) && eligible(
                        x,
                        itree@[x].entry,
                        target_redundancy,
                        available_peers,
                        self_addr,
                    ));
                    if x == ino {
                        assert(r@[r@.len() - 1] == x);
                    } else {
                        if r@.contains(x) {
                            let j = choose|j: int| 0 <= j < r@.len() && r@[j] == x;
                            assert(before[j] == x);
                        }
                        if before.contains(x) {
                            let j = choose|j: int| 0 <= j < before.len() && before[j] == x;
                            assert(r@[j] == x);
                        }
                    }
                }
                assert(!before.contains(ino));
                assert(r@.no_duplicates()) by {
                    assert forall|a: int, b: int| 0 <= a < b < r@.len() implies r@[a] != r@[b] by {
                        if b == r@.len() - 1 {
                            assert(before.contains(r@[a]) ==> r@[a] != ino);
                            assert(r@[a] == before[a]);
                        }
                    }
                }
            },
            None => {
                assert forall|x: Ino| r@.contains(x) <==> inos@.take(i + 1).contains(x) && eligible(
                    x,
                    #[trigger] itree@[x].entry,
                    target_redundancy,
                    available_peers,
                    self_addr,
                ) by {
                    broadcast use vstd::seq_lib::group_seq_properties;
                    assert(before.contains(x) <==> inos@.take(i as int).contains(x) && eligible(
                        x,
                        itree@[x].entry,
                        target_redundancy,
                        available_peers,
                        self_addr,
                    ));
                }
            },
        }
        i = i + 1;
    }
    proof {
        assert(inos@.take(inos.len() as int) =~= inos@);
        assert forall|k: Ino| inos@.contains(k) <==> itree@.contains_key(k) by {
            assert(inos@.to_set().contains(k) == inos@.contains(k));
        }
    }
    r
}

/// How many peers get a copy of a file, and how many copies are missing,
/// when `redundancy` copies are asked for and `peers` other peers are connected.
pub open spec fn redundancy_targets_spec(redundancy: u64, peers: usize) -> (usize, usize) {
    let asked = redundancy as usize;
    if asked > peers + 1 {
        (peers, (asked - peers) as usize)
    } else {
        ((redundancy - 1) as usize, 0)
    }
}

/// When more copies are asked than there are hosts, this peer and the `peers`
/// others, every other peer gets a copy and the copies beyond them are
/// missing; else one less than asked get a copy, this peer holding one, and
/// none is missing. Never more peers than are connected get a copy.
pub proof fn lemma_redundancy_targets(redundancy: u64, peers: usize)
    requires
        redundancy > 0,
        redundancy <= usize::MAX,
    ensures
        redundancy > peers + 1 ==> redundancy_targets_spec(redundancy, peers).0 == peers
            && redundancy_targets_spec(redundancy, peers).1 == redundancy - peers
            && redundancy_targets_spec(redundancy, peers).1 > 0,
        redundancy <= peers + 1 ==> redundancy_targets_spec(redundancy, peers).0 == redundancy - 1
            && redundancy_targets_spec(redundancy, peers).1 == 0,
        redundancy_targets_spec(redundancy, peers).0 <= peers,
        redundancy_targets_spec(redundancy, peers).0 + 1 <= redundancy,
{
}

/// How many peers get a copy of a file, and how many copies are missing, when
/// `redundancy` copies are asked for and `peers` other peers are connected:
/// every peer when there are too few, else one less than asked, this peer
/// holding one.
pub fn redundancy_targets(redundancy: u64, peers: usize) -> (r: (usize, usize))
    requires
        redundancy > 0,
    ensures
        r == redundancy_targets_spec(redundancy, peers),
        redundancy <= usize::MAX && redundancy > peers + 1 ==> r.0 == peers && r.1 == redundancy - peers && r.1 > 0,
        redundancy <= peers + 1 ==> r.0 == redundancy - 1 && r.1 == 0,
        redundancy <= usize::MAX ==> r.0 <= peers,
{
    let asked = redundancy as usize;
    if peers < usize::MAX && asked > peers + 1 {
        (peers, asked - peers)
    } else {
        ((redundancy - 1) as usize, 0)
    }
}

/// The copies of a file under way to other peers while its redundancy is
/// applied: the peers in the order they are tried, how many of them were
/// tried, the peers that hold the file (this one first), the peers whose
/// copy is still under way, and how many copies were asked for.
#[derive(Debug)]
pub struct RedundancyPush {
    pub peers: Vec<HostId>,
    pub next_try: usize,
    pub hosts: Vec<HostId>,
    pub pending: Vec<HostId>,
    pub target: usize,
}

impl RedundancyPush {
    /// The peers that hold the file or are being sent it, this peer aside.
    pub open spec fn reached(self) -> Seq<HostId> {
        self.hosts@.drop_first() + self.pending@
    }

    /// Well-formed: this peer is not among the peers tried, no peer is tried
    /// twice, every peer reached was tried, no peer is reached twice, and no
    /// more peers are reached than copies asked for.
    pub open spec fn wf(self) -> bool {
        &&& self.hosts@.len() >= 1
        &&& self.next_try <= self.peers@.len()
        &&& self.peers@.no_duplicates()
        &&& !self.peers@.contains(self.hosts@[0])
        &&& self.hosts@.drop_first().no_duplicates()
        &&& self.pending@.no_duplicates()
        &&& forall|i: int, j: int|
            0 <= i < self.hosts@.len() - 1 && 0 <= j < self.pending@.len() ==> self.hosts@.drop_first()[i]
                != self.pending@[j]
        &&& forall|x: HostId| #[trigger] self.reached().contains(x) ==> self.peers@.take(self.next_try as int).contains(x)
        &&& self.reached().len() <= self.target
    }

    /// Starts sending copies of a file that `me` holds to the first `target`
    /// of `peers`, which are returned: a copy is sent to each.
    pub fn new(me: HostId, peers: Vec<HostId>, target: usize) -> (r: (RedundancyPush, Vec<HostId>))
        ensures
            r.0.peers@ == peers@,
            r.0.next_try == (if target < peers@.len() { target as int } else { peers@.len() as int }),
            r.0.hosts@ == seq![me],
            r.0.pending@ == r.1@,
            r.0.target == target,
            r.1@ == peers@.take(if target < peers@.len() { target as int } else { peers@.len() as int }),
            peers@.no_duplicates() && !peers@.contains(me) ==> r.0.wf(),
    {
        let n = if target < peers.len() { target } else { peers.len() };
        let mut first: Vec<HostId> = Vec::new();
        let mut i: usize = 0;
        while i < n
            invariant
                n <= peers@.len(),
                i <= n,
                first@ == peers@.take(i as int),
            decreases n - i,
        {
            first.push(peers[i]);
            assert(peers@.take(i + 1) =~= peers@.take(i as int).push(peers@[i as int]));
            i = i + 1;
        }
        let hosts = vec![me];
        assert(hosts@ =~= seq![me]);
        let pending = first.clone();
        let r = RedundancyPush { peers, next_try: n, hosts, pending, target };
        proof {
            assert(r.hosts@.drop_first() =~= Seq::<HostId>::empty());
            assert(r.reached() =~= first@);
            if r.peers@.no_duplicates() && !r.peers@.contains(me) {
                assert forall|a: int, b: int| 0 <= a < b < first@.len() implies first@[a] != first@[b] by {
                    assert(first@[a] == r.peers@[a] && first@[b] == r.peers@[b]);
                }
            }
        }
        (r, first)
    }

    /// The peer `host` received its copy: it now holds the file. A peer
    /// whose copy is not under way changes nothing.
    pub fn on_success(&mut self, host: HostId)
        requires
            old(self).wf(),
        ensures
            final(self).wf(),
            final(self).peers@ == old(self).peers@,
            final(self).next_try == old(self).next_try,
            final(self).target == old(self).target,
            old(self).pending@.contains(host) ==> final(self).hosts@ == old(self).hosts@.push(host)
                && final(self).pending@ == old(self).pending@.remove(old(self).pending@.index_of(host)),
            !old(self).pending@.contains(host) ==> *final(self) == *old(self),
    {
        let ghost old_self = *self;
        let mut k: usize = 0;
        while k < self.pending.len() && self.pending[k] != host
            invariant
                k <= self.pending@.len(),
                forall|j: int| 0 <= j < k ==> self.pending@[j] != host,
            decreases self.pending@.len() - k,
        {
            k = k + 1;
        }
        if k == self.pending.len() {
            return;
        }
        proof {
            let idx = self.pending@.index_of(host);
            assert(self.pending@[k as int] == host);
            assert(idx == k as int);
            let h = self.hosts@[0];
            assert(self.reached().contains(host)) by {
                assert(self.reached()[self.hosts@.len() - 1 + k] == host);
            }
            assert(self.peers@.contains(host)) by {
                let t = choose|t: int| 0 <= t < self.next_try && self.peers@.take(self.next_try as int)[t] == host;
                assert(self.peers@[t] == host);
            }
        }
        self.pending.remove(k);
        self.hosts.push(host);
        proof {
            let o = old_self;
            assert(self.hosts@.drop_first() =~= o.hosts@.drop_first().push(host));
            assert(self.pending@ =~= o.pending@.remove(k as int));
            assert forall|x: HostId| #[trigger] self.reached().contains(x) implies self.peers@.take(
                self.next_try as int,
            ).contains(x) by {
                let t = choose|t: int| 0 <= t < self.reached().len() && self.reached()[t] == x;
                if x == host {
                    assert(o.reached()[o.hosts@.len() - 1 + k] == host);
                    assert(o.reached().contains(host));
                } else if t < self.hosts@.len() - 1 {
                    assert(o.reached()[t] == x);
                    assert(o.reached().contains(x));
                } else {
                    let j = t - (self.hosts@.len() - 1);
                    if j < k {
                        assert(o.reached()[o.hosts@.len() - 1 + j] == x);
                    } else {
                        assert(o.reached()[o.hosts@.len() - 1 + j + 1] == x);
                    }
                    assert(o.reached().contains(x));
                }
            }
            assert(self.reached().len() == o.reached().len());
        }
    }

    /// The copy to `host` could not be sent: returns the next peer to try,
    /// if one is left, whose copy is then under way. When none is, fewer
    /// copies are made. A peer whose copy is not under way changes nothing.
    pub fn on_failure(&mut self, host: HostId) -> (r: Option<HostId>)
        requires
            old(self).wf(),
        ensures
            final(self).wf(),
            final(self).peers@ == old(self).peers@,
            final(self).hosts@ == old(self).hosts@,
            final(self).target == old(self).target,
            !old(self).pending@.contains(host) ==> r is None && *final(self) == *old(self),
            old(self).pending@.contains(host) && old(self).next_try >= old(self).peers@.len() ==> r is None
                && final(self).next_try == old(self).next_try
                && final(self).pending@ == old(self).pending@.remove(old(self).pending@.index_of(host)),
            old(self).pending@.contains(host) && old(self).next_try < old(self).peers@.len() ==> r == Some(
                old(self).peers@[old(self).next_try as int],
            ) && final(self).next_try == old(self).next_try + 1 && final(self).pending@ == old(
                self,
            ).pending@.remove(old(self).pending@.index_of(host)).push(old(self).peers@[old(self).next_try as int]),
    {
        let ghost old_self = *self;
        let mut k: usize = 0;
        while k < self.pending.len() && self.pending[k] != host
            invariant
                k <= self.pending@.len(),
                forall|j: int| 0 <= j < k ==> self.pending@[j] != host,
            decreases self.pending@.len() - k,
        {
            k = k + 1;
        }
        if k == self.pending.len() {
            return None;
        }
        proof {
            assert(self.pending@[k as int] == host);
            assert(self.pending@.index_of(host) == k as int);
        }
        self.pending.remove(k);
        proof {
            let o = old_self;
            assert(self.pending@ =~= o.pending@.remove(k as int));
            assert forall|x: HostId| #[trigger] self.reached().contains(x) implies self.peers@.take(
                self.next_try as int,
            ).contains(x) by {
                let t = choose|t: int| 0 <= t < self.reached().len() && self.reached()[t] == x;
                if t < self.hosts@.len() - 1 {
                    assert(o.reached()[t] == x);
                } else {
                    let j = t - (self.hosts@.len() - 1);
                    if j < k {
                        assert(o.reached()[o.hosts@.len() - 1 + j] == x);
                    } else {
                        assert(o.reached()[o.hosts@.len() - 1 + j + 1] == x);
                    }
                }
                assert(o.reached().contains(x));
            }
        }
        if self.next_try >= self.peers.len() {
            return None;
        }
        let peer = self.peers[self.next_try];
        proof {
            let n = self.next_try as int;
            assert(!self.peers@.take(n).contains(peer)) by {
                if self.peers@.take(n).contains(peer) {
                    let t = choose|t: int| 0 <= t < n && self.peers@.take(n)[t] == peer;
                    assert(self.peers@[t] == self.peers@[n]);
                }
            }
            assert(!self.reached().contains(peer));
            assert forall|j: int| 0 <= j < self.pending@.len() implies self.pending@[j] != peer by {
                assert(self.reached()[self.hosts@.len() - 1 + j] == self.pending@[j]);
            }
            assert forall|i: int| 0 <= i < self.hosts@.len() - 1 implies self.hosts@.drop_first()[i] != peer by {
                assert(self.reached()[i] == self.hosts@.drop_first()[i]);
            }
        }
        let ghost before = *self;
        self.pending.push(peer);
        self.next_try = self.next_try + 1;
        proof {
            let n = before.next_try as int;
            assert(self.peers@.take(n + 1) =~= self.peers@.take(n).push(peer));
            assert forall|x: HostId| #[trigger] self.reached().contains(x) implies self.peers@.take(
                self.next_try as int,
            ).contains(x) by {
                let t = choose|t: int| 0 <= t < self.reached().len() && self.reached()[t] == x;
                if x != peer {
                    assert(t < before.reached().len());
                    assert(before.reached()[t] == x);
                    assert(before.reached().contains(x));
                    let u = choose|u: int| 0 <= u < n && self.peers@.take(n)[u] == x;
                    assert(self.peers@.take(n + 1)[u] == x);
                } else {
                    assert(self.peers@.take(n + 1)[n] == peer);
                }
            }
            assert(self.reached().len() == before.reached().len() + 1);
        }
        Some(peer)
    }
}

/// Whatever succeeds or fails while copies are sent, the peers that hold the
/// file are distinct peers, this one first and the others among those
/// tried, and there are at most one more of them than copies asked for.
pub proof fn lemma_push_hosts_distinct(p: RedundancyPush)
    requires
        p.wf(),
    ensures
        p.hosts@.no_duplicates(),
        p.hosts@.len() <= p.target + 1,
        forall|i: int| 1 <= i < p.hosts@.len() ==> p.peers@.contains(#[trigger] p.hosts@[i]),
{
    assert forall|i: int| 1 <= i < p.hosts@.len() implies p.peers@.contains(#[trigger] p.hosts@[i]) by {
        assert(p.reached()[i - 1] == p.hosts@[i]);
        assert(p.reached().contains(p.hosts@[i]));
        let t = choose|t: int| 0 <= t < p.next_try && p.peers@.take(p.next_try as int)[t] == p.hosts@[i];
        assert(p.peers@[t] == p.hosts@[i]);
    }
    assert forall|a: int, b: int| 0 <= a < b < p.hosts@.len() implies p.hosts@[a] != p.hosts@[b] by {
        if a == 0 {
            assert(p.peers@.contains(p.hosts@[b]));
        } else {
            assert(p.hosts@.drop_first()[a - 1] == p.hosts@[a]);
            assert(p.hosts@.drop_first()[b - 1] == p.hosts@[b]);
        }
    }
}

} // verus!
