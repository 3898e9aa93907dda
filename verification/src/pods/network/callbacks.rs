use vstd::prelude::*;

use crate::error::{WhError, WhResult};
use crate::pods::itree::inode::Ino;
use crate::pods::whpath::str_eq;

verus! {

/// A costly network action, that only one caller at a time is to run.
#[derive(Debug)]
pub enum Request {
    GetSignature(Ino, String),
    Pull(Ino),
    PullFs,
}

/// The abstract value of a [Request].
pub enum RequestView {
    GetSignature(Ino, Seq<char>),
    Pull(Ino),
    PullFs,
}

impl View for Request {
    type V = RequestView;

    open spec fn view(&self) -> RequestView {
        match self {
            Request::GetSignature(ino, s) => RequestView::GetSignature(*ino, s@),
            Request::Pull(ino) => RequestView::Pull(*ino),
            Request::PullFs => RequestView::PullFs,
        }
    }
}

impl Request {
    /// Whether the two requests are the same action.
    pub fn same_as(&self, other: &Request) -> (r: bool)
        ensures
            r == (self@ == other@),
    {
        match (self, other) {
            (Request::GetSignature(a, s), Request::GetSignature(b, t)) => *a == *b && str_eq(s.as_str(), t.as_str()),
            (Request::Pull(a), Request::Pull(b)) => *a == *b,
            (Request::PullFs, Request::PullFs) => true,
            _ => false,
        }
    }

    pub fn copy(&self) -> (r: Request)
        ensures
            r@ == self@,
    {
        match self {
            Request::GetSignature(a, s) => Request::GetSignature(*a, s.clone()),
            Request::Pull(a) => Request::Pull(*a),
            Request::PullFs => Request::PullFs,
        }
    }
}

/// The views of a list of requests.
pub open spec fn request_views(v: Seq<Request>) -> Seq<RequestView> {
    v.map_values(|r: Request| r@)
}

/// The actions under way, each once: the first caller of an action runs it,
/// the others wait for its answer.
#[derive(Debug)]
pub struct Callbacks {
    pending: Vec<Request>,
}

impl View for Callbacks {
    type V = Set<RequestView>;

    closed spec fn view(&self) -> Set<RequestView> {
        request_views(self.pending@).to_set()
    }
}

impl Callbacks {
    pub fn new() -> (r: Callbacks)
        ensures
            r@ == Set::<RequestView>::empty(),
    {
        let r = Callbacks { pending: Vec::new() };
        assert(request_views(r.pending@) =~= Seq::<RequestView>::empty());
        assert(r@ =~= Set::<RequestView>::empty());
        r
    }

    fn position(&self, call: &Request) -> (r: Option<usize>)
        ensures
            match r {
                Some(i) => i < self.pending@.len() && self.pending@[i as int]@ == call@,
                None => !self@.contains(call@),
            },
    {
        let mut i: usize = 0;
        while i < self.pending.len()
            invariant
                i <= self.pending.len(),
                forall|j: int| 0 <= j < i ==> self.pending@[j]@ != call@,
            decreases self.pending.len() - i,
        {
            if self.pending[i].same_as(call) {
                return Some(i);
            }
            i = i + 1;
        }
        proof {
            if self@.contains(call@) {
                let j = choose|j: int| 0 <= j < request_views(self.pending@).len() && request_views(self.pending@)[j] == call@;
                assert(self.pending@[j]@ == call@);
            }
        }
        None
    }

    /// Records that `call` is under way. Returns whether the caller is the
    /// first, and so the one to run the action; the others wait.
    pub fn request(&mut self, call: &Request) -> (r: bool)
        ensures
            r == !old(self)@.contains(call@),
            final(self)@ == old(self)@.insert(call@),
    {
        match self.position(call) {
            Some(i) => {
                assert(request_views(self.pending@)[i as int] == call@);
                assert(old(self)@.contains(call@));
                assert(old(self)@.insert(call@) =~= old(self)@);
                false
            },
            None => {
                let ghost before = self.pending@;
                self.pending.push(call.copy());
                assert(request_views(self.pending@) =~= request_views(before).push(call@));
                proof {
                    request_views(before).lemma_push_to_set_commute(call@);
                }
                true
            },
        }
    }

    /// Ends the action `call`, whose answer is then handed to the waiting
    /// callers. `InodeNotFound` when it was not under way.
    pub fn resolve(&mut self, call: &Request) -> (r: WhResult<()>)
        ensures
            old(self)@.contains(call@) ==> r is Ok,
            !old(self)@.contains(call@) ==> r == Err::<(), WhError>(WhError::InodeNotFound),
            final(self)@ == old(self)@.remove(call@),
    {
        match self.position(call) {
            Some(i) => {
                let ghost before = self.pending@;
                assert(request_views(before)[i as int] == call@);
                assert(old(self)@.contains(call@));
                let mut kept: Vec<Request> = Vec::new();
                let mut j: usize = 0;
                while j < self.pending.len()
                    invariant
                        j <= self.pending.len(),
                        self.pending@ == before,
                        request_views(kept@).to_set() == request_views(before.take(j as int)).to_set().remove(call@),
                    decreases self.pending.len() - j,
                {
                    assert(request_views(before.take(j + 1)) =~= request_views(before.take(j as int)).push(before[j as int]@));
                    proof {
                        request_views(before.take(j as int)).lemma_push_to_set_commute(before[j as int]@);
                    }
                    if !self.pending[j].same_as(call) {
                        let ghost k0 = kept@;
                        kept.push(self.pending[j].copy());
                        assert(request_views(kept@) =~= request_views(k0).push(before[j as int]@));
                        proof {
                            request_views(k0).lemma_push_to_set_commute(before[j as int]@);
                        }
                        assert(request_views(kept@).to_set() =~= request_views(before.take(j + 1)).to_set().remove(call@));
                    } else {
                        assert(request_views(kept@).to_set() =~= request_views(before.take(j + 1)).to_set().remove(call@));
                    }
                    j = j + 1;
                }
                assert(before.take(before.len() as int) =~= before);
                self.pending = kept;
                Ok(())
            },
            None => {
                assert(old(self)@.remove(call@) =~= old(self)@);
                Err(WhError::InodeNotFound)
            },
        }
    }
}

/// One caller at a time runs an action: once `c` is requested, a second
/// request of it is told to wait, until it is resolved; the next request after
/// that runs it again.
pub proof fn lemma_one_runner(pending: Set<RequestView>, c: RequestView)
    ensures
        pending.insert(c).contains(c),
        !pending.insert(c).remove(c).contains(c),
        pending.insert(c).insert(c) == pending.insert(c),
{
    assert(pending.insert(c).insert(c) =~= pending.insert(c));
}

} // verus!
