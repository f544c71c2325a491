//! Connection-side state: the handshake phase machine and the request-id
//! allocator.
//!
//! The byte stream itself lives outside this crate. Callers drive the phase
//! machine with the events they observe (stream connected, handshake
//! accepted or rejected, stream closed) and may issue requests only while
//! the session is ready.

use vstd::prelude::*;

verus! {

/// Where a connection stands in its lifecycle. A handshake may run exactly
/// once, while `Negotiating`; once `Failed`, the connection is terminal and
/// must be discarded.
#[derive(Clone, Copy, Debug, PartialEq, Eq, Structural)]
pub enum Phase {
    Disconnected,
    Negotiating,
    Ready,
    Failed,
}

/// What a caller observed on the connection.
#[derive(Clone, Copy, Debug, PartialEq, Eq, Structural)]
pub enum Event {
    StreamConnected,
    HandshakeAccepted,
    HandshakeRejected,
    StreamClosed,
}

/// The phase transition relation. Events that do not apply to the current
/// phase leave it unchanged; closing the stream always discards the
/// connection.
pub open spec fn spec_step(p: Phase, e: Event) -> Phase {
    match e {
        Event::StreamConnected => if p is Disconnected {
            Phase::Negotiating
        } else {
            p
        },
        Event::HandshakeAccepted => if p is Negotiating {
            Phase::Ready
        } else {
            p
        },
        Event::HandshakeRejected => if p is Negotiating {
            Phase::Failed
        } else {
            p
        },
        Event::StreamClosed => Phase::Disconnected,
    }
}

/// Apply one observed event to a phase.
pub fn step(p: Phase, e: Event) -> (q: Phase)
    ensures
        q == spec_step(p, e),
{
    match e {
        Event::StreamConnected => if matches!(p, Phase::Disconnected) {
            Phase::Negotiating
        } else {
            p
        },
        Event::HandshakeAccepted => if matches!(p, Phase::Negotiating) {
            Phase::Ready
        } else {
            p
        },
        Event::HandshakeRejected => if matches!(p, Phase::Negotiating) {
            Phase::Failed
        } else {
            p
        },
        Event::StreamClosed => Phase::Disconnected,
    }
}

/// Why a session refused to act: it is not ready for requests, or every
/// request id has been used up.
#[derive(Clone, Copy, Debug, PartialEq, Eq, Structural)]
pub enum SessionError {
    NotReady,
    RequestIdsExhausted,
}

/// Issues unique, monotonically increasing request-id values, starting at 0.
pub struct RequestIdAllocator {
    next: i64,
}

impl RequestIdAllocator {
    /// The next id this allocator will hand out.
    pub closed spec fn next_id(&self) -> int {
        self.next as int
    }

    /// Every id handed out so far, in the order they were handed out.
    pub closed spec fn issued(&self) -> Seq<i64> {
        Seq::new(self.next as nat, |i: int| i as i64)
    }

    pub closed spec fn wf(&self) -> bool {
        self.next >= 0
    }

    /// A fresh allocator has issued nothing and starts at 0.
    pub fn new() -> (a: RequestIdAllocator)
        ensures
            a.wf(),
            a.next_id() == 0,
            a.issued() == Seq::<i64>::empty(),
    {
        let a = RequestIdAllocator { next: 0 };
        proof {
            assert(a.issued() =~= Seq::<i64>::empty());
        }
        a
    }

    /// Hand out the next id: the caller receives exactly the count of ids
    /// issued before this call, and no id is ever repeated.
    pub fn allocate(&mut self) -> (r: i64)
        requires
            old(self).wf(),
            old(self).next_id() < i64::MAX,
        ensures
            final(self).wf(),
            r == old(self).next_id(),
            final(self).next_id() == old(self).next_id() + 1,
            final(self).issued() == old(self).issued().push(r),
    {
        let r = self.next;
        self.next = self.next + 1;
        proof {
            assert(final(self).issued() =~= old(self).issued().push(r));
        }
        r
    }
}

/// Law: sequential allocation yields exactly 0, 1, 2, …, n-1. After any run
/// of allocations the issued ids are the consecutive integers from 0, so
/// they are pairwise distinct and strictly increasing.
pub proof fn lemma_issued_ids_sequential(a: &RequestIdAllocator)
    requires
        a.wf(),
    ensures
        a.issued().len() == a.next_id(),
        forall|i: int| 0 <= i < a.issued().len() ==> a.issued()[i] == i,
        forall|i: int, j: int|
            0 <= i < j < a.issued().len() ==> a.issued()[i] != a.issued()[j],
{
}

/// A connection's protocol-side state: its phase and its request-id
/// allocator. One request id is taken per issued request.
pub struct Session {
    pub phase: Phase,
    pub ids: RequestIdAllocator,
}

impl Session {
    pub open spec fn wf(&self) -> bool {
        self.ids.wf()
    }

    /// A fresh session is disconnected and has issued no request ids.
    pub fn new() -> (s: Session)
        ensures
            s.wf(),
            s.phase is Disconnected,
            s.ids.next_id() == 0,
    {
        Session { phase: Phase::Disconnected, ids: RequestIdAllocator::new() }
    }

    /// Apply one observed event to the session's phase.
    pub fn on_event(&mut self, e: Event)
        requires
            old(self).wf(),
        ensures
            final(self).wf(),
            final(self).phase == spec_step(old(self).phase, e),
            final(self).ids == old(self).ids,
    {
        self.phase = step(self.phase, e);
    }

    /// Whether a handshake may be sent now: exactly once, while negotiating.
    pub fn may_handshake(&self) -> (r: bool)
        ensures
            r == (self.phase is Negotiating),
    {
        matches!(self.phase, Phase::Negotiating)
    }

    /// Whether requests may be issued now: only once the handshake
    /// succeeded.
    pub fn is_ready(&self) -> (r: bool)
        ensures
            r == (self.phase is Ready),
    {
        matches!(self.phase, Phase::Ready)
    }

    /// Take the next request id. Succeeds exactly when the session is ready
    /// and ids remain; a session that is not ready is refused with
    /// `NotReady`, and nothing changes on refusal.
    pub fn take_request_id(&mut self) -> (r: Result<i64, SessionError>)
        requires
            old(self).wf(),
        ensures
            final(self).wf(),
            final(self).phase == old(self).phase,
            r is Ok <==> old(self).phase is Ready && old(self).ids.next_id() < i64::MAX,
            r matches Ok(id) ==> {
                &&& id == old(self).ids.next_id()
                &&& final(self).ids.next_id() == old(self).ids.next_id() + 1
                &&& final(self).ids.issued() == old(self).ids.issued().push(id)
            },
            r is Err ==> final(self).ids == old(self).ids,
            r == Err::<i64, SessionError>(SessionError::NotReady) <==> !(old(self).phase
                is Ready),
            r == Err::<i64, SessionError>(SessionError::RequestIdsExhausted) <==> old(self).phase
                is Ready && old(self).ids.next_id() == i64::MAX,
    {
        if !matches!(self.phase, Phase::Ready) {
            Err(SessionError::NotReady)
        } else if self.ids.next == i64::MAX {
            Err(SessionError::RequestIdsExhausted)
        } else {
            Ok(self.ids.allocate())
        }
    }
}

} // verus!
