//! Admission of generation requests: one admission ticket for the whole
//! process, handed out in arrival order, and the life cycle of the request
//! that holds it.
use vstd::prelude::*;

verus! {

/// The life cycle of a request.
#[derive(Debug, Clone, Copy, PartialEq, Eq, Structural)]
pub enum RequestPhase {
    /// Waiting for the admission ticket.
    Queued,
    /// Holds the ticket; its model is being resolved.
    TicketHeld,
    /// Also holds the model instance exclusively.
    InstanceHeld,
    /// Its generation runs.
    Generating,
    /// The generation ended normally.
    Completed,
    /// The consumer went away.
    Cancelled,
    /// Resolution or generation failed.
    Failed,
}

/// How a request that held the ticket ended.
#[derive(Debug, Clone, Copy, PartialEq, Eq, Structural)]
pub enum Outcome {
    Completed,
    Cancelled,
    Failed,
}

/// What happens to the request that holds the ticket.
#[derive(Debug, Clone, Copy, PartialEq, Eq, Structural)]
pub enum SessionEvent {
    /// Exclusive access to the model instance was obtained.
    InstanceLocked,
    /// The generation was started on a worker.
    Started,
    /// The request ended; ticket and instance are released.
    Ended(Outcome),
}

/// Errors of the orchestrator's operations.
#[derive(Debug, Clone, Copy, PartialEq, Eq, Structural)]
pub enum SessionError {
    /// A request with that id is already known.
    DuplicateRequest,
    /// The request does not hold the ticket.
    NotHolder,
    /// The event does not follow from the request's phase.
    OutOfOrder,
    /// The request is not waiting.
    NotWaiting,
}

/// The terminal phase of an outcome.
pub open spec fn outcome_phase(o: Outcome) -> RequestPhase {
    match o {
        Outcome::Completed => RequestPhase::Completed,
        Outcome::Cancelled => RequestPhase::Cancelled,
        Outcome::Failed => RequestPhase::Failed,
    }
}

/// The phase that `event` leads to from `phase`, if it may happen there.
pub open spec fn step(phase: RequestPhase, event: SessionEvent) -> Option<RequestPhase> {
    match (phase, event) {
        (RequestPhase::TicketHeld, SessionEvent::InstanceLocked) => Some(RequestPhase::InstanceHeld),
        (RequestPhase::InstanceHeld, SessionEvent::Started) => Some(RequestPhase::Generating),
        (RequestPhase::TicketHeld, SessionEvent::Ended(o)) => Some(outcome_phase(o)),
        (RequestPhase::InstanceHeld, SessionEvent::Ended(o)) => Some(outcome_phase(o)),
        (RequestPhase::Generating, SessionEvent::Ended(o)) => Some(outcome_phase(o)),
        _ => None,
    }
}

/// Whether a phase holds the ticket.
pub open spec fn holds_ticket(p: RequestPhase) -> bool {
    p == RequestPhase::TicketHeld || p == RequestPhase::InstanceHeld || p
        == RequestPhase::Generating
}

/// The single-seat admission ticket and the queue in front of it.
pub struct Orchestrator {
    waiting: Vec<u64>,
    holder: Option<(u64, RequestPhase)>,
}

impl Orchestrator {
    /// The waiting requests, in arrival order.
    pub closed spec fn waiting(&self) -> Seq<u64> {
        self.waiting@
    }

    /// The request holding the ticket, with its phase.
    pub closed spec fn holder(&self) -> Option<(u64, RequestPhase)> {
        self.holder
    }

    /// Whether request `id` is generating right now.
    pub open spec fn is_generating(&self, id: u64) -> bool {
        self.holder() == Some((id, RequestPhase::Generating))
    }

    /// Whether `try_admit(id)` hands the ticket to `id`.
    pub open spec fn can_admit(&self, id: u64) -> bool {
        self.holder() is None && self.waiting().len() > 0 && self.waiting()[0] == id
    }

    /// The invariant: no request waits twice, the holder does not wait, and
    /// the holder's phase is one that holds the ticket.
    pub closed spec fn wf(&self) -> bool {
        &&& self.waiting@.no_duplicates()
        &&& match self.holder {
            Some((id, p)) => !self.waiting@.contains(id) && holds_ticket(p),
            None => true,
        }
    }

    /// No queue and a free ticket.
    pub fn new() -> (r: Self)
        ensures
            r.wf(),
            r.waiting() == Seq::<u64>::empty(),
            r.holder() is None,
    {
        Orchestrator { waiting: Vec::new(), holder: None }
    }

    /// Whether `id` waits or holds the ticket.
    fn knows(&self, id: u64) -> (r: bool)
        ensures
            r == (self.waiting@.contains(id) || (self.holder is Some && self.holder->Some_0.0 == id)),
    {
        if let Some((h, _)) = self.holder {
            if h == id {
                return true;
            }
        }
        let mut k: usize = 0;
        while k < self.waiting.len()
            invariant
                k <= self.waiting@.len(),
                forall|q: int| 0 <= q < k ==> self.waiting@[q] != id,
            decreases self.waiting@.len() - k,
        {
            if self.waiting[k] == id {
                return true;
            }
            k = k + 1;
        }
        false
    }

    /// Queues request `id` behind those that came before it.
    pub fn enqueue(&mut self, id: u64) -> (r: Result<(), SessionError>)
        requires
            old(self).wf(),
        ensures
            final(self).wf(),
            final(self).holder() == old(self).holder(),
            (old(self).waiting().contains(id) || (old(self).holder() is Some && old(self).holder()->Some_0.0 == id)) ==> r == Err::<(), SessionError>(
                SessionError::DuplicateRequest,
            ) && final(self).waiting() == old(self).waiting(),
            !(old(self).waiting().contains(id) || (old(self).holder() is Some && old(self).holder()->Some_0.0 == id)) ==> r is Ok && final(self).waiting() == old(self).waiting().push(id),
    {
        if self.knows(id) {
            return Err(SessionError::DuplicateRequest);
        }
        let ghost w0 = self.waiting@;
        self.waiting.push(id);
        proof {
            assert forall|a: int, b: int|
                0 <= a < self.waiting@.len() && 0 <= b < self.waiting@.len() && a != b implies self.waiting@[a]
                != self.waiting@[b] by {
                if a < w0.len() && b < w0.len() {
                } else if a < w0.len() {
                    assert(w0.contains(self.waiting@[a]));
                } else {
                    assert(w0.contains(self.waiting@[b]));
                }
            }
            if let Some((h, _)) = self.holder {
                assert(h != id);
                assert(!self.waiting@.contains(h)) by {
                    if self.waiting@.contains(h) {
                        let q = choose|q: int| 0 <= q < self.waiting@.len() && self.waiting@[q] == h;
                        if q < w0.len() {
                            assert(w0.contains(h));
                        }
                    }
                }
            }
        }
        Ok(())
    }

    /// Hands the ticket to `id` if it is free and `id` is first in line.
    pub fn try_admit(&mut self, id: u64) -> (r: bool)
        requires
            old(self).wf(),
        ensures
            final(self).wf(),
            r == old(self).can_admit(id),
            r ==> final(self).holder() == Some((id, RequestPhase::TicketHeld)) && final(self).waiting() == old(self).waiting().drop_first(),
            !r ==> final(self).holder() == old(self).holder() && final(self).waiting() == old(self).waiting(),
    {
        if self.holder.is_some() || self.waiting.len() == 0 {
            return false;
        }
        if self.waiting[0] != id {
            return false;
        }
        let ghost w0 = self.waiting@;
        self.waiting.remove(0);
        self.holder = Some((id, RequestPhase::TicketHeld));
        proof {
            assert(self.waiting@ =~= w0.drop_first());
            assert forall|a: int, b: int|
                0 <= a < self.waiting@.len() && 0 <= b < self.waiting@.len() && a != b implies self.waiting@[a]
                != self.waiting@[b] by {
                assert(self.waiting@[a] == w0[a + 1]);
                assert(self.waiting@[b] == w0[b + 1]);
            }
            assert(!self.waiting@.contains(id)) by {
                if self.waiting@.contains(id) {
                    let q = choose|q: int| 0 <= q < self.waiting@.len() && self.waiting@[q] == id;
                    assert(w0[q + 1] == w0[0]);
                }
            }
        }
        true
    }

    /// Takes a waiting request out of the line: its client went away before
    /// it was admitted.
    pub fn withdraw(&mut self, id: u64) -> (r: Result<(), SessionError>)
        requires
            old(self).wf(),
        ensures
            final(self).wf(),
            final(self).holder() == old(self).holder(),
            !old(self).waiting().contains(id) ==> r == Err::<(), SessionError>(
                SessionError::NotWaiting,
            ) && final(self).waiting() == old(self).waiting(),
            old(self).waiting().contains(id) ==> r is Ok && final(self).waiting() == old(self).waiting().remove_value(id),
    {
        let mut k: usize = 0;
        let n = self.waiting.len();
        while k < n && self.waiting[k] != id
            invariant
                n == self.waiting@.len(),
                k <= n,
                forall|q: int| 0 <= q < k ==> self.waiting@[q] != id,
            decreases n - k,
        {
            k = k + 1;
        }
        if k == n {
            return Err(SessionError::NotWaiting);
        }
        let ghost w0 = self.waiting@;
        self.waiting.remove(k);
        proof {
            assert(w0.index_of_first(id) == Some(k as int)) by {
                w0.index_of_first_ensures(id);
            }
            assert(self.waiting@ =~= w0.remove_value(id));
            assert forall|a: int, b: int|
                0 <= a < self.waiting@.len() && 0 <= b < self.waiting@.len() && a != b implies self.waiting@[a]
                != self.waiting@[b] by {
                let ia = if a < k { a } else { a + 1 };
                let ib = if b < k { b } else { b + 1 };
                assert(self.waiting@[a] == w0[ia]);
                assert(self.waiting@[b] == w0[ib]);
            }
            if let Some((h, _)) = self.holder {
                assert(!self.waiting@.contains(h)) by {
                    if self.waiting@.contains(h) {
                        let q = choose|q: int| 0 <= q < self.waiting@.len() && self.waiting@[q] == h;
                        let iq = if q < k { q } else { q + 1 };
                        assert(w0[iq] == h);
                        assert(w0.contains(h));
                    }
                }
            }
        }
        Ok(())
    }

    /// Moves the ticket holder `id` along its life cycle. An ending, from any
    /// phase, releases the ticket so the next request can be admitted.
    pub fn advance(&mut self, id: u64, event: SessionEvent) -> (r: Result<RequestPhase, SessionError>)
        requires
            old(self).wf(),
        ensures
            final(self).wf(),
            final(self).waiting() == old(self).waiting(),
            !(old(self).holder() is Some && old(self).holder()->Some_0.0 == id) ==> r == Err::<
                RequestPhase,
                SessionError,
            >(SessionError::NotHolder) && final(self).holder() == old(self).holder(),
            old(self).holder() is Some && old(self).holder()->Some_0.0 == id ==> {
                let p = old(self).holder()->Some_0.1;
                &&& step(p, event) is None ==> r == Err::<RequestPhase, SessionError>(
                    SessionError::OutOfOrder,
                ) && final(self).holder() == old(self).holder()
                &&& step(p, event) matches Some(q) ==> r == Ok::<RequestPhase, SessionError>(q)
                    && final(self).holder() == if holds_ticket(q) {
                    Some((id, q))
                } else {
                    None
                }
            },
    {
        let p = match self.holder {
            Some((h, p)) => {
                if h != id {
                    return Err(SessionError::NotHolder);
                }
                p
            },
            None => {
                return Err(SessionError::NotHolder);
            },
        };
        let next = match (p, event) {
            (RequestPhase::TicketHeld, SessionEvent::InstanceLocked) => RequestPhase::InstanceHeld,
            (RequestPhase::InstanceHeld, SessionEvent::Started) => RequestPhase::Generating,
            (RequestPhase::TicketHeld, SessionEvent::Ended(o)) => Self::ending(o),
            (RequestPhase::InstanceHeld, SessionEvent::Ended(o)) => Self::ending(o),
            (RequestPhase::Generating, SessionEvent::Ended(o)) => Self::ending(o),
            _ => {
                return Err(SessionError::OutOfOrder);
            },
        };
        match next {
            RequestPhase::TicketHeld | RequestPhase::InstanceHeld | RequestPhase::Generating => {
                self.holder = Some((id, next));
            },
            _ => {
                self.holder = None;
            },
        }
        Ok(next)
    }

    fn ending(o: Outcome) -> (r: RequestPhase)
        ensures
            r == outcome_phase(o),
    {
        match o {
            Outcome::Completed => RequestPhase::Completed,
            Outcome::Cancelled => RequestPhase::Cancelled,
            Outcome::Failed => RequestPhase::Failed,
        }
    }

    /// The request generating right now, if any.
    pub fn running(&self) -> (r: Option<u64>)
        ensures
            match r {
                Some(id) => self.is_generating(id),
                None => forall|id: u64| !self.is_generating(id),
            },
    {
        match self.holder {
            Some((id, RequestPhase::Generating)) => Some(id),
            _ => None,
        }
    }

    /// The number of requests waiting.
    pub fn waiting_len(&self) -> (r: usize)
        ensures
            r == self.waiting().len(),
    {
        self.waiting.len()
    }

    /// At most one generation runs at any time.
    pub proof fn lemma_one_generation(&self, a: u64, b: u64)
        requires
            self.wf(),
            self.is_generating(a),
            self.is_generating(b),
        ensures
            a == b,
    {
    }

    /// Ending a request, from any phase that holds the ticket and with any
    /// outcome, leads to a phase that holds nothing, so `advance` frees the
    /// ticket; and with the ticket free the first request in line is
    /// admitted. A cancelled stream thus leaves nothing held that would block
    /// the request after it.
    pub proof fn lemma_end_frees_ticket(&self, p: RequestPhase, o: Outcome)
        requires
            self.wf(),
            self.holder() is None,
            self.waiting().len() > 0,
            holds_ticket(p),
        ensures
            step(p, SessionEvent::Ended(o)) matches Some(q) && !holds_ticket(q),
            self.can_admit(self.waiting()[0]),
    {
    }
}

} // verus!
