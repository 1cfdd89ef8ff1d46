//! The completion port: registration of handles under distinct keys and
//! draining of queued completion records, single-shot or in bounded batches.

use vstd::prelude::*;
use crate::events::{CompletionEvent, CompletionRecord, event_of};

verus! {

/// Mathematical model of one completion port: its (nonzero) kernel handle,
/// the sockets registered with it in registration order, and the queue of
/// completion records not yet drained.
#[verifier::ext_equal]
pub struct PortModel {
    pub handle: u64,
    pub registered: Seq<u64>,
    pub queue: Seq<CompletionRecord>,
}

impl PortModel {
    /// Well-formedness: the handle is valid and no socket is registered
    /// twice, so each socket owns exactly one key.
    pub open spec fn wf(self) -> bool {
        &&& self.handle != 0
        &&& forall|i: int, j: int|
            0 <= i < j < self.registered.len() ==> self.registered[i] != self.registered[j]
    }
}

/// Outcome of a bounded single-shot wait. A timeout is an outcome, not an
/// error: it is how a waiting thread regains control.
#[derive(Clone, Copy, PartialEq, Eq, Structural, Debug)]
pub enum WaitOutcome {
    Completed(CompletionEvent),
    TimedOut,
}

/// Why an association request was refused.
#[derive(Clone, Copy, PartialEq, Eq, Structural, Debug)]
pub enum AssociateError {
    /// The handle is already bound to the port; a handle can be associated
    /// at most once and there is no disassociation.
    AlreadyAssociated,
}

/// State of the port after an association request for `sock`.
pub open spec fn associate_post(m: PortModel, sock: u64) -> PortModel {
    if m.registered.contains(sock) {
        m
    } else {
        PortModel { registered: m.registered.push(sock), ..m }
    }
}

/// Result of an association request for `sock`: the fresh distinct key on
/// first association, an error on any repeat.
pub open spec fn associate_ret(m: PortModel, sock: u64) -> Result<u64, AssociateError> {
    if m.registered.contains(sock) {
        Err(AssociateError::AlreadyAssociated)
    } else {
        Ok(m.registered.len() as u64)
    }
}

/// State of the port after one single-shot wait.
pub open spec fn wait_one_post(m: PortModel) -> PortModel {
    if m.queue.len() == 0 {
        m
    } else {
        PortModel { queue: m.queue.remove(0), ..m }
    }
}

/// Outcome of one single-shot wait: the event of the oldest queued record,
/// or a timeout when nothing is pending.
pub open spec fn wait_one_ret(m: PortModel) -> WaitOutcome {
    if m.queue.len() == 0 {
        WaitOutcome::TimedOut
    } else {
        WaitOutcome::Completed(event_of(m.queue[0]))
    }
}

/// How many records one batch wait with capacity `max` drains.
pub open spec fn batch_count(m: PortModel, max: int) -> int {
    if m.queue.len() <= max {
        m.queue.len() as int
    } else {
        max
    }
}

/// State of the port after one batch wait with capacity `max`.
pub open spec fn wait_batch_post(m: PortModel, max: int) -> PortModel {
    PortModel { queue: m.queue.skip(batch_count(m, max)), ..m }
}

/// The events one batch wait with capacity `max` returns: the oldest queued
/// records, in order, each converted exactly once.
pub open spec fn wait_batch_events(m: PortModel, max: int) -> Seq<CompletionEvent> {
    m.queue.take(batch_count(m, max)).map_values(|r: CompletionRecord| event_of(r))
}

/// An open completion port. Completions posted for registered handles queue
/// up here until a wait drains them; the handle itself stays valid and is
/// never reassigned once the port exists.
pub struct CompletionPort {
    handle: u64,
    registered: Vec<u64>,
    pending: Vec<CompletionRecord>,
}

impl View for CompletionPort {
    type V = PortModel;

    closed spec fn view(&self) -> PortModel {
        PortModel { handle: self.handle, registered: self.registered@, queue: self.pending@ }
    }
}

impl CompletionPort {
    /// A freshly created port under a valid kernel handle: nothing
    /// registered, nothing pending.
    pub fn new(handle: u64) -> (p: Self)
        requires
            handle != 0,
        ensures
            p@.wf(),
            p@.handle == handle,
            p@.registered == Seq::<u64>::empty(),
            p@.queue == Seq::<CompletionRecord>::empty(),
    {
        let p = CompletionPort { handle, registered: Vec::new(), pending: Vec::new() };
        proof {
            assert(p@.registered =~= Seq::<u64>::empty());
            assert(p@.queue =~= Seq::<CompletionRecord>::empty());
        }
        p
    }

    /// Whether `sock` is already bound to this port.
    pub fn is_associated(&self, sock: u64) -> (b: bool)
        ensures
            b == self@.registered.contains(sock),
    {
        let mut i: usize = 0;
        while i < self.registered.len()
            invariant
                i <= self.registered.len(),
                forall|j: int| 0 <= j < i ==> self.registered@[j] != sock,
            decreases self.registered.len() - i,
        {
            if self.registered[i] == sock {
                proof {
                    assert(self@.registered[i as int] == sock);
                }
                return true;
            }
            i = i + 1;
        }
        false
    }

    /// Binds `sock` to the port under a fresh, distinct completion key (its
    /// index in the registration table), so that later completions can be
    /// correlated back to the registration. A second association of the same
    /// handle fails: the kernel refuses a handle already bound to a port.
    pub fn associate(&mut self, sock: u64) -> (r: Result<u64, AssociateError>)
        requires
            old(self)@.wf(),
        ensures
            final(self)@.wf(),
            final(self)@ == associate_post(old(self)@, sock),
            r == associate_ret(old(self)@, sock),
    {
        if self.is_associated(sock) {
            Err(AssociateError::AlreadyAssociated)
        } else {
            let key = self.registered.len() as u64;
            self.registered.push(sock);
            proof {
                assert(final(self)@ =~= associate_post(old(self)@, sock));
                assert forall|i: int, j: int|
                    0 <= i < j < final(self)@.registered.len() implies final(self)@.registered[i]
                    != final(self)@.registered[j] by {
                    if j == final(self)@.registered.len() - 1 {
                        assert(old(self)@.registered[i] != sock);
                    }
                }
            }
            Ok(key)
        }
    }

    /// Models the kernel queuing one completion record on this port; the
    /// counterpart of a completed asynchronous operation on an associated
    /// handle (or of an explicit posting).
    pub fn post_completion(&mut self, rec: CompletionRecord)
        requires
            old(self)@.wf(),
        ensures
            final(self)@.wf(),
            final(self)@.handle == old(self)@.handle,
            final(self)@.registered == old(self)@.registered,
            final(self)@.queue == old(self)@.queue.push(rec),
    {
        self.pending.push(rec);
        proof {
            assert(self@.registered == old(self)@.registered);
            assert(self@.wf());
        }
    }

    /// Blocks until one completion record is available or the timeout
    /// elapses, whichever is first; returns the oldest record's event, or a
    /// timeout outcome — never an error. The model keeps no clock, so
    /// `timeout_ms` only bounds the real wait.
    pub fn wait_one(&mut self, timeout_ms: u64) -> (r: WaitOutcome)
        requires
            old(self)@.wf(),
        ensures
            final(self)@.wf(),
            final(self)@ == wait_one_post(old(self)@),
            r == wait_one_ret(old(self)@),
    {
        let _ = timeout_ms;
        if self.pending.len() == 0 {
            WaitOutcome::TimedOut
        } else {
            let rec = self.pending.remove(0);
            proof {
                assert(final(self)@ =~= wait_one_post(old(self)@));
            }
            WaitOutcome::Completed(rec.to_event())
        }
    }

    /// Drains up to `max_entries` completion records in one bounded wait,
    /// returning however many were ready (none on timeout, which is not an
    /// error): the oldest records, in order, each converted exactly once.
    pub fn wait_batch(&mut self, max_entries: usize, timeout_ms: u64) -> (events: Vec<
        CompletionEvent,
    >)
        requires
            old(self)@.wf(),
            max_entries >= 1,
        ensures
            final(self)@.wf(),
            final(self)@ == wait_batch_post(old(self)@, max_entries as int),
            events@ == wait_batch_events(old(self)@, max_entries as int),
    {
        let ghost m0 = old(self)@;
        let mut events: Vec<CompletionEvent> = Vec::new();
        while events.len() < max_entries && self.pending.len() > 0
            invariant
                self@.handle == m0.handle,
                self@.registered == m0.registered,
                events@.len() <= max_entries,
                events@.len() + self@.queue.len() == m0.queue.len(),
                self@.queue == m0.queue.skip(events@.len() as int),
                forall|i: int| 0 <= i < events@.len() ==> events@[i] == event_of(m0.queue[i]),
            decreases self.pending.len(),
        {
            let ghost n = events@.len() as int;
            let rec = self.pending.remove(0);
            proof {
                assert(rec == m0.queue[n]);
                assert(self@.queue =~= m0.queue.skip(n + 1));
            }
            events.push(rec.to_event());
        }
        proof {
            assert(events@.len() == batch_count(m0, max_entries as int));
            assert(final(self)@ =~= wait_batch_post(m0, max_entries as int));
            assert(events@ =~= wait_batch_events(m0, max_entries as int));
        }
        events
    }

    /// Repeats bounded batch waits until the queue is empty, collecting
    /// every queued event exactly once, in order: the drain a dispatch pass
    /// performs when traffic exceeds one batch's capacity.
    pub fn drain_all(&mut self, max_entries: usize, timeout_ms: u64) -> (events: Vec<
        CompletionEvent,
    >)
        requires
            old(self)@.wf(),
            max_entries >= 1,
        ensures
            final(self)@.wf(),
            final(self)@.handle == old(self)@.handle,
            final(self)@.registered == old(self)@.registered,
            final(self)@.queue.len() == 0,
            events@ == queued_events(old(self)@),
    {
        let ghost m0 = old(self)@;
        let mut events: Vec<CompletionEvent> = Vec::new();
        proof {
            assert(events@ + queued_events(self@) =~= queued_events(m0));
        }
        while self.pending.len() > 0
            invariant
                self@.wf(),
                max_entries >= 1,
                self@.handle == m0.handle,
                self@.registered == m0.registered,
                events@ + queued_events(self@) == queued_events(m0),
            decreases self.pending.len(),
        {
            let ghost prev = self@;
            let ghost sofar = events@;
            let mut batch = self.wait_batch(max_entries, timeout_ms);
            events.append(&mut batch);
            proof {
                lemma_batch_drain_conserves(prev, max_entries as int);
                assert(events@ + queued_events(self@) =~= sofar + (wait_batch_events(
                    prev,
                    max_entries as int,
                ) + queued_events(self@)));
            }
        }
        proof {
            assert(events@ =~= queued_events(m0));
        }
        events
    }
}

/// The events queued on a port, in order: what a complete drain must return.
pub open spec fn queued_events(m: PortModel) -> Seq<CompletionEvent> {
    m.queue.map_values(|r: CompletionRecord| event_of(r))
}

/// Accumulated events of `rounds` consecutive batch waits of capacity `max`.
pub open spec fn drained_after(m: PortModel, max: int, rounds: nat) -> Seq<CompletionEvent>
    decreases rounds,
{
    if rounds == 0 {
        Seq::<CompletionEvent>::empty()
    } else {
        wait_batch_events(m, max) + drained_after(
            wait_batch_post(m, max),
            max,
            (rounds - 1) as nat,
        )
    }
}

/// State of a port after `rounds` consecutive batch waits of capacity `max`.
pub open spec fn model_after(m: PortModel, max: int, rounds: nat) -> PortModel
    decreases rounds,
{
    if rounds == 0 {
        m
    } else {
        model_after(wait_batch_post(m, max), max, (rounds - 1) as nat)
    }
}

/// Law: one batch wait conserves completions — the events it returns,
/// followed by the events still queued afterwards, are exactly the events
/// that were queued before: none duplicated, none dropped. When the queue
/// fits the capacity, that one call returns all of it.
pub proof fn lemma_batch_drain_conserves(m: PortModel, max: int)
    requires
        max >= 1,
    ensures
        wait_batch_events(m, max) + queued_events(wait_batch_post(m, max)) == queued_events(m),
        m.queue.len() <= max ==> wait_batch_events(m, max) == queued_events(m)
            && wait_batch_post(m, max).queue.len() == 0,
{
    assert(wait_batch_events(m, max) + queued_events(wait_batch_post(m, max)) =~= queued_events(
        m,
    ));
    if m.queue.len() <= max {
        assert(wait_batch_events(m, max) =~= queued_events(m));
    }
}

/// Law: when the queue holds more than one batch's capacity, enough repeated
/// batch waits return every queued completion exactly once in aggregate, in
/// order, and leave the queue empty.
pub proof fn lemma_repeated_drain_exactly_once(m: PortModel, max: int, rounds: nat)
    requires
        max >= 1,
        m.queue.len() <= rounds * max,
    ensures
        drained_after(m, max, rounds) == queued_events(m),
        model_after(m, max, rounds).queue.len() == 0,
    decreases rounds,
{
    if rounds == 0 {
        assert(m.queue.len() == 0) by (nonlinear_arith)
            requires
                rounds == 0,
                m.queue.len() <= rounds * max,
        ;
        assert(drained_after(m, max, rounds) =~= queued_events(m));
    } else {
        let next = wait_batch_post(m, max);
        assert(next.queue.len() <= (rounds - 1) * max) by (nonlinear_arith)
            requires
                max >= 1,
                rounds >= 1,
                m.queue.len() <= rounds * max,
                next.queue.len() == m.queue.len() - batch_count(m, max),
                batch_count(m, max) == if m.queue.len() <= max {
                    m.queue.len() as int
                } else {
                    max
                },
        ;
        lemma_repeated_drain_exactly_once(next, max, (rounds - 1) as nat);
        lemma_batch_drain_conserves(m, max);
    }
}

/// Law: a wait on a port with no pending completions reports a timeout
/// outcome — not an error — and leaves the port unchanged.
pub proof fn lemma_wait_one_empty_is_timeout(m: PortModel)
    requires
        m.queue.len() == 0,
    ensures
        wait_one_ret(m) == WaitOutcome::TimedOut,
        wait_one_post(m) == m,
{
}

/// Law: once an association of `sock` has succeeded, a second association of
/// the same handle fails.
pub proof fn lemma_associate_twice_fails(m: PortModel, sock: u64)
    requires
        associate_ret(m, sock) is Ok,
    ensures
        associate_ret(associate_post(m, sock), sock) == Err::<u64, AssociateError>(
            AssociateError::AlreadyAssociated,
        ),
{
    assert(associate_post(m, sock).registered[m.registered.len() as int] == sock);
}

} // verus!
