//! The process-wide reactor: one-time creation with a cached outcome, the
//! registration and polling handles, and the refcount that gates the
//! dispatch thread's lifetime.
//!
//! The kernel calls themselves live outside the library: the platform
//! binding invokes the creation primitive and hands its raw result (the
//! returned handle, null or not, and the last platform error code) to
//! [`RtInner::global`], which decides — at most once, behind the one-time
//! barrier — what to cache, and answers every later call from that cache.

use vstd::prelude::*;
use vstd::pervasive::unreached;
use crate::dispatch::{BATCH_CAPACITY, DISPATCH_TIMEOUT_MS, POLL_TIMEOUT_MS};
use crate::events::CompletionEvent;
use crate::port::{
    AssociateError, CompletionPort, PortModel, WaitOutcome, associate_post, associate_ret,
    wait_batch_events, wait_batch_post, wait_one_post, wait_one_ret,
};

verus! {

/// Model of the cached initialization outcome.
pub enum StateModel {
    /// No call has initialized the reactor yet.
    Uninitialized,
    /// Creation succeeded; the port is shared for the rest of the process.
    Ready(PortModel),
    /// Creation failed; the platform error code is cached and every later
    /// call reports it again without retrying.
    Failed(i32),
}

/// Mathematical model of the global reactor cell.
#[verifier::ext_equal]
pub struct ReactorModel {
    /// The cached outcome of the one creation attempt.
    pub state: StateModel,
    /// How many times the creation primitive has been invoked.
    pub create_calls: u64,
    /// How many consumer leases are live.
    pub refs: u64,
    /// Whether the background dispatch thread should be running.
    pub dispatcher_running: bool,
}

impl ReactorModel {
    /// The port of a ready reactor.
    pub open spec fn port(self) -> PortModel
        recommends
            self.state is Ready,
    {
        match self.state {
            StateModel::Ready(p) => p,
            _ => PortModel {
                handle: 0,
                registered: Seq::<u64>::empty(),
                queue: Seq::<crate::events::CompletionRecord>::empty(),
            },
        }
    }

    /// Well-formedness: the creation primitive is invoked exactly once,
    /// namely by the call that leaves `Uninitialized`; a ready port is well
    /// formed; leases exist only on a ready reactor; and the dispatch
    /// thread runs exactly while at least one lease is live — no window
    /// where a lease exists but nothing drains completions.
    pub open spec fn wf(self) -> bool {
        &&& (self.state is Uninitialized <==> self.create_calls == 0)
        &&& self.create_calls <= 1
        &&& (self.state matches StateModel::Ready(p) ==> p.wf())
        &&& (self.refs > 0 ==> self.state is Ready)
        &&& (self.dispatcher_running <==> self.refs > 0)
    }
}

/// The model of a port freshly created under `raw_handle`.
pub open spec fn created_port_model(raw_handle: u64) -> PortModel {
    PortModel {
        handle: raw_handle,
        registered: Seq::<u64>::empty(),
        queue: Seq::<crate::events::CompletionRecord>::empty(),
    }
}

/// State of the cell after one `global` call that observed the creation
/// primitive return `raw_handle` (null meaning failure with `last_error`):
/// the first call initializes, every other call changes nothing.
pub open spec fn global_post(m: ReactorModel, raw_handle: u64, last_error: i32) -> ReactorModel {
    if m.state is Uninitialized {
        ReactorModel {
            state: if raw_handle != 0 {
                StateModel::Ready(created_port_model(raw_handle))
            } else {
                StateModel::Failed(last_error)
            },
            create_calls: (m.create_calls + 1) as u64,
            ..m
        }
    } else {
        m
    }
}

/// What one `global` call returns: success on a ready reactor, the cached
/// platform error code otherwise.
pub open spec fn global_ret(m: ReactorModel, raw_handle: u64, last_error: i32) -> Result<
    (),
    i32,
> {
    match global_post(m, raw_handle, last_error).state {
        StateModel::Ready(_) => Ok(()),
        StateModel::Failed(e) => Err(e),
        StateModel::Uninitialized => Ok(()),
    }
}

/// State of the cell after one lease construction: the count rises by one
/// and, on the rise from zero, the dispatch thread is started.
pub open spec fn acquire_post(m: ReactorModel) -> ReactorModel {
    ReactorModel { refs: (m.refs + 1) as u64, dispatcher_running: true, ..m }
}

/// State of the cell after one lease destruction: the count falls by one
/// and, on the fall to zero, the dispatch thread is stopped.
pub open spec fn release_post(m: ReactorModel) -> ReactorModel {
    ReactorModel { refs: (m.refs - 1) as u64, dispatcher_running: m.refs > 1, ..m }
}

/// State of the cell after a sequence of `global` calls, each entry
/// carrying what the creation primitive would return to the one call that
/// invokes it.
pub open spec fn run_globals(m: ReactorModel, calls: Seq<(u64, i32)>) -> ReactorModel
    decreases calls.len(),
{
    if calls.len() == 0 {
        m
    } else {
        run_globals(global_post(m, calls[0].0, calls[0].1), calls.skip(1))
    }
}

/// Once any call has initialized the cell, no later call changes it.
pub proof fn lemma_global_stable(m: ReactorModel, calls: Seq<(u64, i32)>)
    requires
        !(m.state is Uninitialized),
    ensures
        run_globals(m, calls) == m,
    decreases calls.len(),
{
    if calls.len() > 0 {
        lemma_global_stable(m, calls.skip(1));
    }
}

/// Law: exactly-once creation. Starting from an uninitialized cell, any
/// nonempty sequence of `global` calls invokes the creation primitive
/// exactly once — the first call — and after every call, however late, the
/// cell holds exactly the outcome the first call cached.
pub proof fn lemma_exactly_once_creation(m: ReactorModel, calls: Seq<(u64, i32)>)
    requires
        m.wf(),
        m.state is Uninitialized,
        calls.len() >= 1,
    ensures
        run_globals(m, calls).create_calls == m.create_calls + 1,
        forall|i: int|
            1 <= i <= calls.len() ==> #[trigger] run_globals(m, calls.take(i)) == global_post(
                m,
                calls[0].0,
                calls[0].1,
            ),
{
    let first = global_post(m, calls[0].0, calls[0].1);
    assert forall|i: int| 1 <= i <= calls.len() implies #[trigger] run_globals(m, calls.take(i))
        == first by {
        let pre = calls.take(i);
        assert(pre[0] == calls[0]);
        assert(run_globals(m, pre) == run_globals(
            global_post(m, pre[0].0, pre[0].1),
            pre.skip(1),
        ));
        lemma_global_stable(first, pre.skip(1));
    }
    assert(calls.take(calls.len() as int) =~= calls);
    assert(run_globals(m, calls) == first);
}

/// Law: idempotent failure caching. If the one creation attempt failed,
/// then after every call — first or much later — the cell holds the same
/// cached platform error code, the primitive is never invoked again, and
/// every call returns an error carrying that code.
pub proof fn lemma_failure_cached(m: ReactorModel, calls: Seq<(u64, i32)>)
    requires
        m.wf(),
        m.state is Uninitialized,
        calls.len() >= 1,
        calls[0].0 == 0,
    ensures
        forall|i: int|
            1 <= i <= calls.len() ==> (#[trigger] run_globals(m, calls.take(i))).state
                == StateModel::Failed(calls[0].1),
        forall|i: int|
            1 <= i <= calls.len() ==> (#[trigger] run_globals(m, calls.take(i))).create_calls
                == m.create_calls + 1,
        forall|i: int|
            0 <= i < calls.len() ==> global_ret(
                run_globals(m, #[trigger] calls.take(i)),
                calls[i].0,
                calls[i].1,
            ) == Err::<(), i32>(calls[0].1),
{
    lemma_exactly_once_creation(m, calls);
    let first = global_post(m, calls[0].0, calls[0].1);
    assert(first.state == StateModel::Failed(calls[0].1));
    assert forall|i: int|
        0 <= i < calls.len() implies global_ret(
        run_globals(m, #[trigger] calls.take(i)),
        calls[i].0,
        calls[i].1,
    ) == Err::<(), i32>(calls[0].1) by {
        if i == 0 {
            assert(calls.take(0).len() == 0);
            assert(run_globals(m, calls.take(0)) == m);
        } else {
            assert(run_globals(m, calls.take(i)) == first);
        }
    }
}

/// Number of lease constructions in an interleaving (its `true` entries).
pub open spec fn count_acquires(ops: Seq<bool>) -> int
    decreases ops.len(),
{
    if ops.len() == 0 {
        0
    } else {
        (if ops[0] {
            1int
        } else {
            0int
        }) + count_acquires(ops.skip(1))
    }
}

/// Number of lease destructions in an interleaving (its `false` entries).
pub open spec fn count_releases(ops: Seq<bool>) -> int
    decreases ops.len(),
{
    if ops.len() == 0 {
        0
    } else {
        (if ops[0] {
            0int
        } else {
            1int
        }) + count_releases(ops.skip(1))
    }
}

/// The consumer count after an interleaving of constructions (`true`) and
/// destructions (`false`), starting from `start`: the trajectory the
/// executable increment of `Poll::global` and decrement of `Poll::release`
/// trace out.
pub open spec fn refs_after(start: int, ops: Seq<bool>) -> int
    decreases ops.len(),
{
    if ops.len() == 0 {
        start
    } else {
        refs_after(
            start + (if ops[0] {
                1int
            } else {
                -1int
            }),
            ops.skip(1),
        )
    }
}

/// The consumer count after an interleaving is the start plus constructions
/// minus destructions.
pub proof fn lemma_refs_after_formula(start: int, ops: Seq<bool>)
    ensures
        refs_after(start, ops) == start + count_acquires(ops) - count_releases(ops),
    decreases ops.len(),
{
    if ops.len() > 0 {
        lemma_refs_after_formula(
            start + (if ops[0] {
                1int
            } else {
                -1int
            }),
            ops.skip(1),
        );
    }
}

/// Law: refcount balance. For any interleaving of lease constructions and
/// matching destructions — no prefix destroys more leases than it
/// constructed — the consumer count is never observed negative, and once
/// equally many destructions as constructions have completed it is exactly
/// zero.
pub proof fn lemma_refcount_balance(ops: Seq<bool>)
    requires
        forall|i: int|
            0 <= i <= ops.len() ==> count_releases(#[trigger] ops.take(i)) <= count_acquires(
                ops.take(i),
            ),
        count_acquires(ops) == count_releases(ops),
    ensures
        refs_after(0, ops) == 0,
        forall|i: int| 0 <= i <= ops.len() ==> refs_after(0, #[trigger] ops.take(i)) >= 0,
{
    assert forall|i: int| 0 <= i <= ops.len() implies refs_after(0, #[trigger] ops.take(i))
        >= 0 by {
        lemma_refs_after_formula(0, ops.take(i));
    }
    lemma_refs_after_formula(0, ops);
}

/// State of the cell after an interleaving of lease constructions (`true`)
/// and destructions (`false`), as `Poll::global` and `Poll::release`
/// perform them.
pub open spec fn run_leases(m: ReactorModel, ops: Seq<bool>) -> ReactorModel
    decreases ops.len(),
{
    if ops.len() == 0 {
        m
    } else {
        run_leases(
            if ops[0] {
                acquire_post(m)
            } else {
                release_post(m)
            },
            ops.skip(1),
        )
    }
}

/// Law: refcount balance, on the cell itself. Along any interleaving of
/// lease constructions and destructions whose running count never leaves
/// the counter's range — in particular, no prefix destroys more leases
/// than it constructed — the cell's consumer count traces `refs_after`
/// exactly, the cell stays well formed throughout (so the dispatch thread
/// runs exactly while consumers exist), and with equally many
/// constructions and destructions the count returns to where it started.
pub proof fn lemma_lease_interleaving(m: ReactorModel, ops: Seq<bool>)
    requires
        m.wf(),
        m.state is Ready,
        forall|i: int|
            0 <= i <= ops.len() ==> 0 <= refs_after(m.refs as int, #[trigger] ops.take(i))
                <= u64::MAX,
    ensures
        run_leases(m, ops).wf(),
        run_leases(m, ops).state == m.state,
        run_leases(m, ops).create_calls == m.create_calls,
        run_leases(m, ops).refs == refs_after(m.refs as int, ops),
        count_acquires(ops) == count_releases(ops) ==> run_leases(m, ops).refs == m.refs,
    decreases ops.len(),
{
    lemma_refs_after_formula(m.refs as int, ops);
    if ops.len() > 0 {
        let delta: int = if ops[0] {
            1int
        } else {
            -1int
        };
        let m1 = if ops[0] {
            acquire_post(m)
        } else {
            release_post(m)
        };
        assert(refs_after(m.refs as int, ops.take(1)) == m.refs + delta) by {
            let t = ops.take(1);
            assert(t.len() == 1);
            assert(t[0] == ops[0]);
            assert(t.skip(1) =~= Seq::<bool>::empty());
            assert(refs_after(m.refs as int + delta, t.skip(1)) == m.refs + delta);
            assert(refs_after(m.refs as int, t) == refs_after(m.refs as int + delta, t.skip(1)));
        }
        assert(0 <= m.refs + delta <= u64::MAX);
        assert(m1.refs as int == m.refs + delta);
        assert(m1.wf());
        assert forall|i: int|
            0 <= i <= ops.skip(1).len() implies 0 <= refs_after(
            m1.refs as int,
            #[trigger] ops.skip(1).take(i),
        ) <= u64::MAX by {
            assert(ops.take(i + 1)[0] == ops[0]);
            assert(ops.skip(1).take(i) =~= ops.take(i + 1).skip(1));
            assert(refs_after(m.refs as int, ops.take(i + 1)) == refs_after(
                m1.refs as int,
                ops.take(i + 1).skip(1),
            ));
        }
        lemma_lease_interleaving(m1, ops.skip(1));
    }
}

/// Cached initialization outcome, as held by the cell.
pub enum ReactorState {
    Uninitialized,
    Ready(CompletionPort),
    Failed(i32),
}

/// The global reactor cell: the one-time-initialized shared state behind
/// every registration handle and consumer lease.
pub struct RtInner {
    state: ReactorState,
    create_calls: u64,
    refs: u64,
    dispatcher_running: bool,
}

impl View for RtInner {
    type V = ReactorModel;

    closed spec fn view(&self) -> ReactorModel {
        ReactorModel {
            state: match self.state {
                ReactorState::Uninitialized => StateModel::Uninitialized,
                ReactorState::Ready(p) => StateModel::Ready(p@),
                ReactorState::Failed(e) => StateModel::Failed(e),
            },
            create_calls: self.create_calls,
            refs: self.refs,
            dispatcher_running: self.dispatcher_running,
        }
    }
}

impl RtInner {
    /// A fresh, uninitialized cell: no creation attempt yet, no consumers,
    /// no dispatch thread.
    pub fn empty() -> (r: RtInner)
        ensures
            r@.wf(),
            r@.state is Uninitialized,
            r@.create_calls == 0,
            r@.refs == 0,
            !r@.dispatcher_running,
    {
        RtInner {
            state: ReactorState::Uninitialized,
            create_calls: 0,
            refs: 0,
            dispatcher_running: false,
        }
    }

    /// Interprets what the creation primitive returned: a null handle means
    /// the kernel could not allocate the port and the last platform error
    /// code is the failure; any other handle is the created port.
    pub fn new(raw_handle: u64, last_error: i32) -> (r: Result<CompletionPort, i32>)
        ensures
            raw_handle == 0 ==> r == Err::<CompletionPort, i32>(last_error),
            raw_handle != 0 ==> (r matches Ok(p) && p@ == created_port_model(raw_handle)),
    {
        if raw_handle == 0 {
            Err(last_error)
        } else {
            let p = CompletionPort::new(raw_handle);
            proof {
                assert(p@ =~= created_port_model(raw_handle));
            }
            Ok(p)
        }
    }

    /// The one-time initialization barrier: the first call consumes the
    /// creation primitive's result and caches the outcome; every call —
    /// first or later — returns that same cached outcome, success or the
    /// preserved platform error code, and no call ever observes an
    /// uninitialized cell on return.
    pub fn global(&mut self, raw_handle: u64, last_error: i32) -> (r: Result<(), i32>)
        requires
            old(self)@.wf(),
        ensures
            final(self)@.wf(),
            final(self)@ == global_post(old(self)@, raw_handle, last_error),
            r == global_ret(old(self)@, raw_handle, last_error),
    {
        match &self.state {
            ReactorState::Uninitialized => {
                self.create_calls = self.create_calls + 1;
                match RtInner::new(raw_handle, last_error) {
                    Ok(p) => {
                        self.state = ReactorState::Ready(p);
                        Ok(())
                    },
                    Err(e) => {
                        self.state = ReactorState::Failed(e);
                        Err(e)
                    },
                }
            },
            ReactorState::Ready(_) => Ok(()),
            ReactorState::Failed(e) => Err(*e),
        }
    }

    /// Forwards an association request to the port of a ready reactor.
    pub fn associate_socket(&mut self, sock: u64) -> (r: Result<u64, AssociateError>)
        requires
            old(self)@.wf(),
            old(self)@.state is Ready,
        ensures
            final(self)@.wf(),
            final(self)@.state is Ready,
            final(self)@.port() == associate_post(old(self)@.port(), sock),
            r == associate_ret(old(self)@.port(), sock),
            final(self)@.create_calls == old(self)@.create_calls,
            final(self)@.refs == old(self)@.refs,
            final(self)@.dispatcher_running == old(self)@.dispatcher_running,
    {
        match &mut self.state {
            ReactorState::Ready(p) => p.associate(sock),
            _ => unreached(),
        }
    }

    /// One bounded single-shot wait on the port of a ready reactor.
    pub fn poll(&mut self) -> (r: WaitOutcome)
        requires
            old(self)@.wf(),
            old(self)@.state is Ready,
        ensures
            final(self)@.wf(),
            final(self)@.state is Ready,
            final(self)@.port() == wait_one_post(old(self)@.port()),
            r == wait_one_ret(old(self)@.port()),
            final(self)@.create_calls == old(self)@.create_calls,
            final(self)@.refs == old(self)@.refs,
            final(self)@.dispatcher_running == old(self)@.dispatcher_running,
    {
        match &mut self.state {
            ReactorState::Ready(p) => p.wait_one(POLL_TIMEOUT_MS),
            _ => unreached(),
        }
    }

    /// Models the kernel queuing a completion on the port of a ready
    /// reactor: the counterpart of a completed asynchronous operation on a
    /// registered socket.
    pub fn post_completion(&mut self, rec: crate::events::CompletionRecord)
        requires
            old(self)@.wf(),
            old(self)@.state is Ready,
        ensures
            final(self)@.wf(),
            final(self)@.state is Ready,
            final(self)@.port().handle == old(self)@.port().handle,
            final(self)@.port().registered == old(self)@.port().registered,
            final(self)@.port().queue == old(self)@.port().queue.push(rec),
            final(self)@.create_calls == old(self)@.create_calls,
            final(self)@.refs == old(self)@.refs,
            final(self)@.dispatcher_running == old(self)@.dispatcher_running,
    {
        match &mut self.state {
            ReactorState::Ready(p) => p.post_completion(rec),
            _ => unreached(),
        }
    }

    /// One pass of the dispatch loop body: a bounded batch wait with the
    /// design capacity and timeout, yielding the drained completion events.
    /// The persistent loop around it — thread, stop signal, delivery — is
    /// the embedder's.
    pub fn dispatch_batch(&mut self) -> (events: Vec<CompletionEvent>)
        requires
            old(self)@.wf(),
            old(self)@.state is Ready,
        ensures
            final(self)@.wf(),
            final(self)@.state is Ready,
            final(self)@.port() == wait_batch_post(old(self)@.port(), BATCH_CAPACITY as int),
            events@ == wait_batch_events(old(self)@.port(), BATCH_CAPACITY as int),
            final(self)@.create_calls == old(self)@.create_calls,
            final(self)@.refs == old(self)@.refs,
            final(self)@.dispatcher_running == old(self)@.dispatcher_running,
    {
        match &mut self.state {
            ReactorState::Ready(p) => p.wait_batch(BATCH_CAPACITY, DISPATCH_TIMEOUT_MS),
            _ => unreached(),
        }
    }

    /// How many consumer leases are live.
    pub fn active_consumers(&self) -> (n: u64)
        ensures
            n == self@.refs,
    {
        self.refs
    }

    /// How many times the creation primitive has been invoked.
    pub fn creation_calls(&self) -> (n: u64)
        ensures
            n == self@.create_calls,
    {
        self.create_calls
    }

    /// Whether the background dispatch thread should currently be running.
    pub fn dispatcher_running(&self) -> (b: bool)
        ensures
            b == self@.dispatcher_running,
    {
        self.dispatcher_running
    }

    /// Whether creation succeeded.
    pub fn is_ready(&self) -> (b: bool)
        ensures
            b == (self@.state is Ready),
    {
        match &self.state {
            ReactorState::Ready(_) => true,
            _ => false,
        }
    }

    /// The cached platform error code, when creation failed.
    pub fn cached_error(&self) -> (e: Option<i32>)
        ensures
            e is Some <==> self@.state is Failed,
            (e matches Some(code) ==> self@.state == StateModel::Failed(code)),
    {
        match &self.state {
            ReactorState::Failed(code) => Some(*code),
            _ => None,
        }
    }
}

/// Registration handle: forwards associations to the global reactor; it
/// carries no state of its own.
#[derive(Debug)]
pub struct Rt {}

impl Rt {
    /// Returns the global registration handle, initializing the reactor on
    /// the first call and returning the cached outcome on every call.
    pub fn global(inner: &mut RtInner, raw_handle: u64, last_error: i32) -> (r: Result<Rt, i32>)
        requires
            old(inner)@.wf(),
        ensures
            final(inner)@.wf(),
            final(inner)@ == global_post(old(inner)@, raw_handle, last_error),
            r is Ok <==> global_ret(old(inner)@, raw_handle, last_error) is Ok,
            (r matches Err(e) ==> global_ret(old(inner)@, raw_handle, last_error) == Err::<
                (),
                i32,
            >(e)),
    {
        match inner.global(raw_handle, last_error) {
            Ok(()) => Ok(Rt {  }),
            Err(e) => Err(e),
        }
    }

    /// Registers a socket for completion delivery, under a distinct key.
    pub fn associate_socket(&self, inner: &mut RtInner, sock: u64) -> (r: Result<
        u64,
        AssociateError,
    >)
        requires
            old(inner)@.wf(),
            old(inner)@.state is Ready,
        ensures
            final(inner)@.wf(),
            final(inner)@.state is Ready,
            final(inner)@.port() == associate_post(old(inner)@.port(), sock),
            r == associate_ret(old(inner)@.port(), sock),
            final(inner)@.refs == old(inner)@.refs,
            final(inner)@.create_calls == old(inner)@.create_calls,
            final(inner)@.dispatcher_running == old(inner)@.dispatcher_running,
    {
        inner.associate_socket(sock)
    }
}

/// Consumer lease: its existence declares one consumer's intent to receive
/// completions. Constructing it counts the consumer in; handing it back
/// through [`Poll::release`] counts the consumer out. The lease is not
/// copyable, so each one is released at most once.
#[derive(Debug)]
pub struct Poll {}

impl Poll {
    /// Obtains the global reactor and constructs one lease: the consumer
    /// count rises by one, and the rise from zero is the construction that
    /// starts the dispatch thread.
    pub fn global(inner: &mut RtInner, raw_handle: u64, last_error: i32) -> (r: Result<Poll, i32>)
        requires
            old(inner)@.wf(),
            old(inner)@.refs < u64::MAX,
        ensures
            final(inner)@.wf(),
            r is Ok <==> global_ret(old(inner)@, raw_handle, last_error) is Ok,
            r is Ok ==> final(inner)@ == acquire_post(
                global_post(old(inner)@, raw_handle, last_error),
            ),
            (r matches Err(e) ==> global_ret(old(inner)@, raw_handle, last_error) == Err::<
                (),
                i32,
            >(e) && final(inner)@ == global_post(old(inner)@, raw_handle, last_error)),
    {
        match inner.global(raw_handle, last_error) {
            Ok(()) => {
                let refs = inner.refs;
                inner.refs = refs + 1;
                if refs == 0 {
                    inner.dispatcher_running = true;
                }
                Ok(Poll {  })
            },
            Err(e) => Err(e),
        }
    }

    /// One bounded single-shot drain on behalf of this consumer.
    pub fn poll(&self, inner: &mut RtInner) -> (r: WaitOutcome)
        requires
            old(inner)@.wf(),
            old(inner)@.refs > 0,
        ensures
            final(inner)@.wf(),
            final(inner)@.state is Ready,
            final(inner)@.port() == wait_one_post(old(inner)@.port()),
            r == wait_one_ret(old(inner)@.port()),
            final(inner)@.refs == old(inner)@.refs,
            final(inner)@.create_calls == old(inner)@.create_calls,
            final(inner)@.dispatcher_running == old(inner)@.dispatcher_running,
    {
        inner.poll()
    }

    /// Destroys the lease: the consumer count falls by one, and the fall to
    /// zero is the destruction that stops the dispatch thread. Taking the
    /// lease by value guarantees the decrement happens exactly once per
    /// construction.
    pub fn release(self, inner: &mut RtInner)
        requires
            old(inner)@.wf(),
            old(inner)@.refs >= 1,
        ensures
            final(inner)@.wf(),
            final(inner)@ == release_post(old(inner)@),
    {
        let refs = inner.refs;
        inner.refs = refs - 1;
        if refs == 1 {
            inner.dispatcher_running = false;
        }
    }
}

} // verus!
