//! Where messages come from, and which worker gets them.

pub mod mqtt;

use vstd::prelude::*;

verus! {

/// A message as it came in.
#[derive(Debug)]
pub struct IngestJob {
    pub topic: String,
    pub payload: Vec<u8>,
}

/// Which worker gets the message number `count`.
pub open spec fn worker_for(count: nat, workers: nat) -> nat
    recommends
        workers > 0,
{
    count % workers
}

/// Deals messages out to a fixed number of workers, one after the other.
#[derive(Debug)]
pub struct IngestDispatcher {
    workers: usize,
    next: usize,
}

impl IngestDispatcher {
    pub closed spec fn spec_workers(&self) -> nat {
        self.workers as nat
    }

    /// How many messages were dealt out, as far as the counter goes.
    pub closed spec fn counter(&self) -> usize {
        self.next
    }

    pub open spec fn wf(&self) -> bool {
        self.spec_workers() > 0
    }

    /// A dispatcher over some workers.
    pub fn new(workers: usize) -> (d: Self)
        requires
            workers > 0,
        ensures
            d.wf(),
            d.spec_workers() == workers,
            d.counter() == 0,
    {
        IngestDispatcher { workers, next: 0 }
    }

    /// The worker that gets the next message.
    pub fn dispatch(&mut self) -> (worker: usize)
        requires
            old(self).wf(),
        ensures
            final(self).wf(),
            final(self).spec_workers() == old(self).spec_workers(),
            final(self).counter() == old(self).counter().wrapping_add(1),
            worker == worker_for(old(self).counter() as nat, old(self).spec_workers()),
            worker < old(self).spec_workers(),
    {
        let worker: usize = self.next % self.workers;
        self.next = self.next.wrapping_add(1);
        worker
    }
}

/// Of as many messages in a row as there are workers, each worker gets exactly
/// one, as long as the counter does not start anew among them.
pub proof fn law_every_worker_gets_its_turn(first: nat, workers: nat, worker: nat)
    requires
        worker < workers,
    ensures
        exists|i: nat|
            i < workers && #[trigger] worker_for(first + i, workers) == worker && (forall|j: nat|
                j < workers && #[trigger] worker_for(first + j, workers) == worker ==> j == i),
{
    let r = first % workers;
    let i: nat = if worker >= r {
        (worker - r) as nat
    } else {
        (worker + workers - r) as nat
    };
    lemma_turn(first, workers, i);
    assert(worker_for(first + i, workers) == worker);
    assert forall|j: nat|
        j < workers && #[trigger] worker_for(first + j, workers) == worker implies j == i by {
        lemma_turn(first, workers, j);
    }
}

/// Whose turn it is `i` messages after the message number `first`.
proof fn lemma_turn(first: nat, workers: nat, i: nat)
    requires
        i < workers,
    ensures
        worker_for(first + i, workers) == (if first % workers + i < workers {
            (first % workers + i) as int
        } else {
            first % workers + i - workers
        }),
{
    let q = first / workers;
    let r = first % workers;
    vstd::arithmetic::div_mod::lemma_fundamental_div_mod(first as int, workers as int);
    assert(workers * q == q * workers) by (nonlinear_arith);
    if r + i < workers {
        vstd::arithmetic::div_mod::lemma_fundamental_div_mod_converse(
            (first + i) as int,
            workers as int,
            q as int,
            (r + i) as int,
        );
    } else {
        assert((q + 1) * workers == q * workers + workers) by (nonlinear_arith);
        vstd::arithmetic::div_mod::lemma_fundamental_div_mod_converse(
            (first + i) as int,
            workers as int,
            (q + 1) as int,
            (r + i - workers) as int,
        );
    }
}

/// How many workers there are, on a machine that can run this many threads at
/// once, if that is known.
pub fn worker_count(parallelism: Option<usize>) -> (n: usize)
    ensures
        n == (match parallelism {
            Some(p) => if p < 2 {
                2
            } else if p > 8 {
                8
            } else {
                p
            },
            None => 4,
        }),
        2 <= n <= 8,
{
    match parallelism {
        Some(p) => {
            if p < 2 {
                2
            } else if p > 8 {
                8
            } else {
                p
            }
        },
        None => 4,
    }
}

/// How many messages the queue of one worker holds.
pub fn worker_queue_capacity(input_queue_capacity: usize, workers: usize) -> (n: usize)
    requires
        workers > 0,
    ensures
        n == input_queue_capacity as nat / workers as nat,
        n * workers <= input_queue_capacity,
{
    proof {
        vstd::arithmetic::div_mod::lemma_fundamental_div_mod(
            input_queue_capacity as int,
            workers as int,
        );
        assert(workers * (input_queue_capacity as int / workers as int) == (
        input_queue_capacity as int / workers as int) * workers) by (nonlinear_arith);
    }
    input_queue_capacity / workers
}

/// How a worker gets its next message.
#[derive(Debug, Clone, Copy, PartialEq, Eq, Structural)]
pub enum WorkerWait {
    /// It takes what is in its queue, and ends when that is empty.
    Drain,
    /// It waits for a message or for a change of the shutdown signal.
    Wait,
}

/// How a worker gets its next message: after the shutdown was signalled, or
/// when the signal can no longer come, what is still queued is worked off.
pub fn worker_wait(shutdown: bool, signal_closed: bool) -> (w: WorkerWait)
    ensures
        w == (if shutdown || signal_closed {
            WorkerWait::Drain
        } else {
            WorkerWait::Wait
        }),
{
    if shutdown || signal_closed {
        WorkerWait::Drain
    } else {
        WorkerWait::Wait
    }
}

/// There are as many workers as threads can run at once, but at least two and at
/// most eight, and more threads never make fewer workers.
pub proof fn law_workers_go_by_the_threads(p: usize, q: usize, m: usize, n: usize, unknown: usize)
    requires
        call_ensures(worker_count, (Some(p),), m),
        call_ensures(worker_count, (Some(q),), n),
        call_ensures(worker_count, (None,), unknown),
    ensures
        2 <= m <= 8,
        2 <= p <= 8 ==> m == p,
        p <= q ==> m <= n,
        unknown == 4,
{
}

/// The queues of the workers hold no more than what is configured together, and
/// one more place for each would be too many.
pub proof fn law_queues_share_the_capacity(capacity: usize, workers: usize, n: usize)
    requires
        workers > 0,
        call_ensures(worker_queue_capacity, (capacity, workers), n),
    ensures
        n * workers <= capacity,
        capacity < (n + 1) * workers,
{
    vstd::arithmetic::div_mod::lemma_fundamental_div_mod(capacity as int, workers as int);
    vstd::arithmetic::div_mod::lemma_mod_bound(capacity as int, workers as int);
    assert((n + 1) * workers == workers * n + workers) by (nonlinear_arith);
}

/// A worker waits for messages only while a shutdown can still be signalled and
/// was not.
pub proof fn law_workers_drain_at_the_end(shutdown: bool, signal_closed: bool, w: WorkerWait)
    requires
        call_ensures(worker_wait, (shutdown, signal_closed), w),
    ensures
        w is Wait <==> !shutdown && !signal_closed,
        w is Drain <==> shutdown || signal_closed,
{
}

/// Two messages in a row go to two workers in a row, and the first one follows the
/// last.
pub proof fn law_next_message_goes_to_the_next_worker(
    dispatcher: &mut IngestDispatcher,
    first: usize,
    again: &mut IngestDispatcher,
    second: usize,
)
    requires
        dispatcher.wf(),
        dispatcher.counter() < usize::MAX,
        call_ensures(IngestDispatcher::dispatch, (dispatcher,), first),
        *again == *final(dispatcher),
        call_ensures(IngestDispatcher::dispatch, (again,), second),
    ensures
        first < old(dispatcher).spec_workers(),
        second == (if first + 1 == old(dispatcher).spec_workers() {
            0
        } else {
            first + 1
        }),
{
    let workers = dispatcher.spec_workers();
    let n = dispatcher.counter() as nat;
    if workers > 1 {
        lemma_turn(n, workers, 1);
    } else {
        assert(n % 1 == 0);
        assert((n + 1) % 1 == 0);
    }
}

} // verus!
