//! The pipeline's state and timing rules.
//!
//! The producer pushes one message per timer tick into a bounded queue of
//! capacity equal to the rate limit (structural backpressure: a full
//! queue accepts nothing); the consumer pulls one message per tick and
//! hands it to its callback.  Delivery is FIFO.  Shutdown is a broadcast
//! flag observed between iterations.  A driver owns the timers and the
//! callbacks; every decision it takes goes through this state.

use vstd::prelude::*;

use vstd::arithmetic::div_mod::{lemma_fundamental_div_mod, lemma_hoist_over_denominator};
use vstd::arithmetic::mul::lemma_mul_inequality;

verus! {

/// The shared state of one producer/consumer pair: the bounded message
/// queue and the shutdown flag.
pub struct Pipeline<T> {
    rate_limit: usize,
    queue: Vec<T>,
    shutdown: bool,
}

impl<T> Pipeline<T> {
    /// The queued messages, oldest first.
    pub closed spec fn contents(&self) -> Seq<T> {
        self.queue@
    }

    /// The queue's capacity: the configured rate limit.
    pub closed spec fn capacity(&self) -> int {
        self.rate_limit as int
    }

    /// Whether shutdown was signalled.
    pub closed spec fn is_shutdown(&self) -> bool {
        self.shutdown
    }

    /// The queue never exceeds its capacity.
    pub open spec fn wf(&self) -> bool {
        self.contents().len() <= self.capacity() && self.capacity() >= 1
    }

    /// A fresh pipeline for the given rate limit: empty, running.
    pub fn new(rate_limit: usize) -> (r: Self)
        requires
            rate_limit >= 1,
        ensures
            r.contents() == Seq::<T>::empty(),
            r.capacity() == rate_limit,
            !r.is_shutdown(),
            r.wf(),
    {
        Pipeline { rate_limit, queue: Vec::new(), shutdown: false }
    }

    /// One producer tick: enqueues the message unless the queue is full.
    /// A refused message is handed back; the producer must wait for the
    /// next tick (backpressure).
    pub fn offer(&mut self, message: T) -> (r: Option<T>)
        requires
            old(self).wf(),
        ensures
            final(self).wf(),
            final(self).capacity() == old(self).capacity(),
            final(self).is_shutdown() == old(self).is_shutdown(),
            old(self).contents().len() < old(self).capacity() ==> r is None
                && final(self).contents() == old(self).contents().push(message),
            old(self).contents().len() >= old(self).capacity() ==> r == Some(message)
                && final(self).contents() == old(self).contents(),
    {
        if self.queue.len() < self.rate_limit {
            self.queue.push(message);
            None
        } else {
            Some(message)
        }
    }

    /// One consumer tick: dequeues the oldest message, if any.  Delivery
    /// is FIFO: messages leave in the order the producer pushed them.
    pub fn take(&mut self) -> (r: Option<T>)
        requires
            old(self).wf(),
        ensures
            final(self).wf(),
            final(self).capacity() == old(self).capacity(),
            final(self).is_shutdown() == old(self).is_shutdown(),
            old(self).contents().len() > 0 ==> r == Some(old(self).contents()[0])
                && final(self).contents() == old(self).contents().drop_first(),
            old(self).contents().len() == 0 ==> r is None
                && final(self).contents() == old(self).contents(),
    {
        if self.queue.len() > 0 {
            let m = self.queue.remove(0);
            proof {
                assert(self.queue@ =~= old(self).queue@.drop_first());
            }
            Some(m)
        } else {
            None
        }
    }

    /// Broadcasts shutdown: both roles stop at their next scheduling
    /// iteration; queued messages may stay undelivered.
    pub fn signal_shutdown(&mut self)
        ensures
            final(self).contents() == old(self).contents(),
            final(self).capacity() == old(self).capacity(),
            final(self).is_shutdown(),
    {
        self.shutdown = true;
    }

    /// Whether a role should stop before its next tick.
    pub fn should_stop(&self) -> (r: bool)
        ensures
            r == self.is_shutdown(),
    {
        self.shutdown
    }
}

/// The tick period for a rate limit, in nanoseconds: one second divided
/// by the rate.
pub fn tick_period_nanos(rate_limit: u64) -> (r: u64)
    requires
        rate_limit >= 1,
    ensures
        r == 1_000_000_000int / rate_limit as int,
{
    1_000_000_000 / rate_limit
}

/// The time of tick `k` under period `p`.
pub open spec fn spec_tick_time(k: int, p: int) -> int {
    k * p
}

/// The index of the first tick of period `p` at or after time `t`: ticks
/// happen at times `k * p`.
pub open spec fn spec_first_tick_at_or_after(t: int, p: int) -> int {
    (t + p - 1) / p
}

/// A tick happens in `[t, _)` exactly when its index is at least the
/// first index at or after `t`.
proof fn lemma_tick_boundary(t: int, p: int, k: int)
    requires
        1 <= p,
        0 <= t,
        0 <= k,
    ensures
        k * p >= t <==> k >= spec_first_tick_at_or_after(t, p),
{
    let a = spec_first_tick_at_or_after(t, p);
    lemma_fundamental_div_mod(t + p - 1, p);
    vstd::arithmetic::div_mod::lemma_mod_division_less_than_divisor(t + p - 1, p);
    vstd::arithmetic::div_mod::lemma_mod_bound(t + p - 1, p);
    assert(p * a <= t + p - 1);
    assert(p * a >= t + p - 1 - (p - 1));
    if k >= a {
        lemma_mul_inequality(a, k, p);
        assert(a * p <= k * p);
        assert(a * p == p * a) by (nonlinear_arith);
        assert(k * p >= t);
    }
    if k * p >= t {
        if k < a {
            lemma_mul_inequality(k + 1, a, p);
            assert((k + 1) * p <= a * p);
            assert((k + 1) * p == k * p + p) by (nonlinear_arith);
            assert(a * p == p * a) by (nonlinear_arith);
            assert(k * p + p <= t + p - 1);
            assert(k * p <= t - 1);
            assert(false);
        }
    }
}

/// Pipeline rate bound: with tick period `p` dividing one second into
/// exactly `rate` ticks, any window of `w` whole seconds holds exactly
/// `rate * w` timer ticks.  A role runs its callback at most once per
/// tick, so over such a window the consumer invokes its callback at most
/// `rate * w` times (one more when the window's edge lands on a tick).
pub proof fn lemma_rate_limit_window(rate: int, w: int, p: int, t0: int)
    requires
        1 <= rate,
        1 <= w,
        0 <= t0,
        p == 1_000_000_000int / rate,
        p * rate == 1_000_000_000int,
    ensures
        ({
            let a = spec_first_tick_at_or_after(t0, p);
            let b = spec_first_tick_at_or_after(t0 + w * 1_000_000_000int, p);
            &&& forall|k: int|
                0 <= k ==> ((t0 <= #[trigger] spec_tick_time(k, p) < t0 + w * 1_000_000_000int)
                    <==> (a <= k < b))
            &&& b - a == rate * w
        }),
{
    let a = spec_first_tick_at_or_after(t0, p);
    let b = spec_first_tick_at_or_after(t0 + w * 1_000_000_000int, p);
    assert(p >= 1);
    assert(w * 1_000_000_000int == (w * rate) * p) by (nonlinear_arith)
        requires
            p * rate == 1_000_000_000int,
    ;
    assert(w * rate >= 0) by (nonlinear_arith)
        requires
            1 <= rate && 1 <= w,
    ;
    assert forall|k: int| 0 <= k implies ((t0 <= #[trigger] spec_tick_time(k, p) < t0 + w
        * 1_000_000_000int) <==> (a <= k < b)) by {
        lemma_tick_boundary(t0, p, k);
        lemma_tick_boundary(t0 + w * 1_000_000_000int, p, k);
        assert(spec_tick_time(k, p) == k * p);
    }
    lemma_hoist_over_denominator(t0 + p - 1, w * rate, p as nat);
    assert((t0 + p - 1) / p + w * rate == (t0 + p - 1 + (w * rate) * p) / p);
    assert(t0 + w * 1_000_000_000int + p - 1 == t0 + p - 1 + (w * rate) * p);
    assert(b == a + rate * w);
}

} // verus!
