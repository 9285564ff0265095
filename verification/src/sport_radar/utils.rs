//! URL assembly and the retry discipline of the fetch client: exponential
//! backoff from 100 ms, capped by a caller-supplied (jittered) maximum,
//! retrying transport failures only.

use vstd::prelude::*;
use vstd::string::StringExecFns;

use crate::errors::FetchError;

verus! {

/// The query string of a parameter list: `k=v` pairs joined by `&`.
pub open spec fn spec_query_params(params: Seq<(&str, &str)>) -> Seq<char>
    decreases params.len(),
{
    if params.len() == 0 {
        Seq::empty()
    } else if params.len() == 1 {
        params[0].0@ + "="@ + params[0].1@
    } else {
        spec_query_params(params.drop_last()) + "&"@ + params.last().0@ + "="@ + params.last().1@
    }
}

/// A full URL: the base, `?`, and the query string.
pub open spec fn spec_url(base: Seq<char>, params: Seq<(&str, &str)>) -> Seq<char> {
    base + "?"@ + spec_query_params(params)
}

/// Joins a base URL with `key=value` query parameters.
pub fn construct_url(base_url: &str, params: &[(&str, &str)]) -> (r: String)
    ensures
        r@ == spec_url(base_url@, params@),
{
    let mut url = base_url.to_owned();
    url.append("?");
    let n = params.len();
    let mut i: usize = 0;
    proof {
        assert(params@.take(0) =~= Seq::<(&str, &str)>::empty());
        assert(url@ =~= base_url@ + "?"@ + spec_query_params(params@.take(0)));
    }
    while i < n
        invariant
            n == params@.len(),
            i <= n,
            url@ == base_url@ + "?"@ + spec_query_params(params@.take(i as int)),
        decreases n - i,
    {
        if i > 0 {
            url.append("&");
        }
        let pair = params[i];
        url.append(pair.0);
        url.append("=");
        url.append(pair.1);
        proof {
            assert(params@.take(i + 1).drop_last() =~= params@.take(i as int));
            assert(params@.take(i + 1).last() == params@[i as int]);
            if i == 0 {
                assert(url@ =~= base_url@ + "?"@ + spec_query_params(params@.take(1)));
            } else {
                assert(url@ =~= base_url@ + "?"@ + spec_query_params(params@.take(i + 1)));
            }
        }
        i = i + 1;
    }
    proof {
        assert(params@.take(n as int) =~= params@);
    }
    url
}

/// The delay the backoff schedule yields for a current step value, in
/// nanoseconds: the step (in milliseconds), cut to the cap.
pub open spec fn spec_capped_delay(current_millis: int, cap_nanos: int) -> int {
    if current_millis * 1_000_000 > cap_nanos {
        cap_nanos
    } else {
        current_millis * 1_000_000
    }
}

/// The backoff schedule of the fetch client: each delay is the current
/// step cut to the cap, and the step is multiplied a hundredfold after
/// every attempt, saturating at the integer's top.
pub struct RetryPolicy {
    current_millis: u64,
    cap_nanos: u64,
}

impl RetryPolicy {
    /// The current step, in milliseconds.
    pub closed spec fn spec_current_millis(self) -> int {
        self.current_millis as int
    }

    /// The delay cap, in nanoseconds.
    pub closed spec fn spec_cap_nanos(self) -> int {
        self.cap_nanos as int
    }

    /// A fresh schedule: the first delay is 100 ms, capped.
    pub fn new(cap_nanos: u64) -> (r: Self)
        ensures
            r.spec_current_millis() == 100,
            r.spec_cap_nanos() == cap_nanos,
    {
        RetryPolicy { current_millis: 100, cap_nanos }
    }

    /// Yields the next delay, in nanoseconds, and advances the schedule.
    pub fn next_delay(&mut self) -> (d: u64)
        ensures
            d == spec_capped_delay(old(self).spec_current_millis(), old(self).spec_cap_nanos()),
            final(self).spec_cap_nanos() == old(self).spec_cap_nanos(),
            final(self).spec_current_millis() == if old(self).spec_current_millis() * 100
                > u64::MAX as int {
                u64::MAX as int
            } else {
                old(self).spec_current_millis() * 100
            },
    {
        let d: u64 = if self.current_millis > self.cap_nanos / 1_000_000 {
            self.cap_nanos
        } else {
            self.current_millis * 1_000_000
        };
        proof {
            let cur = self.current_millis as int;
            let cap = self.cap_nanos as int;
            if cur > cap / 1_000_000 {
                assert(cur >= cap / 1_000_000 + 1);
                assert((cap / 1_000_000 + 1) * 1_000_000 > cap) by (nonlinear_arith);
                assert(cur * 1_000_000 >= (cap / 1_000_000 + 1) * 1_000_000) by (nonlinear_arith)
                    requires
                        cur >= cap / 1_000_000 + 1,
                ;
            } else {
                assert(cur * 1_000_000 <= (cap / 1_000_000) * 1_000_000) by (nonlinear_arith)
                    requires
                        cur <= cap / 1_000_000,
                ;
                assert((cap / 1_000_000) * 1_000_000 <= cap) by (nonlinear_arith);
            }
        }
        self.current_millis = if self.current_millis > u64::MAX / 100 {
            u64::MAX
        } else {
            self.current_millis * 100
        };
        proof {
            let old_cur = old(self).current_millis as int;
            if old_cur > u64::MAX as int / 100 {
                assert(old_cur * 100 > u64::MAX as int) by (nonlinear_arith)
                    requires
                        old_cur > u64::MAX as int / 100,
                ;
            } else {
                assert(old_cur * 100 <= (u64::MAX as int / 100) * 100) by (nonlinear_arith)
                    requires
                        old_cur <= u64::MAX as int / 100,
                ;
                assert((u64::MAX as int / 100) * 100 <= u64::MAX as int) by (nonlinear_arith);
            }
        }
        d
    }
}

/// What one fetch attempt came to: a transport failure (to be retried), a
/// decode failure (fatal), or a decoded value.
#[derive(Debug, Clone)]
pub enum FetchOutcome<T> {
    Transport,
    Decode,
    Success { value: T },
}

/// Only transport failures are retried.
pub fn should_retry<T>(outcome: &FetchOutcome<T>) -> (r: bool)
    ensures
        r == (*outcome is Transport),
{
    match outcome {
        FetchOutcome::Transport => true,
        _ => false,
    }
}

/// The index of the first attempt that is not a transport failure.
pub open spec fn spec_first_settled<T>(outcomes: Seq<FetchOutcome<T>>) -> int
    decreases outcomes.len(),
{
    if outcomes.len() == 0 {
        0
    } else if !(outcomes[0] is Transport) {
        0
    } else {
        1 + spec_first_settled(outcomes.drop_first())
    }
}

/// The delay before attempt `n` of a schedule with the given cap: the
/// hundredfold step, saturated, then capped.
pub open spec fn spec_step_millis(n: nat) -> int
    decreases n,
{
    if n == 0 {
        100
    } else if spec_step_millis((n - 1) as nat) * 100 > u64::MAX as int {
        u64::MAX as int
    } else {
        spec_step_millis((n - 1) as nat) * 100
    }
}

/// The total wait before attempt `k`: the sum of the first `k` delays of
/// the schedule.
pub open spec fn spec_total_backoff(cap_nanos: int, k: nat) -> int
    decreases k,
{
    if k == 0 {
        0
    } else {
        spec_total_backoff(cap_nanos, (k - 1) as nat) + spec_capped_delay(
            spec_step_millis((k - 1) as nat),
            cap_nanos,
        )
    }
}

/// What resolving a fetch against a run of attempt outcomes yields: the
/// first settled outcome as a result, and the total backoff waited before
/// it.
pub open spec fn spec_resolve<T>(outcomes: Seq<FetchOutcome<T>>, cap_nanos: int) -> (Result<
    T,
    FetchError,
>, int) {
    let k = spec_first_settled(outcomes);
    (
        match outcomes[k] {
            FetchOutcome::Success { value } => Result::Ok(value),
            _ => Result::Err(FetchError::Decode),
        },
        spec_total_backoff(cap_nanos, k as nat),
    )
}

/// Resolves a fetch from the outcomes of its successive attempts: retries
/// past every transport failure, waiting out the backoff schedule, and
/// settles on the first decode failure (fatal) or decoded value.  Returns
/// the settled result and the total wait in nanoseconds.
pub fn resolve_fetch<T>(outcomes: Vec<FetchOutcome<T>>, cap_nanos: u64) -> (r: (Result<
    T,
    FetchError,
>, u128))
    requires
        exists|i: int| 0 <= i < outcomes@.len() && !((#[trigger] outcomes@[i]) is Transport),
    ensures
        r.0 == spec_resolve(outcomes@, cap_nanos as int).0,
        r.1 == spec_resolve(outcomes@, cap_nanos as int).1,
{
    let ghost all = outcomes@;
    let count = outcomes.len();
    let mut policy = RetryPolicy::new(cap_nanos);
    let mut total: u128 = 0;
    let mut rest = outcomes;
    let ghost mut attempt: nat = 0;
    proof {
        assert(all.skip(0) =~= all);
    }
    loop
        invariant
            all == outcomes@,
            count == all.len(),
            exists|i: int| 0 <= i < rest@.len() && !((#[trigger] rest@[i]) is Transport),
            rest@ == all.skip(attempt as int),
            0 <= attempt <= all.len(),
            spec_first_settled(all) == attempt + spec_first_settled(rest@),
            policy.spec_cap_nanos() == cap_nanos as int,
            policy.spec_current_millis() == spec_step_millis(attempt),
            total == spec_total_backoff(cap_nanos as int, attempt),
            total <= attempt * (u64::MAX as int),
        decreases rest@.len(),
    {
        proof {
            assert(rest@.len() > 0);
        }
        let mut tail = rest.split_off(1);
        let head = rest.pop();
        proof {
            assert(head is Some);
        }
        let head = match head {
            Some(h) => h,
            None => vstd::pervasive::unreached(),
        };
        proof {
            assert(all.skip(attempt as int)[0] == all[attempt as int]);
            assert(head == all[attempt as int]);
            assert(tail@ =~= all.skip(attempt as int + 1));
        }
        match head {
            FetchOutcome::Transport => {
                proof {
                    assert(attempt < all.len());
                    assert(total + u64::MAX as int <= (attempt + 1) * (u64::MAX as int)) by (
                    nonlinear_arith)
                        requires
                            total <= attempt * (u64::MAX as int),
                    ;
                    assert((attempt + 1) * (u64::MAX as int) <= (u64::MAX as int) * (
                    u64::MAX as int)) by (nonlinear_arith)
                        requires
                            0 <= attempt + 1 <= u64::MAX as int,
                    ;
                    assert(attempt + 1 <= u64::MAX as int);
                    assert((u64::MAX as int) * (u64::MAX as int) < u128::MAX as int);
                }
                let d = policy.next_delay();
                total = total + d as u128;
                proof {
                    assert(all.skip(attempt as int)[0] == all[attempt as int]);
                    assert(all.skip(attempt as int).drop_first() =~= all.skip(attempt as int + 1));
                    assert(spec_first_settled(all.skip(attempt as int)) == 1 + spec_first_settled(
                        all.skip(attempt as int + 1),
                    ));
                    attempt = attempt + 1;
                    assert(total <= attempt * (u64::MAX as int)) by (nonlinear_arith)
                        requires
                            total <= (attempt - 1) * (u64::MAX as int) + u64::MAX as int,
                    ;
                }
                rest = tail;
                proof {
                    let w = choose|i: int|
                        0 <= i < all.skip(attempt - 1).len() && !((#[trigger] all.skip(
                            attempt - 1,
                        )[i]) is Transport);
                    assert(w != 0);
                    assert(rest@[w - 1] == all.skip(attempt - 1)[w]);
                    assert(!(rest@[w - 1] is Transport));
                }
            },
            FetchOutcome::Decode => {
                proof {
                    assert(spec_first_settled(all) == attempt);
                }
                return (Result::Err(FetchError::Decode), total);
            },
            FetchOutcome::Success { value } => {
                proof {
                    assert(spec_first_settled(all) == attempt);
                }
                return (Result::Ok(value), total);
            },
        }
    }
}

/// Retry correctness: a fetch whose transport fails twice and then
/// succeeds settles on the decoded value, and the wait before it is the
/// sum of the first two backoff delays (100 ms, then 10 s, each cut to
/// the cap).
pub proof fn lemma_retry_after_transient<T>(v: T, cap_nanos: int)
    ensures
        ({
            let outcomes = seq![
                FetchOutcome::<T>::Transport,
                FetchOutcome::<T>::Transport,
                (FetchOutcome::Success { value: v }),
            ];
            &&& spec_resolve(outcomes, cap_nanos).0 == Ok::<T, FetchError>(v)
            &&& spec_resolve(outcomes, cap_nanos).1 == spec_capped_delay(100, cap_nanos)
                + spec_capped_delay(10_000, cap_nanos)
        }),
{
    let outcomes = seq![
        FetchOutcome::<T>::Transport,
        FetchOutcome::<T>::Transport,
        (FetchOutcome::Success { value: v }),
    ];
    let tail1 = outcomes.drop_first();
    let tail2 = tail1.drop_first();
    assert(tail2[0] == outcomes[2]);
    assert(spec_first_settled(tail2) == 0);
    assert(spec_first_settled(tail1) == 1);
    assert(spec_first_settled(outcomes) == 2);
    assert(spec_step_millis(0) == 100);
    assert(spec_step_millis(1) == 10_000);
    assert(spec_total_backoff(cap_nanos, 0) == 0);
    assert(spec_total_backoff(cap_nanos, 1) == spec_capped_delay(100, cap_nanos));
    assert(spec_total_backoff(cap_nanos, 2) == spec_capped_delay(100, cap_nanos)
        + spec_capped_delay(10_000, cap_nanos));
    assert(outcomes[2] == (FetchOutcome::Success { value: v }));
}

} // verus!
