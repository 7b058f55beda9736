//! The retrying decorator: forwards each request to the wrapped backend
//! once, and on failure pauses and re-attempts it a bounded number of
//! times, counting every retry it performs.

use vstd::prelude::*;

use crate::backend::{
    backend_after, first_success, lemma_backend_after_shift, lemma_first_success_found,
    lemma_first_success_none, response_at, AllocBackend, Request,
};

verus! {

/// Default pause before each retry attempt, in milliseconds.
pub const DEFAULT_TIME_TO_WAIT: u64 = 50;

/// Default bound on retry attempts per call.
pub const DEFAULT_MAX_RETRIES: u32 = 10;

/// The immutable retry policy: how long to pause before each retry
/// attempt, and how many retry attempts one call may make (not counting
/// the initial attempt). No validation is performed: a zero wait or a
/// zero bound is legal and merely shortens or disables the slow path.
#[derive(Clone, Copy)]
#[non_exhaustive]
pub struct RetryConfig {
    /// Pause before each retry attempt, in milliseconds.
    pub time_to_wait: u64,
    /// Bound on retry attempts per call, not counting the initial attempt.
    pub max_retries: u32,
}

impl RetryConfig {
    /// Build a policy from its two tunables.
    pub fn new_v1(time_to_wait: u64, max_retries: u32) -> (c: RetryConfig)
        ensures
            c.time_to_wait == time_to_wait,
            c.max_retries == max_retries,
    {
        RetryConfig { time_to_wait, max_retries }
    }
}

/// The retry counter after `k` further retries have been counted: the
/// counter sticks at `u64::MAX` instead of wrapping, so it never
/// decreases.
pub open spec fn bump(c: u64, k: nat) -> u64 {
    if c + k <= u64::MAX {
        (c + k) as u64
    } else {
        u64::MAX
    }
}

/// Counting retries never decreases the counter.
pub proof fn lemma_counter_never_decreases(c: u64, k: nat)
    ensures
        bump(c, k) >= c,
{
}

/// Retries counted by consecutive calls accumulate: counting `j` and
/// then `k` retries is counting `j + k` retries.
pub proof fn lemma_counter_accumulates(c: u64, j: nat, k: nat)
    ensures
        bump(bump(c, j), k) == bump(c, j + k),
{
}

/// What one retried call leaves behind, stated over the backend model:
/// the policy is untouched; when some attempt within the budget of
/// `1 + max_retries` attempts succeeds, its answer is returned, the
/// counter grows by the number of retries that preceded it, and the
/// backend has served exactly the attempts up to it; when every attempt
/// fails, the failure marker is returned, the counter grows by
/// `max_retries`, and the backend has served all `1 + max_retries`
/// attempts. A request the backend satisfies at once is passed through
/// unchanged with the counter untouched.
pub open spec fn retry_call<T: AllocBackend>(
    pre: RetryAlloc<T>,
    post: RetryAlloc<T>,
    req: Request,
    r: Option<usize>,
) -> bool {
    let b0 = pre.backend();
    let m = pre.policy().max_retries as nat;
    &&& post.policy() == pre.policy()
    &&& match first_success(b0, req, m) {
        Some(k) => {
            &&& r == response_at(b0, req, k)
            &&& r is Some
            &&& post.retries() == bump(pre.retries(), k)
            &&& post.backend() == backend_after(b0, req, k + 1)
        },
        None => {
            &&& r is None
            &&& post.retries() == bump(pre.retries(), m)
            &&& post.backend() == backend_after(b0, req, m + 1)
        },
    }
    &&& b0.response(req) is Some ==> r == b0.response(req) && post.retries() == pre.retries()
}

/// Pass-through correctness: a call whose request the backend satisfies
/// on the first attempt returns exactly the backend's answer and leaves
/// the retry counter unchanged.
pub proof fn lemma_pass_through<T: AllocBackend>(
    pre: RetryAlloc<T>,
    post: RetryAlloc<T>,
    req: Request,
    r: Option<usize>,
)
    requires
        retry_call(pre, post, req, r),
        pre.backend().response(req) is Some,
    ensures
        r == pre.backend().response(req),
        post.retries() == pre.retries(),
{
}

/// Bounded retry termination: when the backend fails every attempt
/// within the budget, the call returns the failure marker and counts
/// exactly `max_retries` retries.
pub proof fn lemma_bounded_exhaustion<T: AllocBackend>(
    pre: RetryAlloc<T>,
    post: RetryAlloc<T>,
    req: Request,
    r: Option<usize>,
)
    requires
        retry_call(pre, post, req, r),
        forall|i: nat|
            i <= pre.policy().max_retries as nat ==> response_at(pre.backend(), req, i) is None,
    ensures
        r is None,
        post.retries() == bump(pre.retries(), pre.policy().max_retries as nat),
{
    lemma_first_success_none(pre.backend(), req, pre.policy().max_retries as nat);
}

/// Eventual success: when the backend fails the first `k` attempts of a
/// call and satisfies attempt `k`, with `k` within the budget, the call
/// returns that answer and counts exactly `k` retries.
pub proof fn lemma_eventual_success<T: AllocBackend>(
    pre: RetryAlloc<T>,
    post: RetryAlloc<T>,
    req: Request,
    r: Option<usize>,
    k: nat,
)
    requires
        retry_call(pre, post, req, r),
        k <= pre.policy().max_retries as nat,
        forall|i: nat| i < k ==> response_at(pre.backend(), req, i) is None,
        response_at(pre.backend(), req, k) is Some,
    ensures
        r == response_at(pre.backend(), req, k),
        r is Some,
        post.retries() == bump(pre.retries(), k),
{
    lemma_first_success_found(pre.backend(), req, pre.policy().max_retries as nat, k);
}

/// Counter monotonicity: no retried call ever leaves the counter below
/// its old value.
pub proof fn lemma_counter_monotonic_per_call<T: AllocBackend>(
    pre: RetryAlloc<T>,
    post: RetryAlloc<T>,
    req: Request,
    r: Option<usize>,
)
    requires
        retry_call(pre, post, req, r),
    ensures
        post.retries() >= pre.retries(),
{
    let b0 = pre.backend();
    let m = pre.policy().max_retries as nat;
    match first_success(b0, req, m) {
        Some(k) => lemma_counter_never_decreases(pre.retries(), k),
        None => lemma_counter_never_decreases(pre.retries(), m),
    }
}

/// The retrying decorator around an inner allocator backend.
pub struct RetryAlloc<T> {
    inner: T,
    config: RetryConfig,
    number_of_retries: u64,
}

impl<T> RetryAlloc<T> {
    /// The wrapped backend.
    pub closed spec fn backend(&self) -> T {
        self.inner
    }

    /// The retry policy this decorator was built with.
    pub closed spec fn policy(&self) -> RetryConfig {
        self.config
    }

    /// The cumulative count of retry attempts performed so far.
    pub closed spec fn retries(&self) -> u64 {
        self.number_of_retries
    }

    /// Wrap `inner` with the policy `config`.
    pub fn with_config(inner: T, config: RetryConfig) -> (r: Self)
        ensures
            r.backend() == inner,
            r.policy() == config,
            r.retries() == 0,
    {
        RetryAlloc { inner, config, number_of_retries: 0 }
    }

    /// Wrap `inner` with the default policy: pause 50 ms before each of
    /// at most 10 retry attempts.
    pub fn new(inner: T) -> (r: Self)
        ensures
            r.backend() == inner,
            r.policy() == (RetryConfig {
                time_to_wait: DEFAULT_TIME_TO_WAIT,
                max_retries: DEFAULT_MAX_RETRIES,
            }),
            r.retries() == 0,
    {
        Self::with_config(
            inner,
            RetryConfig { time_to_wait: DEFAULT_TIME_TO_WAIT, max_retries: DEFAULT_MAX_RETRIES },
        )
    }

    /// A shared view of the wrapped backend.
    pub fn inner(&self) -> (r: &T)
        ensures
            *r == self.backend(),
    {
        &self.inner
    }

    /// The cumulative number of retry attempts performed by all calls so
    /// far. Never decreases.
    pub fn number_of_retries(&self) -> (r: u64)
        ensures
            r == self.retries(),
    {
        self.number_of_retries
    }
}

impl<T: AllocBackend> RetryAlloc<T> {
    /// Request fresh memory of `size` bytes at alignment `align`,
    /// retrying under the policy when the backend fails.
    pub fn allocate(&mut self, size: usize, align: usize) -> (r: Option<usize>)
        ensures
            retry_call(*old(self), *final(self), (Request::Allocate { size, align }), r),
    {
        self.run_with_retries(Request::Allocate { size, align })
    }

    /// Ask the backend to resize the block at `ptr` (allocated with
    /// `old_size` and `align`) to `new_size` bytes, retrying under the
    /// policy when the backend fails. Every retry re-submits the original
    /// `ptr` and layout: a failed resize leaves the old block valid and
    /// unmoved.
    pub fn reallocate(&mut self, ptr: usize, old_size: usize, align: usize, new_size: usize) -> (r:
        Option<usize>)
        ensures
            retry_call(
                *old(self),
                *final(self),
                (Request::Reallocate { ptr, old_size, align, new_size }),
                r,
            ),
    {
        self.run_with_retries(Request::Reallocate { ptr, old_size, align, new_size })
    }

    /// Request fresh zero-filled memory. Passed through without retry
    /// and without touching the counter: the one attempt's answer is
    /// returned as it is.
    pub fn allocate_zeroed(&mut self, size: usize, align: usize) -> (r: Option<usize>)
        ensures
            r == old(self).backend().response((Request::AllocateZeroed { size, align })),
            final(self).backend() == old(self).backend().after_attempt(
                (Request::AllocateZeroed { size, align }),
            ),
            final(self).retries() == old(self).retries(),
            final(self).policy() == old(self).policy(),
    {
        self.inner.attempt(Request::AllocateZeroed { size, align })
    }

    /// Release the block at `ptr`. Passed through without retry, without
    /// delay and without touching the counter.
    pub fn deallocate(&mut self, ptr: usize, size: usize, align: usize)
        ensures
            final(self).backend() == old(self).backend().after_deallocate(ptr, size, align),
            final(self).retries() == old(self).retries(),
            final(self).policy() == old(self).policy(),
    {
        self.inner.deallocate(ptr, size, align)
    }

    /// The fast path: one attempt, returned at once on success; the slow
    /// path only on failure.
    fn run_with_retries(&mut self, req: Request) -> (r: Option<usize>)
        ensures
            retry_call(*old(self), *final(self), req, r),
    {
        let ghost b0 = self.backend();
        let ghost m = self.policy().max_retries as nat;
        let r = self.inner.attempt(req);
        if r.is_some() {
            proof {
                assert(first_success(b0, req, m) == Some(0 as nat));
                assert(response_at(b0, req, 0) == b0.response(req));
                assert(backend_after(b0, req, 1) == backend_after(b0, req, 0).after_attempt(req));
                assert(backend_after(b0, req, 0) == b0);
            }
            return r;
        }
        let rs = self.retry_slow(req);
        proof {
            let b1 = b0.after_attempt(req);
            assert(backend_after(b0, req, 1) == backend_after(b0, req, 0).after_attempt(req));
            assert(backend_after(b0, req, 0) == b0);
            if m == 0 {
            } else {
                match first_success(b1, req, (m - 1) as nat) {
                    Some(j) => {
                        lemma_backend_after_shift(b0, req, j);
                        lemma_backend_after_shift(b0, req, j + 1);
                    },
                    None => {
                        lemma_backend_after_shift(b0, req, m);
                    },
                }
            }
        }
        rs
    }

    /// The slow path: up to `max_retries` rounds of pause, count, and
    /// re-attempt, returning the first success.
    #[verifier::loop_isolation(false)]
    fn retry_slow(&mut self, req: Request) -> (r: Option<usize>)
        ensures
            final(self).policy() == old(self).policy(),
            old(self).policy().max_retries == 0 ==> r is None && *final(self) == *old(self),
            old(self).policy().max_retries > 0 ==> {
                let b1 = old(self).backend();
                let m = old(self).policy().max_retries as nat;
                match first_success(b1, req, (m - 1) as nat) {
                    Some(j) => {
                        &&& r == response_at(b1, req, j)
                        &&& r is Some
                        &&& final(self).retries() == bump(old(self).retries(), j + 1)
                        &&& final(self).backend() == backend_after(b1, req, j + 1)
                    },
                    None => {
                        &&& r is None
                        &&& final(self).retries() == bump(old(self).retries(), m)
                        &&& final(self).backend() == backend_after(b1, req, m)
                    },
                }
            },
    {
        let ghost b1 = self.backend();
        let ghost c0 = self.retries();
        let ghost cfg = self.policy();
        let m = self.config.max_retries;
        let mut i: u32 = 0;
        while i < m
            invariant
                i <= m,
                self.policy() == cfg,
                m == cfg.max_retries,
                self.backend() == backend_after(b1, req, i as nat),
                self.retries() == bump(c0, i as nat),
                forall|j: nat| j < i as nat ==> response_at(b1, req, j) is None,
            decreases m - i,
        {
            self.inner.pause(self.config.time_to_wait);
            if self.number_of_retries < u64::MAX {
                self.number_of_retries = self.number_of_retries + 1;
            }
            let r = self.inner.attempt(req);
            proof {
                assert(bump(bump(c0, i as nat), 1) == bump(c0, i as nat + 1));
                assert(backend_after(b1, req, i as nat + 1) == backend_after(
                    b1,
                    req,
                    i as nat,
                ).after_attempt(req));
                assert(r == response_at(b1, req, i as nat));
            }
            i = i + 1;
            if r.is_some() {
                proof {
                    lemma_first_success_found(b1, req, (m - 1) as nat, (i - 1) as nat);
                }
                return r;
            }
        }
        proof {
            if m > 0 {
                lemma_first_success_none(b1, req, (m - 1) as nat);
            } else {
                assert(backend_after(b1, req, 0) == b1);
                assert(bump(c0, 0) == c0);
            }
        }
        None
    }
}

} // verus!
