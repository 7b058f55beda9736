//! The allocator capability contract required of the wrapped backend,
//! together with a mathematical model of how a backend answers a run of
//! identical attempts for one request.

use vstd::prelude::*;

verus! {

/// One allocation request, described by plain values.
///
/// Addresses are carried as `usize` values; the failure marker of every
/// operation that hands out memory is `None`.
#[derive(Clone, Copy)]
pub enum Request {
    /// Fresh memory of `size` bytes at alignment `align`.
    Allocate { size: usize, align: usize },
    /// Grow or shrink the block at `ptr` (allocated with `old_size` and
    /// `align`) to `new_size` bytes.
    Reallocate { ptr: usize, old_size: usize, align: usize, new_size: usize },
    /// Fresh zero-filled memory of `size` bytes at alignment `align`.
    AllocateZeroed { size: usize, align: usize },
}

/// The capability set an inner allocator must offer: attempts that hand
/// out memory (or the failure marker `None`), deallocation, and the
/// timing primitive used to pause between retry attempts.
///
/// Each backend describes itself with two spec functions: `response`,
/// the answer it gives to a request in its current state, and
/// `after_attempt`, its state once that attempt has been served. The
/// decorator's contracts are stated over this model.
pub trait AllocBackend: Sized {
    /// The answer this backend gives to `req` in its current state:
    /// an address, or `None` for failure.
    spec fn response(&self, req: Request) -> Option<usize>;

    /// The backend's state after serving one attempt of `req`.
    spec fn after_attempt(&self, req: Request) -> Self;

    /// Serve one attempt of `req`.
    fn attempt(&mut self, req: Request) -> (r: Option<usize>)
        ensures
            r == old(self).response(req),
            *final(self) == old(self).after_attempt(req),
    ;

    /// The backend's state after releasing the block at `ptr`.
    spec fn after_deallocate(&self, ptr: usize, size: usize, align: usize) -> Self;

    /// Release the block at `ptr`, allocated with `size` and `align`.
    /// Deallocation never fails and reports nothing.
    fn deallocate(&mut self, ptr: usize, size: usize, align: usize)
        ensures
            *final(self) == old(self).after_deallocate(ptr, size, align),
    ;

    /// Block the calling thread for `millis` milliseconds.
    fn pause(&self, millis: u64);
}

/// The backend's state after `i` attempts of `req`, starting from `b`.
pub open spec fn backend_after<T: AllocBackend>(b: T, req: Request, i: nat) -> T
    decreases i,
{
    if i == 0 {
        b
    } else {
        backend_after(b, req, (i - 1) as nat).after_attempt(req)
    }
}

/// The answer the backend gives to the `i`-th attempt of `req`
/// (counting from zero), starting from state `b`.
pub open spec fn response_at<T: AllocBackend>(b: T, req: Request, i: nat) -> Option<usize> {
    backend_after(b, req, i).response(req)
}

/// The index of the first attempt of `req` that succeeds among attempts
/// `0 ..= budget` starting from state `b`, or `None` when all of them fail.
pub open spec fn first_success<T: AllocBackend>(b: T, req: Request, budget: nat) -> Option<nat>
    decreases budget,
{
    if b.response(req) is Some {
        Some(0 as nat)
    } else if budget == 0 {
        None
    } else {
        match first_success(b.after_attempt(req), req, (budget - 1) as nat) {
            Some(j) => Some(j + 1),
            None => None,
        }
    }
}

/// Attempt `i + 1` from `b` is attempt `i` from `b.after_attempt(req)`.
pub proof fn lemma_backend_after_shift<T: AllocBackend>(b: T, req: Request, i: nat)
    ensures
        backend_after(b.after_attempt(req), req, i) == backend_after(b, req, i + 1),
    decreases i,
{
    let b1 = b.after_attempt(req);
    assert(backend_after(b, req, i + 1) == backend_after(b, req, i).after_attempt(req));
    if i == 0 {
        assert(backend_after(b1, req, 0) == b1);
        assert(backend_after(b, req, 0) == b);
    } else {
        lemma_backend_after_shift(b, req, (i - 1) as nat);
        assert(backend_after(b1, req, i) == backend_after(b1, req, (i - 1) as nat).after_attempt(req));
    }
}

/// Eventual success: when the first `k` attempts of `req` fail and
/// attempt `k` succeeds, `k` is the first successful attempt.
pub proof fn lemma_first_success_found<T: AllocBackend>(b: T, req: Request, budget: nat, k: nat)
    requires
        k <= budget,
        forall|i: nat| i < k ==> response_at(b, req, i) is None,
        response_at(b, req, k) is Some,
    ensures
        first_success(b, req, budget) == Some(k),
    decreases k,
{
    assert(b.response(req) == response_at(b, req, 0));
    if k == 0 {
    } else {
        assert(response_at(b, req, 0) is None);
        let b1 = b.after_attempt(req);
        assert forall|i: nat| i < (k - 1) as nat implies response_at(b1, req, i) is None by {
            lemma_backend_after_shift(b, req, i);
            assert(response_at(b, req, i + 1) is None);
        }
        lemma_backend_after_shift(b, req, (k - 1) as nat);
        assert(response_at(b1, req, (k - 1) as nat) == response_at(b, req, k));
        lemma_first_success_found(b1, req, (budget - 1) as nat, (k - 1) as nat);
    }
}

/// Bounded retry exhaustion: when every attempt of `req` within the
/// budget fails, no attempt is the first success.
pub proof fn lemma_first_success_none<T: AllocBackend>(b: T, req: Request, budget: nat)
    requires
        forall|i: nat| i <= budget ==> response_at(b, req, i) is None,
    ensures
        first_success(b, req, budget) is None,
    decreases budget,
{
    assert(b.response(req) == response_at(b, req, 0));
    assert(response_at(b, req, 0) is None);
    if budget > 0 {
        let b1 = b.after_attempt(req);
        assert forall|i: nat| i <= (budget - 1) as nat implies response_at(b1, req, i) is None by {
            lemma_backend_after_shift(b, req, i);
            assert(response_at(b, req, i + 1) is None);
        }
        lemma_first_success_none(b1, req, (budget - 1) as nat);
    }
}

} // verus!
