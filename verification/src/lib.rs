//! A decorating allocator that retries failed allocation requests.
//!
//! `RetryAlloc` wraps a backend that implements the allocator capability
//! set and, when the backend reports failure, pauses and re-attempts the
//! request a bounded number of times, counting every retry it performs.

pub mod backend;
pub mod retry;
pub mod scripted;

pub use backend::{backend_after, first_success, response_at, AllocBackend, Request};
pub use backend::{lemma_first_success_found, lemma_first_success_none};
pub use retry::{bump, retry_call, RetryAlloc, RetryConfig};
pub use retry::{lemma_counter_accumulates, lemma_counter_never_decreases};
pub use retry::{lemma_bounded_exhaustion, lemma_counter_monotonic_per_call};
pub use retry::{lemma_eventual_success, lemma_pass_through};
pub use retry::{DEFAULT_MAX_RETRIES, DEFAULT_TIME_TO_WAIT};
pub use scripted::ScriptedBackend;
