use retry_alloc::{RetryAlloc, RetryConfig, ScriptedBackend};

#[test]
fn new_v1_sets_fields() {
    let c = RetryConfig::new_v1(7, 2);
    assert_eq!(c.time_to_wait, 7);
    assert_eq!(c.max_retries, 2);
}

#[test]
fn passthrough_allocate() {
    let mut a = RetryAlloc::with_config(ScriptedBackend::new(0, 4096), RetryConfig::new_v1(10, 3));
    assert_eq!(a.allocate(64, 8), Some(4096));
    assert_eq!(a.number_of_retries(), 0);
}

#[test]
fn passthrough_reallocate() {
    let mut a = RetryAlloc::with_config(ScriptedBackend::new(0, 8192), RetryConfig::new_v1(10, 3));
    assert_eq!(a.reallocate(4096, 64, 8, 128), Some(8192));
    assert_eq!(a.number_of_retries(), 0);
}

#[test]
fn exhausts_retry_budget() {
    let mut a = RetryAlloc::with_config(
        ScriptedBackend::new(u32::MAX, 4096),
        RetryConfig::new_v1(0, 3),
    );
    assert_eq!(a.allocate(64, 8), None);
    assert_eq!(a.number_of_retries(), 3);
}

#[test]
fn succeeds_on_third_attempt() {
    let mut a = RetryAlloc::with_config(ScriptedBackend::new(2, 4096), RetryConfig::new_v1(10, 3));
    assert_eq!(a.allocate(64, 8), Some(4096));
    assert_eq!(a.number_of_retries(), 2);
}

#[test]
fn zero_max_retries_fails_immediately() {
    let mut a = RetryAlloc::with_config(
        ScriptedBackend::new(u32::MAX, 4096),
        RetryConfig::new_v1(1, 0),
    );
    assert_eq!(a.allocate(64, 8), None);
    assert_eq!(a.number_of_retries(), 0);
}

#[test]
fn counter_accumulates_across_calls() {
    let mut a = RetryAlloc::with_config(ScriptedBackend::new(3, 4096), RetryConfig::new_v1(0, 1));
    assert_eq!(a.allocate(64, 8), None);
    assert_eq!(a.number_of_retries(), 1);
    assert_eq!(a.reallocate(4096, 64, 8, 128), Some(4096));
    assert_eq!(a.number_of_retries(), 2);
}

#[test]
fn deallocate_and_zeroed_never_retry() {
    let mut a = RetryAlloc::with_config(ScriptedBackend::new(5, 4096), RetryConfig::new_v1(10, 3));
    assert_eq!(a.allocate_zeroed(64, 8), None);
    assert_eq!(a.number_of_retries(), 0);
    a.deallocate(4096, 64, 8);
    assert_eq!(a.number_of_retries(), 0);
    assert_eq!(a.inner().failures_left, 4);
}

#[test]
fn zeroed_passes_success_through() {
    let mut a = RetryAlloc::with_config(ScriptedBackend::new(0, 1024), RetryConfig::new_v1(10, 3));
    assert_eq!(a.allocate_zeroed(64, 8), Some(1024));
    assert_eq!(a.number_of_retries(), 0);
}

#[test]
fn default_policy_retries_ten_times() {
    let mut a = RetryAlloc::new(ScriptedBackend::new(10, 4096));
    assert_eq!(a.allocate(64, 8), Some(4096));
    assert_eq!(a.number_of_retries(), 10);
}

#[test]
fn default_policy_exhausts_at_ten() {
    let mut a = RetryAlloc::new(ScriptedBackend::new(12, 4096));
    assert_eq!(a.allocate(64, 8), None);
    assert_eq!(a.number_of_retries(), 10);
}

#[test]
fn reallocate_retries_until_success() {
    let mut a = RetryAlloc::with_config(ScriptedBackend::new(1, 2048), RetryConfig::new_v1(5, 2));
    assert_eq!(a.reallocate(1024, 32, 8, 64), Some(2048));
    assert_eq!(a.number_of_retries(), 1);
}

#[test]
fn inner_exposes_backend() {
    let a = RetryAlloc::new(ScriptedBackend::new(3, 512));
    assert_eq!(a.inner().failures_left, 3);
    assert_eq!(a.inner().addr, 512);
    assert_eq!(a.number_of_retries(), 0);
}
