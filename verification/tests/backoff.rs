use kubelet_adapters::backoff::backoff_wait;

#[test]
fn waits_double_up_to_the_longest() {
    assert_eq!(backoff_wait(100, 0, 10_000), 100);
    assert_eq!(backoff_wait(100, 3, 10_000), 800);
    assert_eq!(backoff_wait(100, 7, 10_000), 10_000);
    assert_eq!(backoff_wait(100, u32::MAX, 10_000), 10_000);
    assert_eq!(backoff_wait(5, 2, 4), 4);
    assert_eq!(backoff_wait(0, 40, 4), 0);
    assert_eq!(backoff_wait(3, 62, u64::MAX), 3 << 62);
    assert_eq!(backoff_wait(3, 63, u64::MAX), u64::MAX);
}
