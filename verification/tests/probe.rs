use tokio_chat::probe::{
    latency_sample, micros_from, new_latency_histogram, now_micros, probe_message, probe_sent_micros,
    slow_flags, LatencyBatch, Observation, BENCH_CAP_MICROS, FLUSH_AT, LATENCY_CAP_MICROS,
};

#[test]
fn probe_format_matches_wire_format() {
    assert_eq!(probe_message(3, 17, 1_700_000_000_000_000), "3:17:1700000000000000\n");
    assert_eq!(probe_message(0, 0, 0), "0:0:0\n");
}

#[test]
fn probe_round_trip() {
    for (c, q, m) in [(0u32, 0u32, 0u64), (7, 99, 123456789), (u32::MAX, u32::MAX, u64::MAX)] {
        assert_eq!(probe_sent_micros(&probe_message(c, q, m)), Some(m));
    }
}

#[test]
fn reads_send_time_from_lines() {
    assert_eq!(probe_sent_micros("1:2:345\r\n"), Some(345));
    assert_eq!(probe_sent_micros("1:2:345 \n"), Some(345));
    assert_eq!(probe_sent_micros("1:2"), None);
    assert_eq!(probe_sent_micros("1:2:"), None);
    assert_eq!(probe_sent_micros("1:2:3:4"), None);
    assert_eq!(probe_sent_micros("alice: hi\n"), None);
    assert_eq!(probe_sent_micros("a:b:+12"), Some(12));
    assert_eq!(probe_sent_micros(""), None);
}

#[test]
fn latency_is_clamped() {
    let cap = LATENCY_CAP_MICROS;
    assert_eq!(latency_sample(150, 100, cap), 50);
    assert_eq!(latency_sample(100, 150, cap), 0);
    assert_eq!(latency_sample(u64::MAX, 0, cap), LATENCY_CAP_MICROS);
    assert_eq!(latency_sample(LATENCY_CAP_MICROS, 0, cap), LATENCY_CAP_MICROS);
    assert_eq!(latency_sample(70_000_000, 0, BENCH_CAP_MICROS), 60_000_000);
}

#[test]
fn batch_flushes_into_histogram() {
    let mut h = new_latency_histogram(LATENCY_CAP_MICROS);
    assert_eq!(h.inner.len(), 0);
    assert_eq!(h.inner.high(), LATENCY_CAP_MICROS);
    let mut b = LatencyBatch::new(LATENCY_CAP_MICROS);
    for i in 0..FLUSH_AT as u64 {
        let due = b.add(1000 + i, 1000);
        assert_eq!(due, i + 1 >= FLUSH_AT as u64);
    }
    assert!(b.add(u64::MAX, 0));
    assert_eq!(b.len(), FLUSH_AT + 1);
    b.flush_into(&mut h);
    assert_eq!(b.len(), 0);
    assert_eq!(h.inner.len(), FLUSH_AT as u64 + 1);
    assert_eq!(h.inner.min(), 0);
    assert!(h.inner.max() >= LATENCY_CAP_MICROS - LATENCY_CAP_MICROS / 1000);
}

#[test]
fn clock_reads_after_2020() {
    let a = now_micros();
    let b = now_micros();
    assert!(a > 1_577_836_800_000_000);
    assert!(b >= a);
}

#[test]
fn elapsed_samples_are_capped() {
    let mut h = new_latency_histogram(BENCH_CAP_MICROS);
    assert_eq!(h.inner.high(), BENCH_CAP_MICROS);
    let mut b = LatencyBatch::new(BENCH_CAP_MICROS);
    assert!(!b.add_elapsed(5));
    assert!(!b.add_elapsed(u64::MAX));
    b.flush_into(&mut h);
    assert_eq!(h.inner.len(), 2);
    assert_eq!(h.inner.min(), 5);
    assert!(h.inner.max() >= BENCH_CAP_MICROS - BENCH_CAP_MICROS / 1000);
    assert!(h.inner.max() <= BENCH_CAP_MICROS + BENCH_CAP_MICROS / 1000);
}

#[test]
fn first_subscribers_are_slow() {
    assert_eq!(slow_flags(4, 1), vec![true, false, false, false]);
    assert_eq!(slow_flags(2, 5), vec![true, true]);
    assert!(slow_flags(0, 3).is_empty());
}

#[test]
fn reader_observes_lines() {
    let mut h = new_latency_histogram(LATENCY_CAP_MICROS);
    let mut b = LatencyBatch::new(LATENCY_CAP_MICROS);
    assert!(matches!(b.observe("bob: hi\n", 100, true), Observation::NotProbe));
    assert!(matches!(b.observe("1:2:50\n", 100, false), Observation::BeforeWindow));
    assert_eq!(b.len(), 0);
    for k in 0..7u64 {
        assert!(matches!(b.observe("1:2:50\n", 100 + k, true), Observation::Counted { flush_due: false }));
    }
    assert!(matches!(b.observe("1:2:50\n", 90, true), Observation::Counted { flush_due: true }));
    b.flush_into(&mut h);
    assert_eq!(h.inner.len(), 8);
    assert_eq!(h.inner.count_at(50), 1);
    assert_eq!(h.inner.count_at(40), 1);
    assert_eq!(h.inner.max(), 56);
}

#[test]
fn micros_from_readings() {
    assert_eq!(micros_from(None), 0);
    assert_eq!(micros_from(Some(1_000_500)), 1_000_500);
    assert_eq!(micros_from(Some((1u128 << 64) + 7)), 7);
    assert_eq!(micros_from(Some(u64::MAX as u128)), u64::MAX);
}
