use f_log::{Interval, LogMsg, LoggerConfig, StringPool};

#[test]
fn default_tuning() {
    let config = LoggerConfig::default();
    assert_eq!(config.buffer_size, 65536);
    assert_eq!(config.batch_size, 512);
    assert_eq!(config.flush_threshold, 32768);
    assert_eq!(config.flush_batch_threshold, 128);
    assert_eq!(config.flush_interval.nanos, 100_000_000);
}

#[test]
fn high_throughput_tuning() {
    let config = LoggerConfig::high_throughput();
    assert_eq!(config.buffer_size, 262144);
    assert_eq!(config.batch_size, 1024);
    assert_eq!(config.flush_threshold, 131072);
    assert_eq!(config.flush_batch_threshold, 256);
    assert_eq!(config.flush_interval.nanos, 500_000_000);
}

#[test]
fn low_latency_tuning() {
    let config = LoggerConfig::low_latency();
    assert_eq!(config.buffer_size, 16384);
    assert_eq!(config.batch_size, 64);
    assert_eq!(config.flush_threshold, 8192);
    assert_eq!(config.flush_batch_threshold, 32);
    assert_eq!(config.flush_interval.nanos, 10_000_000);
}

#[test]
fn presets_grade_from_latency_to_throughput() {
    let presets =
        [LoggerConfig::low_latency(), LoggerConfig::default(), LoggerConfig::high_throughput()];
    for i in 1..presets.len() {
        let (prompt, patient) = (&presets[i - 1], &presets[i]);
        assert!(prompt.buffer_size < patient.buffer_size);
        assert!(prompt.batch_size < patient.batch_size);
        assert!(prompt.flush_threshold < patient.flush_threshold);
        assert!(prompt.flush_batch_threshold < patient.flush_batch_threshold);
        assert!(prompt.flush_interval.nanos < patient.flush_interval.nanos);
    }
}

#[test]
fn intervals() {
    let day = Interval::from_millis(86_400_000);
    assert_eq!(day.nanos, 86_400_000_000_000);
    assert_eq!(Interval::from_millis(u64::MAX).nanos, u64::MAX as u128 * 1_000_000);
    assert!(day.reaches(&day));
    assert!(day.reaches(&Interval::from_millis(1)));
    assert!(!Interval::from_millis(1).reaches(&day));
}

#[test]
fn holdable_batches() {
    let mut config = LoggerConfig::default();
    assert!(config.is_holdable());
    config.batch_size = 0;
    assert!(config.is_holdable());
    config.batch_size = usize::MAX;
    assert!(!config.is_holdable());
    config.batch_size = isize::MAX as usize / std::mem::size_of::<LogMsg>();
    assert!(config.is_holdable());
    config.batch_size += 1;
    assert!(!config.is_holdable());
}

#[test]
fn pool_gives_roomy_empty_strings() {
    let mut pool = StringPool::new();
    for _ in 0..1001 {
        let s = pool.get();
        assert_eq!(s, "");
        assert!(s.capacity() >= 256);
    }
}

#[test]
fn pool_hands_back_what_was_put_in_emptied() {
    let mut pool = StringPool::new();
    for _ in 0..1000 {
        pool.get();
    }
    let mut first = String::with_capacity(4000);
    first.push_str("first");
    let mut second = String::with_capacity(8000);
    second.push_str("second");
    pool.put(first);
    pool.put(second);
    let a = pool.get();
    assert_eq!(a, "");
    assert!(a.capacity() >= 4000 && a.capacity() < 8000);
    let b = pool.get();
    assert_eq!(b, "");
    assert!(b.capacity() >= 8000);
    assert!(pool.get().capacity() < 4000);
}

#[test]
fn full_pool_drops_what_is_put_in() {
    let mut pool = StringPool::new();
    pool.put(String::with_capacity(5000));
    for _ in 0..1001 {
        assert!(pool.get().capacity() < 5000);
    }
    for _ in 0..1001 {
        pool.put(String::with_capacity(5000));
    }
    for _ in 0..1000 {
        assert!(pool.get().capacity() >= 5000);
    }
    assert!(pool.get().capacity() < 5000);
}

#[test]
fn strings_are_put_back_in_order() {
    let mut pool = StringPool::new();
    for _ in 0..998 {
        pool.get();
    }
    let returned = (0..1000).map(|i| String::with_capacity(2000 + 2000 * (i % 2))).collect();
    pool.put_all(returned);
    assert!(pool.get().capacity() < 2000);
    assert!(pool.get().capacity() < 2000);
    for i in 0..998 {
        let capacity = pool.get().capacity();
        assert_eq!(capacity >= 4000, i % 2 == 1);
        assert!(capacity >= 2000);
    }
    assert!(pool.get().capacity() < 2000);
}
