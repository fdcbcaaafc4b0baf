use log_delivery::batch::{Batch, SourceOffset};
use log_delivery::config::{read_bypass_granted, resolve_setting, should_elevate_capabilities};
use log_delivery::limiter::AdmissionLimiter;
use log_delivery::retry::{backoff_ms, RestoreOutcome, RetryEngine};

#[test]
fn limiter_grants_exactly_its_capacity() {
    // For several capacities: exactly N grants, then refusals until release.
    for n in [0usize, 1, 3, 10] {
        let mut l = AdmissionLimiter::new(n);
        let mut granted = 0;
        while l.try_acquire() {
            granted += 1;
        }
        assert_eq!(granted, n);
        assert!(!l.try_acquire());
        if n > 0 {
            l.release();
            assert!(l.try_acquire());
            assert!(!l.try_acquire());
        }
    }
}

#[test]
fn limiter_outstanding_is_tracked() {
    let mut l = AdmissionLimiter::new(2);
    assert_eq!(l.outstanding_count(), 0);
    assert!(l.try_acquire());
    assert_eq!(l.outstanding_count(), 1);
    assert!(l.try_acquire());
    assert_eq!(l.outstanding_count(), 2);
    l.release();
    assert_eq!(l.outstanding_count(), 1);
}

fn plain_batch(tag: u8) -> Batch {
    Batch::new(vec![tag], vec![SourceOffset::new(vec![tag], tag as u64)])
}

#[test]
fn retry_entries_leave_oldest_first() {
    // Three entries enqueued at increasing times leave in enqueue order.
    let mut e = RetryEngine::new(8, 0, 0);
    assert!(e.retry(plain_batch(1), 0, 10));
    assert!(e.retry(plain_batch(2), 0, 20));
    assert!(e.retry(plain_batch(3), 0, 30));
    assert_eq!(e.len(), 3);
    let first = e.poll(1000).unwrap();
    let second = e.poll(1000).unwrap();
    let third = e.poll(1000).unwrap();
    assert!(e.poll(1000).is_none());
    assert_eq!(first.batch.payload, vec![1]);
    assert_eq!(second.batch.payload, vec![2]);
    assert_eq!(third.batch.payload, vec![3]);
    assert!(first.enqueued_at <= second.enqueued_at);
    assert!(second.enqueued_at <= third.enqueued_at);
}

#[test]
fn retry_timestamps_are_clamped_monotone() {
    // A clock that steps backwards cannot reorder the queue: the later
    // enqueue is clamped to the last enqueue instant.
    let mut e = RetryEngine::new(8, 0, 0);
    assert!(e.retry(plain_batch(1), 0, 500));
    assert!(e.retry(plain_batch(2), 0, 100));
    let first = e.poll(1000).unwrap();
    let second = e.poll(1000).unwrap();
    assert_eq!(first.batch.payload, vec![1]);
    assert_eq!(first.enqueued_at, 500);
    assert_eq!(second.enqueued_at, 500);
}

#[test]
fn retry_rejects_newest_when_full() {
    let mut e = RetryEngine::new(2, 0, 0);
    assert!(e.retry(plain_batch(1), 0, 1));
    assert!(e.retry(plain_batch(2), 0, 2));
    assert!(!e.retry(plain_batch(3), 0, 3));
    assert_eq!(e.len(), 2);
    // The queued entries are untouched by the rejected submission.
    assert_eq!(e.poll(1000).unwrap().batch.payload, vec![1]);
    assert_eq!(e.poll(1000).unwrap().batch.payload, vec![2]);
}

#[test]
fn retry_attempt_counter_increments() {
    let mut e = RetryEngine::new(8, 0, 0);
    assert!(e.retry(plain_batch(1), 0, 1));
    let entry = e.poll(1000).unwrap();
    assert_eq!(entry.attempt, 1);
    assert!(e.retry(entry.batch, entry.attempt, 2000));
    let entry = e.poll(u64::MAX).unwrap();
    assert_eq!(entry.attempt, 2);
}

#[test]
fn backoff_doubles_and_is_capped() {
    assert_eq!(backoff_ms(100, 1000, 0), 100);
    assert_eq!(backoff_ms(100, 1000, 1), 200);
    assert_eq!(backoff_ms(100, 1000, 2), 400);
    assert_eq!(backoff_ms(100, 1000, 3), 800);
    assert_eq!(backoff_ms(100, 1000, 4), 1000);
    assert_eq!(backoff_ms(100, 1000, 50), 1000);
    // The base itself is clamped to the cap.
    assert_eq!(backoff_ms(2000, 1000, 0), 1000);
    // Large attempt counts cannot overflow.
    assert_eq!(backoff_ms(1, u64::MAX, 63), 1u64 << 63);
}

#[test]
fn poll_waits_for_backoff() {
    let mut e = RetryEngine::new(8, 100, 1000);
    assert!(e.retry(plain_batch(1), 0, 1000));
    // Attempt counter is 1, so the backoff is 200ms from the enqueue time.
    assert!(e.poll(1000).is_none());
    assert!(e.poll(1199).is_none());
    assert_eq!(e.len(), 1);
    assert!(e.poll(1200).is_some());
    assert_eq!(e.len(), 0);
}

#[test]
fn persisted_entries_survive_restart() {
    // Snapshot the queue, rebuild a fresh engine from the records: the
    // entries come back unchanged, payload, offsets, stamps and attempt
    // counters included, in the same order.
    let mut e = RetryEngine::new(8, 0, 0);
    let b = Batch::new(vec![1, 2, 3], vec![SourceOffset::new(b"src".to_vec(), 42)]);
    assert!(e.retry(b, 0, 10));
    assert!(e.retry(plain_batch(2), 0, 20));
    let records = e.snapshot_records();
    assert_eq!(records.len(), 2);

    let mut e2 = RetryEngine::new(8, 0, 0);
    for r in &records {
        assert_eq!(e2.restore(r), RestoreOutcome::Restored);
    }
    assert_eq!(e2.len(), 2);
    let first = e2.poll(1000).unwrap();
    assert_eq!(first.batch.payload, vec![1, 2, 3]);
    assert_eq!(first.batch.offsets.len(), 1);
    assert_eq!(first.batch.offsets[0].source, b"src".to_vec());
    assert_eq!(first.batch.offsets[0].offset, 42);
    assert_eq!(first.attempt, 1);
    assert_eq!(first.enqueued_at, 10);
    let second = e2.poll(1000).unwrap();
    assert_eq!(second.batch.payload, vec![2]);
    assert_eq!(second.enqueued_at, 20);
}

#[test]
fn corrupt_records_are_skipped() {
    // Garbage, a truncated record and a record with trailing bytes are all
    // reported corrupt and change nothing; a good record after them still
    // restores — a corrupt record never stalls rehydration.
    let mut source = RetryEngine::new(8, 0, 0);
    assert!(source.retry(plain_batch(1), 0, 1));
    let good = source.snapshot_records().remove(0);

    let mut e = RetryEngine::new(8, 0, 0);
    assert_eq!(e.restore(&vec![1, 2, 3]), RestoreOutcome::Corrupt);
    assert_eq!(e.restore(&vec![0; 19]), RestoreOutcome::Corrupt);
    let mut padded = good.clone();
    padded.push(0);
    assert_eq!(e.restore(&padded), RestoreOutcome::Corrupt);
    let mut truncated = good.clone();
    truncated.pop();
    assert_eq!(e.restore(&truncated), RestoreOutcome::Corrupt);
    assert_eq!(e.len(), 0);
    assert_eq!(e.restore(&good), RestoreOutcome::Restored);
    assert_eq!(e.len(), 1);
    assert_eq!(e.poll(1000).unwrap().batch.payload, vec![1]);
}

#[test]
fn record_format_is_as_documented() {
    // Build a record by hand, little-endian and length-prefixed as the
    // format states: attempt 2, enqueued at 7, one offset ("ab", 9),
    // payload [5, 6].
    let mut rec = Vec::new();
    rec.extend_from_slice(&2u32.to_le_bytes());
    rec.extend_from_slice(&7u64.to_le_bytes());
    rec.extend_from_slice(&1u64.to_le_bytes());
    rec.extend_from_slice(&2u64.to_le_bytes());
    rec.extend_from_slice(b"ab");
    rec.extend_from_slice(&9u64.to_le_bytes());
    rec.extend_from_slice(&2u64.to_le_bytes());
    rec.extend_from_slice(&[5, 6]);

    let mut e = RetryEngine::new(8, 0, 0);
    assert_eq!(e.restore(&rec), RestoreOutcome::Restored);
    let entry = e.poll(u64::MAX).unwrap();
    assert_eq!(entry.attempt, 2);
    assert_eq!(entry.enqueued_at, 7);
    assert_eq!(entry.batch.offsets.len(), 1);
    assert_eq!(entry.batch.offsets[0].source, b"ab".to_vec());
    assert_eq!(entry.batch.offsets[0].offset, 9);
    assert_eq!(entry.batch.payload, vec![5, 6]);

    // The engine writes exactly those bytes for the same entry.
    let mut src = RetryEngine::new(8, 0, 0);
    let b = Batch::new(vec![5, 6], vec![SourceOffset::new(b"ab".to_vec(), 9)]);
    assert!(src.retry(b, 1, 7));
    assert_eq!(src.snapshot_records()[0], rec);
}

#[test]
fn restore_respects_capacity_and_clamps_time() {
    let mut source = RetryEngine::new(8, 0, 0);
    assert!(source.retry(plain_batch(1), 0, 100));
    let rec = source.snapshot_records().remove(0);

    // A full queue rejects the restored entry, as it rejects new ones.
    let mut e = RetryEngine::new(1, 0, 0);
    assert!(e.retry(plain_batch(9), 0, 500));
    assert_eq!(e.restore(&rec), RestoreOutcome::AtCapacity);
    assert_eq!(e.len(), 1);

    // A restored stamp earlier than the last enqueue is clamped to it.
    let mut e = RetryEngine::new(2, 0, 0);
    assert!(e.retry(plain_batch(9), 0, 500));
    assert_eq!(e.restore(&rec), RestoreOutcome::Restored);
    let first = e.poll(10000).unwrap();
    let second = e.poll(10000).unwrap();
    assert_eq!(first.batch.payload, vec![9]);
    assert_eq!(second.batch.payload, vec![1]);
    assert_eq!(second.enqueued_at, 500);
}

#[test]
fn settings_resolve_by_precedence() {
    // The primary key's value wins over any deprecated alias.
    let r = resolve_setting(&vec![
        Some(String::from("primary")),
        Some(String::from("alias")),
    ]);
    assert_eq!(r, Some(String::from("primary")));

    // An absent primary falls back to the first present alias.
    let r = resolve_setting(&vec![
        None,
        None,
        Some(String::from("old-name")),
        Some(String::from("older-name")),
    ]);
    assert_eq!(r, Some(String::from("old-name")));

    // Nothing present resolves to nothing.
    assert_eq!(resolve_setting(&vec![None, None]), None);
    assert_eq!(resolve_setting(&vec![]), None);
}

#[test]
fn capability_elevation_decision() {
    assert!(should_elevate_capabilities(true, false));
    assert!(!should_elevate_capabilities(true, true));
    assert!(!should_elevate_capabilities(false, false));
    assert!(!should_elevate_capabilities(false, true));

    assert!(read_bypass_granted(true, false));
    assert!(read_bypass_granted(false, true));
    assert!(read_bypass_granted(true, true));
    assert!(!read_bypass_granted(false, false));
}
