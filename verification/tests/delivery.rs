use log_delivery::batch::{Batch, DeliveryOutcome, Response, SourceOffset, TransportError};
use log_delivery::client::Client;

fn file_a_batch() -> Batch {
    Batch::new(
        b"line one\n".to_vec(),
        vec![SourceOffset::new(b"fileA".to_vec(), 100)],
    )
}

#[test]
fn sent_flushes_offsets_once() {
    // Transport returns Sent: success metric recorded once, fileA confirmed
    // at 100, nothing queued for retry.
    let mut c = Client::new(8, 100, 1000);
    let b = file_a_batch();
    c.stage(&b);
    assert!(c.try_admit());
    let out = c.complete(b, 0, Ok(Response::Sent), 10);
    assert_eq!(out, DeliveryOutcome::Acknowledged);
    assert_eq!(c.success_count(), 1);
    assert_eq!(c.failure_count(), 0);
    assert_eq!(c.timeout_count(), 0);
    assert_eq!(c.attempted_offset(&b"fileA".to_vec()), Some(100));
    assert_eq!(c.confirmed_offset(&b"fileA".to_vec()), Some(100));
    assert_eq!(c.retry_len(), 0);
}

#[test]
fn send_error_requeues_same_batch() {
    // Transport returns SendError: failure metric recorded, queue grows from
    // 0 to 1 with the same payload and offsets and attempt counter 1, and
    // nothing is durably confirmed.
    let mut c = Client::new(8, 100, 1000);
    let b = file_a_batch();
    c.stage(&b);
    assert!(c.try_admit());
    let out = c.complete(b, 0, Err(TransportError::SendError), 1000);
    assert_eq!(out, DeliveryOutcome::Queued);
    assert_eq!(c.failure_count(), 1);
    assert_eq!(c.success_count(), 0);
    assert_eq!(c.retry_len(), 1);
    assert_eq!(c.attempted_offset(&b"fileA".to_vec()), Some(100));
    assert_eq!(c.confirmed_offset(&b"fileA".to_vec()), None);

    let e = c.poll_retry(u64::MAX).expect("entry must be ready far in the future");
    assert_eq!(e.attempt, 1);
    assert_eq!(e.enqueued_at, 1000);
    assert_eq!(e.batch.payload, b"line one\n".to_vec());
    assert_eq!(e.batch.offsets.len(), 1);
    assert_eq!(e.batch.offsets[0].source, b"fileA".to_vec());
    assert_eq!(e.batch.offsets[0].offset, 100);
}

#[test]
fn retried_entry_succeeds_and_flushes() {
    // A queued entry is polled, resent, and the second attempt returns Sent:
    // the queue returns to 0 and fileA's confirmed offset advances to 100.
    let mut c = Client::new(8, 100, 1000);
    let b = file_a_batch();
    c.stage(&b);
    assert!(c.try_admit());
    assert_eq!(
        c.complete(b, 0, Err(TransportError::SendError), 1000),
        DeliveryOutcome::Queued
    );
    assert_eq!(c.retry_len(), 1);

    // Entry was enqueued at 1000 with attempt 1; backoff is 200, so it is
    // not ready at 1199 and ready at 1200.
    assert!(c.poll_retry(1199).is_none());
    let e = c.poll_retry(1200).expect("backoff has elapsed");
    assert_eq!(c.retry_len(), 0);
    let attempt = e.attempt;
    assert!(c.try_admit());
    let out = c.complete(e.batch, attempt, Ok(Response::Sent), 1250);
    assert_eq!(out, DeliveryOutcome::Acknowledged);
    assert_eq!(c.retry_len(), 0);
    assert_eq!(c.confirmed_offset(&b"fileA".to_vec()), Some(100));
    assert_eq!(c.success_count(), 1);
}

#[test]
fn admission_is_bounded_at_capacity_ten() {
    // Default capacity 10: ten concurrent admissions are granted, the
    // eleventh is refused until one outstanding attempt completes.
    let mut c = Client::new(8, 100, 1000);
    for _ in 0..10 {
        assert!(c.try_admit());
    }
    assert_eq!(c.outstanding_count(), 10);
    assert!(!c.try_admit());
    assert!(!c.try_admit());

    // One attempt completes (releasing its slot); admission opens again.
    let b = file_a_batch();
    let out = c.complete(b, 0, Ok(Response::Sent), 10);
    assert_eq!(out, DeliveryOutcome::Acknowledged);
    assert_eq!(c.outstanding_count(), 9);
    assert!(c.try_admit());
    assert!(!c.try_admit());
}

#[test]
fn application_rejection_is_never_requeued() {
    // Failed(500, ...) is an application-level rejection: failure metric
    // recorded, retry queue unchanged, batch dropped.
    let mut c = Client::new(8, 100, 1000);
    let b = file_a_batch();
    c.stage(&b);
    assert!(c.try_admit());
    let out = c.complete(
        b,
        0,
        Ok(Response::Failed(500, String::from("internal error"))),
        10,
    );
    assert_eq!(out, DeliveryOutcome::Rejected);
    assert_eq!(c.failure_count(), 1);
    assert_eq!(c.retry_len(), 0);
    assert_eq!(c.confirmed_offset(&b"fileA".to_vec()), None);
}

#[test]
fn rejection_status_code_does_not_matter() {
    // Whatever the status code, Failed responses never reach the queue.
    for status in [400u16, 404, 429, 500, 503] {
        let mut c = Client::new(8, 100, 1000);
        let b = file_a_batch();
        c.stage(&b);
        assert!(c.try_admit());
        let out = c.complete(b, 0, Ok(Response::Failed(status, String::from("no"))), 10);
        assert_eq!(out, DeliveryOutcome::Rejected);
        assert_eq!(c.retry_len(), 0);
    }
}

#[test]
fn timeout_requeues_and_counts_timeouts() {
    let mut c = Client::new(8, 100, 1000);
    let b = file_a_batch();
    c.stage(&b);
    assert!(c.try_admit());
    let out = c.complete(b, 0, Err(TransportError::TimeoutError), 50);
    assert_eq!(out, DeliveryOutcome::Queued);
    assert_eq!(c.timeout_count(), 1);
    assert_eq!(c.failure_count(), 0);
    assert_eq!(c.retry_len(), 1);
}

#[test]
fn other_transport_error_is_discarded() {
    // An unclassified transport error is counted and dropped without retry.
    let mut c = Client::new(8, 100, 1000);
    let b = file_a_batch();
    c.stage(&b);
    assert!(c.try_admit());
    let out = c.complete(b, 0, Err(TransportError::OtherError), 50);
    assert_eq!(out, DeliveryOutcome::Discarded);
    assert_eq!(c.failure_count(), 1);
    assert_eq!(c.retry_len(), 0);
}

#[test]
fn transient_failure_batch_appears_exactly_once() {
    // After one SendError, exactly one queued entry carries the batch.
    let mut c = Client::new(8, 100, 1000);
    let other = Batch::new(b"other\n".to_vec(), vec![SourceOffset::new(b"fileB".to_vec(), 7)]);
    c.stage(&other);
    assert!(c.try_admit());
    assert_eq!(
        c.complete(other, 0, Err(TransportError::SendError), 10),
        DeliveryOutcome::Queued
    );
    let b = file_a_batch();
    c.stage(&b);
    assert!(c.try_admit());
    assert_eq!(
        c.complete(b, 0, Err(TransportError::SendError), 20),
        DeliveryOutcome::Queued
    );

    let mut matching = 0;
    while let Some(e) = c.poll_retry(u64::MAX) {
        if e.batch.payload == b"line one\n".to_vec() {
            matching += 1;
            assert_eq!(e.batch.offsets.len(), 1);
            assert_eq!(e.batch.offsets[0].source, b"fileA".to_vec());
            assert_eq!(e.batch.offsets[0].offset, 100);
        }
    }
    assert_eq!(matching, 1);
}

#[test]
fn flush_happens_only_on_sent() {
    // Confirmed offsets move if and only if the result was Sent.
    let results: Vec<Result<Response, TransportError>> = vec![
        Ok(Response::Failed(500, String::from("x"))),
        Err(TransportError::SendError),
        Err(TransportError::TimeoutError),
        Err(TransportError::OtherError),
    ];
    for result in results {
        let mut c = Client::new(8, 100, 1000);
        let b = file_a_batch();
        c.stage(&b);
        assert!(c.try_admit());
        c.complete(b, 0, result, 10);
        assert_eq!(c.confirmed_offset(&b"fileA".to_vec()), None);
    }
    let mut c = Client::new(8, 100, 1000);
    let b = file_a_batch();
    c.stage(&b);
    assert!(c.try_admit());
    c.complete(b, 0, Ok(Response::Sent), 10);
    assert_eq!(c.confirmed_offset(&b"fileA".to_vec()), Some(100));
}

#[test]
fn overflow_policy_rejects_newest_deterministically() {
    // Retry queue bound 2: the third transient failure is dropped at
    // capacity, and the same inputs always give the same outcome.
    let run = || {
        let mut c = Client::new(2, 100, 1000);
        let mut outcomes = Vec::new();
        for (name, off) in [(b"a".to_vec(), 1u64), (b"b".to_vec(), 2), (b"c".to_vec(), 3)] {
            let b = Batch::new(name.clone(), vec![SourceOffset::new(name, off)]);
            c.stage(&b);
            assert!(c.try_admit());
            outcomes.push(c.complete(b, 0, Err(TransportError::SendError), 10 * off));
        }
        (outcomes, c.retry_len())
    };
    let (outcomes1, len1) = run();
    let (outcomes2, len2) = run();
    assert_eq!(
        outcomes1,
        vec![
            DeliveryOutcome::Queued,
            DeliveryOutcome::Queued,
            DeliveryOutcome::DroppedAtCapacity
        ]
    );
    assert_eq!(outcomes1, outcomes2);
    assert_eq!(len1, 2);
    assert_eq!(len1, len2);
}

#[test]
fn staging_is_eager_and_keeps_furthest_offset() {
    // Offsets are written as attempted before any transport result, and a later
    // write with a smaller offset does not move the record backwards.
    let mut c = Client::new(8, 100, 1000);
    let b1 = Batch::new(b"x".to_vec(), vec![SourceOffset::new(b"fileA".to_vec(), 100)]);
    c.stage(&b1);
    assert_eq!(c.attempted_offset(&b"fileA".to_vec()), Some(100));
    assert_eq!(c.confirmed_offset(&b"fileA".to_vec()), None);
    let b2 = Batch::new(b"y".to_vec(), vec![SourceOffset::new(b"fileA".to_vec(), 60)]);
    c.stage(&b2);
    assert_eq!(c.attempted_offset(&b"fileA".to_vec()), Some(100));
    let b3 = Batch::new(b"z".to_vec(), vec![SourceOffset::new(b"fileA".to_vec(), 160)]);
    c.stage(&b3);
    assert_eq!(c.attempted_offset(&b"fileA".to_vec()), Some(160));
    assert_eq!(c.bytes_submitted_count(), 3);
}

#[test]
fn timeout_configuration_is_kept() {
    let mut c = Client::new(8, 100, 1000);
    assert_eq!(c.timeout_millis(), 30000);
    c.set_timeout(5000);
    assert_eq!(c.timeout_millis(), 5000);
}
