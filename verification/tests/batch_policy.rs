use ultra_batch::ExecuteBatch;
use ultra_batch::FetchBatch;
use ultra_batch::FetchBatchEvent;

#[test]
fn test_eager_flush_threshold_is_lower_bound() {
    // A single submission of 100 distinct keys against a threshold of 50
    // flushes at once, with all 100 keys: the threshold is no cap.
    let mut batch = FetchBatch::new();
    let keys: Vec<u64> = (0..100).collect();
    let flush = batch.step(FetchBatchEvent::Request(keys), Some(50));
    assert!(flush);
    let fetched = batch.into_keys();
    assert_eq!(fetched.len(), 100);
    assert_eq!(fetched, (0..100).collect::<Vec<u64>>());
}

#[test]
fn test_eager_flush_counts_distinct_fetch_keys() {
    // Fetch batch size is the number of distinct keys: duplicates across
    // submissions do not bring the batch closer to the threshold.
    let mut batch = FetchBatch::new();
    assert!(!batch.step(FetchBatchEvent::Request((0..3).collect()), Some(4)));
    assert!(!batch.step(FetchBatchEvent::Request((0..3).collect()), Some(4)));
    assert_eq!(batch.len(), 3);
    assert!(batch.step(FetchBatchEvent::Request(vec![9]), Some(4)));
}

#[test]
fn test_no_eager_batch_size_waits_for_delay() {
    // Without a threshold, size never flushes; only the delay (or the
    // channel closing) does.
    let mut batch = FetchBatch::new();
    let keys: Vec<u64> = (0..1000).collect();
    assert!(!batch.step(FetchBatchEvent::Request(keys), None));
    assert!(!batch.should_flush(None));
    assert!(batch.step(FetchBatchEvent::DelayElapsed, None));
    assert_eq!(batch.len(), 1000);
}

#[test]
fn test_channel_closed_flushes_batch_as_it_stands() {
    let mut batch = FetchBatch::new();
    assert!(!batch.step(FetchBatchEvent::Request(vec![1, 2]), Some(10)));
    assert!(batch.step(FetchBatchEvent::ChannelClosed, Some(10)));
    assert_eq!(batch.into_keys(), vec![1, 2]);
}

#[test]
fn test_fetch_batch_dedupes_across_submissions() {
    // Submissions that join one batch are coalesced: shared keys are
    // presented to the handler once, and earlier keys keep their place.
    let mut batch = FetchBatch::new();
    batch.add_keys(&vec![1, 2, 3]);
    batch.add_keys(&vec![2, 3, 4]);
    assert_eq!(batch.len(), 4);
    assert_eq!(batch.into_keys(), vec![1, 2, 3, 4]);
}

#[test]
fn test_execute_batch_size_counts_every_value() {
    // Execute batch size is the number of pending values, duplicates
    // included.
    let mut batch = ExecuteBatch::<u64>::new();
    batch.add_submission(vec![7, 7, 7]);
    assert!(!batch.should_flush(Some(4)));
    batch.add_submission(vec![7]);
    assert!(batch.should_flush(Some(4)));
    assert!(!batch.should_flush(None));
}
