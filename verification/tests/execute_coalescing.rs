use ultra_batch::ExecuteBatch;
use ultra_batch::ExecuteBatchEvent;
use ultra_batch::ExecuteError;
use ultra_batch::split_results;

#[test]
fn test_execute_positional_split() {
    // Three callers submit ten values each; the handler runs once over all
    // thirty and each caller gets its own ten back, in input order.
    let mut batch = ExecuteBatch::<u64>::new();
    let mut inputs: Vec<Vec<u64>> = Vec::new();
    for c in 0..3u64 {
        let values: Vec<u64> = (c * 10..(c + 1) * 10).collect();
        inputs.push(values.clone());
        batch.add_submission(values);
    }
    assert_eq!(batch.len(), 30);

    let (values, starts) = batch.into_parts();
    assert_eq!(values, (0..30).collect::<Vec<u64>>());
    assert_eq!(starts, vec![0, 10, 20]);

    let mut invocations = 0u32;
    invocations += 1;
    let results = values.clone();
    let slices = split_results(&starts, results);
    assert_eq!(invocations, 1);
    assert_eq!(slices.len(), 3);
    for (slice, input) in slices.iter().zip(&inputs) {
        assert_eq!(slice, input);
    }
}

#[test]
fn test_execute_returning_empty() {
    // An executor that performs its side effects but returns no results:
    // every caller gets an empty slice, and a single-value execute sees
    // no result at all.
    let mut batch = ExecuteBatch::<u64>::new();
    batch.add_submission(vec![1, 2, 3]);
    let (_values, starts) = batch.into_parts();
    let slices = split_results(&starts, Vec::<u64>::new());
    assert_eq!(slices, vec![Vec::<u64>::new()]);

    let mut single = ExecuteBatch::<u64>::new();
    single.add_submission(vec![5]);
    let (_values, starts) = single.into_parts();
    let mut slices = split_results(&starts, Vec::<u64>::new());
    let mut only = slices.remove(0);
    assert_eq!(only.pop(), None);
}

#[test]
fn test_execute_keeps_duplicates_and_order() {
    // No deduplication on the execute side: duplicates submitted are
    // duplicates executed.
    let mut batch = ExecuteBatch::<u64>::new();
    batch.add_submission(vec![1, 1]);
    batch.add_submission(vec![1]);
    assert_eq!(batch.len(), 3);
    let (values, starts) = batch.into_parts();
    assert_eq!(values, vec![1, 1, 1]);
    assert_eq!(starts, vec![0, 2]);
}

#[test]
fn test_split_short_results() {
    // The handler returned fewer results than values: late submissions
    // whose start lies beyond the results get nothing, the one straddling
    // the boundary gets the clipped tail.
    let starts: Vec<usize> = vec![0, 5, 10];
    let results: Vec<u64> = (100..107).collect();
    let slices = split_results(&starts, results);
    assert_eq!(slices.len(), 3);
    assert_eq!(slices[0], (100..105).collect::<Vec<u64>>());
    assert_eq!(slices[1], (105..107).collect::<Vec<u64>>());
    assert_eq!(slices[2], Vec::<u64>::new());
}

#[test]
fn test_split_start_at_results_end() {
    // A start index exactly at the end of the results yields an empty
    // slice, not a missing one.
    let starts: Vec<usize> = vec![0, 3];
    let results: Vec<u64> = vec![7, 8, 9];
    let slices = split_results(&starts, results);
    assert_eq!(slices.len(), 2);
    assert_eq!(slices[0], vec![7, 8, 9]);
    assert_eq!(slices[1], Vec::<u64>::new());
}

#[test]
fn test_split_empty_submission() {
    // A submission of zero values occupies no positions and receives an
    // empty slice; its neighbours are unaffected.
    let mut batch = ExecuteBatch::<u64>::new();
    batch.add_submission(vec![4, 5]);
    batch.add_submission(Vec::new());
    batch.add_submission(vec![6]);
    let (values, starts) = batch.into_parts();
    assert_eq!(values, vec![4, 5, 6]);
    assert_eq!(starts, vec![0, 2, 2]);
    let slices = split_results(&starts, values.clone());
    assert_eq!(slices[0], vec![4, 5]);
    assert_eq!(slices[1], Vec::<u64>::new());
    assert_eq!(slices[2], vec![6]);
}

#[test]
fn test_execute_step_events() {
    let mut batch = ExecuteBatch::<u64>::new();
    let flush = batch.step(ExecuteBatchEvent::Request(vec![1, 2]), Some(5));
    assert!(!flush);
    let flush = batch.step(ExecuteBatchEvent::Request(vec![3, 4, 5]), Some(5));
    assert!(flush);
    assert_eq!(batch.len(), 5);

    let mut batch = ExecuteBatch::<u64>::new();
    batch.add_submission(vec![1]);
    assert!(batch.step(ExecuteBatchEvent::DelayElapsed, Some(100)));
    assert!(batch.step(ExecuteBatchEvent::ChannelClosed, Some(100)));
    assert_eq!(batch.len(), 1);
}

#[test]
fn test_execute_error_variants() {
    let executor_error = ExecuteError::ExecutorError(String::from("uh oh"));
    assert!(matches!(executor_error, ExecuteError::ExecutorError(ref m) if m == "uh oh"));
    let send_error = ExecuteError::SendError;
    assert!(matches!(send_error, ExecuteError::SendError));
}
