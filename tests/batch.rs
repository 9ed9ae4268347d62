use devtoolbox::batch::{single_job_id, units_fit, BatchJob, PartialResultPayload, ProgressPayload};
use devtoolbox::error::ValidationError;
use devtoolbox::progress::ProgressEstimator;

enum Event {
    Progress(ProgressPayload),
    Partial(PartialResultPayload),
}

fn run(sizes: &[u64], outcomes: Vec<Result<String, String>>) -> (Vec<Event>, Vec<usize>, devtoolbox::batch::BatchSummary) {
    let paths: Vec<String> = (0..sizes.len()).map(|i| format!("in{}.png", i + 1)).collect();
    let mut job = BatchJob::new("job".to_string(), paths, sizes.to_vec()).unwrap();
    let mut events = Vec::new();
    let mut done = Vec::new();
    for outcome in outcomes {
        let (p, q) = job.start_item();
        events.push(Event::Progress(p));
        events.push(Event::Partial(q));
        let (p, q) = job.finish_item(outcome);
        events.push(Event::Progress(p));
        events.push(Event::Partial(q));
        done.push(job.done);
    }
    (events, done, job.finish())
}

#[test]
fn three_items_with_one_failure() {
    let (events, done, summary) = run(
        &[100, 0, 50],
        vec![Ok("out1.png".to_string()), Err("Failed to open in2.png".to_string()), Ok("out3.png".to_string())],
    );
    assert_eq!(done, vec![100, 101, 151]);
    let statuses: Vec<Option<bool>> = summary
        .results
        .iter()
        .map(|r| Some(r.output.is_some() && r.error.is_none()))
        .collect();
    assert_eq!(statuses, vec![Some(true), Some(false), Some(true)]);
    assert_eq!(summary.job_id, "job");
    let inputs: Vec<&str> = summary.results.iter().map(|r| r.input.as_str()).collect();
    assert_eq!(inputs, vec!["in1.png", "in2.png", "in3.png"]);
    assert_eq!(summary.results[1].error.as_deref(), Some("Failed to open in2.png"));
    assert_eq!(summary.results[1].output, None);
    let currents: Vec<usize> = events
        .iter()
        .filter_map(|e| match e {
            Event::Progress(p) => Some(p.current),
            _ => None,
        })
        .collect();
    assert_eq!(currents, vec![0, 100, 100, 101, 101, 151]);
    for e in &events {
        if let Event::Progress(p) = e {
            assert_eq!(p.total, 151);
        }
    }
}

#[test]
fn one_terminal_partial_per_item() {
    let (events, _, summary) = run(&[5, 7], vec![Ok("a".to_string()), Err("bad".to_string())]);
    let tags: Vec<&str> = events
        .iter()
        .filter_map(|e| match e {
            Event::Partial(q) => Some(q.status.as_str()),
            _ => None,
        })
        .collect();
    assert_eq!(tags, vec!["started", "success", "started", "error"]);
    assert_eq!(summary.results.len(), 2);
}

#[test]
fn terminal_progress_statuses() {
    let (events, _, _) = run(&[5], vec![Err("x".to_string())]);
    match &events[2] {
        Event::Progress(p) => {
            assert_eq!(p.status, "error");
            assert_eq!(p.current, 5);
            assert_eq!(p.size_bytes, 5);
            assert_eq!(p.path, "in1.png");
        }
        _ => panic!("expected a progress event"),
    }
    match &events[0] {
        Event::Progress(p) => assert_eq!(p.status, "processing"),
        _ => panic!("expected a progress event"),
    }
}

#[test]
fn empty_batch_is_refused() {
    assert!(matches!(BatchJob::new("j".to_string(), vec![], vec![]), Err(ValidationError::EmptyBatch)));
    assert_eq!(ValidationError::EmptyBatch.message(), "No input files provided");
}

#[test]
fn units_fit_counts_zero_sizes_as_one() {
    assert!(units_fit(&vec![0, 0]));
    assert!(!units_fit(&vec![u64::MAX, 1]) || usize::MAX as u128 >= u64::MAX as u128 + 1);
    assert!(!units_fit(&vec![u64::MAX, u64::MAX]));
}

#[test]
fn estimator_stays_below_terminal() {
    let mut job = BatchJob::new("j".to_string(), vec!["a".to_string(), "b".to_string()], vec![10, 250]).unwrap();
    job.start_item();
    job.finish_item(Ok("x".to_string()));
    job.start_item();
    let mut est = job.estimator();
    assert_eq!(est.base, 10);
    assert_eq!(est.span, 250);
    let mut values = Vec::new();
    while let Some(v) = est.tick(true) {
        values.push(v);
    }
    assert_eq!(values.len(), 99);
    assert_eq!(values[0], 12);
    assert_eq!(values[98], 10 + 247);
    assert!(values.windows(2).all(|w| w[0] <= w[1]));
    let (p, _) = job.finish_item(Ok("y".to_string()));
    assert_eq!(p.current, 260);
    assert!(values.iter().all(|v| *v < p.current));
    assert_eq!(est.tick(true), None);
}

#[test]
fn estimator_stops_when_cancelled() {
    let mut est = ProgressEstimator::new(5, 1);
    assert_eq!(est.tick(true), Some(5));
    assert_eq!(est.tick(false), None);
    assert_eq!(est.tick(true), None);
    assert!(est.stopped);
}

#[test]
fn single_job_ids() {
    assert_eq!(single_job_id(None, "20240101_000000"), "single-20240101_000000");
    assert_eq!(single_job_id(Some("mine".to_string()), "t"), "mine");
}
