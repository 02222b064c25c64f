use rgh::coordinator::{aggregate_outcomes, UploadCoordinator};
use rgh::errors::UploadError;
use rgh::resolver::{resolve_files, DirEntry, PathProbe};
use rgh::transport::{make_tasks, UploadOutcome};

fn success(path: &str) -> UploadOutcome {
    UploadOutcome::Success(path.to_string())
}

fn rejection(path: &str, body: &str) -> UploadOutcome {
    UploadOutcome::Failure(path.to_string(), UploadError::RemoteRejection(body.to_string()))
}

#[test]
fn empty_batch_completes_immediately() {
    let (result, reporter) = aggregate_outcomes(vec![]);
    assert_eq!(result.total, 0);
    assert_eq!(result.completed, 0);
    assert!(result.failures.is_empty());
    assert!(reporter.advances.is_empty());
    assert!(reporter.finished);
}

#[test]
fn single_file_success_run() {
    let files = resolve_files("only.bin".to_string(), PathProbe::RegularFile);
    assert_eq!(files, vec!["only.bin".to_string()]);
    let tasks = make_tasks(3, files);
    assert_eq!(tasks.len(), 1);
    let (result, reporter) = aggregate_outcomes(vec![success("only.bin")]);
    assert_eq!(result.total, 1);
    assert_eq!(result.completed, 1);
    assert!(result.failures.is_empty());
    assert_eq!(reporter.total, 1);
    assert_eq!(reporter.advances, vec![1]);
    assert!(reporter.finished);
}

#[test]
fn directory_run_with_one_rejection() {
    let probe = PathProbe::Directory(vec![
        DirEntry { path: "pkg/a.tar.gz".to_string(), is_regular_file: true },
        DirEntry { path: "pkg/b.tar.gz".to_string(), is_regular_file: true },
        DirEntry { path: "pkg/nested".to_string(), is_regular_file: false },
    ]);
    let files = resolve_files("pkg".to_string(), probe);
    let tasks = make_tasks(42, files);
    assert_eq!(tasks.len(), 2);
    assert!(tasks.iter().all(|t| t.release_id == 42));
    assert!(tasks.iter().all(|t| t.file_path != "pkg/nested"));

    let outcomes: Vec<UploadOutcome> = tasks
        .iter()
        .map(|t| {
            if t.file_path == "pkg/b.tar.gz" {
                rejection(&t.file_path, "500: server error")
            } else {
                success(&t.file_path)
            }
        })
        .collect();
    let (result, reporter) = aggregate_outcomes(outcomes);
    assert_eq!(result.total, 2);
    assert_eq!(result.completed, 2);
    assert_eq!(result.failures.len(), 1);
    assert_eq!(result.failures[0].0, "pkg/b.tar.gz");
    assert_eq!(
        result.failures[0].1,
        UploadError::RemoteRejection("500: server error".to_string())
    );
    assert_eq!(reporter.advances, vec![1, 2]);
    assert!(reporter.finished);
}

#[test]
fn failing_subset_is_recorded_exactly() {
    let outcomes = vec![
        success("f0"),
        rejection("f1", "boom"),
        success("f2"),
        UploadOutcome::Failure("f3".to_string(), UploadError::Network("timeout".to_string())),
        success("f4"),
    ];
    let (result, _) = aggregate_outcomes(outcomes);
    assert_eq!(result.total, 5);
    assert_eq!(result.completed, 5);
    let failed: Vec<&str> = result.failures.iter().map(|f| f.0.as_str()).collect();
    assert_eq!(failed, vec!["f1", "f3"]);
    assert_eq!(result.failures[0].1, UploadError::RemoteRejection("boom".to_string()));
    assert_eq!(result.failures[1].1, UploadError::Network("timeout".to_string()));
}

#[test]
fn fifty_successes_leave_no_failures() {
    let mut outcomes = Vec::new();
    for i in 0..50 {
        outcomes.push(success(&format!("file-{}", i)));
    }
    let (result, reporter) = aggregate_outcomes(outcomes);
    assert_eq!(result.total, 50);
    assert_eq!(result.completed, 50);
    assert!(result.failures.is_empty());
    assert_eq!(reporter.advances.len(), 50);
    assert!(reporter.finished);
}

#[test]
fn repeated_trials_stay_consistent() {
    for _ in 0..20 {
        let mut outcomes = Vec::new();
        for i in 0..50 {
            outcomes.push(success(&format!("file-{}", i)));
        }
        let (result, _) = aggregate_outcomes(outcomes);
        assert_eq!(result.completed, 50);
        assert!(result.failures.is_empty());
    }
}

#[test]
fn progress_counts_increase_one_per_unit_up_to_total() {
    let outcomes = vec![success("a"), rejection("b", "x"), success("c")];
    let (result, reporter) = aggregate_outcomes(outcomes);
    assert_eq!(reporter.advances.len(), result.total);
    for (i, window) in reporter.advances.windows(2).enumerate() {
        assert!(window[0] < window[1], "advance {} did not increase", i);
    }
    assert_eq!(*reporter.advances.last().unwrap(), result.total);
    assert!(reporter.finished);
}

#[test]
fn coordinator_records_outcomes_one_by_one() {
    let mut coordinator = UploadCoordinator::new(2);
    assert!(!coordinator.is_done());
    let done = coordinator.record(success("a"));
    assert_eq!(done, 1);
    assert!(!coordinator.is_done());
    let done = coordinator.record(rejection("b", "bad"));
    assert_eq!(done, 2);
    assert!(coordinator.is_done());
    let (result, reporter) = coordinator.finish();
    assert_eq!(result.total, 2);
    assert_eq!(result.completed, 2);
    assert_eq!(result.failures.len(), 1);
    assert_eq!(result.failures[0].0, "b");
    assert_eq!(reporter.advances, vec![1, 2]);
    assert!(reporter.finished);
}

#[test]
fn aggregate_reports_whether_any_upload_failed() {
    let (clean, _) = aggregate_outcomes(vec![success("a")]);
    assert!(!clean.has_failures());
    let (dirty, _) = aggregate_outcomes(vec![rejection("a", "no")]);
    assert!(dirty.has_failures());
}
