use easytex::state::{build_request_superseded, prune_build_history, BuildPriority, BuildStatus};

fn entries(statuses: &[&str]) -> (Vec<(f32, String)>, Vec<String>) {
    let history = statuses.iter().enumerate().map(|(i, s)| (i as f32, s.to_string())).collect();
    let status = statuses.iter().map(|s| s.to_string()).collect();
    (history, status)
}

#[test]
fn history_keeps_ten_entries_with_three_successes_when_available() {
    let mut statuses = vec!["Success", "Success", "Success"];
    for _ in 3..16 {
        statuses.push("Error");
    }
    let (history, status) = entries(&statuses);
    let history = prune_build_history(history, &status);

    assert_eq!(history.len(), 10);
    assert_eq!(history.iter().filter(|entry| entry.1 == "Success").count(), 3);
    assert_eq!(history.first().map(|entry| entry.0), Some(0.0));
    assert_eq!(history.last().map(|entry| entry.0), Some(15.0));
}

#[test]
fn history_keeps_available_successes_when_fewer_than_three_exist() {
    let mut statuses = vec!["Success", "Success"];
    for _ in 2..16 {
        statuses.push("Error");
    }
    let (history, status) = entries(&statuses);
    let history = prune_build_history(history, &status);

    assert_eq!(history.len(), 10);
    assert_eq!(history.iter().filter(|entry| entry.1 == "Success").count(), 2);
}

#[test]
fn build_status_maps_to_stable_strings_and_run_suffixes() {
    assert_eq!(BuildStatus::Success.as_str(), "Success");
    assert_eq!(BuildStatus::Failed.as_str(), "Failed");
    assert_eq!(BuildStatus::Success.run_suffix(), Some('S'));
    assert_eq!(BuildStatus::Failed.run_suffix(), Some('F'));
    assert_eq!(BuildStatus::Running.run_suffix(), None);
}

#[test]
fn every_status_has_a_name_and_failures_share_a_suffix() {
    assert_eq!(BuildStatus::Queued.as_str(), "Queued");
    assert_eq!(BuildStatus::Cancelled.as_str(), "Cancelled");
    assert_eq!(BuildStatus::TimedOut.as_str(), "TimedOut");
    assert_eq!(BuildStatus::Error.as_str(), "Error");
    assert_eq!(BuildStatus::TimedOut.run_suffix(), Some('F'));
    assert_eq!(BuildStatus::Error.run_suffix(), Some('F'));
    assert_eq!(BuildStatus::Queued.run_suffix(), None);
    assert_eq!(BuildStatus::Cancelled.run_suffix(), None);
}

#[test]
fn short_histories_are_kept_whole() {
    let (history, status) = entries(&["Error", "Success", "Error"]);
    let kept = prune_build_history(history.clone(), &status);
    assert_eq!(kept, history);
}

#[test]
fn old_successes_outlive_newer_failures() {
    // One success at the start, then eleven failures: the success stays, with
    // the nine most recent failures.
    let mut statuses = vec!["Success"];
    for _ in 0..11 {
        statuses.push("Failed");
    }
    let (history, status) = entries(&statuses);
    let kept = prune_build_history(history, &status);
    let durations: Vec<f32> = kept.iter().map(|e| e.0).collect();
    assert_eq!(durations, vec![0.0, 3.0, 4.0, 5.0, 6.0, 7.0, 8.0, 9.0, 10.0, 11.0]);
}

#[test]
fn lower_priority_requests_yield_to_running_builds() {
    assert!(build_request_superseded(BuildPriority::Auto, Some(BuildPriority::Manual)));
    assert!(!build_request_superseded(BuildPriority::Manual, Some(BuildPriority::Auto)));
    assert!(!build_request_superseded(BuildPriority::Auto, Some(BuildPriority::Auto)));
    assert!(!build_request_superseded(BuildPriority::Auto, None));
}

#[test]
fn pruning_a_pruned_history_changes_nothing() {
    let mut statuses = vec!["Error", "Success"];
    for i in 2..20 {
        statuses.push(if i % 5 == 0 { "Success" } else { "Error" });
    }
    let (history, status) = entries(&statuses);
    let once = prune_build_history(history, &status);
    let once_status: Vec<String> = once.iter().map(|e| e.1.clone()).collect();
    let twice = prune_build_history(once.clone(), &once_status);
    assert_eq!(once.len(), 10);
    assert_eq!(twice, once);
}
