use loc_tracker::calendar::Timestamp;
use loc_tracker::reconcile::{
    outcome_of_scan, repo_name_of, Action, ChangeRecord, Event, PathOutcome, Phase, ReconcileLoop,
    SkipReason, Step,
};
use loc_tracker::scan::RepoAccessError;
use loc_tracker::stats::RepoStats;
use loc_tracker::table::Summary;

fn counters(ca: u32, cd: u32, pa: u32, pd: u32) -> RepoStats {
    RepoStats {
        committed_additions: ca,
        committed_deletions: cd,
        pending_additions: pa,
        pending_deletions: pd,
    }
}

fn at(seconds: i64) -> Timestamp {
    Timestamp { seconds, nanoseconds: 0 }
}

fn scanned(name: &str, stats: RepoStats, seconds: i64) -> Event {
    Event::PathScanned(PathOutcome::Scanned { name: name.to_string(), stats, at: at(seconds) })
}

fn not_a_repository() -> Event {
    Event::PathScanned(PathOutcome::Skipped(SkipReason::NotARepository("no repository".to_string())))
}

fn record_of(step: &Step) -> ChangeRecord {
    match &step.persist {
        Some(record) => record.clone(),
        None => panic!("no record is handed out: {:?}", step),
    }
}

fn report_of(step: Step) -> Summary {
    match step.next {
        Action::Report(report) => report,
        other => panic!("no summary is handed out: {:?}", other),
    }
}

fn machine_for(paths: usize) -> ReconcileLoop {
    ReconcileLoop::new("Jane Doe".to_string(), paths)
}

#[test]
fn record_holds_the_sums_of_committed_and_pending() {
    let record =
        ChangeRecord::new("alpha".to_string(), at(1_700_000_000), "Jane Doe", &counters(5, 1, 20, 4));
    assert_eq!(record.repo_name, "alpha");
    assert_eq!(record.timestamp, at(1_700_000_000));
    assert_eq!(record.author, Some("Jane Doe".to_string()));
    assert_eq!(record.additions, 25);
    assert_eq!(record.deletions, 5);
    assert!(!record.is_committed);
    let large = ChangeRecord::new("x".to_string(), at(0), "", &counters(u32::MAX, 1, u32::MAX, 2));
    assert_eq!(large.additions, 2 * (u32::MAX as u64));
    assert_eq!(large.deletions, 3);
}

#[test]
fn repository_without_changes_still_gets_its_record() {
    let mut machine = machine_for(1);
    let step = machine.step(Event::Notification);
    assert!(step.persist.is_none());
    assert!(matches!(step.next, Action::Scan(0)));
    let step = machine.step(scanned("beta", counters(0, 0, 0, 0), 10));
    let record = record_of(&step);
    assert_eq!(record.repo_name, "beta");
    assert_eq!(record.additions, 0);
    assert_eq!(record.deletions, 0);
    assert!(!record.is_committed);
    assert_eq!(machine.table().get("beta"), Some(counters(0, 0, 0, 0)));
    let report = report_of(step);
    assert_eq!(report.lines.len(), 1);
    assert_eq!(report.total_committed, 0);
    assert_eq!(report.total_pending, 0);
}

#[test]
fn notification_starts_one_cycle_over_every_path_in_turn() {
    let mut machine = machine_for(3);
    assert_eq!(machine.current_phase(), Phase::Idle);
    let step = machine.step(Event::Notification);
    assert!(step.persist.is_none());
    assert!(matches!(step.next, Action::Scan(0)));
    assert_eq!(machine.current_phase(), Phase::Reconciling(0));

    let step = machine.step(scanned("alpha", counters(5, 1, 20, 4), 100));
    let record = record_of(&step);
    assert_eq!(record.repo_name, "alpha");
    assert_eq!(record.author, Some("Jane Doe".to_string()));
    assert_eq!(record.timestamp, at(100));
    assert_eq!(record.additions, 25);
    assert_eq!(record.deletions, 5);
    assert!(matches!(step.next, Action::Scan(1)));
    assert_eq!(machine.current_phase(), Phase::Reconciling(1));

    let step = machine.step(not_a_repository());
    assert!(step.persist.is_none());
    assert!(matches!(step.next, Action::Scan(2)));
    assert_eq!(machine.current_phase(), Phase::Reconciling(2));

    let step = machine.step(scanned("gamma", counters(1, 2, 3, 4), 101));
    let record = record_of(&step);
    assert_eq!(record.repo_name, "gamma");
    assert_eq!((record.additions, record.deletions), (4, 6));
    assert_eq!(machine.current_phase(), Phase::Idle);
    let report = report_of(step);
    assert_eq!(report.lines.len(), 2);
    assert_eq!(report.lines[0].name, "alpha");
    assert_eq!(report.lines[0].committed_loc, 6);
    assert_eq!(report.lines[0].pending_loc, 24);
    assert_eq!(report.lines[1].name, "gamma");
    assert_eq!(report.total_committed, 9);
    assert_eq!(report.total_pending, 31);

    let step = machine.step(Event::Notification);
    assert!(matches!(step.next, Action::Scan(0)));
}

#[test]
fn cycle_without_tracked_paths_reports_an_empty_table() {
    let mut machine = machine_for(0);
    let step = machine.step(Event::Notification);
    assert!(step.persist.is_none());
    assert_eq!(machine.current_phase(), Phase::Idle);
    let report = report_of(step);
    assert!(report.lines.is_empty());
    assert_eq!(report.total_committed, 0);
    assert_eq!(report.total_pending, 0);
}

#[test]
fn watch_failure_leaves_the_loop_waiting() {
    let mut machine = machine_for(2);
    let step = machine.step(Event::WatchFailure);
    assert!(step.persist.is_none());
    assert!(matches!(step.next, Action::AwaitNotification));
    assert_eq!(machine.current_phase(), Phase::Idle);
    assert_eq!(machine.table().len(), 0);
}

#[test]
fn events_out_of_turn_change_nothing() {
    let mut machine = machine_for(2);
    let step = machine.step(scanned("alpha", counters(1, 1, 1, 1), 1));
    assert!(step.persist.is_none());
    assert!(matches!(step.next, Action::AwaitNotification));
    assert_eq!(machine.current_phase(), Phase::Idle);
    assert_eq!(machine.table().len(), 0);
    assert!(matches!(machine.step(Event::Notification).next, Action::Scan(0)));
    let step = machine.step(Event::Notification);
    assert!(step.persist.is_none());
    assert!(matches!(step.next, Action::Scan(0)));
    assert!(matches!(machine.step(Event::WatchFailure).next, Action::Scan(0)));
    assert_eq!(machine.current_phase(), Phase::Reconciling(0));
    assert!(matches!(machine.step(not_a_repository()).next, Action::Scan(1)));
    assert!(matches!(machine.step(Event::WatchFailure).next, Action::Scan(1)));
    assert_eq!(machine.current_phase(), Phase::Reconciling(1));
    assert_eq!(machine.table().len(), 0);
}

#[test]
fn path_that_is_no_repository_does_not_disturb_the_others() {
    let mut with_skip = machine_for(3);
    with_skip.step(Event::Notification);
    let first = record_of(&with_skip.step(scanned("alpha", counters(5, 1, 20, 4), 1)));
    let skipped = with_skip.step(not_a_repository());
    assert!(skipped.persist.is_none());
    assert!(matches!(skipped.next, Action::Scan(2)));
    let last = with_skip.step(scanned("gamma", counters(1, 2, 3, 4), 2));
    let second = record_of(&last);
    let report_with_skip = report_of(last);

    let mut without = machine_for(2);
    without.step(Event::Notification);
    let first_alone = record_of(&without.step(scanned("alpha", counters(5, 1, 20, 4), 1)));
    let last = without.step(scanned("gamma", counters(1, 2, 3, 4), 2));
    let second_alone = record_of(&last);
    let report_without = report_of(last);

    assert_eq!((first.additions, first.deletions), (25, 5));
    assert_eq!((second.additions, second.deletions), (4, 6));
    assert_eq!(first.repo_name, first_alone.repo_name);
    assert_eq!(first.additions, first_alone.additions);
    assert_eq!(first.deletions, first_alone.deletions);
    assert_eq!(second.repo_name, second_alone.repo_name);
    assert_eq!(second.additions, second_alone.additions);
    assert_eq!(second.deletions, second_alone.deletions);
    assert_eq!(report_with_skip.lines.len(), 2);
    assert_eq!(report_with_skip.total_committed, report_without.total_committed);
    assert_eq!(report_with_skip.total_pending, report_without.total_pending);
    assert_eq!(report_with_skip.total_committed, 9);
    assert_eq!(report_with_skip.total_pending, 31);
    assert_eq!(with_skip.current_phase(), Phase::Idle);
    assert_eq!(without.current_phase(), Phase::Idle);
}

#[test]
fn failed_scan_keeps_the_row_of_the_last_good_scan() {
    let mut machine = machine_for(1);
    machine.step(Event::Notification);
    machine.step(scanned("alpha", counters(5, 1, 20, 4), 1));
    machine.step(Event::Notification);
    let failed = Event::PathScanned(PathOutcome::Skipped(SkipReason::ScanFailed(
        RepoAccessError::WalkBroken("object not found".to_string()),
    )));
    let step = machine.step(failed);
    assert!(step.persist.is_none());
    let report = report_of(step);
    assert_eq!(report.lines.len(), 1);
    assert_eq!(report.lines[0].name, "alpha");
    assert_eq!(report.total_committed, 6);
    assert_eq!(report.total_pending, 24);
    assert_eq!(machine.table().get("alpha"), Some(counters(5, 1, 20, 4)));
}

#[test]
fn second_cycle_on_unchanged_repositories_repeats_the_first() {
    let mut machine = machine_for(2);
    machine.step(Event::Notification);
    let first_alpha = record_of(&machine.step(scanned("alpha", counters(5, 1, 20, 4), 100)));
    let first_beta = record_of(&machine.step(scanned("beta", counters(0, 0, 0, 0), 101)));
    assert_eq!(machine.current_phase(), Phase::Idle);
    let rows_after_first = machine.table().snapshot();

    machine.step(Event::Notification);
    let second_alpha = record_of(&machine.step(scanned("alpha", counters(5, 1, 20, 4), 400)));
    let second_beta = record_of(&machine.step(scanned("beta", counters(0, 0, 0, 0), 401)));
    assert_eq!(machine.current_phase(), Phase::Idle);
    let rows_after_second = machine.table().snapshot();

    assert_eq!(first_alpha.additions, second_alpha.additions);
    assert_eq!(first_alpha.deletions, second_alpha.deletions);
    assert_eq!(first_beta.additions, second_beta.additions);
    assert_eq!(first_beta.deletions, second_beta.deletions);
    assert_eq!(second_alpha.timestamp, at(400));
    assert_eq!(rows_after_first.len(), rows_after_second.len());
    for i in 0..rows_after_first.len() {
        assert_eq!(rows_after_first[i].name, rows_after_second[i].name);
        assert_eq!(rows_after_first[i].stats, rows_after_second[i].stats);
    }
}

#[test]
fn later_scan_of_a_repository_overwrites_the_earlier() {
    let mut machine = machine_for(1);
    machine.step(Event::Notification);
    machine.step(scanned("alpha", counters(5, 1, 20, 4), 1));
    machine.step(Event::Notification);
    let record = record_of(&machine.step(scanned("alpha", counters(7, 0, 0, 0), 2)));
    assert_eq!(record.additions, 7);
    assert_eq!(record.deletions, 0);
    assert_eq!(machine.table().len(), 1);
    assert_eq!(machine.table().get("alpha"), Some(counters(7, 0, 0, 0)));
}

#[test]
fn repository_name_is_the_final_segment_or_empty() {
    assert_eq!(repo_name_of(Some("project".to_string())), "project");
    assert_eq!(repo_name_of(None), "");
}

#[test]
fn outcome_follows_the_scan_and_the_clock() {
    match outcome_of_scan("alpha".to_string(), Ok(counters(5, 1, 20, 4)), Some(at(7))) {
        PathOutcome::Scanned { name, stats, at: done_at } => {
            assert_eq!(name, "alpha");
            assert_eq!(stats, counters(5, 1, 20, 4));
            assert_eq!(done_at, at(7));
        }
        other => panic!("the path should count as scanned: {:?}", other),
    }
    assert!(matches!(
        outcome_of_scan("alpha".to_string(), Ok(counters(5, 1, 20, 4)), None),
        PathOutcome::Skipped(SkipReason::ClockUnreadable)
    ));
    assert!(matches!(
        outcome_of_scan("alpha".to_string(), Err(RepoAccessError::CounterOutOfRange), Some(at(7))),
        PathOutcome::Skipped(SkipReason::ScanFailed(RepoAccessError::CounterOutOfRange))
    ));
    match outcome_of_scan(
        "alpha".to_string(),
        Err(RepoAccessError::WalkBroken("object not found".to_string())),
        None,
    ) {
        PathOutcome::Skipped(SkipReason::ScanFailed(RepoAccessError::WalkBroken(text))) => {
            assert_eq!(text, "object not found")
        }
        other => panic!("the path should be passed over: {:?}", other),
    }
}
