use loc_tracker::calendar::CalendarDate;
use loc_tracker::observation::{
    add_up, gather_counted_diffs, gather_pending_diffs, CommitObservation, EntryObservation,
    STATUS_CURRENT,
};
use loc_tracker::scan::{
    count_file_changes, decide_walk, get_repo_changes, record_walk_item, stat_of_counts,
    stats_or_error, RepoAccessError, RepoObservation, WalkDecision, WalkItem, WalkProgress,
};
use loc_tracker::stats::{DiffStat, RepoStats};

const WT_NEW: u32 = 1 << 7;
const WT_MODIFIED: u32 = 1 << 8;

fn today() -> CalendarDate {
    CalendarDate { year: 2024, month: 3, day: 15 }
}

fn yesterday() -> CalendarDate {
    CalendarDate { year: 2024, month: 3, day: 14 }
}

fn stat(insertions: u32, deletions: u32) -> DiffStat {
    DiffStat { insertions, deletions }
}

fn entry(status_bits: u32, working_diff: DiffStat) -> EntryObservation {
    EntryObservation { status_bits, working_diff }
}

fn commit(on: Option<CalendarDate>, author: &str, diff: Option<DiffStat>) -> CommitObservation {
    CommitObservation { authored_on: on, author: author.to_string(), first_parent_diff: diff }
}

#[test]
fn two_untracked_files_and_one_commit_of_today() {
    let entries = vec![entry(WT_NEW, stat(10, 2)), entry(WT_NEW, stat(10, 2))];
    let commits = vec![commit(Some(today()), "Jane Doe", Some(stat(5, 1)))];
    let stats = RepoStats::from_observation(&entries, &commits, "Jane Doe", today()).unwrap();
    assert_eq!(
        stats,
        RepoStats {
            committed_additions: 5,
            committed_deletions: 1,
            pending_additions: 20,
            pending_deletions: 4,
        }
    );
    assert_eq!(stats.pending_loc(), 24);
    assert_eq!(stats.committed_loc(), 6);
    assert_eq!(stats.additions(), 25);
    assert_eq!(stats.deletions(), 5);
}

#[test]
fn nothing_pending_and_no_commit_of_today_gives_zeros() {
    let entries: Vec<EntryObservation> = Vec::new();
    let commits = vec![commit(Some(yesterday()), "Jane Doe", None)];
    let stats = RepoStats::from_observation(&entries, &commits, "Jane Doe", today()).unwrap();
    assert_eq!(
        stats,
        RepoStats {
            committed_additions: 0,
            committed_deletions: 0,
            pending_additions: 0,
            pending_deletions: 0,
        }
    );
    assert_eq!(stats.additions(), 0);
    assert_eq!(stats.deletions(), 0);
    let empty_history: Vec<CommitObservation> = Vec::new();
    let stats = RepoStats::from_observation(&entries, &empty_history, "Jane Doe", today()).unwrap();
    assert_eq!(stats.committed_loc(), 0);
    assert_eq!(stats.pending_loc(), 0);
}

#[test]
fn current_paths_leave_pending_at_zero_whatever_the_history() {
    let entries = vec![
        entry(STATUS_CURRENT, stat(0, 0)),
        entry(STATUS_CURRENT, stat(7, 7)),
        entry(STATUS_CURRENT, stat(3, 1)),
    ];
    assert!(gather_pending_diffs(&entries).is_empty());
    let histories = vec![
        Vec::new(),
        vec![commit(Some(today()), "Jane Doe", Some(stat(100, 50)))],
        vec![commit(Some(yesterday()), "Jane Doe", Some(stat(1, 1)))],
    ];
    for commits in histories.iter() {
        let stats = RepoStats::from_observation(&entries, commits, "Jane Doe", today()).unwrap();
        assert_eq!(stats.pending_additions, 0);
        assert_eq!(stats.pending_deletions, 0);
    }
}

#[test]
fn every_entry_that_is_not_current_is_pending() {
    assert!(entry(WT_MODIFIED, stat(0, 0)).counts());
    assert!(entry(WT_NEW, stat(0, 0)).counts());
    assert!(entry(1, stat(0, 0)).counts());
    assert!(entry(WT_NEW | WT_MODIFIED, stat(3, 3)).counts());
    assert!(entry(u32::MAX, stat(0, 0)).counts());
    assert!(!entry(STATUS_CURRENT, stat(0, 0)).counts());
    assert!(!entry(STATUS_CURRENT, stat(9, 9)).counts());
}

#[test]
fn working_diff_is_added_once_for_every_pending_entry() {
    let entries = vec![
        entry(WT_MODIFIED, stat(3, 1)),
        entry(STATUS_CURRENT, stat(0, 0)),
        entry(STATUS_CURRENT, stat(8, 8)),
        entry(WT_NEW, stat(3, 1)),
        entry(WT_MODIFIED, stat(4, 0)),
    ];
    assert_eq!(gather_pending_diffs(&entries), vec![stat(3, 1), stat(3, 1), stat(4, 0)]);
    assert_eq!(add_up(&gather_pending_diffs(&entries)), Some(stat(10, 2)));
}

#[test]
fn walk_stops_at_the_first_commit_of_another_day() {
    let commits = vec![
        commit(Some(today()), "Jane Doe", Some(stat(5, 1))),
        commit(Some(yesterday()), "Jane Doe", Some(stat(40, 40))),
        commit(Some(today()), "Jane Doe", Some(stat(7, 7))),
    ];
    assert_eq!(gather_counted_diffs(&commits, "Jane Doe", today()), vec![stat(5, 1)]);
    let tip_is_old = vec![
        commit(Some(yesterday()), "Jane Doe", Some(stat(1, 1))),
        commit(Some(today()), "Jane Doe", Some(stat(5, 1))),
    ];
    assert!(gather_counted_diffs(&tip_is_old, "Jane Doe", today()).is_empty());
}

#[test]
fn walk_stops_at_a_commit_of_a_later_day_or_without_date() {
    let tomorrow = CalendarDate { year: 2024, month: 3, day: 16 };
    let commits = vec![
        commit(Some(today()), "Jane Doe", Some(stat(2, 0))),
        commit(Some(tomorrow), "Jane Doe", Some(stat(9, 9))),
        commit(Some(today()), "Jane Doe", Some(stat(9, 9))),
    ];
    assert_eq!(gather_counted_diffs(&commits, "Jane Doe", today()), vec![stat(2, 0)]);
    let commits = vec![
        commit(None, "Jane Doe", Some(stat(9, 9))),
        commit(Some(today()), "Jane Doe", Some(stat(9, 9))),
    ];
    assert!(gather_counted_diffs(&commits, "Jane Doe", today()).is_empty());
}

#[test]
fn author_must_match_character_for_character() {
    let commits = vec![commit(Some(today()), "Jane Doe", Some(stat(5, 1)))];
    assert_eq!(gather_counted_diffs(&commits, "Jane Doe", today()), vec![stat(5, 1)]);
    assert!(gather_counted_diffs(&commits, "jane doe", today()).is_empty());
    assert!(gather_counted_diffs(&commits, "Jane", today()).is_empty());
    assert!(gather_counted_diffs(&commits, "Jane Doe ", today()).is_empty());
    assert!(gather_counted_diffs(&commits, "", today()).is_empty());
}

#[test]
fn commits_of_others_are_passed_and_the_walk_goes_on() {
    let commits = vec![
        commit(Some(today()), "John Roe", Some(stat(50, 50))),
        commit(Some(today()), "Jane Doe", Some(stat(5, 1))),
        commit(Some(today()), "", Some(stat(8, 8))),
        commit(Some(today()), "Jane Doe", Some(stat(1, 2))),
    ];
    assert_eq!(gather_counted_diffs(&commits, "Jane Doe", today()), vec![stat(5, 1), stat(1, 2)]);
    assert_eq!(add_up(&gather_counted_diffs(&commits, "Jane Doe", today())), Some(stat(6, 3)));
}

#[test]
fn root_commit_adds_nothing_and_raises_no_error() {
    let commits = vec![
        commit(Some(today()), "Jane Doe", Some(stat(5, 1))),
        commit(Some(today()), "Jane Doe", None),
    ];
    let entries: Vec<EntryObservation> = Vec::new();
    let stats = RepoStats::from_observation(&entries, &commits, "Jane Doe", today());
    assert_eq!(
        stats,
        Some(RepoStats {
            committed_additions: 5,
            committed_deletions: 1,
            pending_additions: 0,
            pending_deletions: 0,
        })
    );
    let only_root = vec![commit(Some(today()), "Jane Doe", None)];
    let stats = RepoStats::from_observation(&entries, &only_root, "Jane Doe", today()).unwrap();
    assert_eq!(stats.committed_loc(), 0);
    let root_in_between = vec![
        commit(Some(today()), "Jane Doe", None),
        commit(Some(today()), "Jane Doe", Some(stat(2, 3))),
    ];
    assert_eq!(gather_counted_diffs(&root_in_between, "Jane Doe", today()), vec![stat(2, 3)]);
}

#[test]
fn sums_out_of_range_give_no_stats() {
    assert_eq!(add_up(&Vec::new()), Some(stat(0, 0)));
    assert_eq!(add_up(&vec![stat(u32::MAX, 0)]), Some(stat(u32::MAX, 0)));
    assert_eq!(add_up(&vec![stat(u32::MAX - 1, 5), stat(1, 6)]), Some(stat(u32::MAX, 11)));
    assert_eq!(add_up(&vec![stat(u32::MAX, 0), stat(1, 0)]), None);
    assert_eq!(add_up(&vec![stat(0, u32::MAX), stat(0, 1)]), None);
    let entries = vec![entry(WT_NEW, stat(u32::MAX, 0)), entry(WT_NEW, stat(1, 0))];
    let commits: Vec<CommitObservation> = Vec::new();
    let stats = RepoStats::from_observation(&entries, &commits, "Jane Doe", today());
    assert_eq!(stats, None);
    assert!(matches!(stats_or_error(stats), Err(RepoAccessError::CounterOutOfRange)));
    let commits = vec![
        commit(Some(today()), "Jane Doe", Some(stat(0, u32::MAX))),
        commit(Some(today()), "Jane Doe", Some(stat(0, 1))),
    ];
    assert_eq!(RepoStats::from_observation(&Vec::new(), &commits, "Jane Doe", today()), None);
}

#[test]
fn stats_that_are_in_range_pass_through() {
    let stats = RepoStats::new(stat(5, 1), stat(20, 4));
    assert!(matches!(stats_or_error(Some(stats)), Ok(s) if s == stats));
}

#[test]
fn counts_become_a_stat_where_they_fit() {
    assert_eq!(DiffStat::from_counts(10, 2), Some(stat(10, 2)));
    assert_eq!(DiffStat::from_counts(0, 0), Some(DiffStat::zero()));
    assert_eq!(DiffStat::from_counts(u32::MAX as usize, 0), Some(stat(u32::MAX, 0)));
    assert_eq!(stat_of_counts(Some((3, 4))), Some(stat(3, 4)));
    assert_eq!(stat_of_counts(None), None);
    assert_eq!(count_file_changes(Some((10, 2))), stat(10, 2));
    assert_eq!(count_file_changes(Some((0, 0))), stat(0, 0));
    assert_eq!(count_file_changes(Some((u32::MAX as usize, 7))), stat(u32::MAX, 7));
    assert_eq!(count_file_changes(None), stat(0, 0));
    if usize::BITS > 32 {
        let too_many = (u32::MAX as u64 + 1) as usize;
        assert_eq!(DiffStat::from_counts(too_many, 0), None);
        assert_eq!(DiffStat::from_counts(0, too_many), None);
        assert_eq!(stat_of_counts(Some((too_many, 1))), None);
        assert_eq!(count_file_changes(Some((1, too_many))), stat(0, 0));
        assert_eq!(count_file_changes(Some((too_many, 1))), stat(0, 0));
    }
}

#[test]
fn lines_of_code_are_sums_of_two_counters() {
    let stats = RepoStats {
        committed_additions: u32::MAX,
        committed_deletions: u32::MAX,
        pending_additions: 1,
        pending_deletions: 2,
    };
    assert_eq!(stats.committed_loc(), 2 * (u32::MAX as u64));
    assert_eq!(stats.pending_loc(), 3);
    assert_eq!(stats.additions(), u32::MAX as u64 + 1);
    assert_eq!(stats.deletions(), u32::MAX as u64 + 2);
}

#[test]
fn changes_are_the_counters_of_what_was_seen() {
    let seen = RepoObservation {
        entries: vec![entry(WT_NEW, stat(10, 2)), entry(WT_NEW, stat(10, 2))],
        commits: vec![
            commit(Some(today()), "Jane Doe", Some(stat(5, 1))),
            commit(Some(today()), "Jane Doe", None),
        ],
    };
    let stats = get_repo_changes(&seen, "Jane Doe", today()).unwrap();
    assert_eq!(stats, RepoStats::new(stat(5, 1), stat(20, 4)));
    let stats = get_repo_changes(&seen, "jane doe", today()).unwrap();
    assert_eq!(stats, RepoStats::new(stat(0, 0), stat(20, 4)));
    let stats = get_repo_changes(&seen, "Jane Doe", yesterday()).unwrap();
    assert_eq!(stats, RepoStats::new(stat(0, 0), stat(20, 4)));
    let empty = RepoObservation { entries: Vec::new(), commits: Vec::new() };
    assert_eq!(get_repo_changes(&empty, "Jane Doe", today()).unwrap(), RepoStats::new(stat(0, 0), stat(0, 0)));
}

#[test]
fn changes_out_of_range_are_an_error() {
    let seen = RepoObservation {
        entries: vec![entry(WT_NEW, stat(u32::MAX, 0)), entry(WT_NEW, stat(1, 0))],
        commits: Vec::new(),
    };
    assert!(matches!(
        get_repo_changes(&seen, "Jane Doe", today()),
        Err(RepoAccessError::CounterOutOfRange)
    ));
    let seen = RepoObservation {
        entries: Vec::new(),
        commits: vec![
            commit(Some(today()), "Jane Doe", Some(stat(0, u32::MAX))),
            commit(Some(today()), "Jane Doe", Some(stat(0, 1))),
        ],
    };
    assert!(matches!(
        get_repo_changes(&seen, "Jane Doe", today()),
        Err(RepoAccessError::CounterOutOfRange)
    ));
    assert!(get_repo_changes(&seen, "John Roe", today()).is_ok());
}

fn commit_item(on: Option<CalendarDate>, author: &str) -> WalkItem {
    WalkItem::Commit { authored_on: on, author: author.to_string() }
}

#[test]
fn end_of_the_walk_finishes_it() {
    assert!(matches!(decide_walk(&WalkItem::End, "Jane Doe", today()), WalkDecision::Finish));
}

#[test]
fn error_of_the_walk_itself_gives_up_the_scan() {
    match decide_walk(&WalkItem::Broken("object not found".to_string()), "Jane Doe", today()) {
        WalkDecision::Abort(RepoAccessError::WalkBroken(text)) => {
            assert_eq!(text, "object not found")
        }
        other => panic!("the scan should be given up: {:?}", other),
    }
    match decide_walk(&WalkItem::Unreadable("bad commit".to_string()), "Jane Doe", today()) {
        WalkDecision::Abort(RepoAccessError::CommitUnreadable(text)) => {
            assert_eq!(text, "bad commit")
        }
        other => panic!("the scan should be given up: {:?}", other),
    }
}

#[test]
fn commit_of_another_day_is_recorded_last() {
    for author in ["Jane Doe", "John Roe", ""].iter() {
        assert!(matches!(
            decide_walk(&commit_item(Some(yesterday()), author), "Jane Doe", today()),
            WalkDecision::RecordAndFinish
        ));
        assert!(matches!(
            decide_walk(&commit_item(None, author), "Jane Doe", today()),
            WalkDecision::RecordAndFinish
        ));
    }
    let tomorrow = CalendarDate { year: 2024, month: 3, day: 16 };
    assert!(matches!(
        decide_walk(&commit_item(Some(tomorrow), "Jane Doe"), "Jane Doe", today()),
        WalkDecision::RecordAndFinish
    ));
}

#[test]
fn commit_of_today_has_its_diff_read_for_the_tracked_author_only() {
    assert!(matches!(
        decide_walk(&commit_item(Some(today()), "Jane Doe"), "Jane Doe", today()),
        WalkDecision::ReadDiffAndGoOn
    ));
    for author in ["jane doe", "Jane", "Jane Doe ", "", "John Roe"].iter() {
        assert!(matches!(
            decide_walk(&commit_item(Some(today()), author), "Jane Doe", today()),
            WalkDecision::RecordAndGoOn
        ));
    }
    assert!(matches!(
        decide_walk(&commit_item(Some(today()), ""), "", today()),
        WalkDecision::ReadDiffAndGoOn
    ));
}

#[test]
fn commit_of_today_is_recorded_and_the_walk_goes_on() {
    let mut commits = vec![commit(Some(today()), "John Roe", None)];
    let progress = record_walk_item(
        &mut commits,
        commit_item(Some(today()), "Jane Doe"),
        WalkDecision::ReadDiffAndGoOn,
        Some(stat(5, 1)),
    );
    assert!(matches!(progress, WalkProgress::GoOn));
    assert_eq!(commits.len(), 2);
    assert_eq!(commits[0].author, "John Roe");
    assert_eq!(commits[1].authored_on, Some(today()));
    assert_eq!(commits[1].author, "Jane Doe");
    assert_eq!(commits[1].first_parent_diff, Some(stat(5, 1)));

    let progress = record_walk_item(
        &mut commits,
        commit_item(Some(today()), "Jane Doe"),
        WalkDecision::ReadDiffAndGoOn,
        None,
    );
    assert!(matches!(progress, WalkProgress::GoOn));
    assert_eq!(commits.len(), 3);
    assert_eq!(commits[2].first_parent_diff, None);

    let progress = record_walk_item(
        &mut commits,
        commit_item(Some(today()), "John Roe"),
        WalkDecision::RecordAndGoOn,
        Some(stat(9, 9)),
    );
    assert!(matches!(progress, WalkProgress::GoOn));
    assert_eq!(commits.len(), 4);
    assert_eq!(commits[3].author, "John Roe");
    assert_eq!(commits[3].first_parent_diff, None);
}

#[test]
fn commit_of_another_day_is_recorded_and_the_walk_is_over() {
    let mut commits = vec![commit(Some(today()), "Jane Doe", Some(stat(5, 1)))];
    let progress = record_walk_item(
        &mut commits,
        commit_item(Some(yesterday()), "Jane Doe"),
        WalkDecision::RecordAndFinish,
        Some(stat(9, 9)),
    );
    assert!(matches!(progress, WalkProgress::Done));
    assert_eq!(commits.len(), 2);
    assert_eq!(commits[1].authored_on, Some(yesterday()));
    assert_eq!(commits[1].author, "Jane Doe");
    assert_eq!(commits[1].first_parent_diff, None);
}

#[test]
fn end_of_the_walk_records_nothing() {
    let mut commits = vec![commit(Some(today()), "Jane Doe", Some(stat(5, 1)))];
    let progress = record_walk_item(&mut commits, WalkItem::End, WalkDecision::Finish, None);
    assert!(matches!(progress, WalkProgress::Done));
    assert_eq!(commits.len(), 1);
    assert_eq!(commits[0].first_parent_diff, Some(stat(5, 1)));
}

#[test]
fn walk_error_is_handed_on_and_nothing_is_recorded() {
    let mut commits = vec![commit(Some(today()), "Jane Doe", Some(stat(5, 1)))];
    let item = WalkItem::Broken("object not found".to_string());
    let decision = decide_walk(&item, "Jane Doe", today());
    match record_walk_item(&mut commits, item, decision, None) {
        WalkProgress::GivenUp(RepoAccessError::WalkBroken(text)) => {
            assert_eq!(text, "object not found")
        }
        other => panic!("the scan should be given up: {:?}", other),
    }
    assert_eq!(commits.len(), 1);
    let item = WalkItem::Unreadable("bad commit".to_string());
    let decision = decide_walk(&item, "Jane Doe", today());
    assert!(matches!(
        record_walk_item(&mut commits, item, decision, Some(stat(1, 1))),
        WalkProgress::GivenUp(RepoAccessError::CommitUnreadable(_))
    ));
    assert_eq!(commits.len(), 1);
}

#[test]
fn walk_of_items_gives_the_counters_of_a_walk() {
    let items = vec![
        (commit_item(Some(today()), "Jane Doe"), Some(stat(5, 1))),
        (commit_item(Some(today()), "John Roe"), Some(stat(50, 50))),
        (commit_item(Some(today()), "Jane Doe"), None),
        (commit_item(Some(yesterday()), "Jane Doe"), Some(stat(7, 7))),
        (commit_item(Some(today()), "Jane Doe"), Some(stat(8, 8))),
    ];
    let mut commits = Vec::new();
    for (item, diff) in items.into_iter() {
        let decision = decide_walk(&item, "Jane Doe", today());
        match record_walk_item(&mut commits, item, decision, diff) {
            WalkProgress::GoOn => {}
            _ => break,
        }
    }
    assert_eq!(commits.len(), 4);
    assert_eq!(commits[1].first_parent_diff, None);
    assert_eq!(commits[3].first_parent_diff, None);
    assert_eq!(gather_counted_diffs(&commits, "Jane Doe", today()), vec![stat(5, 1)]);
}
