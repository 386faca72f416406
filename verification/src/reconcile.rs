//! The reconciliation loop as a state machine. The loop waits for a
//! notification, scans every tracked path, takes each result into the table,
//! hands out a change record for each repository that was scanned, and ends
//! the cycle with a summary of the table. Waiting, writing the records and
//! printing are left to the caller: the machine says what is to be done next.

use crate::calendar::{today, Timestamp};
use crate::git::{error_message, open_repository, path_file_name};
use crate::scan::{get_repo_changes, observe_repository, RepoAccessError};
use crate::stats::RepoStats;
use crate::table::{
    distinct_names,
    has_name,
    lemma_lookup_after_upsert,
    lemma_lookup_at,
    lemma_lookup_finds_names,
    lemma_upsert_keeps_names_distinct,
    lemma_upsert_replaces,
    lookup,
    upsert,
    RepoStatsTable,
    Row,
    Summary,
};
use vstd::prelude::*;

verus! {

/// The record of one repository's changes in one cycle, as it is appended to
/// the store.
#[derive(Clone, Debug)]
pub struct ChangeRecord {
    /// The final segment of the tracked path.
    pub repo_name: String,
    /// The instant at which the record was made.
    pub timestamp: Timestamp,
    /// The author whose changes were counted.
    pub author: Option<String>,
    /// Committed plus pending additions of the cycle.
    pub additions: u64,
    /// Committed plus pending deletions of the cycle.
    pub deletions: u64,
    /// Always `false`: a record does not tell committed from pending lines.
    pub is_committed: bool,
}

impl ChangeRecord {
    /// Whether the record is the one for a scan of the repository `name` that
    /// gave `stats` for `author` at the instant `at`.
    pub open spec fn reports(
        self,
        name: Seq<char>,
        at: Timestamp,
        author: Seq<char>,
        stats: RepoStats,
    ) -> bool {
        &&& self.repo_name@ == name
        &&& self.timestamp == at
        &&& self.author is Some
        &&& self.author->0@ == author
        &&& self.additions == stats.spec_additions()
        &&& self.deletions == stats.spec_deletions()
        &&& !self.is_committed
    }

    /// The record for a scan.
    pub fn new(repo_name: String, timestamp: Timestamp, author: &str, stats: &RepoStats) -> (record:
        ChangeRecord)
        ensures
            record.reports(repo_name@, timestamp, author@, *stats),
    {
        ChangeRecord {
            repo_name,
            timestamp,
            author: Some(author.to_owned()),
            additions: stats.additions(),
            deletions: stats.deletions(),
            is_committed: false,
        }
    }
}

/// Why a tracked path was passed over in a cycle.
#[derive(Clone, Debug)]
pub enum SkipReason {
    /// The path could not be opened as a repository. The text is git's own.
    NotARepository(String),
    /// The repository was opened and its scan failed.
    ScanFailed(RepoAccessError),
    /// The system clock gave no instant, or none that has a date.
    ClockUnreadable,
}

/// What the scan of one tracked path came to.
#[derive(Clone, Debug)]
pub enum PathOutcome {
    /// The path is passed over for this cycle.
    Skipped(SkipReason),
    /// The repository was scanned.
    Scanned {
        /// The final segment of the path.
        name: String,
        /// The counters that the scan gave.
        stats: RepoStats,
        /// The instant at which the scan was done.
        at: Timestamp,
    },
}

impl PathOutcome {
    /// The row that the outcome brings to the table, if it brings one.
    pub open spec fn row(self) -> Option<Row> {
        match self {
            PathOutcome::Scanned { name, stats, at } => Some((name@, stats)),
            PathOutcome::Skipped(_) => None,
        }
    }
}

/// The name under which a repository is tracked: the final segment of its
/// path, empty where the path has none.
pub fn repo_name_of(final_segment: Option<String>) -> (name: String)
    ensures
        name@ == match final_segment {
            Some(segment) => segment@,
            None => Seq::<char>::empty(),
        },
{
    match final_segment {
        Some(segment) => segment,
        None => String::new(),
    }
}

/// Scans one tracked path for the changes of `author`: opens the repository,
/// scans it, computes its counters for today from what the scan saw, and
/// notes the instant. A path that is no repository, and a repository whose
/// scan fails, are passed over; so is every path while the system clock
/// gives no instant. The instant of a scan lies at or after the epoch, and a
/// scan fails with the error of the status list, of the walk or of a
/// counter.
pub fn scan_path(path: &std::path::PathBuf, author: &str) -> (outcome: PathOutcome)
    ensures
        outcome matches PathOutcome::Scanned { name, stats, at } ==> at.seconds >= 0
            && at.nanoseconds < 1_000_000_000,
        outcome matches PathOutcome::Skipped(SkipReason::ScanFailed(error)) ==> error
            is StatusUnreadable || error.comes_from_walk() || error is CounterOutOfRange,
{
    let repo = match open_repository(path) {
        Ok(repo) => repo,
        Err(error) => {
            return PathOutcome::Skipped(SkipReason::NotARepository(error_message(&error)));
        },
    };
    let name = repo_name_of(path_file_name(path));
    let today = match today() {
        Some(today) => today,
        None => { return PathOutcome::Skipped(SkipReason::ClockUnreadable); },
    };
    let seen = match observe_repository(&repo, author, today) {
        Ok(seen) => seen,
        Err(error) => { return PathOutcome::Skipped(SkipReason::ScanFailed(error)); },
    };
    outcome_of_scan(name, get_repo_changes(&seen, author, today), Timestamp::now())
}

/// What the scan of a path comes to, from the counters that it gave and the
/// instant at which it was done: the path is passed over where the scan
/// failed and where the clock gave no instant.
pub fn outcome_of_scan(
    name: String,
    changes: Result<RepoStats, RepoAccessError>,
    done_at: Option<Timestamp>,
) -> (outcome: PathOutcome)
    ensures
        outcome == match (changes, done_at) {
            (Ok(stats), Some(at)) => PathOutcome::Scanned { name, stats, at },
            (Ok(_), None) => PathOutcome::Skipped(SkipReason::ClockUnreadable),
            (Err(error), _) => PathOutcome::Skipped(SkipReason::ScanFailed(error)),
        },
{
    match changes {
        Ok(stats) => match done_at {
            Some(at) => PathOutcome::Scanned { name, stats, at },
            None => PathOutcome::Skipped(SkipReason::ClockUnreadable),
        },
        Err(error) => PathOutcome::Skipped(SkipReason::ScanFailed(error)),
    }
}

/// Where the loop stands.
#[derive(Clone, Copy, Debug, PartialEq, Eq, Structural)]
pub enum Phase {
    /// Waiting for a notification.
    Idle,
    /// In a cycle, waiting for the scan of the tracked path with this index.
    Reconciling(usize),
}

/// What the caller hands to the machine.
#[derive(Clone, Debug)]
pub enum Event {
    /// The watch reports that something changed under a tracked path.
    Notification,
    /// The watch reports an error of its own.
    WatchFailure,
    /// The tracked path that the machine asked for has been scanned.
    PathScanned(PathOutcome),
}

/// What the caller is to do next.
#[derive(Clone, Debug)]
pub enum Action {
    /// Wait for the watch to report, and hand in what it reports.
    AwaitNotification,
    /// Scan the tracked path with this index and hand in what it came to.
    Scan(usize),
    /// The cycle is over: print the summary, then wait for the watch to
    /// report.
    Report(Summary),
}

/// What the machine asks for after an event.
#[derive(Clone, Debug)]
pub struct Step {
    /// The record to append to the store first, if there is one. A failed
    /// write is reported and changes nothing.
    pub persist: Option<ChangeRecord>,
    /// What to do after that.
    pub next: Action,
}

/// The phase after the scan of the path `path` of `paths` tracked paths: the
/// next path has its turn, and after the last the cycle is over.
pub open spec fn phase_after_path(paths: usize, path: usize) -> Phase {
    if path + 1 < paths {
        Phase::Reconciling((path + 1) as usize)
    } else {
        Phase::Idle
    }
}

/// The phase after an event. A notification starts a cycle at the first
/// tracked path, every scan that is handed in gives the turn to the next
/// path, and the scan of the last path ends the cycle. No other event
/// changes the phase.
pub open spec fn next_phase(paths: usize, phase: Phase, event: Event) -> Phase {
    match (phase, event) {
        (Phase::Idle, Event::Notification) => if paths > 0 {
            Phase::Reconciling(0)
        } else {
            Phase::Idle
        },
        (Phase::Reconciling(path), Event::PathScanned(_)) => phase_after_path(paths, path),
        _ => phase,
    }
}

/// Whether the event ends a cycle: the scan of the last path does, and so
/// does a notification where no path is tracked.
pub open spec fn ends_cycle(paths: usize, phase: Phase, event: Event) -> bool {
    match (phase, event) {
        (Phase::Idle, Event::Notification) => paths == 0,
        (Phase::Reconciling(path), Event::PathScanned(_)) => !(path + 1 < paths),
        _ => false,
    }
}

/// The rows of the table after an event. Only a scan that is handed in during
/// a cycle changes them: its row replaces the row of its repository.
pub open spec fn next_rows(phase: Phase, rows: Seq<Row>, event: Event) -> Seq<Row> {
    match (phase, event) {
        (Phase::Reconciling(_), Event::PathScanned(outcome)) => absorb(rows, outcome.row()),
        _ => rows,
    }
}

/// The rows after the scan of one path was taken in: the row of a repository
/// that was scanned replaces the one it had, and a path that was passed over
/// changes nothing.
pub open spec fn absorb(rows: Seq<Row>, scan: Option<Row>) -> Seq<Row> {
    match scan {
        Some(row) => upsert(rows, row.0, row.1),
        None => rows,
    }
}

/// The rows after a whole cycle: the scans of the tracked paths taken in, one
/// after the other.
pub open spec fn table_after(rows: Seq<Row>, scans: Seq<Option<Row>>) -> Seq<Row>
    decreases scans.len(),
{
    if scans.len() == 0 {
        rows
    } else {
        absorb(table_after(rows, scans.drop_last()), scans.last())
    }
}

/// The rows for which a cycle hands out a record, in the order of the
/// tracked paths: one for each repository that was scanned.
pub open spec fn records_due(scans: Seq<Option<Row>>) -> Seq<Row>
    decreases scans.len(),
{
    if scans.len() == 0 {
        Seq::empty()
    } else {
        match scans.last() {
            Some(row) => records_due(scans.drop_last()).push(row),
            None => records_due(scans.drop_last()),
        }
    }
}

/// The counters of the last scan of the repository `name` in a cycle, if the
/// cycle scanned it.
pub open spec fn last_scan(scans: Seq<Option<Row>>, name: Seq<char>) -> Option<RepoStats>
    decreases scans.len(),
{
    if scans.len() == 0 {
        None
    } else {
        match scans.last() {
            Some(row) if row.0 == name => Some(row.1),
            _ => last_scan(scans.drop_last(), name),
        }
    }
}

/// Whether `step` is what the machine asks for when it tracks `paths` paths
/// for `author`, stands in `phase` with `rows` in its table and is handed
/// `event`. A record is due for a repository whose scan is handed in during
/// a cycle, and for nothing else. Then the path whose turn it is is to be
/// scanned; at the end of a cycle the summary of the table is to be printed;
/// and outside a cycle the watch is to be waited for.
pub open spec fn is_next_step(
    paths: usize,
    phase: Phase,
    rows: Seq<Row>,
    author: Seq<char>,
    event: Event,
    step: Step,
) -> bool {
    &&& match (phase, event) {
        (
            Phase::Reconciling(_),
            Event::PathScanned(PathOutcome::Scanned { name, stats, at }),
        ) => step.persist is Some && step.persist->0.reports(name@, at, author, stats),
        _ => step.persist is None,
    }
    &&& match next_phase(paths, phase, event) {
        Phase::Reconciling(path) => step.next is Scan && step.next->Scan_0 == path,
        Phase::Idle => if ends_cycle(paths, phase, event) {
            step.next is Report && step.next->Report_0.describes(next_rows(phase, rows, event))
        } else {
            step.next is AwaitNotification
        },
    }
}

/// The loop's state: its phase, the number of tracked paths, the author it
/// tracks, and the table.
#[derive(Debug)]
pub struct ReconcileLoop {
    phase: Phase,
    paths: usize,
    author: String,
    table: RepoStatsTable,
}

impl ReconcileLoop {
    /// Where the loop stands.
    pub closed spec fn phase(self) -> Phase {
        self.phase
    }

    /// The number of tracked paths.
    pub closed spec fn paths(self) -> usize {
        self.paths
    }

    /// The author whose changes are tracked.
    pub closed spec fn author(self) -> Seq<char> {
        self.author@
    }

    /// The rows of the table.
    pub closed spec fn rows(self) -> Seq<Row> {
        self.table@
    }

    /// A loop over `paths` tracked paths that waits for its first
    /// notification, with an empty table.
    pub fn new(author: String, paths: usize) -> (machine: ReconcileLoop)
        ensures
            machine.phase() == Phase::Idle,
            machine.paths() == paths,
            machine.author() == author@,
            machine.rows() == Seq::<Row>::empty(),
    {
        ReconcileLoop { phase: Phase::Idle, paths, author, table: RepoStatsTable::new() }
    }

    /// Where the loop stands.
    pub fn current_phase(&self) -> (phase: Phase)
        ensures
            phase == self.phase(),
    {
        self.phase
    }

    /// The table as it stands. No name stands in two of its rows.
    pub fn table(&self) -> (table: &RepoStatsTable)
        ensures
            table@ == self.rows(),
            distinct_names(self.rows()),
    {
        proof {
            use_type_invariant(&self.table);
        }
        &self.table
    }

    /// What is to be done when the phase has become `self.phase`: the path
    /// whose turn it is is to be scanned, and at the end of a cycle the
    /// summary is to be printed.
    fn turn(&self) -> (action: Action)
        ensures
            match self.phase {
                Phase::Reconciling(path) => action is Scan && action->Scan_0 == path,
                Phase::Idle => action is Report && action->Report_0.describes(self.table@),
            },
    {
        match self.phase {
            Phase::Reconciling(path) => Action::Scan(path),
            Phase::Idle => Action::Report(self.table.summary()),
        }
    }

    /// Takes an event and says what is to be done next.
    pub fn step(&mut self, event: Event) -> (step: Step)
        ensures
            final(self).phase() == next_phase(old(self).paths(), old(self).phase(), event),
            final(self).rows() == next_rows(old(self).phase(), old(self).rows(), event),
            final(self).paths() == old(self).paths(),
            final(self).author() == old(self).author(),
            distinct_names(final(self).rows()),
            is_next_step(
                old(self).paths(),
                old(self).phase(),
                old(self).rows(),
                old(self).author(),
                event,
                step,
            ),
    {
        proof {
            use_type_invariant(&self.table);
        }
        match self.phase {
            Phase::Idle => match event {
                Event::Notification => {
                    if self.paths > 0 {
                        self.phase = Phase::Reconciling(0);
                    }
                    Step { persist: None, next: self.turn() }
                },
                _ => Step { persist: None, next: Action::AwaitNotification },
            },
            Phase::Reconciling(path) => match event {
                Event::PathScanned(outcome) => {
                    let persist = match outcome {
                        PathOutcome::Scanned { name, stats, at } => {
                            let record = ChangeRecord::new(
                                name.clone(),
                                at,
                                self.author.as_str(),
                                &stats,
                            );
                            self.table.update(name, stats);
                            Some(record)
                        },
                        PathOutcome::Skipped(_) => None,
                    };
                    if self.paths > 0 && path < self.paths - 1 {
                        self.phase = Phase::Reconciling(path + 1);
                    } else {
                        self.phase = Phase::Idle;
                    }
                    Step { persist, next: self.turn() }
                },
                _ => Step { persist: None, next: Action::Scan(path) },
            },
        }
    }
}

/// Phase and rows after a run of events, each taken as `step` takes it by a
/// machine that tracks `paths` paths.
pub open spec fn state_after(paths: usize, phase: Phase, rows: Seq<Row>, events: Seq<Event>) -> (
    Phase,
    Seq<Row>,
)
    decreases events.len(),
{
    if events.len() == 0 {
        (phase, rows)
    } else {
        let before = state_after(paths, phase, rows, events.drop_last());
        (next_phase(paths, before.0, events.last()), next_rows(before.0, before.1, events.last()))
    }
}

/// The rows that the outcomes of the tracked paths bring, path by path.
pub open spec fn scans_of(outcomes: Seq<PathOutcome>) -> Seq<Option<Row>> {
    outcomes.map_values(|outcome: PathOutcome| outcome.row())
}

/// The events of the scans of some paths, one after the other.
pub open spec fn scan_events(outcomes: Seq<PathOutcome>) -> Seq<Event> {
    outcomes.map_values(|outcome: PathOutcome| Event::PathScanned(outcome))
}

/// The events of one cycle: the notification and then the outcome of every
/// tracked path in turn.
pub open spec fn cycle_events(outcomes: Seq<PathOutcome>) -> Seq<Event> {
    seq![Event::Notification] + scan_events(outcomes)
}

/// A notification starts one cycle over all tracked paths, each in its turn:
/// once the first `k` paths have been scanned, the machine waits for the
/// scan of the path `k`, and its table holds the scans of the paths before.
pub proof fn lemma_cycle_takes_each_path_in_turn(rows: Seq<Row>, outcomes: Seq<PathOutcome>, k: int)
    requires
        0 <= k < outcomes.len() <= usize::MAX,
    ensures
        state_after(
            outcomes.len() as usize,
            Phase::Idle,
            rows,
            cycle_events(outcomes.take(k)),
        ) == (Phase::Reconciling(k as usize), table_after(rows, scans_of(outcomes.take(k)))),
    decreases k,
{
    let paths = outcomes.len() as usize;
    let events = cycle_events(outcomes.take(k));
    if k == 0 {
        assert(events =~= seq![Event::Notification]);
        assert(events.drop_last() =~= Seq::<Event>::empty());
        assert(events.last() == Event::Notification);
        assert(state_after(paths, Phase::Idle, rows, events.drop_last()) == (Phase::Idle, rows));
        assert(scans_of(outcomes.take(k)) =~= Seq::<Option<Row>>::empty());
    } else {
        lemma_cycle_takes_each_path_in_turn(rows, outcomes, k - 1);
        assert(events.last() == Event::PathScanned(outcomes[k - 1]));
        assert(events.drop_last() =~= cycle_events(outcomes.take(k - 1)));
        assert(scans_of(outcomes.take(k)).last() == outcomes[k - 1].row());
        assert(scans_of(outcomes.take(k)).drop_last() =~= scans_of(outcomes.take(k - 1)));
    }
}

/// A cycle leads from `Idle` through the scan of every tracked path back to
/// `Idle`, and leaves in the table the scans of the tracked paths, taken in
/// one after the other.
pub proof fn lemma_cycle_returns_to_idle(rows: Seq<Row>, outcomes: Seq<PathOutcome>)
    requires
        outcomes.len() <= usize::MAX,
    ensures
        state_after(outcomes.len() as usize, Phase::Idle, rows, cycle_events(outcomes)) == (
            Phase::Idle,
            table_after(rows, scans_of(outcomes)),
        ),
{
    let paths = outcomes.len() as usize;
    let events = cycle_events(outcomes);
    if outcomes.len() == 0 {
        assert(events =~= seq![Event::Notification]);
        assert(events.drop_last() =~= Seq::<Event>::empty());
        assert(events.last() == Event::Notification);
        assert(state_after(paths, Phase::Idle, rows, events.drop_last()) == (Phase::Idle, rows));
        assert(scans_of(outcomes) =~= Seq::<Option<Row>>::empty());
    } else {
        let k = outcomes.len() - 1;
        lemma_cycle_takes_each_path_in_turn(rows, outcomes, k);
        assert(events.last() == Event::PathScanned(outcomes.last()));
        assert(events.drop_last() =~= cycle_events(outcomes.take(k)));
        assert(scans_of(outcomes).last() == outcomes.last().row());
        assert(scans_of(outcomes).drop_last() =~= scans_of(outcomes.take(k)));
    }
}

/// A tracked path that is passed over, wherever it stands among the paths,
/// changes nothing for the others: the table after the cycle and the records
/// that are due are those of the cycle without it.
pub proof fn lemma_skipped_path_changes_nothing(rows: Seq<Row>, scans: Seq<Option<Row>>, k: int)
    requires
        0 <= k <= scans.len(),
    ensures
        table_after(rows, scans.insert(k, None)) == table_after(rows, scans),
        records_due(scans.insert(k, None)) == records_due(scans),
    decreases scans.len(),
{
    let with_skip = scans.insert(k, None);
    if k == scans.len() {
        assert(with_skip.drop_last() =~= scans);
        assert(with_skip.last() == None::<Row>);
    } else {
        assert(with_skip.last() == scans.last());
        assert(with_skip.drop_last() =~= scans.drop_last().insert(k, None));
        lemma_skipped_path_changes_nothing(rows, scans.drop_last(), k);
    }
}

/// A tracked path that cannot be scanned does not disturb the cycle: with it
/// or without it among the tracked paths, the machine ends the cycle in the
/// same phase with the same table, and the same records are due for the
/// other paths.
pub proof fn lemma_unreadable_path_does_not_disturb_cycle(
    rows: Seq<Row>,
    outcomes: Seq<PathOutcome>,
    k: int,
    reason: SkipReason,
)
    requires
        0 <= k <= outcomes.len() < usize::MAX,
    ensures
        state_after(
            (outcomes.len() + 1) as usize,
            Phase::Idle,
            rows,
            cycle_events(outcomes.insert(k, PathOutcome::Skipped(reason))),
        ) == state_after(outcomes.len() as usize, Phase::Idle, rows, cycle_events(outcomes)),
        records_due(scans_of(outcomes.insert(k, PathOutcome::Skipped(reason)))) == records_due(
            scans_of(outcomes),
        ),
{
    let with_skip = outcomes.insert(k, PathOutcome::Skipped(reason));
    assert(scans_of(with_skip) =~= scans_of(outcomes).insert(k, None));
    lemma_skipped_path_changes_nothing(rows, scans_of(outcomes), k);
    lemma_cycle_returns_to_idle(rows, with_skip);
    lemma_cycle_returns_to_idle(rows, outcomes);
}

/// After a cycle the table holds, for a repository that the cycle scanned, the
/// counters of its last scan, and for every other name what it held before:
/// a repository that could not be scanned keeps the row of its last
/// successful scan.
pub proof fn lemma_lookup_after_cycle(rows: Seq<Row>, scans: Seq<Option<Row>>, name: Seq<char>)
    ensures
        lookup(table_after(rows, scans), name) == match last_scan(scans, name) {
            Some(stats) => Some(stats),
            None => lookup(rows, name),
        },
    decreases scans.len(),
{
    if scans.len() > 0 {
        lemma_lookup_after_cycle(rows, scans.drop_last(), name);
        match scans.last() {
            Some(row) => {
                lemma_lookup_after_upsert(
                    table_after(rows, scans.drop_last()),
                    row.0,
                    row.1,
                    name,
                );
            },
            None => {},
        }
    }
}

/// A cycle leaves the names of the rows distinct.
pub proof fn lemma_cycle_keeps_names_distinct(rows: Seq<Row>, scans: Seq<Option<Row>>)
    requires
        distinct_names(rows),
    ensures
        distinct_names(table_after(rows, scans)),
    decreases scans.len(),
{
    if scans.len() > 0 {
        lemma_cycle_keeps_names_distinct(rows, scans.drop_last());
        match scans.last() {
            Some(row) => {
                lemma_upsert_keeps_names_distinct(
                    table_after(rows, scans.drop_last()),
                    row.0,
                    row.1,
                );
            },
            None => {},
        }
    }
}

/// A repository that a cycle scanned has a last scan in it.
proof fn lemma_scanned_has_last_scan(scans: Seq<Option<Row>>, k: int)
    requires
        0 <= k < scans.len(),
        scans[k] is Some,
    ensures
        last_scan(scans, scans[k].unwrap().0) is Some,
    decreases scans.len(),
{
    if k < scans.len() - 1 {
        assert(scans.drop_last()[k] == scans[k]);
        lemma_scanned_has_last_scan(scans.drop_last(), k);
    }
}

/// The rows with the counters of every repository that the cycle scanned
/// replaced by those of its last scan.
spec fn overlay(rows: Seq<Row>, scans: Seq<Option<Row>>) -> Seq<Row> {
    Seq::new(
        rows.len(),
        |i: int|
            (
                rows[i].0,
                match last_scan(scans, rows[i].0) {
                    Some(stats) => stats,
                    None => rows[i].1,
                },
            ),
    )
}

/// Where the table has a row for every repository that a cycle scans, the
/// cycle replaces counters and moves no row.
proof fn lemma_cycle_on_known_names(rows: Seq<Row>, scans: Seq<Option<Row>>)
    requires
        distinct_names(rows),
        forall|k: int| 0 <= k < scans.len() && (#[trigger] scans[k]) is Some ==> has_name(
            rows,
            scans[k].unwrap().0,
        ),
    ensures
        table_after(rows, scans) == overlay(rows, scans),
    decreases scans.len(),
{
    if scans.len() == 0 {
        assert(overlay(rows, scans) =~= rows);
    } else {
        let earlier = scans.drop_last();
        assert forall|k: int| 0 <= k < earlier.len() && (#[trigger] earlier[k]) is Some implies has_name(
            rows,
            earlier[k].unwrap().0,
        ) by {
            assert(earlier[k] == scans[k]);
        }
        lemma_cycle_on_known_names(rows, earlier);
        let before = overlay(rows, earlier);
        match scans.last() {
            Some(row) => {
                assert(scans[scans.len() - 1] is Some);
                let at = choose|i: int| 0 <= i < rows.len() && (#[trigger] rows[i]).0 == row.0;
                assert(before[at].0 == row.0);
                assert forall|j: int| 0 <= j < at implies (#[trigger] before[j]).0 != row.0 by {
                    assert(rows[j].0 != rows[at].0);
                }
                lemma_upsert_replaces(before, row.0, row.1, at);
                assert forall|i: int| 0 <= i < rows.len() implies before.update(at, row)[i]
                    == overlay(rows, scans)[i] by {
                    if i != at {
                        assert(rows[i].0 != rows[at].0);
                    }
                }
                assert(before.update(at, row) =~= overlay(rows, scans));
            },
            None => {
                assert(before =~= overlay(rows, scans));
            },
        }
    }
}

/// A run of events followed by another leads to where the second leads from
/// the end of the first.
pub proof fn lemma_state_after_concat(
    paths: usize,
    phase: Phase,
    rows: Seq<Row>,
    first: Seq<Event>,
    second: Seq<Event>,
)
    ensures
        state_after(paths, phase, rows, first + second) == state_after(
            paths,
            state_after(paths, phase, rows, first).0,
            state_after(paths, phase, rows, first).1,
            second,
        ),
    decreases second.len(),
{
    if second.len() == 0 {
        assert(first + second =~= first);
    } else {
        assert((first + second).drop_last() =~= first + second.drop_last());
        assert((first + second).last() == second.last());
        lemma_state_after_concat(paths, phase, rows, first, second.drop_last());
    }
}

/// A cycle that takes in again what the table already holds of an earlier
/// cycle leaves the table as it is.
pub proof fn lemma_cycle_is_idempotent(rows: Seq<Row>, scans: Seq<Option<Row>>)
    requires
        distinct_names(rows),
    ensures
        table_after(table_after(rows, scans), scans) == table_after(rows, scans),
{
    let once = table_after(rows, scans);
    lemma_cycle_keeps_names_distinct(rows, scans);
    assert forall|j: int| 0 <= j < scans.len() && (#[trigger] scans[j]) is Some implies has_name(
        once,
        scans[j].unwrap().0,
    ) by {
        lemma_scanned_has_last_scan(scans, j);
        lemma_lookup_after_cycle(rows, scans, scans[j].unwrap().0);
        lemma_lookup_finds_names(once, scans[j].unwrap().0);
    }
    lemma_cycle_on_known_names(once, scans);
    assert forall|i: int| 0 <= i < once.len() implies overlay(once, scans)[i] == once[i] by {
        assert forall|j: int| 0 <= j < i implies (#[trigger] once[j]).0 != once[i].0 by {}
        lemma_lookup_at(once, i);
        lemma_lookup_after_cycle(rows, scans, once[i].0);
    }
    assert(overlay(once, scans) =~= once);
}

/// A second cycle that sees what the first saw repeats it. The two cycles
/// may differ in the instants of their scans and in nothing else. Then the
/// two records of a repository, each made at its own instant, have the same
/// name, additions and deletions, and the machine stands after the second
/// cycle where it stood after the first, with the same table.
pub proof fn lemma_repeated_cycle_changes_nothing(
    rows: Seq<Row>,
    first: Seq<PathOutcome>,
    second: Seq<PathOutcome>,
    author: Seq<char>,
    k: int,
    first_record: ChangeRecord,
    first_at: Timestamp,
    second_record: ChangeRecord,
    second_at: Timestamp,
)
    requires
        distinct_names(rows),
        first.len() <= usize::MAX,
        scans_of(first) == scans_of(second),
        0 <= k < first.len(),
        first[k].row() is Some,
        first_record.reports(first[k].row().unwrap().0, first_at, author, first[k].row().unwrap().1),
        second_record.reports(
            first[k].row().unwrap().0,
            second_at,
            author,
            first[k].row().unwrap().1,
        ),
    ensures
        first_record.repo_name@ == second_record.repo_name@,
        first_record.additions == second_record.additions,
        first_record.deletions == second_record.deletions,
        records_due(scans_of(first)) == records_due(scans_of(second)),
        state_after(
            first.len() as usize,
            Phase::Idle,
            rows,
            cycle_events(first) + cycle_events(second),
        ) == state_after(first.len() as usize, Phase::Idle, rows, cycle_events(first)),
{
    assert(scans_of(first).len() == first.len());
    assert(scans_of(second).len() == second.len());
    lemma_state_after_concat(
        first.len() as usize,
        Phase::Idle,
        rows,
        cycle_events(first),
        cycle_events(second),
    );
    lemma_cycle_returns_to_idle(rows, first);
    lemma_cycle_returns_to_idle(table_after(rows, scans_of(first)), second);
    lemma_cycle_is_idempotent(rows, scans_of(first));
}

} // verus!
