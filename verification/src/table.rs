//! The table of the latest counters, one row per repository name. A scan
//! replaces the row of its repository; no row is ever merged or removed.

use crate::stats::RepoStats;
use vstd::prelude::*;

verus! {

/// A row of the table in specifications: a repository's name and its counters.
pub type Row = (Seq<char>, RepoStats);

/// Whether no name stands in two rows.
pub open spec fn distinct_names(rows: Seq<Row>) -> bool {
    forall|i: int, j: int|
        0 <= i < rows.len() && 0 <= j < rows.len() && i != j ==> (#[trigger] rows[i]).0 != (
        #[trigger] rows[j]).0
}

/// Whether some row has the name.
pub open spec fn has_name(rows: Seq<Row>, name: Seq<char>) -> bool {
    exists|i: int| 0 <= i < rows.len() && (#[trigger] rows[i]).0 == name
}

/// The counters in the row of `name`, if there is such a row.
pub open spec fn lookup(rows: Seq<Row>, name: Seq<char>) -> Option<RepoStats>
    decreases rows.len(),
{
    if rows.len() == 0 {
        None
    } else if rows.first().0 == name {
        Some(rows.first().1)
    } else {
        lookup(rows.drop_first(), name)
    }
}

/// The rows after an update: the row of `name` holds `stats` in the place
/// where it stood, or at the end where there was none.
pub open spec fn upsert(rows: Seq<Row>, name: Seq<char>, stats: RepoStats) -> Seq<Row>
    decreases rows.len(),
{
    if rows.len() == 0 {
        seq![(name, stats)]
    } else if rows.first().0 == name {
        seq![(name, stats)] + rows.drop_first()
    } else {
        seq![rows.first()] + upsert(rows.drop_first(), name, stats)
    }
}

/// The rows as a mapping from name to counters.
pub open spec fn as_map(rows: Seq<Row>) -> Map<Seq<char>, RepoStats> {
    Map::new(|name: Seq<char>| lookup(rows, name) is Some, |name: Seq<char>| lookup(rows, name)->0)
}

/// The committed lines of code of all rows together.
pub open spec fn total_committed_loc(rows: Seq<Row>) -> int
    decreases rows.len(),
{
    if rows.len() == 0 {
        0
    } else {
        total_committed_loc(rows.drop_last()) + rows.last().1.spec_committed_loc()
    }
}

/// The pending lines of code of all rows together.
pub open spec fn total_pending_loc(rows: Seq<Row>) -> int
    decreases rows.len(),
{
    if rows.len() == 0 {
        0
    } else {
        total_pending_loc(rows.drop_last()) + rows.last().1.spec_pending_loc()
    }
}

/// An update at the first row that has the name replaces that row.
pub proof fn lemma_upsert_replaces(rows: Seq<Row>, name: Seq<char>, stats: RepoStats, at: int)
    requires
        0 <= at < rows.len(),
        rows[at].0 == name,
        forall|j: int| 0 <= j < at ==> (#[trigger] rows[j]).0 != name,
    ensures
        upsert(rows, name, stats) == rows.update(at, (name, stats)),
    decreases rows.len(),
{
    if at == 0 {
        assert(seq![(name, stats)] + rows.drop_first() =~= rows.update(0, (name, stats)));
    } else {
        assert(rows[0].0 != name);
        assert forall|j: int| 0 <= j < at - 1 implies (#[trigger] rows.drop_first()[j]).0
            != name by {
            assert(rows.drop_first()[j] == rows[j + 1]);
        }
        lemma_upsert_replaces(rows.drop_first(), name, stats, at - 1);
        assert(seq![rows.first()] + rows.drop_first().update(at - 1, (name, stats)) =~= rows.update(
            at,
            (name, stats),
        ));
    }
}

/// An update with a name that no row has adds a row at the end.
pub proof fn lemma_upsert_appends(rows: Seq<Row>, name: Seq<char>, stats: RepoStats)
    requires
        !has_name(rows, name),
    ensures
        upsert(rows, name, stats) == rows.push((name, stats)),
    decreases rows.len(),
{
    if rows.len() == 0 {
        assert(seq![(name, stats)] =~= rows.push((name, stats)));
    } else {
        assert(rows[0].0 != name);
        assert(!has_name(rows.drop_first(), name)) by {
            if has_name(rows.drop_first(), name) {
                let i = choose|i: int|
                    0 <= i < rows.drop_first().len() && (#[trigger] rows.drop_first()[i]).0 == name;
                assert(rows[i + 1].0 == name);
            }
        }
        lemma_upsert_appends(rows.drop_first(), name, stats);
        assert(seq![rows.first()] + rows.drop_first().push((name, stats)) =~= rows.push(
            (name, stats),
        ));
    }
}

/// What a lookup finds after an update: the new counters under the updated
/// name, and under every other name what was there before.
pub proof fn lemma_lookup_after_upsert(
    rows: Seq<Row>,
    name: Seq<char>,
    stats: RepoStats,
    other: Seq<char>,
)
    ensures
        lookup(upsert(rows, name, stats), other) == if other == name {
            Some(stats)
        } else {
            lookup(rows, other)
        },
    decreases rows.len(),
{
    let after = upsert(rows, name, stats);
    if rows.len() == 0 {
        assert(after.first() == (name, stats));
        assert(after.drop_first() =~= rows);
    } else if rows.first().0 == name {
        assert(after.first() == (name, stats));
        assert(after.drop_first() =~= rows.drop_first());
    } else {
        assert(after.first() == rows.first());
        assert(after.drop_first() =~= upsert(rows.drop_first(), name, stats));
        lemma_lookup_after_upsert(rows.drop_first(), name, stats, other);
    }
}

/// An update is an insertion into the mapping: the updated name maps to the
/// new counters and nothing else changes.
pub proof fn lemma_upsert_is_insert(rows: Seq<Row>, name: Seq<char>, stats: RepoStats)
    ensures
        as_map(upsert(rows, name, stats)) == as_map(rows).insert(name, stats),
{
    let after = upsert(rows, name, stats);
    assert forall|other: Seq<char>|
        lookup(after, other) == (if other == name {
            Some(stats)
        } else {
            lookup(rows, other)
        }) by {
        lemma_lookup_after_upsert(rows, name, stats, other);
    }
    assert(as_map(after) =~= as_map(rows).insert(name, stats));
}

/// A lookup finds a row exactly for the names that the rows hold.
pub proof fn lemma_lookup_finds_names(rows: Seq<Row>, name: Seq<char>)
    ensures
        lookup(rows, name) is Some <==> has_name(rows, name),
    decreases rows.len(),
{
    if rows.len() > 0 {
        if rows.first().0 == name {
            assert(rows[0].0 == name);
        } else {
            lemma_lookup_finds_names(rows.drop_first(), name);
            if has_name(rows.drop_first(), name) {
                let i = choose|i: int|
                    0 <= i < rows.drop_first().len() && (#[trigger] rows.drop_first()[i]).0 == name;
                assert(rows[i + 1].0 == name);
            }
            if has_name(rows, name) {
                let i = choose|i: int| 0 <= i < rows.len() && (#[trigger] rows[i]).0 == name;
                assert(rows.drop_first()[i - 1].0 == name);
            }
        }
    }
}

/// With distinct names, a lookup finds the counters of the one row that has
/// the name.
pub proof fn lemma_lookup_at(rows: Seq<Row>, at: int)
    requires
        0 <= at < rows.len(),
        forall|j: int| 0 <= j < at ==> (#[trigger] rows[j]).0 != rows[at].0,
    ensures
        lookup(rows, rows[at].0) == Some(rows[at].1),
    decreases rows.len(),
{
    if at > 0 {
        assert(rows[0].0 != rows[at].0);
        assert forall|j: int| 0 <= j < at - 1 implies (#[trigger] rows.drop_first()[j]).0
            != rows.drop_first()[at - 1].0 by {
            assert(rows.drop_first()[j] == rows[j + 1]);
        }
        lemma_lookup_at(rows.drop_first(), at - 1);
    }
}

/// An update leaves the names distinct.
pub proof fn lemma_upsert_keeps_names_distinct(rows: Seq<Row>, name: Seq<char>, stats: RepoStats)
    requires
        distinct_names(rows),
    ensures
        distinct_names(upsert(rows, name, stats)),
{
    if has_name(rows, name) {
        let at = choose|i: int| 0 <= i < rows.len() && (#[trigger] rows[i]).0 == name;
        assert forall|j: int| 0 <= j < at implies (#[trigger] rows[j]).0 != name by {
            assert(rows[j].0 != rows[at].0);
        }
        lemma_upsert_replaces(rows, name, stats, at);
        let after = rows.update(at, (name, stats));
        assert forall|i: int, j: int|
            0 <= i < after.len() && 0 <= j < after.len() && i != j implies (#[trigger] after[i]).0
            != (#[trigger] after[j]).0 by {
            assert(after[i].0 == rows[i].0);
            assert(after[j].0 == rows[j].0);
        }
    } else {
        lemma_upsert_appends(rows, name, stats);
        let after = rows.push((name, stats));
        assert forall|i: int, j: int|
            0 <= i < after.len() && 0 <= j < after.len() && i != j implies (#[trigger] after[i]).0
            != (#[trigger] after[j]).0 by {
            if i < rows.len() {
                assert(after[i] == rows[i]);
            }
            if j < rows.len() {
                assert(after[j] == rows[j]);
            }
        }
    }
}

/// One row of the table.
#[derive(Clone, Debug)]
pub struct TableEntry {
    pub name: String,
    pub stats: RepoStats,
}

/// The table: for every repository that a scan has succeeded on, the counters
/// of its latest successful scan.
#[derive(Debug)]
pub struct RepoStatsTable {
    entries: Vec<TableEntry>,
}

impl View for RepoStatsTable {
    type V = Seq<Row>;

    closed spec fn view(&self) -> Seq<Row> {
        Seq::new(self.entries@.len(), |i: int| (self.entries@[i].name@, self.entries@[i].stats))
    }
}

impl RepoStatsTable {
    /// What holds of every table: no name stands in two rows.
    #[verifier::type_invariant]
    pub open spec fn names_are_distinct(self) -> bool {
        distinct_names(self@)
    }

    /// The empty table.
    pub fn new() -> (table: RepoStatsTable)
        ensures
            table@ == Seq::<Row>::empty(),
    {
        let table = RepoStatsTable { entries: Vec::new() };
        assert(table@ =~= Seq::<Row>::empty());
        table
    }

    /// The number of rows. No name stands in two of them.
    pub fn len(&self) -> (n: usize)
        ensures
            n == self@.len(),
            distinct_names(self@),
    {
        proof {
            use_type_invariant(self);
        }
        self.entries.len()
    }

    /// The index of the row that has the name.
    fn position(&self, name: &String) -> (r: Option<usize>)
        ensures
            match r {
                Some(at) => at < self@.len() && self@[at as int].0 == name@ && forall|j: int|
                    0 <= j < at ==> (#[trigger] self@[j]).0 != name@,
                None => !has_name(self@, name@),
            },
    {
        let mut i: usize = 0;
        while i < self.entries.len()
            invariant
                i <= self.entries.len(),
                forall|j: int| 0 <= j < i ==> (#[trigger] self@[j]).0 != name@,
            decreases self.entries.len() - i,
        {
            if self.entries[i].name == *name {
                return Some(i);
            }
            i = i + 1;
        }
        None
    }

    /// The counters under `name`, where the table has such a row.
    pub fn get(&self, name: &str) -> (r: Option<RepoStats>)
        ensures
            r == lookup(self@, name@),
    {
        let wanted: String = name.to_owned();
        match self.position(&wanted) {
            Some(at) => {
                proof {
                    lemma_lookup_at(self@, at as int);
                }
                Some(self.entries[at].stats)
            },
            None => {
                proof {
                    lemma_lookup_finds_names(self@, name@);
                }
                None
            },
        }
    }

    /// Puts `stats` under `name`, in place of what was there.
    pub fn update(&mut self, name: String, stats: RepoStats)
        ensures
            final(self)@ == upsert(old(self)@, name@, stats),
            as_map(final(self)@) == as_map(old(self)@).insert(name@, stats),
            distinct_names(final(self)@),
    {
        proof {
            use_type_invariant(&*self);
            lemma_upsert_is_insert(self@, name@, stats);
        }
        let ghost before = self@;
        let found = self.position(&name);
        let mut entries: Vec<TableEntry> = Vec::new();
        core::mem::swap(&mut entries, &mut self.entries);
        match found {
            Some(at) => {
                proof {
                    lemma_upsert_replaces(before, name@, stats, at as int);
                }
                entries.set(at, TableEntry { name, stats });
            },
            None => {
                proof {
                    lemma_upsert_appends(before, name@, stats);
                }
                entries.push(TableEntry { name, stats });
            },
        }
        let ghost after = Seq::new(entries@.len(), |i: int| (entries@[i].name@, entries@[i].stats));
        proof {
            assert(after =~= upsert(before, name@, stats));
            lemma_upsert_keeps_names_distinct(before, name@, stats);
        }
        core::mem::swap(&mut entries, &mut self.entries);
        assert(self@ =~= after);
    }

    /// The rows of the table, in the table's order.
    pub fn snapshot(&self) -> (rows: Vec<TableEntry>)
        ensures
            rows@.len() == self@.len(),
            forall|i: int|
                0 <= i < rows@.len() ==> (#[trigger] rows@[i]).name@ == self@[i].0 && rows@[i].stats
                    == self@[i].1,
            distinct_names(self@),
    {
        proof {
            use_type_invariant(self);
        }
        let mut rows: Vec<TableEntry> = Vec::new();
        let mut i: usize = 0;
        while i < self.entries.len()
            invariant
                i <= self.entries.len(),
                rows@.len() == i,
                forall|j: int|
                    0 <= j < i ==> (#[trigger] rows@[j]).name@ == self@[j].0 && rows@[j].stats
                        == self@[j].1,
            decreases self.entries.len() - i,
        {
            let name = self.entries[i].name.clone();
            rows.push(TableEntry { name, stats: self.entries[i].stats });
            i = i + 1;
        }
        rows
    }

    /// The lines of code of every row, and of all rows together.
    pub fn summary(&self) -> (report: Summary)
        ensures
            report.describes(self@),
    {
        let mut lines: Vec<SummaryLine> = Vec::new();
        let mut total_committed: u128 = 0;
        let mut total_pending: u128 = 0;
        let mut i: usize = 0;
        while i < self.entries.len()
            invariant
                i <= self.entries.len(),
                lines@.len() == i,
                forall|j: int| 0 <= j < i ==> (#[trigger] lines@[j]).is_line_of(self@[j]),
                total_committed == total_committed_loc(self@.take(i as int)),
                total_pending == total_pending_loc(self@.take(i as int)),
            decreases self.entries.len() - i,
        {
            proof {
                lemma_total_loc_bounds(self@.take(i as int));
                assert(self@.take(i + 1).drop_last() =~= self@.take(i as int));
                assert(i * (2 * u32::MAX) <= usize::MAX * (2 * u32::MAX)) by (nonlinear_arith)
                    requires
                        i <= usize::MAX,
                ;
            }
            let committed_loc = self.entries[i].stats.committed_loc();
            let pending_loc = self.entries[i].stats.pending_loc();
            let name = self.entries[i].name.clone();
            lines.push(SummaryLine { name, committed_loc, pending_loc });
            total_committed = total_committed + committed_loc as u128;
            total_pending = total_pending + pending_loc as u128;
            i = i + 1;
        }
        assert(self@.take(i as int) =~= self@);
        Summary { lines, total_committed, total_pending }
    }
}

/// The line of the summary for one repository.
#[derive(Clone, Debug)]
pub struct SummaryLine {
    pub name: String,
    /// Committed additions plus committed deletions.
    pub committed_loc: u64,
    /// Pending additions plus pending deletions.
    pub pending_loc: u64,
}

impl SummaryLine {
    /// Whether the line gives the name and the lines of code of the row.
    pub open spec fn is_line_of(self, row: Row) -> bool {
        &&& self.name@ == row.0
        &&& self.committed_loc == row.1.spec_committed_loc()
        &&& self.pending_loc == row.1.spec_pending_loc()
    }
}

/// What is reported when a cycle ends: a line for every row of the table, and
/// the totals over all rows.
#[derive(Clone, Debug)]
pub struct Summary {
    pub lines: Vec<SummaryLine>,
    pub total_committed: u128,
    pub total_pending: u128,
}

impl Summary {
    /// Whether the summary has a line for every row, in the rows' order, and
    /// the totals of all rows.
    pub open spec fn describes(self, rows: Seq<Row>) -> bool {
        &&& self.lines@.len() == rows.len()
        &&& forall|i: int| 0 <= i < rows.len() ==> (#[trigger] self.lines@[i]).is_line_of(rows[i])
        &&& self.total_committed == total_committed_loc(rows)
        &&& self.total_pending == total_pending_loc(rows)
    }
}

/// Both totals lie between zero and twice the largest counter for every row.
proof fn lemma_total_loc_bounds(rows: Seq<Row>)
    ensures
        0 <= total_committed_loc(rows) <= rows.len() * (2 * u32::MAX),
        0 <= total_pending_loc(rows) <= rows.len() * (2 * u32::MAX),
    decreases rows.len(),
{
    if rows.len() > 0 {
        lemma_total_loc_bounds(rows.drop_last());
    }
}

} // verus!
