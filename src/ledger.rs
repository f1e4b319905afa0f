//! The time ledger: an ordered list of time entries, addressed by position.
//!
//! Entries keep the order in which they were added. Deleting an entry moves
//! every later entry down by one place, so a position read before a deletion
//! may name another entry after it. A project id is recorded as given; the
//! ledger does not check it against any registry.
use crate::calendar::{lemma_instant_bounds, local_now, Date, Timestamp};
use std::collections::HashMap;
use vstd::prelude::*;

verus! {

/// An interval of work on a project. An entry without `end` is still running.
#[derive(Clone, Copy, Debug, PartialEq, Eq)]
pub struct TimeEntry {
    pub project_id: u32,
    pub start: Timestamp,
    pub end: Option<Timestamp>,
}

/// Errors of the ledger's operations.
#[derive(Clone, Copy, Debug, PartialEq, Eq, Structural)]
pub enum TimeManagerError {
    /// The position names no entry.
    EntryNotFound,
}

/// The end that counts for `e` when the time is `now`: its own, or `now` if it
/// is still running.
pub open spec fn effective_end(e: TimeEntry, now: Timestamp) -> Timestamp {
    match e.end {
        Some(end) => end,
        None => now,
    }
}

/// Seconds that `e` lasts when the time is `now`; negative if it ends before
/// it starts.
pub open spec fn entry_seconds(e: TimeEntry, now: Timestamp) -> int {
    effective_end(e, now).instant() - e.start.instant()
}

/// Whether `e` is recorded against `project_id`.
pub open spec fn of_project(project_id: u32) -> spec_fn(TimeEntry) -> bool {
    |e: TimeEntry| e.project_id == project_id
}

/// Total seconds of the entries of `project_id` in `entries`.
pub open spec fn project_seconds(entries: Seq<TimeEntry>, project_id: u32, now: Timestamp) -> int
    decreases entries.len(),
{
    if entries.len() == 0 {
        0
    } else {
        project_seconds(entries.drop_last(), project_id, now) + if entries.last().project_id
            == project_id {
            entry_seconds(entries.last(), now)
        } else {
            0
        }
    }
}

/// Whether `e` starts on a date from `from` to `to`, both included.
pub open spec fn starts_within(e: TimeEntry, from: Date, to: Date) -> bool {
    from.days_from_ce <= e.start.day_of() <= to.days_from_ce
}

/// Whether some entry of `project_id` starts from `from` to `to`.
pub open spec fn window_has(entries: Seq<TimeEntry>, from: Date, to: Date, project_id: u32) -> bool
    decreases entries.len(),
{
    entries.len() > 0 && (window_has(entries.drop_last(), from, to, project_id) || (
    entries.last().project_id == project_id && starts_within(entries.last(), from, to)))
}

/// Total seconds of the entries of `project_id` that start from `from` to `to`.
pub open spec fn window_seconds(
    entries: Seq<TimeEntry>,
    from: Date,
    to: Date,
    project_id: u32,
    now: Timestamp,
) -> int
    decreases entries.len(),
{
    if entries.len() == 0 {
        0
    } else {
        window_seconds(entries.drop_last(), from, to, project_id, now) + if entries.last().project_id
            == project_id && starts_within(entries.last(), from, to) {
            entry_seconds(entries.last(), now)
        } else {
            0
        }
    }
}

/// `totals` holds, for each project with an entry that starts from `from` to
/// `to`, the total seconds of those entries when the time is `now`, and holds no
/// other project.
pub open spec fn is_summary(
    totals: Map<u32, i128>,
    entries: Seq<TimeEntry>,
    from: Date,
    to: Date,
    now: Timestamp,
) -> bool {
    &&& forall|project_id: u32| #[trigger]
        totals.contains_key(project_id) == window_has(entries, from, to, project_id)
    &&& forall|project_id: u32| #[trigger]
        totals.contains_key(project_id) ==> totals[project_id] == window_seconds(
            entries,
            from,
            to,
            project_id,
            now,
        )
}

/// An upper bound on the length of any one entry, in seconds.
pub open spec fn entry_bound() -> int {
    0x2_0000_0000_0000
}

proof fn lemma_entry_seconds_bound(e: TimeEntry, now: Timestamp)
    ensures
        -entry_bound() < entry_seconds(e, now) < entry_bound(),
{
    lemma_instant_bounds(e.start);
    lemma_instant_bounds(effective_end(e, now));
}

proof fn lemma_project_seconds_bound(entries: Seq<TimeEntry>, project_id: u32, now: Timestamp)
    ensures
        -entries.len() * entry_bound() <= project_seconds(entries, project_id, now)
            <= entries.len() * entry_bound(),
    decreases entries.len(),
{
    if entries.len() > 0 {
        lemma_project_seconds_bound(entries.drop_last(), project_id, now);
        lemma_entry_seconds_bound(entries.last(), now);
    }
}

proof fn lemma_window_seconds_bound(
    entries: Seq<TimeEntry>,
    from: Date,
    to: Date,
    project_id: u32,
    now: Timestamp,
)
    ensures
        -entries.len() * entry_bound() <= window_seconds(entries, from, to, project_id, now)
            <= entries.len() * entry_bound(),
    decreases entries.len(),
{
    if entries.len() > 0 {
        lemma_window_seconds_bound(entries.drop_last(), from, to, project_id, now);
        lemma_entry_seconds_bound(entries.last(), now);
    }
}

proof fn lemma_window_absent_is_zero(
    entries: Seq<TimeEntry>,
    from: Date,
    to: Date,
    project_id: u32,
    now: Timestamp,
)
    requires
        !window_has(entries, from, to, project_id),
    ensures
        window_seconds(entries, from, to, project_id, now) == 0,
    decreases entries.len(),
{
    if entries.len() > 0 {
        lemma_window_absent_is_zero(entries.drop_last(), from, to, project_id, now);
    }
}

/// Where every entry of `project_id` has an end, the project's total does not
/// depend on the time at which it is taken.
pub proof fn lemma_closed_total_ignores_now(
    entries: Seq<TimeEntry>,
    project_id: u32,
    now1: Timestamp,
    now2: Timestamp,
)
    requires
        forall|i: int|
            0 <= i < entries.len() && #[trigger] entries[i].project_id == project_id
                ==> entries[i].end is Some,
    ensures
        project_seconds(entries, project_id, now1) == project_seconds(entries, project_id, now2),
    decreases entries.len(),
{
    if entries.len() > 0 {
        let rest = entries.drop_last();
        assert forall|i: int|
            0 <= i < rest.len() && #[trigger] rest[i].project_id == project_id implies rest[i].end is Some by {
            assert(rest[i] == entries[i]);
        }
        lemma_closed_total_ignores_now(rest, project_id, now1, now2);
        assert(entries.last() == entries[entries.len() - 1]);
    }
}

/// After the entry at `deleted` is removed, position `j` at or past `deleted`
/// holds the entry that stood at `j + 1`, and positions before `deleted` keep
/// theirs.
pub proof fn lemma_delete_shifts_down(entries: Seq<TimeEntry>, deleted: int, j: int)
    requires
        0 <= deleted < entries.len(),
        0 <= j < entries.len() - 1,
    ensures
        entries.remove(deleted)[j] == if j < deleted {
            entries[j]
        } else {
            entries[j + 1]
        },
{
}

/// Seconds that `e` lasts when the time is `now`.
pub fn entry_duration(e: &TimeEntry, now: &Timestamp) -> (r: i64)
    ensures
        r == entry_seconds(*e, *now),
{
    match e.end {
        Some(end) => e.start.seconds_until(&end),
        None => e.start.seconds_until(now),
    }
}

/// The ledger.
pub struct TimeManager {
    entries: Vec<TimeEntry>,
}

impl View for TimeManager {
    type V = Seq<TimeEntry>;

    closed spec fn view(&self) -> Seq<TimeEntry> {
        self.entries@
    }
}

impl TimeManager {
    /// An empty ledger.
    pub fn new() -> (r: TimeManager)
        ensures
            r@ == Seq::<TimeEntry>::empty(),
    {
        TimeManager { entries: Vec::new() }
    }

    /// Number of entries.
    pub fn len(&self) -> (r: usize)
        ensures
            r == self@.len(),
    {
        self.entries.len()
    }

    /// The entry at `entry_index`, if there is one.
    pub fn get_entry(&self, entry_index: usize) -> (r: Option<TimeEntry>)
        ensures
            r == (if entry_index < self@.len() {
                Some(self@[entry_index as int])
            } else {
                None
            }),
    {
        if entry_index < self.entries.len() {
            Some(self.entries[entry_index])
        } else {
            None
        }
    }

    /// Appends an entry and returns its position. `end` is `None` for an
    /// interval that is still running.
    pub fn add_entry(&mut self, project_id: u32, start: Timestamp, end: Option<Timestamp>) -> (r:
        usize)
        ensures
            final(self)@ == old(self)@.push((TimeEntry { project_id, start, end })),
            r == old(self)@.len(),
    {
        let r = self.entries.len();
        self.entries.push(TimeEntry { project_id, start, end });
        r
    }

    /// Replaces the start and end of the entry at `entry_index`; its project
    /// stays.
    pub fn update_entry(
        &mut self,
        entry_index: usize,
        new_start: Timestamp,
        new_end: Option<Timestamp>,
    ) -> (r: Result<(), TimeManagerError>)
        ensures
            entry_index < old(self)@.len() ==> r is Ok && final(self)@ == old(self)@.update(
                entry_index as int,
                (TimeEntry {
                    project_id: old(self)@[entry_index as int].project_id,
                    start: new_start,
                    end: new_end,
                }),
            ),
            entry_index >= old(self)@.len() ==> r == Err::<(), _>(TimeManagerError::EntryNotFound)
                && final(self)@ == old(self)@,
    {
        if entry_index < self.entries.len() {
            let project_id = self.entries[entry_index].project_id;
            self.entries.set(entry_index, TimeEntry { project_id, start: new_start, end: new_end });
            Ok(())
        } else {
            Err(TimeManagerError::EntryNotFound)
        }
    }

    /// Removes the entry at `entry_index`; every later entry moves down one place.
    pub fn delete_entry(&mut self, entry_index: usize) -> (r: Result<(), TimeManagerError>)
        ensures
            entry_index < old(self)@.len() ==> r is Ok && final(self)@ == old(self)@.remove(
                entry_index as int,
            ),
            entry_index >= old(self)@.len() ==> r == Err::<(), _>(TimeManagerError::EntryNotFound)
                && final(self)@ == old(self)@,
    {
        if entry_index < self.entries.len() {
            self.entries.remove(entry_index);
            Ok(())
        } else {
            Err(TimeManagerError::EntryNotFound)
        }
    }

    /// Total seconds recorded against `project_id`, with running entries
    /// counted up to `now`; zero where the project has no entry.
    pub fn calculate_project_time_at(&self, project_id: u32, now: Timestamp) -> (r: i128)
        ensures
            r == project_seconds(self@, project_id, now),
    {
        let mut total: i128 = 0;
        let mut i: usize = 0;
        while i < self.entries.len()
            invariant
                i <= self.entries@.len(),
                total == project_seconds(self.entries@.take(i as int), project_id, now),
            decreases self.entries@.len() - i,
        {
            let e = self.entries[i];
            proof {
                let prefix = self.entries@.take(i as int);
                assert(self.entries@.take(i + 1).drop_last() =~= prefix);
                lemma_project_seconds_bound(prefix, project_id, now);
                lemma_entry_seconds_bound(e, now);
            }
            if e.project_id == project_id {
                let d = entry_duration(&e, &now);
                total = total + d as i128;
            }
            i = i + 1;
        }
        assert(self.entries@.take(i as int) =~= self.entries@);
        total
    }

    /// Total seconds recorded against `project_id`, with running entries
    /// counted up to the present moment.
    pub fn calculate_project_time(&self, project_id: u32) -> (r: i128)
        ensures
            exists|now: Timestamp| r == project_seconds(self@, project_id, now),
    {
        let now = local_now();
        self.calculate_project_time_at(project_id, now)
    }

    /// A copy of the entries of `project_id`, in the ledger's order. Later
    /// changes to the ledger leave the copy as it is.
    pub fn list_entries_by_project(&self, project_id: u32) -> (r: Vec<TimeEntry>)
        ensures
            r@ == self@.filter(of_project(project_id)),
    {
        let mut out: Vec<TimeEntry> = Vec::new();
        let mut i: usize = 0;
        while i < self.entries.len()
            invariant
                i <= self.entries@.len(),
                out@ == self.entries@.take(i as int).filter(of_project(project_id)),
            decreases self.entries@.len() - i,
        {
            let e = self.entries[i];
            proof {
                assert(self.entries@.take(i + 1).drop_last() =~= self.entries@.take(i as int));
                assert(self.entries@.take(i + 1).last() == e);
                reveal(Seq::filter);
            }
            if e.project_id == project_id {
                out.push(e);
            }
            assert(out@ == self.entries@.take(i + 1).filter(of_project(project_id)));
            i = i + 1;
        }
        assert(self.entries@.take(i as int) =~= self.entries@);
        out
    }

    /// Per project, the total seconds of the entries that start from `from` to
    /// `to` (both included), with running entries counted up to `now`. An entry
    /// counts by its start date alone. Projects without such an entry are absent.
    pub fn summarize_at(&self, from: Date, to: Date, now: Timestamp) -> (r: HashMap<u32, i128>)
        ensures
            is_summary(r@, self@, from, to, now),
    {
        let mut totals: HashMap<u32, i128> = HashMap::new();
        let mut i: usize = 0;
        while i < self.entries.len()
            invariant
                i <= self.entries@.len(),
                forall|project_id: u32| #[trigger]
                    totals@.contains_key(project_id) == window_has(
                        self.entries@.take(i as int),
                        from,
                        to,
                        project_id,
                    ),
                forall|project_id: u32| #[trigger]
                    totals@.contains_key(project_id) ==> totals@[project_id] == window_seconds(
                        self.entries@.take(i as int),
                        from,
                        to,
                        project_id,
                        now,
                    ),
            decreases self.entries@.len() - i,
        {
            let e = self.entries[i];
            let ghost prefix = self.entries@.take(i as int);
            proof {
                assert(self.entries@.take(i + 1).drop_last() =~= prefix);
                assert(self.entries@.take(i + 1).last() == e);
            }
            let day = e.start.date().days_from_ce;
            if from.days_from_ce <= day && day <= to.days_from_ce {
                let d = entry_duration(&e, &now);
                proof {
                    lemma_window_seconds_bound(prefix, from, to, e.project_id, now);
                    if !window_has(prefix, from, to, e.project_id) {
                        lemma_window_absent_is_zero(prefix, from, to, e.project_id, now);
                    }
                    lemma_entry_seconds_bound(e, now);
                }
                let sum: i128 = match totals.get(&e.project_id) {
                    Some(v) => *v + d as i128,
                    None => d as i128,
                };
                totals.insert(e.project_id, sum);
            }
            i = i + 1;
        }
        assert(self.entries@.take(i as int) =~= self.entries@);
        totals
    }

    /// As `summarize_at`, with running entries counted up to the present moment.
    pub fn summarize(&self, from: Date, to: Date) -> (r: HashMap<u32, i128>)
        ensures
            exists|now: Timestamp| #[trigger] is_summary(r@, self@, from, to, now),
    {
        let now = local_now();
        self.summarize_at(from, to, now)
    }
}

} // verus!
