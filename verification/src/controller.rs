//! The schedule controller: owns the current schedule generation, the
//! per-task notification record keyed by `(day index, task index)`, the
//! coalesced file-change signal, and the shutdown and viewer-request
//! latches. One poll tick drains the change signal (the caller reloads if
//! it was set), then evaluates every task of every day whose label matches
//! today's weekday and returns the task keys whose notification fires now.

use vstd::pervasive::VecAdditionalExecFns;
use vstd::prelude::*;

use crate::alarm::{spec_decide, decide_task, FireState};
use crate::clock::{label_matches, now_local, TimeOfDay, Weekday};
use crate::day::DayView;
use crate::loader::{load_schedule_str, spec_load_schedule, LoadError};
use crate::schedule::{Schedule, ScheduleView};

verus! {

/// The mathematical state of an [`Application`].
pub ghost struct ApplicationView {
    /// The days of the current schedule generation.
    pub days: Seq<DayView>,
    /// One lifecycle value per task of the current generation, in the
    /// schedule's own shape.
    pub record: Seq<Seq<FireState>>,
    /// The coalesced "file changed since last checked" signal.
    pub pending_change: bool,
    /// The cooperative shutdown latch.
    pub is_shutdown: bool,
    /// The viewer-requested latch.
    pub is_opened_viewer: bool,
}

pub struct Application {
    schedule: Schedule,
    record: Vec<Vec<FireState>>,
    pending_change: bool,
    is_shutdown: bool,
    is_opened_viewer: bool,
}

/// The element-wise view of the notification record.
pub open spec fn records_view(r: Seq<Vec<FireState>>) -> Seq<Seq<FireState>> {
    r.map_values(|row: Vec<FireState>| row@)
}

impl View for Application {
    type V = ApplicationView;

    closed spec fn view(&self) -> ApplicationView {
        ApplicationView {
            days: self.schedule@.days,
            record: records_view(self.record@),
            pending_change: self.pending_change,
            is_shutdown: self.is_shutdown,
            is_opened_viewer: self.is_opened_viewer,
        }
    }
}

/// A record has a schedule's shape: one row per day, one entry per task.
pub open spec fn record_shape(days: Seq<DayView>, rec: Seq<Seq<FireState>>) -> bool {
    &&& rec.len() == days.len()
    &&& forall|i: int|
        0 <= i < days.len() ==> (#[trigger] rec[i]).len() == days[i].tasks.len()
}

/// The controller's record has its schedule's shape.
pub open spec fn record_matches(v: ApplicationView) -> bool {
    record_shape(v.days, v.record)
}

/// A record of the schedule's shape with every task not yet due: the state
/// a fresh generation starts from.
pub open spec fn fresh_record(days: Seq<DayView>) -> Seq<Seq<FireState>> {
    Seq::new(days.len(), |i: int| Seq::new(days[i].tasks.len(), |j: int| FireState::NotDue))
}

/// The record after one tick at `now` on `today`: rows of matching days
/// are re-decided task by task, rows of other days are untouched.
pub open spec fn sched_record_after(
    days: Seq<DayView>,
    today: Weekday,
    now: int,
    rec: Seq<Seq<FireState>>,
) -> Seq<Seq<FireState>> {
    Seq::new(
        rec.len(),
        |i: int|
            if i < days.len() && label_matches(days[i].day_of_week, today) {
                row_after(days[i], now, rec[i])
            } else {
                rec[i]
            },
    )
}

/// One matching day's record row after a tick.
pub open spec fn row_after(day: DayView, now: int, row: Seq<FireState>) -> Seq<FireState> {
    Seq::new(row.len(), |j: int| spec_decide(day.tasks[j], now, row[j]).0)
}

/// The task keys of one matching day (day index `d`) that fire during a
/// tick, among its first `j` tasks, in task order.
pub open spec fn day_fires_upto(
    d: int,
    day: DayView,
    now: int,
    row: Seq<FireState>,
    j: int,
) -> Seq<(int, int)>
    decreases j,
{
    if j <= 0 {
        Seq::empty()
    } else {
        day_fires_upto(d, day, now, row, j - 1) + if spec_decide(
            day.tasks[j - 1],
            now,
            row[j - 1],
        ).1 {
            seq![(d, j - 1)]
        } else {
            Seq::empty()
        }
    }
}

/// The task keys that fire during a tick, among the first `i` days, in
/// day-then-task order; days whose label does not match today contribute
/// nothing.
pub open spec fn sched_fires_upto(
    days: Seq<DayView>,
    today: Weekday,
    now: int,
    rec: Seq<Seq<FireState>>,
    i: int,
) -> Seq<(int, int)>
    decreases i,
{
    if i <= 0 {
        Seq::empty()
    } else {
        sched_fires_upto(days, today, now, rec, i - 1) + if i - 1 < days.len() && i - 1
            < rec.len() && label_matches(days[i - 1].day_of_week, today) {
            day_fires_upto(i - 1, days[i - 1], now, rec[i - 1], rec[i - 1].len() as int)
        } else {
            Seq::empty()
        }
    }
}

/// All task keys that fire during a tick at `now` on `today`.
pub open spec fn sched_fires(
    days: Seq<DayView>,
    today: Weekday,
    now: int,
    rec: Seq<Seq<FireState>>,
) -> Seq<(int, int)> {
    sched_fires_upto(days, today, now, rec, days.len() as int)
}

/// The index pairs of a fire list, as mathematical integers.
pub open spec fn pairs_view(s: Seq<(usize, usize)>) -> Seq<(int, int)> {
    s.map_values(|p: (usize, usize)| (p.0 as int, p.1 as int))
}

/// What one whole poll-tick evaluation did: the new record and the fired
/// task keys are those of a tick at `now` on `today`.
pub open spec fn tick_outcome(
    days: Seq<DayView>,
    rec_old: Seq<Seq<FireState>>,
    rec_new: Seq<Seq<FireState>>,
    fires: Seq<(int, int)>,
    now: int,
    today: Weekday,
) -> bool {
    &&& rec_new == sched_record_after(days, today, now, rec_old)
    &&& fires == sched_fires(days, today, now, rec_old)
}

/// A day whose label is not today's never contributes a fired key, and its
/// record row is left exactly as it was.
pub proof fn lemma_other_day_untouched(
    days: Seq<DayView>,
    today: Weekday,
    now: int,
    rec: Seq<Seq<FireState>>,
    d: int,
)
    requires
        record_shape(days, rec),
        0 <= d < days.len(),
        !label_matches(days[d].day_of_week, today),
    ensures
        sched_record_after(days, today, now, rec)[d] == rec[d],
        forall|k: int|
            0 <= k < sched_fires(days, today, now, rec).len() ==> (#[trigger] sched_fires(
                days,
                today,
                now,
                rec,
            )[k]).0 != d,
{
    lemma_fires_days(days, today, now, rec, days.len() as int, d);
}

proof fn lemma_fires_days(
    days: Seq<DayView>,
    today: Weekday,
    now: int,
    rec: Seq<Seq<FireState>>,
    i: int,
    d: int,
)
    requires
        0 <= d < days.len(),
        !label_matches(days[d].day_of_week, today),
    ensures
        forall|k: int|
            0 <= k < sched_fires_upto(days, today, now, rec, i).len() ==> (
            #[trigger] sched_fires_upto(days, today, now, rec, i)[k]).0 != d,
    decreases i,
{
    if i > 0 {
        lemma_fires_days(days, today, now, rec, i - 1, d);
        if i - 1 < days.len() && i - 1 < rec.len() && label_matches(days[i - 1].day_of_week, today)
        {
            lemma_day_fires_day(i - 1, days[i - 1], now, rec[i - 1], rec[i - 1].len() as int);
        }
        let prev = sched_fires_upto(days, today, now, rec, i - 1);
        let full = sched_fires_upto(days, today, now, rec, i);
        assert forall|k: int| 0 <= k < full.len() implies (#[trigger] full[k]).0 != d by {
            if k < prev.len() {
                assert(full[k] == prev[k]);
            }
        };
    }
}

proof fn lemma_day_fires_day(d: int, day: DayView, now: int, row: Seq<FireState>, j: int)
    ensures
        forall|k: int|
            0 <= k < day_fires_upto(d, day, now, row, j).len() ==> (#[trigger] day_fires_upto(
                d,
                day,
                now,
                row,
                j,
            )[k]).0 == d && 0 <= (day_fires_upto(d, day, now, row, j)[k]).1 < j,
    decreases j,
{
    if j > 0 {
        lemma_day_fires_day(d, day, now, row, j - 1);
        let prev = day_fires_upto(d, day, now, row, j - 1);
        let full = day_fires_upto(d, day, now, row, j);
        assert forall|k: int| 0 <= k < full.len() implies (#[trigger] full[k]).0 == d && 0 <= (
        full[k]).1 < j by {
            if k < prev.len() {
                assert(full[k] == prev[k]);
            }
        };
    }
}

proof fn lemma_day_fires_contains(d: int, day: DayView, now: int, row: Seq<FireState>, j: int, t: int)
    requires
        j <= row.len() == day.tasks.len(),
    ensures
        day_fires_upto(d, day, now, row, j).contains((d, t)) <==> (0 <= t < j && spec_decide(
            day.tasks[t],
            now,
            row[t],
        ).1),
    decreases j,
{
    if j > 0 {
        lemma_day_fires_contains(d, day, now, row, j - 1, t);
        let prev = day_fires_upto(d, day, now, row, j - 1);
        let full = day_fires_upto(d, day, now, row, j);
        if full.contains((d, t)) {
            let k = choose|k: int| 0 <= k < full.len() && full[k] == (d, t);
            if k < prev.len() {
                assert(prev[k] == (d, t));
                assert(prev.contains((d, t)));
            }
        }
        if 0 <= t < j && spec_decide(day.tasks[t], now, row[t]).1 {
            if t < j - 1 {
                let k = choose|k: int| 0 <= k < prev.len() && prev[k] == (d, t);
                assert(full[k] == (d, t));
            } else {
                assert(full[prev.len() as int] == (d, t));
            }
            assert(full.contains((d, t)));
        }
    }
}

proof fn lemma_sched_fires_contains(
    days: Seq<DayView>,
    today: Weekday,
    now: int,
    rec: Seq<Seq<FireState>>,
    i: int,
    d: int,
    t: int,
)
    requires
        record_shape(days, rec),
        i <= days.len(),
    ensures
        sched_fires_upto(days, today, now, rec, i).contains((d, t)) <==> (0 <= d < i
            && label_matches(days[d].day_of_week, today) && 0 <= t < days[d].tasks.len()
            && spec_decide(days[d].tasks[t], now, rec[d][t]).1),
    decreases i,
{
    if i > 0 {
        lemma_sched_fires_contains(days, today, now, rec, i - 1, d, t);
        let prev = sched_fires_upto(days, today, now, rec, i - 1);
        let full = sched_fires_upto(days, today, now, rec, i);
        let matching = label_matches(days[i - 1].day_of_week, today);
        if matching {
            lemma_day_fires_contains(i - 1, days[i - 1], now, rec[i - 1], rec[i - 1].len() as int, t);
            lemma_day_fires_day(i - 1, days[i - 1], now, rec[i - 1], rec[i - 1].len() as int);
        }
        let tail = if matching {
            day_fires_upto(i - 1, days[i - 1], now, rec[i - 1], rec[i - 1].len() as int)
        } else {
            Seq::<(int, int)>::empty()
        };
        assert(full == prev + tail);
        if full.contains((d, t)) {
            let k = choose|k: int| 0 <= k < full.len() && full[k] == (d, t);
            if k < prev.len() {
                assert(prev[k] == (d, t));
                assert(prev.contains((d, t)));
            } else {
                assert(tail[k - prev.len()] == (d, t));
                assert(tail.contains((d, t)));
            }
        }
        if 0 <= d < i && label_matches(days[d].day_of_week, today) && 0 <= t < days[d].tasks.len()
            && spec_decide(days[d].tasks[t], now, rec[d][t]).1 {
            if d < i - 1 {
                let k = choose|k: int| 0 <= k < prev.len() && prev[k] == (d, t);
                assert(full[k] == (d, t));
                assert(full.contains((d, t)));
            } else {
                assert(tail.contains((d, t)));
                let k = choose|k: int| 0 <= k < tail.len() && tail[k] == (d, t);
                assert(full[prev.len() + k] == (d, t));
                assert(full.contains((d, t)));
            }
        }
    }
}

/// A fired key names a task of a day that matches today, and it fires
/// exactly when the decision rule fires for that task's entry in the
/// record.
pub proof fn lemma_fires_exactly(
    days: Seq<DayView>,
    today: Weekday,
    now: int,
    rec: Seq<Seq<FireState>>,
    d: int,
    t: int,
)
    requires
        record_shape(days, rec),
    ensures
        sched_fires(days, today, now, rec).contains((d, t)) <==> (0 <= d < days.len()
            && label_matches(days[d].day_of_week, today) && 0 <= t < days[d].tasks.len()
            && spec_decide(days[d].tasks[t], now, rec[d][t]).1),
{
    lemma_sched_fires_contains(days, today, now, rec, days.len() as int, d, t);
}

/// Generation-scoped dedup: a task key that fires during one tick cannot
/// fire again during the next tick of the same generation, whatever time
/// and weekday that tick sees — its record entry is now `Fired`, and the
/// decision rule never fires out of `Fired`.
pub proof fn lemma_no_refire_within_generation(
    days: Seq<DayView>,
    today1: Weekday,
    now1: int,
    today2: Weekday,
    now2: int,
    rec: Seq<Seq<FireState>>,
    d: int,
    t: int,
)
    requires
        record_shape(days, rec),
        sched_fires(days, today1, now1, rec).contains((d, t)),
    ensures
        !sched_fires(
            days,
            today2,
            now2,
            sched_record_after(days, today1, now1, rec),
        ).contains((d, t)),
{
    let rec2 = sched_record_after(days, today1, now1, rec);
    lemma_fires_exactly(days, today1, now1, rec, d, t);
    assert(rec2[d][t] == spec_decide(days[d].tasks[t], now1, rec[d][t]).0);
    assert(rec2[d][t] == FireState::Fired);
    lemma_fires_exactly(days, today2, now2, rec2, d, t);
}

impl Application {
    /// A controller with no schedule yet: everything empty, every latch
    /// down.
    pub fn new() -> (r: Application)
        ensures
            r@ == (ApplicationView {
                days: Seq::empty(),
                record: Seq::empty(),
                pending_change: false,
                is_shutdown: false,
                is_opened_viewer: false,
            }),
            record_matches(r@),
    {
        let r = Application {
            schedule: Schedule::new(),
            record: Vec::new(),
            pending_change: false,
            is_shutdown: false,
            is_opened_viewer: false,
        };
        proof {
            assert(r@.days =~= Seq::<DayView>::empty());
            assert(r@.record =~= Seq::<Seq<FireState>>::empty());
        }
        r
    }

    /// The current schedule snapshot.
    pub fn get_schedule(&self) -> (r: &Schedule)
        ensures
            r@ == (ScheduleView { days: self@.days }),
    {
        &self.schedule
    }

    /// Parses schedule text and, on success, installs it as a new
    /// generation with a fresh notification record; on failure leaves the
    /// controller exactly as it was and says why. The change signal and
    /// the latches are never touched.
    pub fn load_schedule(&mut self, contents: &str) -> (r: Result<(), LoadError>)
        requires
            record_matches(old(self)@),
        ensures
            record_matches(final(self)@),
            final(self)@.pending_change == old(self)@.pending_change,
            final(self)@.is_shutdown == old(self)@.is_shutdown,
            final(self)@.is_opened_viewer == old(self)@.is_opened_viewer,
            match spec_load_schedule(contents@) {
                Some(sv) => r is Ok && final(self)@.days == sv.days && final(self)@.record
                    == fresh_record(sv.days),
                None => (r matches Err(e) && e == LoadError::MalformedJson) && final(self)@
                    == old(self)@,
            },
    {
        match load_schedule_str(contents) {
            Ok(s) => {
                let ghost sv = s@;
                let days = s.get_days();
                let mut rec: Vec<Vec<FireState>> = Vec::new();
                let mut i: usize = 0;
                while i < days.len()
                    invariant
                        i <= days@.len(),
                        crate::day::days_view(days@) == sv.days,
                        rec@.len() == i,
                        forall|k: int|
                            0 <= k < i ==> #[trigger] rec@[k]@ == Seq::new(
                                sv.days[k].tasks.len(),
                                |j: int| FireState::NotDue,
                            ),
                    decreases days@.len() - i,
                {
                    let m = days[i].get_tasks().len();
                    let mut row: Vec<FireState> = Vec::new();
                    let mut j: usize = 0;
                    while j < m
                        invariant
                            j <= m,
                            row@.len() == j,
                            forall|k: int| 0 <= k < j ==> row@[k] == FireState::NotDue,
                        decreases m - j,
                    {
                        row.push(FireState::NotDue);
                        j = j + 1;
                    }
                    proof {
                        assert(row@ =~= Seq::new(sv.days[i as int].tasks.len(), |j: int| FireState::NotDue));
                    }
                    rec.push(row);
                    i = i + 1;
                }
                self.schedule = s;
                self.record = rec;
                proof {
                    assert(records_view(self.record@) =~= fresh_record(sv.days));
                }
                Ok(())
            },
            Err(e) => Err(e),
        }
    }

    /// Re-reads the schedule from fresh file text during a poll tick: the
    /// same swap-or-keep behavior as the initial load. A malformed
    /// document leaves the previous generation, record included, fully in
    /// place.
    pub fn update_contents(&mut self, contents: &str) -> (r: Result<(), LoadError>)
        requires
            record_matches(old(self)@),
        ensures
            record_matches(final(self)@),
            final(self)@.pending_change == old(self)@.pending_change,
            final(self)@.is_shutdown == old(self)@.is_shutdown,
            final(self)@.is_opened_viewer == old(self)@.is_opened_viewer,
            match spec_load_schedule(contents@) {
                Some(sv) => r is Ok && final(self)@.days == sv.days && final(self)@.record
                    == fresh_record(sv.days),
                None => (r matches Err(e) && e == LoadError::MalformedJson) && final(self)@
                    == old(self)@,
            },
    {
        self.load_schedule(contents)
    }

    /// Raises the coalesced change signal: a second raise before the
    /// signal is taken changes nothing (the signal is a dirty flag, not a
    /// queue).
    pub fn note_file_changed(&mut self)
        ensures
            final(self)@ == (ApplicationView { pending_change: true, ..old(self)@ }),
    {
        self.pending_change = true;
    }

    /// Takes the pending change signal, clearing it: whether the file
    /// changed since the signal was last taken.
    pub fn take_change_signal(&mut self) -> (r: bool)
        ensures
            r == old(self)@.pending_change,
            final(self)@ == (ApplicationView { pending_change: false, ..old(self)@ }),
    {
        let r = self.pending_change;
        self.pending_change = false;
        r
    }

    pub fn check_shutdown(&self) -> (r: bool)
        ensures
            r == self@.is_shutdown,
    {
        self.is_shutdown
    }

    pub fn shutdown(&mut self)
        ensures
            final(self)@ == (ApplicationView { is_shutdown: true, ..old(self)@ }),
    {
        self.is_shutdown = true;
    }

    pub fn check_opened_viewer(&self) -> (r: bool)
        ensures
            r == self@.is_opened_viewer,
    {
        self.is_opened_viewer
    }

    pub fn open_viewer(&mut self)
        ensures
            final(self)@ == (ApplicationView { is_opened_viewer: true, ..old(self)@ }),
    {
        self.is_opened_viewer = true;
    }

    pub fn close_viewer(&mut self)
        ensures
            final(self)@ == (ApplicationView { is_opened_viewer: false, ..old(self)@ }),
    {
        self.is_opened_viewer = false;
    }

    /// One tick's notification evaluation at an explicit time and weekday:
    /// updates the record rows of the days whose label matches `today` and
    /// returns the task keys whose notification fires now, in day-then-task
    /// order. Days with any other label are left untouched and fire
    /// nothing.
    pub fn check_notifications_at(&mut self, now: TimeOfDay, today: Weekday) -> (fires: Vec<
        (usize, usize),
    >)
        requires
            record_matches(old(self)@),
        ensures
            record_matches(final(self)@),
            final(self)@.days == old(self)@.days,
            final(self)@.pending_change == old(self)@.pending_change,
            final(self)@.is_shutdown == old(self)@.is_shutdown,
            final(self)@.is_opened_viewer == old(self)@.is_opened_viewer,
            final(self)@.record == sched_record_after(
                old(self)@.days,
                today,
                now@,
                old(self)@.record,
            ),
            pairs_view(fires@) == sched_fires(old(self)@.days, today, now@, old(self)@.record),
            forall|k: int|
                0 <= k < fires@.len() ==> (#[trigger] fires@[k]).0 < old(self)@.days.len()
                    && fires@[k].1 < old(self)@.days[fires@[k].0 as int].tasks.len(),
    {
        let ghost days0 = self@.days;
        let ghost rec0 = self@.record;
        let ghost pend0 = self@.pending_change;
        let ghost shut0 = self@.is_shutdown;
        let ghost view0 = self@.is_opened_viewer;
        let mut fires: Vec<(usize, usize)> = Vec::new();
        let n = self.schedule.get_days().len();
        let mut i: usize = 0;
        while i < n
            invariant
                record_matches(old(self)@),
                i <= n,
                n == days0.len(),
                self@.days == days0,
                rec0 == old(self)@.record,
                days0 == old(self)@.days,
                self@.pending_change == pend0,
                self@.is_shutdown == shut0,
                self@.is_opened_viewer == view0,
                self@.record.len() == rec0.len(),
                forall|k: int| i <= k < rec0.len() ==> self@.record[k] == rec0[k],
                forall|k: int|
                    0 <= k < i ==> self@.record[k] == sched_record_after(
                        days0,
                        today,
                        now@,
                        rec0,
                    )[k],
                pairs_view(fires@) == sched_fires_upto(days0, today, now@, rec0, i as int),
                forall|k: int|
                    0 <= k < fires@.len() ==> (#[trigger] fires@[k]).0 < days0.len() && fires@[
                        k
                    ].1 < days0[fires@[k].0 as int].tasks.len(),
            decreases n - i,
        {
            let ghost rv0 = self@.record;
            let day_matches = {
                let days = self.schedule.get_days();
                proof {
                    assert(crate::day::days_view(days@)[i as int] == days0[i as int]);
                }
                days[i].compare_day_of_week(today)
            };
            if day_matches {
                let m = self.schedule.get_days()[i].get_tasks().len();
                let ghost fires_before = pairs_view(fires@);
                let mut new_row: Vec<FireState> = Vec::new();
                let mut j: usize = 0;
                while j < m
                    invariant
                        record_matches(old(self)@),
                        days0 == old(self)@.days,
                        rec0 == old(self)@.record,
                        i < days0.len(),
                        j <= m,
                        m == days0[i as int].tasks.len(),
                        m == rec0[i as int].len(),
                        self@.days == days0,
                        self@.record.len() == rec0.len(),
                        forall|k: int| i <= k < rec0.len() ==> self@.record[k] == rec0[k],
                        new_row@.len() == j,
                        forall|k: int|
                            0 <= k < j ==> #[trigger] new_row@[k] == spec_decide(
                                days0[i as int].tasks[k],
                                now@,
                                rec0[i as int][k],
                            ).0,
                        pairs_view(fires@) == fires_before + day_fires_upto(
                            i as int,
                            days0[i as int],
                            now@,
                            rec0[i as int],
                            j as int,
                        ),
                        forall|k: int|
                            0 <= k < fires@.len() ==> (#[trigger] fires@[k]).0 < days0.len()
                                && fires@[k].1 < days0[fires@[k].0 as int].tasks.len(),
                    decreases m - j,
                {
                    let days = self.schedule.get_days();
                    let task = &days[i].get_tasks()[j];
                    let prior = self.record[i][j];
                    proof {
                        assert(task@ == days0[i as int].tasks[j as int]);
                        assert(prior == rec0[i as int][j as int]);
                    }
                    let (st, fire) = decide_task(task, now, prior);
                    new_row.push(st);
                    let ghost fires_pre = pairs_view(fires@);
                    if fire {
                        fires.push((i, j));
                        proof {
                            assert(pairs_view(fires@) =~= fires_pre + seq![(i as int, j as int)]);
                        }
                    }
                    j = j + 1;
                    proof {
                        assert(pairs_view(fires@) =~= fires_before + day_fires_upto(
                            i as int,
                            days0[i as int],
                            now@,
                            rec0[i as int],
                            j as int,
                        ));
                    }
                }
                self.record.set(i, new_row);
                proof {
                    assert forall|k: int| 0 <= k < rec0.len() && k != i as int implies self@
                        .record[k] == rv0[k] by {
                        assert(self@.record[k] == self.record@[k]@);
                    };
                    assert(self@.record[i as int] =~= row_after(
                        days0[i as int],
                        now@,
                        rec0[i as int],
                    ));
                }
            }
            proof {
                assert(i < rec0.len());
                assert(self@.record[i as int] == sched_record_after(days0, today, now@, rec0)[
                    i as int
                ]);
                assert forall|k: int| 0 <= k < i + 1 implies self@.record[k]
                    == sched_record_after(days0, today, now@, rec0)[k] by {
                    if k < i {
                        assert(rv0[k] == sched_record_after(days0, today, now@, rec0)[k]);
                        assert(self@.record[k] == rv0[k]);
                    }
                };
            }
            i = i + 1;
            proof {
                assert(pairs_view(fires@) =~= sched_fires_upto(days0, today, now@, rec0, i as int));
            }
        }
        proof {
            assert(self@.record =~= sched_record_after(days0, today, now@, rec0));
        }
        fires
    }

    /// One tick's notification evaluation against the machine's clock:
    /// whatever local time and weekday the clock reported, the record and
    /// the returned task keys are exactly those of a tick at that moment.
    pub fn check_notifications(&mut self) -> (fires: Vec<(usize, usize)>)
        requires
            record_matches(old(self)@),
        ensures
            record_matches(final(self)@),
            final(self)@.days == old(self)@.days,
            final(self)@.pending_change == old(self)@.pending_change,
            final(self)@.is_shutdown == old(self)@.is_shutdown,
            final(self)@.is_opened_viewer == old(self)@.is_opened_viewer,
            exists|now: int, today: Weekday|
                0 <= now < 86400 && #[trigger] tick_outcome(
                    old(self)@.days,
                    old(self)@.record,
                    final(self)@.record,
                    pairs_view(fires@),
                    now,
                    today,
                ),
            forall|k: int|
                0 <= k < fires@.len() ==> (#[trigger] fires@[k]).0 < old(self)@.days.len()
                    && fires@[k].1 < old(self)@.days[fires@[k].0 as int].tasks.len(),
    {
        let (now, today) = now_local();
        let fires = self.check_notifications_at(now, today);
        proof {
            assert(tick_outcome(
                old(self)@.days,
                old(self)@.record,
                final(self)@.record,
                pairs_view(fires@),
                now@,
                today,
            ));
        }
        fires
    }
}

} // verus!
