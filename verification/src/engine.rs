//! A minimal single-loop engine: it owns one schedule and scans it for
//! tasks whose start time equals a fixed sentinel stamp, the placeholder
//! rule its alert used before the polling controller took over.

use vstd::prelude::*;

use crate::day::DayView;
use crate::loader::{load_schedule_str, spec_load_schedule, LoadError};
use crate::schedule::{Schedule, ScheduleView};
use crate::task::TaskView;
use crate::text::str_eq_str;

verus! {

/// The placeholder rule: a task is about to start when its raw start time
/// equals this exact stamp.
pub open spec fn starting_soon(t: TaskView) -> bool {
    t.start_time == "2021-01-01 00:00:00"@
}

/// The keys of the first `j` tasks of day `d` that are starting soon.
pub open spec fn engine_day_hits(d: int, tasks: Seq<TaskView>, j: int) -> Seq<(int, int)>
    decreases j,
{
    if j <= 0 {
        Seq::empty()
    } else {
        engine_day_hits(d, tasks, j - 1) + if starting_soon(tasks[j - 1]) {
            seq![(d, j - 1)]
        } else {
            Seq::empty()
        }
    }
}

/// The keys of all starting-soon tasks among the first `i` days, in
/// day-then-task order.
pub open spec fn engine_hits_upto(days: Seq<DayView>, i: int) -> Seq<(int, int)>
    decreases i,
{
    if i <= 0 {
        Seq::empty()
    } else {
        engine_hits_upto(days, i - 1) + if i - 1 < days.len() {
            engine_day_hits(i - 1, days[i - 1].tasks, days[i - 1].tasks.len() as int)
        } else {
            Seq::empty()
        }
    }
}

/// The keys of all starting-soon tasks of a schedule.
pub open spec fn engine_hits(days: Seq<DayView>) -> Seq<(int, int)> {
    engine_hits_upto(days, days.len() as int)
}

pub struct Engine {
    schedule: Schedule,
}

impl View for Engine {
    type V = ScheduleView;

    closed spec fn view(&self) -> ScheduleView {
        self.schedule@
    }
}

impl Engine {
    /// An engine with no schedule yet.
    pub fn new() -> (r: Engine)
        ensures
            r@.days.len() == 0,
    {
        Engine { schedule: Schedule::new() }
    }

    /// The engine's current schedule.
    pub fn get_schedule(&self) -> (r: &Schedule)
        ensures
            r@ == self@,
    {
        &self.schedule
    }

    /// Parses schedule text and, on success, installs it; a malformed
    /// document leaves the engine exactly as it was and says so.
    pub fn load_schedule(&mut self, contents: &str) -> (r: Result<(), LoadError>)
        ensures
            match spec_load_schedule(contents@) {
                Some(sv) => r is Ok && final(self)@ == sv,
                None => (r matches Err(e) && e == LoadError::MalformedJson) && final(self)@ == old(
                    self,
                )@,
            },
    {
        match load_schedule_str(contents) {
            Ok(s) => {
                self.schedule = s;
                Ok(())
            },
            Err(e) => Err(e),
        }
    }

    /// Scans the whole schedule and returns the keys of the tasks that are
    /// starting soon under the placeholder rule, in day-then-task order.
    pub fn check_notifications(&self) -> (hits: Vec<(usize, usize)>)
        ensures
            crate::controller::pairs_view(hits@) == engine_hits(self@.days),
    {
        let ghost days0 = self@.days;
        let mut hits: Vec<(usize, usize)> = Vec::new();
        let days = self.schedule.get_days();
        let n = days.len();
        let mut i: usize = 0;
        while i < n
            invariant
                i <= n,
                n == days0.len(),
                crate::day::days_view(days@) == days0,
                crate::controller::pairs_view(hits@) == engine_hits_upto(days0, i as int),
            decreases n - i,
        {
            proof {
                assert(crate::day::days_view(days@)[i as int] == days0[i as int]);
            }
            let tasks = days[i].get_tasks();
            let m = tasks.len();
            let ghost hits_before = crate::controller::pairs_view(hits@);
            let mut j: usize = 0;
            while j < m
                invariant
                    i < days0.len(),
                    j <= m,
                    m == days0[i as int].tasks.len(),
                    crate::task::tasks_view(tasks@) == days0[i as int].tasks,
                    crate::controller::pairs_view(hits@) == hits_before + engine_day_hits(
                        i as int,
                        days0[i as int].tasks,
                        j as int,
                    ),
                decreases m - j,
            {
                proof {
                    assert(crate::task::tasks_view(tasks@)[j as int] == days0[i as int].tasks[
                        j as int
                    ]);
                }
                let ghost hits_pre = crate::controller::pairs_view(hits@);
                if str_eq_str(tasks[j].get_start_time(), "2021-01-01 00:00:00") {
                    hits.push((i, j));
                    proof {
                        assert(crate::controller::pairs_view(hits@) =~= hits_pre + seq![
                            (i as int, j as int),
                        ]);
                    }
                }
                j = j + 1;
                proof {
                    assert(crate::controller::pairs_view(hits@) =~= hits_before + engine_day_hits(
                        i as int,
                        days0[i as int].tasks,
                        j as int,
                    ));
                }
            }
            i = i + 1;
            proof {
                assert(crate::controller::pairs_view(hits@) =~= engine_hits_upto(days0, i as int));
            }
        }
        hits
    }
}

} // verus!
