//! The whole weekly schedule: an ordered sequence of days, fully replaced
//! on every successful reload and never patched in place.

use vstd::prelude::*;

use crate::day::{days_view, Day, DayView};

verus! {

/// The mathematical value of a [`Schedule`].
pub ghost struct ScheduleView {
    pub days: Seq<DayView>,
}

#[derive(Clone, Debug, PartialEq)]
pub struct Schedule {
    days: Vec<Day>,
}

impl View for Schedule {
    type V = ScheduleView;

    closed spec fn view(&self) -> ScheduleView {
        ScheduleView { days: days_view(self.days@) }
    }
}

impl Schedule {
    /// The empty schedule.
    pub fn new() -> (r: Schedule)
        ensures
            r@.days.len() == 0,
    {
        Schedule { days: Vec::new() }
    }

    pub fn from_days(days: Vec<Day>) -> (r: Schedule)
        ensures
            r@ == (ScheduleView { days: days_view(days@) }),
    {
        Schedule { days }
    }

    pub fn get_days(&self) -> (r: &Vec<Day>)
        ensures
            days_view(r@) == self@.days,
    {
        &self.days
    }
}

} // verus!
