//! One day of the weekly schedule: a free-form weekday label and the
//! ordered tasks under it.

use vstd::prelude::*;

use crate::clock::{label_matches, weekday_label_matches, Weekday};
use crate::task::{tasks_view, Task, TaskView};

verus! {

/// The mathematical value of a [`Day`].
pub ghost struct DayView {
    pub day_of_week: Seq<char>,
    pub tasks: Seq<TaskView>,
}

#[derive(Clone, Debug, PartialEq)]
pub struct Day {
    day_of_week: String,
    tasks: Vec<Task>,
}

impl View for Day {
    type V = DayView;

    closed spec fn view(&self) -> DayView {
        DayView { day_of_week: self.day_of_week@, tasks: tasks_view(self.tasks@) }
    }
}

impl Day {
    pub fn new(day_of_week: String, tasks: Vec<Task>) -> (r: Day)
        ensures
            r@ == (DayView { day_of_week: day_of_week@, tasks: tasks_view(tasks@) }),
    {
        Day { day_of_week, tasks }
    }

    pub fn get_day_of_week(&self) -> (r: &str)
        ensures
            r@ == self@.day_of_week,
    {
        self.day_of_week.as_str()
    }

    pub fn get_tasks(&self) -> (r: &Vec<Task>)
        ensures
            tasks_view(r@) == self@.tasks,
    {
        &self.tasks
    }

    /// Whether this day's label names the given weekday, canonically or
    /// through its one recognized alias.
    pub fn compare_day_of_week(&self, week_day: Weekday) -> (r: bool)
        ensures
            r == label_matches(self@.day_of_week, week_day),
    {
        weekday_label_matches(self.day_of_week.as_str(), week_day)
    }
}

/// The element-wise view of a sequence of days.
pub open spec fn days_view(ds: Seq<Day>) -> Seq<DayView> {
    ds.map_values(|d: Day| d@)
}

} // verus!
