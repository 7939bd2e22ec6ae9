//! A single scheduled task: a title, free-form details, and a start and end
//! time kept as raw strings that are parsed independently on every
//! evaluation.

use vstd::prelude::*;

use crate::clock::{parse_time_of_day, spec_parse_time_of_day, TimeOfDay};

verus! {

/// The mathematical value of a [`Task`]: its four fields as character
/// sequences.
pub ghost struct TaskView {
    pub title: Seq<char>,
    pub start_time: Seq<char>,
    pub end_time: Seq<char>,
    pub details: Seq<char>,
}

#[derive(Clone, Debug, PartialEq)]
pub struct Task {
    title: String,
    start_time: String,
    end_time: String,
    details: String,
}

impl View for Task {
    type V = TaskView;

    closed spec fn view(&self) -> TaskView {
        TaskView {
            title: self.title@,
            start_time: self.start_time@,
            end_time: self.end_time@,
            details: self.details@,
        }
    }
}

impl Task {
    pub fn new(title: String, start_time: String, end_time: String, details: String) -> (r: Task)
        ensures
            r@ == (TaskView {
                title: title@,
                start_time: start_time@,
                end_time: end_time@,
                details: details@,
            }),
    {
        Task { title, start_time, end_time, details }
    }

    pub fn get_title(self: &Task) -> (r: &str)
        ensures
            r@ == self@.title,
    {
        self.title.as_str()
    }

    pub fn get_start_time(self: &Task) -> (r: &str)
        ensures
            r@ == self@.start_time,
    {
        self.start_time.as_str()
    }

    pub fn get_end_time(self: &Task) -> (r: &str)
        ensures
            r@ == self@.end_time,
    {
        self.end_time.as_str()
    }

    pub fn get_details(self: &Task) -> (r: &str)
        ensures
            r@ == self@.details,
    {
        self.details.as_str()
    }

    /// Parses the two time fields. The first component says whether both
    /// parsed; a field that did not parse is reported as midnight.
    pub fn get_time_range(self: &Task) -> (r: (bool, TimeOfDay, TimeOfDay))
        ensures
            r.0 == (spec_parse_time_of_day(self@.start_time) is Some
                && spec_parse_time_of_day(self@.end_time) is Some),
            r.1@ == (match spec_parse_time_of_day(self@.start_time) {
                Some(t) => t,
                None => 0,
            }),
            r.2@ == (match spec_parse_time_of_day(self@.end_time) {
                Some(t) => t,
                None => 0,
            }),
    {
        let midnight = TimeOfDay { seconds: 0 };
        let (ok_start, start) = match parse_time_of_day(self.start_time.as_str()) {
            Some(t) => (true, t),
            None => (false, midnight),
        };
        let (ok_end, end) = match parse_time_of_day(self.end_time.as_str()) {
            Some(t) => (true, t),
            None => (false, midnight),
        };
        (ok_start && ok_end, start, end)
    }
}

/// The element-wise view of a sequence of tasks.
pub open spec fn tasks_view(ts: Seq<Task>) -> Seq<TaskView> {
    ts.map_values(|t: Task| t@)
}

} // verus!
