//! From a JSON document to a [`Schedule`]: the schema of schedule files.
//!
//! A schedule document is an object with a `"days"` member holding an array
//! of day objects; a day object has a `"day_of_week"` string and a
//! `"tasks"` array of task objects; a task object has the four string
//! members `"title"`, `"start_time"`, `"end_time"` and `"details"`.
//! Members of unknown name are ignored whatever they hold; a member of the
//! wrong type, a repeated member or a missing member makes the whole
//! document malformed — no partial schedule is ever produced.

use vstd::prelude::*;

use crate::day::{Day, DayView};
use crate::json::{
    members_view, members_view_index, members_view_len, jsons_view, jsons_view_index,
    jsons_view_len, parse_document, spec_parse_document, JsonValue, JsonView,
};
use crate::schedule::{Schedule, ScheduleView};
use crate::task::{tasks_view, Task, TaskView};
use crate::text::str_eq_str;

verus! {

/// Why a schedule failed to load.
#[derive(Clone, Copy, Debug, PartialEq, Eq, Structural)]
pub enum LoadError {
    /// The schedule file does not exist.
    NotFound,
    /// The schedule file exists but could not be read.
    IoFailure,
    /// The document is not a well-formed schedule in JSON.
    MalformedJson,
}

/// Walks a task object's members from `i` on, carrying the string fields
/// seen so far; yields the task if each of the four fields appears exactly
/// once as a string, unknown members ignored.
pub open spec fn spec_task_fields(
    ms: Seq<(Seq<char>, JsonView)>,
    i: int,
    title: Option<Seq<char>>,
    start_time: Option<Seq<char>>,
    end_time: Option<Seq<char>>,
    details: Option<Seq<char>>,
) -> Option<TaskView>
    decreases ms.len() - i,
{
    if i >= ms.len() {
        match (title, start_time, end_time, details) {
            (Some(t), Some(st), Some(en), Some(d)) => Some(
                TaskView { title: t, start_time: st, end_time: en, details: d },
            ),
            _ => None,
        }
    } else if ms[i].0 == "title"@ {
        if title is Some {
            None
        } else {
            match ms[i].1 {
                JsonView::Str(s) => spec_task_fields(ms, i + 1, Some(s), start_time, end_time, details),
                _ => None,
            }
        }
    } else if ms[i].0 == "start_time"@ {
        if start_time is Some {
            None
        } else {
            match ms[i].1 {
                JsonView::Str(s) => spec_task_fields(ms, i + 1, title, Some(s), end_time, details),
                _ => None,
            }
        }
    } else if ms[i].0 == "end_time"@ {
        if end_time is Some {
            None
        } else {
            match ms[i].1 {
                JsonView::Str(s) => spec_task_fields(ms, i + 1, title, start_time, Some(s), details),
                _ => None,
            }
        }
    } else if ms[i].0 == "details"@ {
        if details is Some {
            None
        } else {
            match ms[i].1 {
                JsonView::Str(s) => spec_task_fields(ms, i + 1, title, start_time, end_time, Some(s)),
                _ => None,
            }
        }
    } else {
        spec_task_fields(ms, i + 1, title, start_time, end_time, details)
    }
}

/// The task a JSON value stands for, if any.
pub open spec fn spec_task_of_json(j: JsonView) -> Option<TaskView> {
    match j {
        JsonView::Obj(ms) => spec_task_fields(ms, 0, None, None, None, None),
        _ => None,
    }
}

/// The tasks of an array's elements from `i` on, appended to `acc`; `None`
/// as soon as one element is not a task.
pub open spec fn spec_tasks_acc(elems: Seq<JsonView>, i: int, acc: Seq<TaskView>) -> Option<
    Seq<TaskView>,
>
    decreases elems.len() - i,
{
    if i >= elems.len() {
        Some(acc)
    } else {
        match spec_task_of_json(elems[i]) {
            Some(t) => spec_tasks_acc(elems, i + 1, acc.push(t)),
            None => None,
        }
    }
}

/// Walks a day object's members from `i` on; yields the day if
/// `"day_of_week"` appears exactly once as a string and `"tasks"` exactly
/// once as an array of tasks, unknown members ignored.
pub open spec fn spec_day_fields(
    ms: Seq<(Seq<char>, JsonView)>,
    i: int,
    day_of_week: Option<Seq<char>>,
    tasks: Option<Seq<TaskView>>,
) -> Option<DayView>
    decreases ms.len() - i,
{
    if i >= ms.len() {
        match (day_of_week, tasks) {
            (Some(d), Some(ts)) => Some(DayView { day_of_week: d, tasks: ts }),
            _ => None,
        }
    } else if ms[i].0 == "day_of_week"@ {
        if day_of_week is Some {
            None
        } else {
            match ms[i].1 {
                JsonView::Str(s) => spec_day_fields(ms, i + 1, Some(s), tasks),
                _ => None,
            }
        }
    } else if ms[i].0 == "tasks"@ {
        if tasks is Some {
            None
        } else {
            match ms[i].1 {
                JsonView::Arr(elems) => match spec_tasks_acc(elems, 0, Seq::empty()) {
                    Some(ts) => spec_day_fields(ms, i + 1, day_of_week, Some(ts)),
                    None => None,
                },
                _ => None,
            }
        }
    } else {
        spec_day_fields(ms, i + 1, day_of_week, tasks)
    }
}

/// The day a JSON value stands for, if any.
pub open spec fn spec_day_of_json(j: JsonView) -> Option<DayView> {
    match j {
        JsonView::Obj(ms) => spec_day_fields(ms, 0, None, None),
        _ => None,
    }
}

/// The days of an array's elements from `i` on, appended to `acc`.
pub open spec fn spec_days_acc(elems: Seq<JsonView>, i: int, acc: Seq<DayView>) -> Option<
    Seq<DayView>,
>
    decreases elems.len() - i,
{
    if i >= elems.len() {
        Some(acc)
    } else {
        match spec_day_of_json(elems[i]) {
            Some(d) => spec_days_acc(elems, i + 1, acc.push(d)),
            None => None,
        }
    }
}

/// Walks the top-level object's members from `i` on; yields the schedule
/// if `"days"` appears exactly once as an array of days, unknown members
/// ignored.
pub open spec fn spec_schedule_fields(
    ms: Seq<(Seq<char>, JsonView)>,
    i: int,
    days: Option<Seq<DayView>>,
) -> Option<ScheduleView>
    decreases ms.len() - i,
{
    if i >= ms.len() {
        match days {
            Some(ds) => Some(ScheduleView { days: ds }),
            None => None,
        }
    } else if ms[i].0 == "days"@ {
        if days is Some {
            None
        } else {
            match ms[i].1 {
                JsonView::Arr(elems) => match spec_days_acc(elems, 0, Seq::empty()) {
                    Some(ds) => spec_schedule_fields(ms, i + 1, Some(ds)),
                    None => None,
                },
                _ => None,
            }
        }
    } else {
        spec_schedule_fields(ms, i + 1, days)
    }
}

/// The schedule a JSON value stands for, if any.
pub open spec fn spec_schedule_of_json(j: JsonView) -> Option<ScheduleView> {
    match j {
        JsonView::Obj(ms) => spec_schedule_fields(ms, 0, None),
        _ => None,
    }
}

/// What loading a schedule document yields: the schedule its characters
/// describe, or nothing if the document is not a well-formed schedule.
pub open spec fn spec_load_schedule(s: Seq<char>) -> Option<ScheduleView> {
    match spec_parse_document(s) {
        Some(j) => spec_schedule_of_json(j),
        None => None,
    }
}

pub open spec fn str_opt_view(o: Option<String>) -> Option<Seq<char>> {
    match o {
        Some(s) => Some(s@),
        None => None,
    }
}

pub open spec fn tasks_opt_view(o: Option<Vec<Task>>) -> Option<Seq<TaskView>> {
    match o {
        Some(v) => Some(tasks_view(v@)),
        None => None,
    }
}

pub open spec fn days_opt_view(o: Option<Vec<Day>>) -> Option<Seq<DayView>> {
    match o {
        Some(v) => Some(crate::day::days_view(v@)),
        None => None,
    }
}

fn task_from_json(v: &JsonValue) -> (r: Option<Task>)
    ensures
        match spec_task_of_json(v@) {
            Some(tv) => r matches Some(t) && t@ == tv,
            None => r is None,
        },
{
    broadcast use members_view_len, members_view_index;

    let ms = match v {
        JsonValue::Obj(ms) => ms,
        _ => {
            return None;
        },
    };
    let ghost mv = members_view(ms@);
    proof {
        assert(v@ == JsonView::Obj(mv));
        assert(spec_task_of_json(v@) == spec_task_fields(mv, 0, None, None, None, None));
    }
    let mut title: Option<String> = None;
    let mut start_time: Option<String> = None;
    let mut end_time: Option<String> = None;
    let mut details: Option<String> = None;
    let mut i: usize = 0;
    while i < ms.len()
        invariant
            i <= ms@.len(),
            mv == members_view(ms@),
            v@ == JsonView::Obj(mv),
            spec_task_fields(mv, 0, None, None, None, None) == spec_task_fields(
                mv,
                i as int,
                str_opt_view(title),
                str_opt_view(start_time),
                str_opt_view(end_time),
                str_opt_view(details),
            ),
        decreases ms@.len() - i,
    {
        proof {
            members_view_len(ms@);
            members_view_index(ms@, i as int);
        }
        let key = &ms[i].0;
        let val = &ms[i].1;
        if str_eq_str(key.as_str(), "title") {
            if title.is_some() {
                return None;
            }
            match val {
                JsonValue::Str(s) => {
                    title = Some(s.clone());
                },
                _ => {
                    return None;
                },
            }
        } else if str_eq_str(key.as_str(), "start_time") {
            if start_time.is_some() {
                return None;
            }
            match val {
                JsonValue::Str(s) => {
                    start_time = Some(s.clone());
                },
                _ => {
                    return None;
                },
            }
        } else if str_eq_str(key.as_str(), "end_time") {
            if end_time.is_some() {
                return None;
            }
            match val {
                JsonValue::Str(s) => {
                    end_time = Some(s.clone());
                },
                _ => {
                    return None;
                },
            }
        } else if str_eq_str(key.as_str(), "details") {
            if details.is_some() {
                return None;
            }
            match val {
                JsonValue::Str(s) => {
                    details = Some(s.clone());
                },
                _ => {
                    return None;
                },
            }
        }
        i = i + 1;
    }
    match (title, start_time, end_time, details) {
        (Some(t), Some(st), Some(en), Some(d)) => Some(Task::new(t, st, en, d)),
        _ => None,
    }
}

fn tasks_from_json(elems: &Vec<JsonValue>) -> (r: Option<Vec<Task>>)
    ensures
        match spec_tasks_acc(jsons_view(elems@), 0, Seq::empty()) {
            Some(ts) => r matches Some(v) && tasks_view(v@) == ts,
            None => r is None,
        },
{
    broadcast use jsons_view_len, jsons_view_index;

    let ghost ev = jsons_view(elems@);
    let mut acc: Vec<Task> = Vec::new();
    let mut i: usize = 0;
    assert(tasks_view(acc@) =~= Seq::<TaskView>::empty());
    while i < elems.len()
        invariant
            i <= elems@.len(),
            ev == jsons_view(elems@),
            spec_tasks_acc(ev, 0, Seq::empty()) == spec_tasks_acc(ev, i as int, tasks_view(acc@)),
        decreases elems@.len() - i,
    {
        proof {
            jsons_view_len(elems@);
            jsons_view_index(elems@, i as int);
        }
        let ghost acc0 = tasks_view(acc@);
        match task_from_json(&elems[i]) {
            Some(t) => {
                let ghost tv = t@;
                acc.push(t);
                assert(tasks_view(acc@) =~= acc0.push(tv));
            },
            None => {
                return None;
            },
        }
        i = i + 1;
    }
    Some(acc)
}

fn day_from_json(v: &JsonValue) -> (r: Option<Day>)
    ensures
        match spec_day_of_json(v@) {
            Some(dv) => r matches Some(d) && d@ == dv,
            None => r is None,
        },
{
    broadcast use members_view_len, members_view_index;

    let ms = match v {
        JsonValue::Obj(ms) => ms,
        _ => {
            return None;
        },
    };
    let ghost mv = members_view(ms@);
    proof {
        assert(v@ == JsonView::Obj(mv));
        assert(spec_day_of_json(v@) == spec_day_fields(mv, 0, None, None));
    }
    let mut day_of_week: Option<String> = None;
    let mut tasks: Option<Vec<Task>> = None;
    let mut i: usize = 0;
    while i < ms.len()
        invariant
            i <= ms@.len(),
            mv == members_view(ms@),
            v@ == JsonView::Obj(mv),
            spec_day_fields(mv, 0, None, None) == spec_day_fields(
                mv,
                i as int,
                str_opt_view(day_of_week),
                tasks_opt_view(tasks),
            ),
        decreases ms@.len() - i,
    {
        proof {
            members_view_len(ms@);
            members_view_index(ms@, i as int);
        }
        let key = &ms[i].0;
        let val = &ms[i].1;
        if str_eq_str(key.as_str(), "day_of_week") {
            if day_of_week.is_some() {
                return None;
            }
            match val {
                JsonValue::Str(s) => {
                    day_of_week = Some(s.clone());
                },
                _ => {
                    return None;
                },
            }
        } else if str_eq_str(key.as_str(), "tasks") {
            if tasks.is_some() {
                return None;
            }
            match val {
                JsonValue::Arr(elems) => {
                    match tasks_from_json(elems) {
                        Some(ts) => {
                            tasks = Some(ts);
                        },
                        None => {
                            return None;
                        },
                    }
                },
                _ => {
                    return None;
                },
            }
        }
        i = i + 1;
    }
    match (day_of_week, tasks) {
        (Some(d), Some(ts)) => Some(Day::new(d, ts)),
        _ => None,
    }
}

fn days_from_json(elems: &Vec<JsonValue>) -> (r: Option<Vec<Day>>)
    ensures
        match spec_days_acc(jsons_view(elems@), 0, Seq::empty()) {
            Some(ds) => r matches Some(v) && crate::day::days_view(v@) == ds,
            None => r is None,
        },
{
    broadcast use jsons_view_len, jsons_view_index;

    let ghost ev = jsons_view(elems@);
    let mut acc: Vec<Day> = Vec::new();
    let mut i: usize = 0;
    assert(crate::day::days_view(acc@) =~= Seq::<DayView>::empty());
    while i < elems.len()
        invariant
            i <= elems@.len(),
            ev == jsons_view(elems@),
            spec_days_acc(ev, 0, Seq::empty()) == spec_days_acc(
                ev,
                i as int,
                crate::day::days_view(acc@),
            ),
        decreases elems@.len() - i,
    {
        proof {
            jsons_view_len(elems@);
            jsons_view_index(elems@, i as int);
        }
        let ghost acc0 = crate::day::days_view(acc@);
        match day_from_json(&elems[i]) {
            Some(d) => {
                let ghost dv = d@;
                acc.push(d);
                assert(crate::day::days_view(acc@) =~= acc0.push(dv));
            },
            None => {
                return None;
            },
        }
        i = i + 1;
    }
    Some(acc)
}

fn schedule_from_json(v: &JsonValue) -> (r: Option<Schedule>)
    ensures
        match spec_schedule_of_json(v@) {
            Some(sv) => r matches Some(s) && s@ == sv,
            None => r is None,
        },
{
    broadcast use members_view_len, members_view_index;

    let ms = match v {
        JsonValue::Obj(ms) => ms,
        _ => {
            return None;
        },
    };
    let ghost mv = members_view(ms@);
    proof {
        assert(v@ == JsonView::Obj(mv));
        assert(spec_schedule_of_json(v@) == spec_schedule_fields(mv, 0, None));
    }
    let mut days: Option<Vec<Day>> = None;
    let mut i: usize = 0;
    while i < ms.len()
        invariant
            i <= ms@.len(),
            mv == members_view(ms@),
            v@ == JsonView::Obj(mv),
            spec_schedule_fields(mv, 0, None) == spec_schedule_fields(
                mv,
                i as int,
                days_opt_view(days),
            ),
        decreases ms@.len() - i,
    {
        proof {
            members_view_len(ms@);
            members_view_index(ms@, i as int);
        }
        let key = &ms[i].0;
        let val = &ms[i].1;
        if str_eq_str(key.as_str(), "days") {
            if days.is_some() {
                return None;
            }
            match val {
                JsonValue::Arr(elems) => {
                    match days_from_json(elems) {
                        Some(ds) => {
                            days = Some(ds);
                        },
                        None => {
                            return None;
                        },
                    }
                },
                _ => {
                    return None;
                },
            }
        }
        i = i + 1;
    }
    match days {
        Some(ds) => Some(Schedule::from_days(ds)),
        None => None,
    }
}

/// Loads a schedule from the text of a schedule file: returns the schedule
/// that [`spec_load_schedule`] gives for it, or `MalformedJson` exactly
/// when it gives none.
pub fn load_schedule_str(contents: &str) -> (r: Result<Schedule, LoadError>)
    ensures
        match spec_load_schedule(contents@) {
            Some(sv) => r matches Ok(s) && s@ == sv,
            None => r matches Err(e) && e == LoadError::MalformedJson,
        },
{
    match parse_document(contents) {
        Some(doc) => match schedule_from_json(&doc) {
            Some(s) => Ok(s),
            None => Err(LoadError::MalformedJson),
        },
        None => Err(LoadError::MalformedJson),
    }
}

} // verus!
