//! The per-task notification lifecycle: a tri-state-free two-value state
//! (not yet due, fired) and the pure decision function that, given a task,
//! the current time of day and the task's prior state, yields the new state
//! and whether a notification fires now.

use vstd::prelude::*;

use crate::clock::{spec_parse_time_of_day, TimeOfDay};
use crate::task::{Task, TaskView};

verus! {

/// The lifecycle value kept per task key within one schedule generation.
#[derive(Clone, Copy, Debug, PartialEq, Eq, Structural)]
pub enum FireState {
    /// The task has not been observed due yet in this generation.
    NotDue,
    /// The task was observed due; its one notification chance is spent.
    Fired,
}

/// The decision rule for one task at one poll tick:
/// - a start or end time that does not parse as `"HH:MM:SS"` leaves the
///   task inert: state `NotDue`, no fire;
/// - a current time before the start resets the state to `NotDue` (even
///   from `Fired`: the engine tolerates clocks or files moving a task back
///   into the future) and never fires;
/// - once the start time is reached, the state becomes (or stays) `Fired`;
///   a notification is emitted only on the transition out of `NotDue`, and
///   only if the window was not already missed (`now <= end`).
pub open spec fn spec_decide(t: TaskView, now: int, prior: FireState) -> (FireState, bool) {
    match (spec_parse_time_of_day(t.start_time), spec_parse_time_of_day(t.end_time)) {
        (Some(st), Some(en)) => if now < st {
            (FireState::NotDue, false)
        } else if prior is Fired {
            (FireState::Fired, false)
        } else {
            (FireState::Fired, now <= en)
        },
        _ => (FireState::NotDue, false),
    }
}

/// Evaluates one task against the current time: returns exactly what
/// [`spec_decide`] says for the given task, time and prior state.
pub fn decide_task(task: &Task, now: TimeOfDay, prior: FireState) -> (r: (FireState, bool))
    ensures
        r == spec_decide(task@, now@, prior),
{
    let (converted, start, end) = task.get_time_range();
    if !converted {
        (FireState::NotDue, false)
    } else if now.seconds < start.seconds {
        (FireState::NotDue, false)
    } else if prior == FireState::Fired {
        (FireState::Fired, false)
    } else {
        (FireState::Fired, now.seconds <= end.seconds)
    }
}

/// Generation-scoped dedup: once a tick fires for a task, re-evaluating
/// the task from the state that tick left behind never fires again,
/// whatever the clock then says — within one schedule generation a task
/// key fires at most once until its state is reset.
pub proof fn lemma_fires_at_most_once(t: TaskView, now1: int, now2: int, prior: FireState)
    requires
        spec_decide(t, now1, prior).1,
    ensures
        !spec_decide(t, now2, spec_decide(t, now1, prior).0).1,
{
}

/// A task whose start or end time does not parse never fires and stays
/// `NotDue`, regardless of the current time and of its prior state.
pub proof fn lemma_unparsable_never_fires(t: TaskView, now: int, prior: FireState)
    requires
        spec_parse_time_of_day(t.start_time) is None || spec_parse_time_of_day(t.end_time) is None,
    ensures
        spec_decide(t, now, prior) == (FireState::NotDue, false),
{
}

/// While a task stays due (the current time at or past its parsed start),
/// a `Fired` state never regresses to `NotDue`.
pub proof fn lemma_no_regression_while_due(t: TaskView, now: int, st: int)
    requires
        spec_parse_time_of_day(t.start_time) == Some(st),
        spec_parse_time_of_day(t.end_time) is Some,
        now >= st,
    ensures
        spec_decide(t, now, FireState::Fired).0 == FireState::Fired,
        !spec_decide(t, now, FireState::Fired).1,
{
}

} // verus!
