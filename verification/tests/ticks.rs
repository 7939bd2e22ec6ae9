use weshce::alarm::{decide_task, FireState};
use weshce::clock::{TimeOfDay, Weekday};
use weshce::controller::Application;
use weshce::loader::LoadError;
use weshce::task::Task;

fn at(h: u32, m: u32, s: u32) -> TimeOfDay {
    TimeOfDay { seconds: h * 3600 + m * 60 + s }
}

fn monday_nine_to_ten() -> &'static str {
    "{ \"days\": [ { \"day_of_week\": \"Monday\", \"tasks\": [ \
       { \"title\": \"Team Meeting\", \"start_time\": \"09:00:00\", \
         \"end_time\": \"10:00:00\", \"details\": \"daily\" } ] } ] }"
}

#[test]
fn test_fires_once_within_window() {
    let mut app = Application::new();
    app.load_schedule(monday_nine_to_ten()).unwrap();

    // First evaluation inside the window fires exactly once ...
    let fires = app.check_notifications_at(at(9, 30, 0), Weekday::Monday);
    assert_eq!(fires, vec![(0, 0)]);

    // ... and a later evaluation in the same generation does not.
    let fires = app.check_notifications_at(at(9, 45, 0), Weekday::Monday);
    assert_eq!(fires, vec![]);
}

#[test]
fn test_unparsable_start_never_fires() {
    let mut app = Application::new();
    app.load_schedule(
        "{ \"days\": [ { \"day_of_week\": \"Monday\", \"tasks\": [ \
           { \"title\": \"T\", \"start_time\": \"9am\", \
             \"end_time\": \"23:59:59\", \"details\": \"\" } ] } ] }",
    )
    .unwrap();
    for hour in 0..24 {
        let fires = app.check_notifications_at(at(hour, 0, 0), Weekday::Monday);
        assert_eq!(fires, vec![]);
    }
}

#[test]
fn test_other_weekday_never_fires() {
    let mut app = Application::new();
    app.load_schedule(monday_nine_to_ten()).unwrap();
    let fires = app.check_notifications_at(at(9, 30, 0), Weekday::Tuesday);
    assert_eq!(fires, vec![]);
    // The window still matches the clock — only the weekday differs; on the
    // right weekday the same generation still fires.
    let fires = app.check_notifications_at(at(9, 30, 0), Weekday::Monday);
    assert_eq!(fires, vec![(0, 0)]);
}

#[test]
fn test_missed_window_is_spent_silently() {
    let mut app = Application::new();
    app.load_schedule(monday_nine_to_ten()).unwrap();
    // First observed when the window is already over: no late alert ...
    let fires = app.check_notifications_at(at(11, 0, 0), Weekday::Monday);
    assert_eq!(fires, vec![]);
    // ... and the chance is spent for this generation.
    let fires = app.check_notifications_at(at(9, 30, 0), Weekday::Monday);
    assert_eq!(fires, vec![]);
}

#[test]
fn test_clock_moved_back_rearms() {
    let mut app = Application::new();
    app.load_schedule(monday_nine_to_ten()).unwrap();
    assert_eq!(
        app.check_notifications_at(at(9, 30, 0), Weekday::Monday),
        vec![(0, 0)]
    );
    // A tick before the start resets the state to not-yet-due ...
    assert_eq!(
        app.check_notifications_at(at(8, 0, 0), Weekday::Monday),
        vec![]
    );
    // ... so entering the window again fires again.
    assert_eq!(
        app.check_notifications_at(at(9, 35, 0), Weekday::Monday),
        vec![(0, 0)]
    );
}

#[test]
fn test_malformed_reload_keeps_schedule() {
    let mut app = Application::new();
    app.load_schedule(monday_nine_to_ten()).unwrap();
    assert_eq!(
        app.check_notifications_at(at(9, 30, 0), Weekday::Monday),
        vec![(0, 0)]
    );

    let before = app.get_schedule().clone();
    assert_eq!(
        app.update_contents("{ this is not json"),
        Err(LoadError::MalformedJson)
    );
    assert_eq!(before, *app.get_schedule());

    // The record survives too: the task does not re-fire.
    assert_eq!(
        app.check_notifications_at(at(9, 45, 0), Weekday::Monday),
        vec![]
    );
}

#[test]
fn test_reload_resets_record() {
    let mut app = Application::new();
    app.load_schedule(monday_nine_to_ten()).unwrap();
    assert_eq!(
        app.check_notifications_at(at(9, 30, 0), Weekday::Monday),
        vec![(0, 0)]
    );

    // A successful reload starts a new generation with an empty record, so
    // a task present in both generations, still within its window, is
    // eligible to fire again.
    app.update_contents(monday_nine_to_ten()).unwrap();
    assert_eq!(
        app.check_notifications_at(at(9, 45, 0), Weekday::Monday),
        vec![(0, 0)]
    );
}

#[test]
fn test_reload_discards_stale_keys() {
    let mut app = Application::new();
    app.load_schedule(
        "{ \"days\": [ { \"day_of_week\": \"Monday\", \"tasks\": [ \
           { \"title\": \"A\", \"start_time\": \"09:00:00\", \
             \"end_time\": \"10:00:00\", \"details\": \"\" }, \
           { \"title\": \"B\", \"start_time\": \"09:00:00\", \
             \"end_time\": \"10:00:00\", \"details\": \"\" } ] } ] }",
    )
    .unwrap();
    assert_eq!(
        app.check_notifications_at(at(9, 30, 0), Weekday::Monday),
        vec![(0, 0), (0, 1)]
    );

    // The reloaded generation has only one task: the record is rebuilt in
    // the new shape and the surviving key starts fresh.
    app.update_contents(monday_nine_to_ten()).unwrap();
    assert_eq!(
        app.check_notifications_at(at(9, 30, 0), Weekday::Monday),
        vec![(0, 0)]
    );
}

#[test]
fn test_duplicate_day_labels_evaluated_independently() {
    let mut app = Application::new();
    app.load_schedule(
        "{ \"days\": [ \
           { \"day_of_week\": \"Monday\", \"tasks\": [ \
             { \"title\": \"A\", \"start_time\": \"09:00:00\", \
               \"end_time\": \"10:00:00\", \"details\": \"\" } ] }, \
           { \"day_of_week\": \"Monday\", \"tasks\": [ \
             { \"title\": \"B\", \"start_time\": \"09:00:00\", \
               \"end_time\": \"10:00:00\", \"details\": \"\" } ] } ] }",
    )
    .unwrap();
    assert_eq!(
        app.check_notifications_at(at(9, 30, 0), Weekday::Monday),
        vec![(0, 0), (1, 0)]
    );
}

#[test]
fn test_inert_task_does_not_block_siblings() {
    let mut app = Application::new();
    app.load_schedule(
        "{ \"days\": [ { \"day_of_week\": \"Monday\", \"tasks\": [ \
           { \"title\": \"bad\", \"start_time\": \"9am\", \
             \"end_time\": \"10:00:00\", \"details\": \"\" }, \
           { \"title\": \"good\", \"start_time\": \"09:00:00\", \
             \"end_time\": \"10:00:00\", \"details\": \"\" } ] } ] }",
    )
    .unwrap();
    assert_eq!(
        app.check_notifications_at(at(9, 30, 0), Weekday::Monday),
        vec![(0, 1)]
    );
}

#[test]
fn test_decide_task_cases() {
    let task = Task::new(
        "T".to_string(),
        "09:00:00".to_string(),
        "10:00:00".to_string(),
        "".to_string(),
    );
    // Before the window: not due, no fire, even from a fired state.
    assert_eq!(
        decide_task(&task, at(8, 0, 0), FireState::NotDue),
        (FireState::NotDue, false)
    );
    assert_eq!(
        decide_task(&task, at(8, 0, 0), FireState::Fired),
        (FireState::NotDue, false)
    );
    // Inside the window from not-due: fire once.
    assert_eq!(
        decide_task(&task, at(9, 30, 0), FireState::NotDue),
        (FireState::Fired, true)
    );
    // Inside the window but already fired: stay fired, no fire.
    assert_eq!(
        decide_task(&task, at(9, 30, 0), FireState::Fired),
        (FireState::Fired, false)
    );
    // The window boundaries are inclusive.
    assert_eq!(
        decide_task(&task, at(9, 0, 0), FireState::NotDue),
        (FireState::Fired, true)
    );
    assert_eq!(
        decide_task(&task, at(10, 0, 0), FireState::NotDue),
        (FireState::Fired, true)
    );
    // After the window from not-due: spent, but silent.
    assert_eq!(
        decide_task(&task, at(10, 0, 1), FireState::NotDue),
        (FireState::Fired, false)
    );
}

#[test]
fn test_alias_label_fires() {
    let mut app = Application::new();
    app.load_schedule(
        "{ \"days\": [ { \"day_of_week\": \"月曜日\", \"tasks\": [ \
           { \"title\": \"T\", \"start_time\": \"09:00:00\", \
             \"end_time\": \"10:00:00\", \"details\": \"\" } ] } ] }",
    )
    .unwrap();
    assert_eq!(
        app.check_notifications_at(at(9, 30, 0), Weekday::Tuesday),
        vec![]
    );
    assert_eq!(
        app.check_notifications_at(at(9, 30, 0), Weekday::Monday),
        vec![(0, 0)]
    );
}

#[test]
fn test_change_signal_coalesces() {
    let mut app = Application::new();
    assert!(!app.take_change_signal());
    app.note_file_changed();
    app.note_file_changed();
    assert!(app.take_change_signal());
    assert!(!app.take_change_signal());
}

#[test]
fn test_latches() {
    let mut app = Application::new();
    assert!(!app.check_shutdown());
    app.shutdown();
    assert!(app.check_shutdown());

    assert!(!app.check_opened_viewer());
    app.open_viewer();
    assert!(app.check_opened_viewer());
    app.close_viewer();
    assert!(!app.check_opened_viewer());
}
