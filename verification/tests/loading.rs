use weshce::controller::Application;
use weshce::engine::Engine;
use weshce::loader::{load_schedule_str, LoadError};

fn week_fixture() -> String {
    let mut days = String::new();
    let labels = [
        "Monday", "Tuesday", "Wednesday", "Thursday", "Friday", "Saturday", "Sunday",
    ];
    for (i, label) in labels.iter().enumerate() {
        if i > 0 {
            days.push(',');
        }
        days.push_str(&format!(
            "{{ \"day_of_week\": \"{}\", \"tasks\": [ {{ \"title\": \"{}\", \
             \"start_time\": \"09:00:00\", \"end_time\": \"10:00:00\", \
             \"details\": \"Weekly sync\" }} ] }}",
            label,
            if i == 0 { "Team Meeting" } else { "Focus Block" },
        ));
    }
    format!("{{ \"days\": [ {} ] }}", days)
}

#[test]
fn test_load_schedule() {
    let mut app = Application::new();

    app.load_schedule(&week_fixture()).unwrap();

    app.check_notifications();

    let schedule = app.get_schedule().clone();

    assert_ne!(schedule.get_days().len(), 0);

    assert_eq!(schedule.get_days()[0].get_day_of_week(), "Monday");
    assert_eq!(schedule.get_days()[1].get_day_of_week(), "Tuesday");
    assert_eq!(schedule.get_days()[2].get_day_of_week(), "Wednesday");
    assert_eq!(schedule.get_days()[3].get_day_of_week(), "Thursday");
    assert_eq!(schedule.get_days()[4].get_day_of_week(), "Friday");
    assert_eq!(schedule.get_days()[5].get_day_of_week(), "Saturday");
    assert_eq!(schedule.get_days()[6].get_day_of_week(), "Sunday");

    assert_eq!(
        schedule.get_days()[0].get_tasks()[0].get_title(),
        "Team Meeting"
    );
}

#[test]
fn test_engine() {
    let mut engine = Engine::new();

    engine.load_schedule(&week_fixture()).unwrap();

    assert_ne!(engine.get_schedule().get_days().len(), 0);

    let days = engine.get_schedule().get_days();
    assert_eq!(days[0].get_day_of_week(), "Monday");
    assert_eq!(days[1].get_day_of_week(), "Tuesday");
    assert_eq!(days[2].get_day_of_week(), "Wednesday");
    assert_eq!(days[3].get_day_of_week(), "Thursday");
    assert_eq!(days[4].get_day_of_week(), "Friday");
    assert_eq!(days[5].get_day_of_week(), "Saturday");
    assert_eq!(days[6].get_day_of_week(), "Sunday");

    assert_eq!(days[0].get_tasks()[0].get_title(), "Team Meeting");
}

#[test]
fn test_engine_sentinel_hits() {
    let mut engine = Engine::new();
    engine
        .load_schedule(
            "{ \"days\": [ { \"day_of_week\": \"Monday\", \"tasks\": [ \
             { \"title\": \"A\", \"start_time\": \"2021-01-01 00:00:00\", \
               \"end_time\": \"x\", \"details\": \"\" }, \
             { \"title\": \"B\", \"start_time\": \"09:00:00\", \
               \"end_time\": \"10:00:00\", \"details\": \"\" } ] } ] }",
        )
        .unwrap();
    assert_eq!(engine.check_notifications(), vec![(0, 0)]);
}

#[test]
fn test_engine_keeps_schedule_on_malformed() {
    let mut engine = Engine::new();
    engine.load_schedule(&week_fixture()).unwrap();
    let before = engine.get_schedule().clone();
    assert_eq!(
        engine.load_schedule("{ nope"),
        Err(LoadError::MalformedJson)
    );
    assert_eq!(before, *engine.get_schedule());
}

#[test]
fn test_load_order_and_fields() {
    let s = load_schedule_str(
        "{ \"days\": [ \
           { \"day_of_week\": \"Friday\", \"tasks\": [] }, \
           { \"day_of_week\": \"Monday\", \"tasks\": [ \
             { \"title\": \"One\", \"start_time\": \"01:00:00\", \
               \"end_time\": \"02:00:00\", \"details\": \"first\" }, \
             { \"title\": \"Two\", \"start_time\": \"03:00:00\", \
               \"end_time\": \"04:00:00\", \"details\": \"second\" } ] } ] }",
    )
    .unwrap();
    // Days and tasks keep file order; duplicates of a label are legal.
    assert_eq!(s.get_days().len(), 2);
    assert_eq!(s.get_days()[0].get_day_of_week(), "Friday");
    assert_eq!(s.get_days()[1].get_day_of_week(), "Monday");
    let tasks = s.get_days()[1].get_tasks();
    assert_eq!(tasks[0].get_title(), "One");
    assert_eq!(tasks[0].get_details(), "first");
    assert_eq!(tasks[1].get_title(), "Two");
    assert_eq!(tasks[1].get_end_time(), "04:00:00");
}

#[test]
fn test_load_unknown_members_ignored() {
    let s = load_schedule_str(
        "{ \"version\": 3, \"note\": null, \"days\": [ \
           { \"day_of_week\": \"Monday\", \"extra\": [1, -2.5e3, true, {\"k\": []}], \
             \"tasks\": [ { \"title\": \"T\", \"color\": false, \
               \"start_time\": \"01:00:00\", \"end_time\": \"02:00:00\", \
               \"details\": \"d\" } ] } ] }",
    )
    .unwrap();
    assert_eq!(s.get_days()[0].get_tasks()[0].get_title(), "T");
}

#[test]
fn test_load_string_escapes() {
    let s = load_schedule_str(
        "{ \"days\": [ { \"day_of_week\": \"\\u0041BC\", \"tasks\": [ \
           { \"title\": \"a\\\"b\\\\c\\/d\\ne\\tf\", \
             \"start_time\": \"01:00:00\", \"end_time\": \"02:00:00\", \
             \"details\": \"\\uD83D\\uDE00\" } ] } ] }",
    )
    .unwrap();
    assert_eq!(s.get_days()[0].get_day_of_week(), "ABC");
    let task = &s.get_days()[0].get_tasks()[0];
    assert_eq!(task.get_title(), "a\"b\\c/d\ne\tf");
    assert_eq!(task.get_details(), "\u{1F600}");
}

#[test]
fn test_load_malformed_documents() {
    let bad = [
        "",
        "   ",
        "{",
        "{ nope",
        "[]",
        "null",
        "{ \"days\": null }",
        "{ \"days\": [ { \"day_of_week\": \"Monday\" } ] }",
        "{ \"days\": [ { \"tasks\": [] } ] }",
        "{ \"days\": [ { \"day_of_week\": \"Monday\", \"tasks\": [] } ] } trailing",
        "{ \"days\": [ { \"day_of_week\": \"Monday\", \"tasks\": [ {} ] } ] }",
        "{ \"days\": [ { \"day_of_week\": 7, \"tasks\": [] } ] }",
        "{ \"days\": [], \"days\": [] }",
        "{ \"days\": [ { \"day_of_week\": \"Monday\", \"tasks\": [],, } ] }",
        "{ \"days\": [ { \"day_of_week\": \"Mon\\qday\", \"tasks\": [] } ] }",
        "{ \"days\": [ { \"day_of_week\": \"\\uD83D\", \"tasks\": [] } ] }",
        "{ \"days\": [ 5 ] }",
        "{ \"days\": [ { \"day_of_week\": \"Monday\", \"tasks\": [ \
          { \"title\": \"T\", \"title\": \"U\", \"start_time\": \"01:00:00\", \
            \"end_time\": \"02:00:00\", \"details\": \"d\" } ] } ] }",
    ];
    for doc in bad.iter() {
        assert_eq!(
            load_schedule_str(doc),
            Err(LoadError::MalformedJson),
            "accepted: {}",
            doc
        );
    }
}

#[test]
fn test_load_empty_days() {
    let s = load_schedule_str("{ \"days\": [] }").unwrap();
    assert_eq!(s.get_days().len(), 0);
}

#[test]
fn test_load_error_variants() {
    // `NotFound` and `IoFailure` are reported by callers that read files;
    // the parser itself only ever reports `MalformedJson`.
    assert_ne!(LoadError::NotFound, LoadError::IoFailure);
    assert_ne!(LoadError::NotFound, LoadError::MalformedJson);
    assert_eq!(
        load_schedule_str("no json here"),
        Err(LoadError::MalformedJson)
    );
}
