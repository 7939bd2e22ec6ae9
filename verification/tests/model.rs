use weshce::clock::{parse_time_of_day, Weekday};
use weshce::day::Day;
use weshce::schedule::Schedule;
use weshce::task::Task;

#[test]
fn test_task() {
    let task = Task::new(
        "Test Task".to_string(),
        "00:00:00".to_string(),
        "01:00:00".to_string(),
        "This is a test task".to_string(),
    );

    assert_eq!(task.get_title(), "Test Task");
    assert_eq!(task.get_start_time(), "00:00:00");
    assert_eq!(task.get_end_time(), "01:00:00");
    assert_eq!(task.get_details(), "This is a test task");
}

#[test]
fn test_schedule() {
    let schedule = Schedule::new();

    assert_eq!(schedule.get_days().len(), 0);
}

#[test]
fn test_day_label() {
    let day = Day::new("Monday".to_string(), vec![]);

    assert_eq!(day.get_day_of_week(), "Monday");
    assert_eq!(day.get_tasks().len(), 0);
    assert!(day.compare_day_of_week(Weekday::Monday));
    assert!(!day.compare_day_of_week(Weekday::Tuesday));
}

#[test]
fn test_day_alias_labels() {
    assert!(Day::new("月曜日".to_string(), vec![]).compare_day_of_week(Weekday::Monday));
    assert!(Day::new("火曜日".to_string(), vec![]).compare_day_of_week(Weekday::Tuesday));
    assert!(Day::new("水曜日".to_string(), vec![]).compare_day_of_week(Weekday::Wednesday));
    assert!(Day::new("木曜日".to_string(), vec![]).compare_day_of_week(Weekday::Thursday));
    assert!(Day::new("金曜日".to_string(), vec![]).compare_day_of_week(Weekday::Friday));
    assert!(Day::new("土曜日".to_string(), vec![]).compare_day_of_week(Weekday::Saturday));
    assert!(Day::new("日曜日".to_string(), vec![]).compare_day_of_week(Weekday::Sunday));
    // A label that is neither canonical nor the alias matches no weekday.
    assert!(!Day::new("Moday".to_string(), vec![]).compare_day_of_week(Weekday::Monday));
    assert!(!Day::new("monday".to_string(), vec![]).compare_day_of_week(Weekday::Monday));
}

#[test]
fn test_parse_time_of_day() {
    assert_eq!(parse_time_of_day("00:00:00").map(|t| t.seconds), Some(0));
    assert_eq!(parse_time_of_day("09:30:00").map(|t| t.seconds), Some(34200));
    assert_eq!(parse_time_of_day("23:59:59").map(|t| t.seconds), Some(86399));
    assert!(parse_time_of_day("9am").is_none());
    assert!(parse_time_of_day("9:00:00").is_none());
    assert!(parse_time_of_day("24:00:00").is_none());
    assert!(parse_time_of_day("00:60:00").is_none());
    assert!(parse_time_of_day("00:00:60").is_none());
    assert!(parse_time_of_day("00-00-00").is_none());
    assert!(parse_time_of_day("00:00:00 ").is_none());
    assert!(parse_time_of_day("").is_none());
}

#[test]
fn test_get_time_range() {
    let task = Task::new(
        "T".to_string(),
        "09:00:00".to_string(),
        "10:00:00".to_string(),
        "".to_string(),
    );
    let (ok, start, end) = task.get_time_range();
    assert!(ok);
    assert_eq!(start.seconds, 9 * 3600);
    assert_eq!(end.seconds, 10 * 3600);

    let bad = Task::new(
        "T".to_string(),
        "9am".to_string(),
        "10:00:00".to_string(),
        "".to_string(),
    );
    let (ok, start, end) = bad.get_time_range();
    assert!(!ok);
    assert_eq!(start.seconds, 0);
    assert_eq!(end.seconds, 10 * 3600);
}
