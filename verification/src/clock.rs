//! Wall-clock values: a time of day in seconds since midnight, weekdays and
//! their recognized labels, and the strict `"HH:MM:SS"` time format used by
//! schedule files.

use vstd::prelude::*;

use crate::text::str_eq_str;

verus! {

/// A time of day, counted in non-leap seconds since midnight.
#[derive(Clone, Copy, Debug)]
pub struct TimeOfDay {
    pub seconds: u32,
}

impl View for TimeOfDay {
    type V = int;

    open spec fn view(&self) -> int {
        self.seconds as int
    }
}

/// A day of the week.
#[derive(Clone, Copy, Debug, PartialEq, Eq, Structural)]
pub enum Weekday {
    Monday,
    Tuesday,
    Wednesday,
    Thursday,
    Friday,
    Saturday,
    Sunday,
}

/// The canonical English label of a weekday.
pub open spec fn canonical_label(w: Weekday) -> Seq<char> {
    match w {
        Weekday::Monday => "Monday"@,
        Weekday::Tuesday => "Tuesday"@,
        Weekday::Wednesday => "Wednesday"@,
        Weekday::Thursday => "Thursday"@,
        Weekday::Friday => "Friday"@,
        Weekday::Saturday => "Saturday"@,
        Weekday::Sunday => "Sunday"@,
    }
}

/// The one localized alternative label recognized for each weekday.
pub open spec fn alias_label(w: Weekday) -> Seq<char> {
    match w {
        Weekday::Monday => "月曜日"@,
        Weekday::Tuesday => "火曜日"@,
        Weekday::Wednesday => "水曜日"@,
        Weekday::Thursday => "木曜日"@,
        Weekday::Friday => "金曜日"@,
        Weekday::Saturday => "土曜日"@,
        Weekday::Sunday => "日曜日"@,
    }
}

/// Whether a free-form day label names the given weekday: only the
/// canonical label and its one alias match; every other label matches
/// no weekday.
pub open spec fn label_matches(label: Seq<char>, w: Weekday) -> bool {
    label == canonical_label(w) || label == alias_label(w)
}

/// Decides `label_matches` executably.
pub fn weekday_label_matches(label: &str, w: Weekday) -> (r: bool)
    ensures
        r == label_matches(label@, w),
{
    match w {
        Weekday::Monday => str_eq_str(label, "Monday") || str_eq_str(label, "月曜日"),
        Weekday::Tuesday => str_eq_str(label, "Tuesday") || str_eq_str(label, "火曜日"),
        Weekday::Wednesday => str_eq_str(label, "Wednesday") || str_eq_str(label, "水曜日"),
        Weekday::Thursday => str_eq_str(label, "Thursday") || str_eq_str(label, "木曜日"),
        Weekday::Friday => str_eq_str(label, "Friday") || str_eq_str(label, "金曜日"),
        Weekday::Saturday => str_eq_str(label, "Saturday") || str_eq_str(label, "土曜日"),
        Weekday::Sunday => str_eq_str(label, "Sunday") || str_eq_str(label, "日曜日"),
    }
}

pub open spec fn is_digit(c: char) -> bool {
    48 <= c as u32 && c as u32 <= 57
}

pub open spec fn digit_val(c: char) -> int {
    c as u32 - 48
}

/// The time format of schedule files: exactly `"HH:MM:SS"`, two digits per
/// field, hours below 24, minutes and seconds below 60. Anything else does
/// not parse.
pub open spec fn spec_parse_time_of_day(s: Seq<char>) -> Option<int> {
    if s.len() == 8 && is_digit(s[0]) && is_digit(s[1]) && s[2] == ':' && is_digit(s[3])
        && is_digit(s[4]) && s[5] == ':' && is_digit(s[6]) && is_digit(s[7]) {
        let h = digit_val(s[0]) * 10 + digit_val(s[1]);
        let m = digit_val(s[3]) * 10 + digit_val(s[4]);
        let sec = digit_val(s[6]) * 10 + digit_val(s[7]);
        if h < 24 && m < 60 && sec < 60 {
            Some(h * 3600 + m * 60 + sec)
        } else {
            None
        }
    } else {
        None
    }
}

/// Parses a `"HH:MM:SS"` string; returns exactly what
/// `spec_parse_time_of_day` says, as a `TimeOfDay`.
pub fn parse_time_of_day(s: &str) -> (r: Option<TimeOfDay>)
    ensures
        match spec_parse_time_of_day(s@) {
            Some(t) => r matches Some(tod) && tod@ == t,
            None => r is None,
        },
{
    if s.unicode_len() != 8 {
        return None;
    }
    let c0 = s.get_char(0) as u32;
    let c1 = s.get_char(1) as u32;
    let c2 = s.get_char(2);
    let c3 = s.get_char(3) as u32;
    let c4 = s.get_char(4) as u32;
    let c5 = s.get_char(5);
    let c6 = s.get_char(6) as u32;
    let c7 = s.get_char(7) as u32;
    if !(48 <= c0 && c0 <= 57 && 48 <= c1 && c1 <= 57 && c2 == ':' && 48 <= c3 && c3 <= 57
        && 48 <= c4 && c4 <= 57 && c5 == ':' && 48 <= c6 && c6 <= 57 && 48 <= c7 && c7 <= 57) {
        return None;
    }
    let h = (c0 - 48) * 10 + (c1 - 48);
    let m = (c3 - 48) * 10 + (c4 - 48);
    let sec = (c6 - 48) * 10 + (c7 - 48);
    if h < 24 && m < 60 && sec < 60 {
        Some(TimeOfDay { seconds: h * 3600 + m * 60 + sec })
    } else {
        None
    }
}

/// Relies on `chrono::Local::now`, `Timelike::num_seconds_from_midnight`
/// and `Datelike::weekday`: the current local time of day (documented to
/// lie in `0..=86399`) and the current weekday.
#[verifier::external_body]
pub fn now_local() -> (r: (TimeOfDay, Weekday))
    ensures
        r.0@ < 86400,
{
    let now = chrono::Local::now();
    let secs = chrono::Timelike::num_seconds_from_midnight(&chrono::DateTime::time(&now));
    let wd = match chrono::Datelike::weekday(&now) {
        chrono::Weekday::Mon => Weekday::Monday,
        chrono::Weekday::Tue => Weekday::Tuesday,
        chrono::Weekday::Wed => Weekday::Wednesday,
        chrono::Weekday::Thu => Weekday::Thursday,
        chrono::Weekday::Fri => Weekday::Friday,
        chrono::Weekday::Sat => Weekday::Saturday,
        chrono::Weekday::Sun => Weekday::Sunday,
    };
    (TimeOfDay { seconds: secs }, wd)
}

} // verus!
