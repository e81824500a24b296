use eternity_rs::{to_time_vec_hms, MediumEternity};
use std::time::Duration;

#[test]
fn lib_secs() {
    let duration = Duration::from_secs(21);
    let exp = vec![None, None, Some("21s".to_string())];
    assert_eq!(exp, to_time_vec_hms(&duration));
}

#[test]
fn lib_secs_human() {
    let duration = Duration::from_secs(21);
    let exp = "21s";
    assert_eq!(exp, &duration.humanize());
}

#[test]
fn lib_mins() {
    let duration = Duration::from_secs(184);
    let exp = vec![None, Some("3m".to_string()), Some("4s".to_string())];
    assert_eq!(exp, to_time_vec_hms(&duration));
}

#[test]
fn lib_mins_human() {
    let duration = Duration::from_secs(184);
    let exp = "3m 4s";
    assert_eq!(exp, &duration.humanize());
}

#[test]
fn lib_hours() {
    let duration = Duration::from_secs(3672);
    let exp = vec![Some("1h".to_string()), Some("1m".to_string()), Some("12s".to_string())];
    assert_eq!(exp, to_time_vec_hms(&duration));
}

#[test]
fn lib_hours_human() {
    let duration = Duration::from_secs(3672);
    let exp = "1h 1m 12s";
    assert_eq!(exp, &duration.humanize());
}

#[test]
fn lib_days() {
    let duration = Duration::from_secs((24 * 3600) + 3672);
    let exp = vec![Some("25h".to_string()), Some("1m".to_string()), Some("12s".to_string())];
    assert_eq!(exp, to_time_vec_hms(&duration));
}

#[test]
fn lib_days_human() {
    let duration = Duration::from_secs((24 * 3600) + 3672);
    let exp = "25h 1m 12s";
    assert_eq!(exp, &duration.humanize());
}

#[test]
fn medium_secs_bot() {
    let duration = Duration::from_secs(21);
    assert_eq!("0h 0m 21s", &duration.robotize());
}

#[test]
fn medium_days_bot() {
    let duration = Duration::from_secs((24 * 3600) + 3672);
    assert_eq!("25h 1m 12s", &duration.robotize());
}

#[test]
fn medium_drops_what_is_below_a_second() {
    let duration = Duration::from_millis(21_500);
    assert_eq!("21s", &duration.humanize());
    assert_eq!("0h 0m 21s", &duration.robotize());
}

#[test]
fn medium_zero() {
    let duration = Duration::from_millis(999);
    assert_eq!("", &duration.humanize());
    assert_eq!("0h 0m 0s", &duration.robotize());
    assert_eq!(vec![None::<String>, None, None], to_time_vec_hms(&duration));
}

#[test]
fn medium_longest_duration() {
    let duration = Duration::new(u64::MAX, 999_999_999);
    assert_eq!("5124095576030431h 15s", &duration.humanize());
    assert_eq!("5124095576030431h 0m 15s", &duration.robotize());
}
