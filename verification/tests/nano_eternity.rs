use eternity_rs::{to_time_vec_msusns, NanoEternity};
use std::time::Duration;

#[test]
fn nanos() {
    let duration = Duration::from_nanos(2134);
    let exp = vec![Err("0ms".to_string()), Ok("2us".to_string()), Ok("134ns".to_string())];
    assert_eq!(exp, to_time_vec_msusns(&duration));
}

#[test]
fn nanos_human() {
    let duration = Duration::from_nanos(2134);
    let exp = "2us 134ns";
    assert_eq!(exp, &duration.humanize());
}

#[test]
fn nanos_bot() {
    let duration = Duration::from_nanos(2134);
    let exp = "0ms 2us 134ns";
    assert_eq!(exp, &duration.robotize());
}

#[test]
fn micros() {
    let duration = Duration::from_nanos(20_134);
    let exp = vec![Err("0ms".to_string()), Ok("20us".to_string()), Ok("134ns".to_string())];
    assert_eq!(exp, to_time_vec_msusns(&duration));
}

#[test]
fn micros_human() {
    let duration = Duration::from_nanos(20_134);
    let exp = "20us 134ns";
    assert_eq!(exp, &duration.humanize());
}

#[test]
fn micros_bot() {
    let duration = Duration::from_nanos(20_134);
    let exp = "0ms 20us 134ns";
    assert_eq!(exp, &duration.robotize());
}

#[test]
fn lib_millis() {
    let duration = Duration::from_nanos(2_134_567);
    let exp = vec![Ok("2ms".to_string()), Ok("134us".to_string()), Ok("567ns".to_string())];
    assert_eq!(exp, to_time_vec_msusns(&duration));
}

#[test]
fn lib_millis_human() {
    let duration = Duration::from_nanos(2_134_567);
    let exp = "2ms 134us 567ns";
    assert_eq!(exp, &duration.humanize());
}

#[test]
fn lib_millis_bot() {
    let duration = Duration::from_nanos(2_134_567);
    let exp = "2ms 134us 567ns";
    assert_eq!(exp, &duration.robotize());
}

#[test]
fn secs_are_dropped() {
    let duration = Duration::from_nanos(2_134_567_789);
    let exp = vec![Ok("134ms".to_string()), Ok("567us".to_string()), Ok("789ns".to_string())];
    assert_eq!(exp, to_time_vec_msusns(&duration));
}

#[test]
fn secs_are_dropped_human() {
    let duration = Duration::from_nanos(2_134_567_789);
    let exp = "134ms 567us 789ns";
    assert_eq!(exp, &duration.humanize());
}

#[test]
fn secs_are_dropped_bot() {
    let duration = Duration::from_nanos(2_134_567_789);
    let exp = "134ms 567us 789ns";
    assert_eq!(exp, &duration.robotize());
}

#[test]
fn nano_zero() {
    let duration = Duration::from_secs(5);
    assert_eq!("", &duration.humanize());
    assert_eq!("0ms 0us 0ns", &duration.robotize());
    let exp: Vec<Result<String, String>> =
        vec![Err("0ms".to_string()), Err("0us".to_string()), Err("0ns".to_string())];
    assert_eq!(exp, to_time_vec_msusns(&duration));
}

#[test]
fn nano_gap_in_the_middle() {
    let duration = Duration::from_nanos(7_000_009);
    assert_eq!("7ms 9ns", &duration.humanize());
    assert_eq!("7ms 0us 9ns", &duration.robotize());
}

#[test]
fn nano_largest_fraction() {
    let duration = Duration::new(3, 999_999_999);
    assert_eq!("999ms 999us 999ns", &duration.humanize());
    assert_eq!("999ms 999us 999ns", &duration.robotize());
}
