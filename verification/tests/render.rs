use eternity_rs::decimal::push_decimal;
use eternity_rs::decompose::Slot;
use eternity_rs::render::{
    all_tokens, checked_tokens, humanize_slots, optional_tokens, present_tokens, robotize_slots,
};
use eternity_rs::text::join;
use eternity_rs::unwrap_result;

fn decimal_of(n: u64) -> String {
    let mut out = String::new();
    push_decimal(&mut out, n);
    out
}

fn sample() -> Vec<Slot> {
    vec![
        Slot::Absent { suffix: "h" },
        Slot::Present { count: 3, suffix: "m" },
        Slot::Absent { suffix: "s" },
        Slot::Present { count: 120, suffix: "ms" },
    ]
}

#[test]
fn decimal_of_single_digits() {
    let digits = ["0", "1", "2", "3", "4", "5", "6", "7", "8", "9"];
    for (n, digit) in digits.iter().enumerate() {
        assert_eq!(*digit, decimal_of(n as u64));
    }
}

#[test]
fn decimal_of_longer_numbers() {
    assert_eq!("10", decimal_of(10));
    assert_eq!("99", decimal_of(99));
    assert_eq!("100", decimal_of(100));
    assert_eq!("1501", decimal_of(1_501));
    assert_eq!("9007199254740993", decimal_of(9_007_199_254_740_993));
    assert_eq!("18446744073709551615", decimal_of(u64::MAX));
}

#[test]
fn decimal_agrees_with_std() {
    for n in [0u64, 7, 10, 11, 19, 20, 101, 1_000, 65_535, 4_294_967_296, u64::MAX - 1] {
        assert_eq!(n.to_string(), decimal_of(n));
    }
}

#[test]
fn decimal_is_appended() {
    let mut out = String::from("x=");
    push_decimal(&mut out, 42);
    assert_eq!("x=42", out);
}

#[test]
fn join_of_nothing_is_empty() {
    assert_eq!("", join(&Vec::new(), " "));
}

#[test]
fn join_of_one_part_has_no_separator() {
    assert_eq!("21s", join(&vec!["21s".to_string()], " "));
}

#[test]
fn join_puts_the_separator_between_parts() {
    let parts = vec!["1h".to_string(), "1m".to_string(), "12s".to_string()];
    assert_eq!("1h 1m 12s", join(&parts, " "));
    assert_eq!("1h, 1m, 12s", join(&parts, ", "));
    assert_eq!("1h1m12s", join(&parts, ""));
}

#[test]
fn join_agrees_with_std() {
    let parts = vec!["".to_string(), "a".to_string(), "".to_string(), "bc".to_string()];
    assert_eq!(parts.join("-"), join(&parts, "-"));
}

#[test]
fn slot_renders_count_and_label() {
    assert_eq!("12s", Slot::Present { count: 12, suffix: "s" }.render());
    assert_eq!("0ms", Slot::Absent { suffix: "ms" }.render());
}

#[test]
fn tokens_of_present_slots() {
    assert_eq!(vec!["3m".to_string(), "120ms".to_string()], present_tokens(&sample()));
}

#[test]
fn tokens_of_all_slots() {
    let exp =
        vec!["0h".to_string(), "3m".to_string(), "0s".to_string(), "120ms".to_string()];
    assert_eq!(exp, all_tokens(&sample()));
}

#[test]
fn optional_tokens_leave_absent_slots_empty() {
    let exp = vec![None, Some("3m".to_string()), None, Some("120ms".to_string())];
    assert_eq!(exp, optional_tokens(&sample()));
}

#[test]
fn checked_tokens_mark_absent_slots() {
    let exp = vec![
        Err("0h".to_string()),
        Ok("3m".to_string()),
        Err("0s".to_string()),
        Ok("120ms".to_string()),
    ];
    assert_eq!(exp, checked_tokens(&sample()));
}

#[test]
fn unwrap_result_takes_either_side() {
    assert_eq!("3m", unwrap_result(Ok("3m".to_string())));
    assert_eq!("0s", unwrap_result(Err("0s".to_string())));
}

#[test]
fn unwrapped_checked_tokens_join_to_the_full_form() {
    let parts: Vec<String> = checked_tokens(&sample()).into_iter().map(unwrap_result).collect();
    assert_eq!(robotize_slots(&sample()), join(&parts, " "));
}

#[test]
fn compact_form_of_slots() {
    assert_eq!("3m 120ms", humanize_slots(&sample()));
}

#[test]
fn full_form_of_slots() {
    assert_eq!("0h 3m 0s 120ms", robotize_slots(&sample()));
}

#[test]
fn forms_of_no_slots() {
    assert_eq!("", humanize_slots(&Vec::new()));
    assert_eq!("", robotize_slots(&Vec::new()));
}

#[test]
fn compact_form_of_absent_slots_is_empty() {
    let slots = vec![Slot::Absent { suffix: "m" }, Slot::Absent { suffix: "s" }];
    assert_eq!("", humanize_slots(&slots));
    assert_eq!("0m 0s", robotize_slots(&slots));
}
