use autoclick::budget::{parse_seconds, RunBudget};

#[test]
fn a_count_of_seconds_is_read() {
    assert_eq!(parse_seconds("5"), Some(5));
    assert_eq!(parse_seconds("0"), Some(0));
    assert_eq!(parse_seconds("300"), Some(300));
    assert_eq!(parse_seconds("007"), Some(7));
    assert_eq!(parse_seconds("+12"), Some(12));
}

#[test]
fn the_largest_count_is_read_and_the_next_is_not() {
    assert_eq!(parse_seconds("18446744073709551615"), Some(u64::MAX));
    assert_eq!(parse_seconds("18446744073709551616"), None);
    assert_eq!(parse_seconds("18446744073709551620"), None);
    assert_eq!(parse_seconds("99999999999999999999"), None);
    assert_eq!(parse_seconds("000018446744073709551615"), Some(u64::MAX));
}

#[test]
fn text_that_is_no_count_is_not_read() {
    for text in ["abc", "", "+", "-1", "-0", "++1", "+-1", "1+", " 5", "5 ", "5s", "1_000", "0x10",
        "1.5", "1e3", "٣", "５", "5\n"]
    {
        assert_eq!(parse_seconds(text), None, "{:?}", text);
    }
}

#[test]
fn reading_agrees_with_the_standard_parser() {
    let texts = [
        "", "0", "1", "9", "10", "42", "+42", "-42", "4 2", "042", "00", "+0", "+", "-", "a",
        "12a", "a12", "18446744073709551614", "18446744073709551615", "18446744073709551616",
        "184467440737095516150", "+18446744073709551615", "1844674407370955161", "é", "1é",
        "٠", "\u{0}", "9999999999", "3000000000000", " ", "\t7",
    ];
    for text in texts {
        assert_eq!(parse_seconds(text), text.parse::<u64>().ok(), "{:?}", text);
    }
    for n in 0u64..2000 {
        let text = format!("{}", n);
        assert_eq!(parse_seconds(&text), Some(n));
    }
}

#[test]
fn an_unparseable_argument_means_unbounded() {
    let budget = RunBudget::from_arg(Some("abc"));
    assert_eq!(budget.seconds, None);
    assert!(!budget.is_bounded());
}

#[test]
fn a_missing_argument_means_unbounded() {
    let budget = RunBudget::from_arg(None);
    assert_eq!(budget, RunBudget::unbounded());
    assert!(!budget.is_bounded());
}

#[test]
fn a_zero_argument_means_unbounded() {
    let budget = RunBudget::from_arg(Some("0"));
    assert_eq!(budget.seconds, Some(0));
    assert!(!budget.is_bounded());
    assert!(!RunBudget::of_seconds(0).is_bounded());
}

#[test]
fn a_positive_argument_bounds_the_run() {
    let budget = RunBudget::from_arg(Some("5"));
    assert_eq!(budget, RunBudget::of_seconds(5));
    assert!(budget.is_bounded());
    assert!(RunBudget::of_seconds(u64::MAX).is_bounded());
}
