use tsps::text::{has_percent_suffix, parse_cells, str_eq, strip_trailing_percent_marks};

#[test]
fn parse_cells_plain_integers() {
    assert_eq!(parse_cells("10"), 10);
    assert_eq!(parse_cells("0"), 0);
    assert_eq!(parse_cells("007"), 7);
    assert_eq!(parse_cells("+7"), 7);
    assert_eq!(parse_cells("-5"), -5);
}

#[test]
fn parse_cells_at_the_limits() {
    assert_eq!(parse_cells("2147483647"), i32::MAX);
    assert_eq!(parse_cells("-2147483648"), i32::MIN);
    assert_eq!(parse_cells("2147483648"), 10);
    assert_eq!(parse_cells("-2147483649"), 10);
    assert_eq!(parse_cells("99999999999999999999"), 10);
}

#[test]
fn parse_cells_degrades_to_default() {
    assert_eq!(parse_cells("abc"), 10);
    assert_eq!(parse_cells(""), 10);
    assert_eq!(parse_cells("+"), 10);
    assert_eq!(parse_cells("-"), 10);
    assert_eq!(parse_cells("4 "), 10);
    assert_eq!(parse_cells(" 4"), 10);
    assert_eq!(parse_cells("1.5"), 10);
    assert_eq!(parse_cells("30%"), 10);
}

#[test]
fn percent_suffix_detection() {
    assert!(has_percent_suffix("30%"));
    assert!(has_percent_suffix("%"));
    assert!(!has_percent_suffix("30"));
    assert!(!has_percent_suffix(""));
    assert!(!has_percent_suffix("%30"));
}

#[test]
fn stripping_percent_marks() {
    assert_eq!(strip_trailing_percent_marks("30%"), "30");
    assert_eq!(strip_trailing_percent_marks("30%%"), "30");
    assert_eq!(strip_trailing_percent_marks("%"), "");
    assert_eq!(strip_trailing_percent_marks("abc"), "abc");
    assert_eq!(strip_trailing_percent_marks("%30"), "%30");
}

#[test]
fn string_equality() {
    assert!(str_eq("horizontal", "horizontal"));
    assert!(!str_eq("horizontal", "vertical"));
    assert!(!str_eq("horizontal", "horizonta"));
    assert!(str_eq("", ""));
}
