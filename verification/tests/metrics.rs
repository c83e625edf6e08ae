use sparkline_monitor::metrics::{
    bytes_equal, find_byte, parse, parse_bytes, parse_line, read_digits, MetricReport, ParseError,
};

#[test]
fn mem_total_line_yields_its_number() {
    let report = parse("MemTotal:       16384 kB", &[]).unwrap();
    assert_eq!(report.get("MemTotal"), Some(16384));
    assert!(!report.is_empty());
}

#[test]
fn line_without_colon_gives_no_field_and_no_error() {
    let report = parse("garbage line", &["garbage line"]).unwrap();
    assert!(report.is_empty());
    assert_eq!(report.get("garbage line"), None);
    assert_eq!(report.get("garbage"), None);
}

#[test]
fn later_line_of_the_same_name_wins() {
    let report = parse("MemFree: 10 kB\nMemFree: 20 kB\n", &["MemFree"]).unwrap();
    assert_eq!(report.get("MemFree"), Some(20));
}

#[test]
fn earlier_line_stays_when_the_later_one_is_unreadable_and_not_needed() {
    let report = parse("Swap: 7 kB\nSwap: none\n", &["MemFree"]).unwrap();
    assert_eq!(report.get("Swap"), Some(7));
}

#[test]
fn only_the_first_colon_separates() {
    let report = parse("a:b:12", &[]).unwrap();
    assert_eq!(report.get("a"), Some(12));
    assert_eq!(report.get("a:b"), None);
    assert_eq!(report.get("b"), None);
}

#[test]
fn grouped_digits_are_read_as_one_number() {
    let report = parse("Big: 1 234 kB", &[]).unwrap();
    assert_eq!(report.get("Big"), Some(1234));
}

#[test]
fn digits_in_the_name_do_not_count() {
    let report = parse("DirectMap4k:   123 kB", &[]).unwrap();
    assert_eq!(report.get("DirectMap4k"), Some(123));
}

#[test]
fn name_keeps_its_surrounding_spaces() {
    let report = parse(" Name : 5", &[]).unwrap();
    assert_eq!(report.get(" Name "), Some(5));
    assert_eq!(report.get("Name"), None);
}

#[test]
fn needed_field_without_digits_is_malformed() {
    assert!(matches!(parse("MemTotal: lots\n", &["MemTotal"]), Err(ParseError::MalformedValue)));
    assert!(matches!(parse("MemTotal:", &["MemTotal"]), Err(ParseError::MalformedValue)));
    assert!(matches!(
        parse("MemFree: 1\nMemTotal: kB\nMemFree: 2\n", &["MemFree", "MemTotal"]),
        Err(ParseError::MalformedValue)
    ));
}

#[test]
fn other_field_without_digits_is_passed_over() {
    let report = parse("Comment: none\nMemTotal: 5 kB\n", &["MemTotal"]).unwrap();
    assert_eq!(report.get("Comment"), None);
    assert_eq!(report.get("MemTotal"), Some(5));
}

#[test]
fn number_beyond_u64_is_malformed() {
    let report = parse("X: 18446744073709551615", &["X"]).unwrap();
    assert_eq!(report.get("X"), Some(u64::MAX));
    assert!(matches!(parse("X: 18446744073709551616", &["X"]), Err(ParseError::MalformedValue)));
    assert!(matches!(parse("X: 99999999999999999999999", &["X"]), Err(ParseError::MalformedValue)));
    let skipped = parse("X: 18446744073709551616", &[]).unwrap();
    assert!(skipped.is_empty());
}

#[test]
fn leading_zeros_are_harmless() {
    let report = parse("X: 000000000000000000000000042", &["X"]).unwrap();
    assert_eq!(report.get("X"), Some(42));
}

#[test]
fn empty_text_is_an_empty_report() {
    assert!(parse("", &["MemTotal"]).unwrap().is_empty());
    assert!(parse("\n\n\n", &["MemTotal"]).unwrap().is_empty());
}

#[test]
fn carriage_returns_do_not_disturb() {
    let report = parse("A: 1 kB\r\nB: 2 kB\r\n", &["A", "B"]).unwrap();
    assert_eq!(report.get("A"), Some(1));
    assert_eq!(report.get("B"), Some(2));
}

#[test]
fn last_line_needs_no_line_ending() {
    let report = parse_bytes(b"A: 1\nB: 2", &[]).unwrap();
    assert_eq!(report.get("A"), Some(1));
    assert_eq!(report.get("B"), Some(2));
    assert_eq!(report.get_bytes(b"B"), Some(2));
}

#[test]
fn non_ascii_names_are_kept_byte_for_byte() {
    let report = parse("Größe: 12\n", &["Größe"]).unwrap();
    assert_eq!(report.get("Größe"), Some(12));
}

#[test]
fn parse_line_tells_the_three_outcomes_apart() {
    assert_eq!(parse_line(b"no separator"), None);
    assert_eq!(parse_line(b"Name: 12 kB"), Some((b"Name".to_vec(), Some(12))));
    assert_eq!(parse_line(b"Name: kB"), Some((b"Name".to_vec(), None)));
    assert_eq!(parse_line(b":7"), Some((Vec::new(), Some(7))));
}

#[test]
fn read_digits_starts_where_told() {
    assert_eq!(read_digits(b"12:34", 3), Some(34));
    assert_eq!(read_digits(b"12:34", 0), Some(1234));
    assert_eq!(read_digits(b"12:34", 5), None);
    assert_eq!(read_digits(b"a1b2c3", 0), Some(123));
    assert_eq!(read_digits(b"0", 0), Some(0));
}

#[test]
fn find_byte_gives_first_occurrence_or_length() {
    assert_eq!(find_byte(b"a:b:c", 0, b':'), 1);
    assert_eq!(find_byte(b"a:b:c", 2, b':'), 3);
    assert_eq!(find_byte(b"a:b:c", 4, b':'), 5);
    assert_eq!(find_byte(b"", 0, b':'), 0);
}

#[test]
fn bytes_equal_compares_contents() {
    assert!(bytes_equal(b"abc", b"abc"));
    assert!(!bytes_equal(b"abc", b"abd"));
    assert!(!bytes_equal(b"abc", b"ab"));
    assert!(bytes_equal(b"", b""));
}

#[test]
fn inserted_value_replaces_the_earlier_one() {
    let mut report = MetricReport::new();
    assert!(report.is_empty());
    report.insert(b"A".to_vec(), 1);
    report.insert(b"B".to_vec(), 2);
    report.insert(b"A".to_vec(), 3);
    assert_eq!(report.get("A"), Some(3));
    assert_eq!(report.get("B"), Some(2));
    assert_eq!(report.get("C"), None);
}
