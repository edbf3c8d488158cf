use validate_toolpath::parse::{get_tool_size, split_lines};
use validate_toolpath::point::Point;

fn bytes(s: &str) -> Vec<u8> {
    s.as_bytes().to_vec()
}

#[test]
fn extracts_all_three_axes() {
    let p = Point::from_line(&bytes("G1 X1.5 Y-0.25 Z0.1"));
    assert_eq!(p.x, Some(1_500_000));
    assert_eq!(p.y, Some(-250_000));
    assert_eq!(p.z, Some(100_000));
}

#[test]
fn missing_axes_stay_unknown() {
    let p = Point::from_line(&bytes("G0 Z0.25"));
    assert_eq!(p.x, None);
    assert_eq!(p.y, None);
    assert_eq!(p.z, Some(250_000));
}

#[test]
fn first_axis_match_wins() {
    let p = Point::from_line(&bytes("G1 X1.0 X2.0"));
    assert_eq!(p.x, Some(1_000_000));
}

#[test]
fn equals_and_spaces_after_axis_letter() {
    let p = Point::from_line(&bytes("X = 5.0 Y=2.5"));
    assert_eq!(p.x, Some(5_000_000));
    assert_eq!(p.y, Some(2_500_000));
}

#[test]
fn integer_needs_decimal_point() {
    let p = Point::from_line(&bytes("X5 Y7."));
    assert_eq!(p.x, None, "an axis number without a decimal point is no match");
    assert_eq!(p.y, Some(7_000_000), "an empty fractional part is allowed");
}

#[test]
fn axis_letters_are_case_sensitive() {
    let p = Point::from_line(&bytes("x5.0 y1.0 z2.0"));
    assert_eq!(p.x, None);
    assert_eq!(p.y, None);
    assert_eq!(p.z, None);
}

#[test]
fn negative_coordinates() {
    let p = Point::from_line(&bytes("G1 Z-0.5625"));
    assert_eq!(p.z, Some(-562_500));
}

#[test]
fn tool_size_in_inches() {
    assert_eq!(get_tool_size(&bytes("(Tool: End Mill {0.25\"})")), Some(250_000));
}

#[test]
fn tool_size_in_millimetres() {
    // 6.35 mm times the fixed factor 0.0394 is 0.25019 inches.
    assert_eq!(get_tool_size(&bytes("(Tool: Drill {6.35 mm})")), Some(250_190));
}

#[test]
fn inches_tried_before_millimetres() {
    assert_eq!(get_tool_size(&bytes("{1.0\"} {2.0 mm}")), Some(1_000_000));
}

#[test]
fn tool_size_absent() {
    assert_eq!(get_tool_size(&bytes("(Tool: Drill)")), None);
    assert_eq!(get_tool_size(&bytes("(Tool: Drill {unknown})")), None);
}

#[test]
fn tool_size_takes_first_number_in_braces() {
    // The size pattern only requires a number somewhere before the unit;
    // the value extracted is the first number after the opening brace.
    assert_eq!(get_tool_size(&bytes("{v2 0.5\"}")), Some(2_000_000));
}

#[test]
fn split_lines_strips_carriage_returns() {
    let lines = split_lines(&bytes("a\r\nb\nc"));
    assert_eq!(lines.len(), 3);
    assert_eq!(lines[0], b"a".to_vec());
    assert_eq!(lines[1], b"b".to_vec());
    assert_eq!(lines[2], b"c".to_vec());
}

#[test]
fn split_lines_no_final_empty_line() {
    let lines = split_lines(&bytes("a\n"));
    assert_eq!(lines.len(), 1);
    let lines = split_lines(&bytes(""));
    assert_eq!(lines.len(), 0);
    let lines = split_lines(&bytes("a\n\nb"));
    assert_eq!(lines.len(), 3);
    assert_eq!(lines[1], Vec::<u8>::new());
}
