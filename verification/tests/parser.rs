use gtrends::parse::{parse_export, parse_intensity, parse_year_month, ParseError, ParseErrorKind};
use gtrends::Date;

fn date(year: i32, month: u8, day: u8) -> Date {
    Date { year, month, day }
}

#[test]
fn parses_real_shaped_export() {
    let data = b"Category: All categories\n\nMonth,rust: (United States)\n2023-01,45\n2023-02,60\n";
    let records = parse_export(data).unwrap();
    assert_eq!(records, vec![(date(2023, 1, 1), 45), (date(2023, 2, 1), 60)]);
}

#[test]
fn yields_one_record_per_data_row_in_order() {
    let data = b"Month,kw\n2020-01,1\n2020-02,2\n2020-03,3\n2020-04,4\n";
    let records = parse_export(data).unwrap();
    assert_eq!(records.len(), 4);
    for (i, (d, v)) in records.iter().enumerate() {
        assert_eq!(*d, date(2020, (i + 1) as u8, 1));
        assert_eq!(*v, (i + 1) as i32);
    }
}

#[test]
fn preamble_with_five_fields_is_skipped() {
    let data = b"a,b,c,d,e\nMonth,kw\n2020-01,10\n2020-02,20\n";
    let records = parse_export(data).unwrap();
    assert_eq!(records, vec![(date(2020, 1, 1), 10), (date(2020, 2, 1), 20)]);
}

#[test]
fn header_alone_before_data_is_skipped() {
    let data = b"Month,kw\n2023-01,45\n2023-02,60\n";
    let records = parse_export(data).unwrap();
    assert_eq!(records, vec![(date(2023, 1, 1), 45), (date(2023, 2, 1), 60)]);
}

#[test]
fn normalizes_year_month_to_first_of_month() {
    assert_eq!(parse_year_month(b"2020-01"), Some(date(2020, 1, 1)));
    assert_eq!(parse_year_month(b"1970-12"), Some(date(1970, 12, 1)));
}

#[test]
fn rejects_invalid_month() {
    assert_eq!(parse_year_month(b"2020-13"), None);
    assert_eq!(parse_year_month(b"2020-00"), None);
    assert_eq!(parse_year_month(b"20-01"), None);
    assert_eq!(parse_year_month(b"2020/01"), None);
}

#[test]
fn invalid_month_in_file_is_a_parse_error() {
    let data = b"Month,kw\n2020-13,5\n";
    let err = parse_export(data).unwrap_err();
    assert_eq!(err, ParseError { row: 1, kind: ParseErrorKind::InvalidDate });
}

#[test]
fn intensity_bounds_and_garbage() {
    assert_eq!(parse_intensity(b"0"), Some(0));
    assert_eq!(parse_intensity(b"100"), Some(100));
    assert_eq!(parse_intensity(b"abc"), None);
    assert_eq!(parse_intensity(b""), None);
    assert_eq!(parse_intensity(b"-5"), Some(-5));
    assert_eq!(parse_intensity(b"+7"), Some(7));
    assert_eq!(parse_intensity(b"2147483647"), Some(2147483647));
    assert_eq!(parse_intensity(b"2147483648"), None);
    assert_eq!(parse_intensity(b"-2147483648"), Some(i32::MIN));
    assert_eq!(parse_intensity(b"-2147483649"), None);
    assert_eq!(parse_intensity(b"00042"), Some(42));
}

#[test]
fn garbage_intensity_in_file_is_a_parse_error() {
    let data = b"Month,kw\n2020-01,abc\n";
    let err = parse_export(data).unwrap_err();
    assert_eq!(err, ParseError { row: 1, kind: ParseErrorKind::InvalidIntensity });
}

#[test]
fn missing_intensity_field_is_a_parse_error() {
    let data = b"Month,kw\n2020-01\n";
    let err = parse_export(data).unwrap_err();
    assert_eq!(err, ParseError { row: 1, kind: ParseErrorKind::MissingIntensity });
}

#[test]
fn error_reports_the_offending_line_index() {
    let data = b"Category: All categories\n\nMonth,kw\n2020-01,5\n2020-02,bad\n";
    let err = parse_export(data).unwrap_err();
    assert_eq!(err, ParseError { row: 4, kind: ParseErrorKind::InvalidIntensity });
}

#[test]
fn handles_crlf_line_endings() {
    let data = b"Month,kw\r\n2020-01,5\r\n2020-02,6\r\n";
    let records = parse_export(data).unwrap();
    assert_eq!(records, vec![(date(2020, 1, 1), 5), (date(2020, 2, 1), 6)]);
}

#[test]
fn blank_lines_inside_data_are_skipped() {
    let data = b"Month,kw\n2020-01,5\n\n2020-02,6\n";
    let records = parse_export(data).unwrap();
    assert_eq!(records.len(), 2);
}

#[test]
fn extra_columns_are_ignored() {
    let data = b"Month,kw,other\n2020-01,5,99\n";
    let records = parse_export(data).unwrap();
    assert_eq!(records, vec![(date(2020, 1, 1), 5)]);
}

#[test]
fn empty_input_yields_no_records() {
    assert_eq!(parse_export(b"").unwrap(), vec![]);
    assert_eq!(parse_export(b"Category: All categories\n").unwrap(), vec![]);
}

#[test]
fn first_of_month_is_day_one() {
    assert_eq!(Date::first_of_month(2024, 2), date(2024, 2, 1));
}
