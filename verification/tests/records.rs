use generation_mix::records::check_record;
use generation_mix::{count_csv_rows, parse_csv, RowWarning};

fn strings(fields: &[&str]) -> Vec<String> {
    fields.iter().map(|field| field.to_string()).collect()
}

fn record_of_width(width: usize) -> Vec<String> {
    (0..width).map(|i| format!("{}", i)).collect()
}

#[test]
fn parse_keeps_the_header_line() {
    let records = parse_csv(b"DATETIME,GAS\n2024-01-01,1.5\n");
    assert_eq!(records.len(), 2);
    assert_eq!(records[0].as_ref().unwrap(), &strings(&["DATETIME", "GAS"]));
    assert_eq!(records[1].as_ref().unwrap(), &strings(&["2024-01-01", "1.5"]));
}

#[test]
fn parse_of_nothing_gives_no_record() {
    let records = parse_csv(b"");
    assert!(records.is_empty());
}

#[test]
fn parse_accepts_records_of_any_width() {
    let records = parse_csv(b"a,b,c\n1\n1,2,3,4\n");
    assert_eq!(records.len(), 3);
    assert_eq!(records[1].as_ref().unwrap(), &strings(&["1"]));
    assert_eq!(records[2].as_ref().unwrap(), &strings(&["1", "2", "3", "4"]));
}

#[test]
fn parse_reads_quoted_fields() {
    let records = parse_csv(b"\"x,y\",\"say \"\"hi\"\"\"\n");
    assert_eq!(records.len(), 1);
    assert_eq!(records[0].as_ref().unwrap(), &strings(&["x,y", "say \"hi\""]));
}

#[test]
fn parse_reads_a_last_line_without_a_line_end() {
    let records = parse_csv(b"a,b\n1,2");
    assert_eq!(records.len(), 2);
    assert_eq!(records[1].as_ref().unwrap(), &strings(&["1", "2"]));
}

#[test]
fn parse_keeps_empty_fields() {
    let records = parse_csv(b"a,,c\n");
    assert_eq!(records[0].as_ref().unwrap(), &strings(&["a", "", "c"]));
}

#[test]
fn parse_reports_a_record_that_is_not_text_and_reads_on() {
    let records = parse_csv(b"a,b\n\xff,1\n2,3\n");
    assert_eq!(records.len(), 3);
    assert!(records[0].is_ok());
    assert!(records[1].is_err());
    assert_eq!(records[2].as_ref().unwrap(), &strings(&["2", "3"]));
}

#[test]
fn count_includes_the_header_line() {
    assert_eq!(count_csv_rows(b"DATETIME,GAS\n2024-01-01,1.5\n2024-01-02,2.5\n"), 3);
}

#[test]
fn count_of_a_header_alone_is_one() {
    assert_eq!(count_csv_rows(b"DATETIME,GAS\n"), 1);
}

#[test]
fn count_of_nothing_is_zero() {
    assert_eq!(count_csv_rows(b""), 0);
}

#[test]
fn count_includes_records_of_other_widths() {
    assert_eq!(count_csv_rows(b"a,b,c\n1\n1,2,3,4\n"), 3);
}

#[test]
fn count_includes_a_record_that_cannot_be_read() {
    assert_eq!(count_csv_rows(b"a,b\n\xff,1\n2,3\n"), 3);
}

#[test]
fn count_is_the_number_of_records_read() {
    let inputs: [&[u8]; 5] = [
        b"",
        b"a\n",
        b"a,b\n\n1,2\n",
        b"a,b\r\n1,2\r\n3,4",
        b"\"multi\nline\",x\ny,z\n",
    ];
    for input in inputs {
        assert_eq!(count_csv_rows(input), parse_csv(input).len());
    }
}

#[test]
fn count_does_not_change_the_bytes() {
    let bytes = b"a,b\n1,2\n".to_vec();
    let first = count_csv_rows(&bytes);
    let second = count_csv_rows(&bytes);
    assert_eq!(first, second);
    assert_eq!(bytes, b"a,b\n1,2\n".to_vec());
}

#[test]
fn a_record_of_thirty_two_fields_is_a_row() {
    assert_eq!(check_record(1, &record_of_width(32)), None);
}

#[test]
fn a_record_of_thirty_one_fields_is_skipped() {
    assert_eq!(check_record(4, &record_of_width(31)), Some(RowWarning { row: 4, columns: 31 }));
}

#[test]
fn a_record_of_thirty_three_fields_is_skipped() {
    assert_eq!(check_record(9, &record_of_width(33)), Some(RowWarning { row: 9, columns: 33 }));
}

#[test]
fn a_record_of_no_fields_is_skipped() {
    assert_eq!(check_record(1, &record_of_width(0)), Some(RowWarning { row: 1, columns: 0 }));
}

#[test]
fn warning_message_names_row_and_width() {
    let warning = RowWarning { row: 2, columns: 30 };
    assert_eq!(warning.message(), "Warning: Row 2 has 30 columns, expected 32");
}

#[test]
fn warning_message_of_large_numbers() {
    let warning = RowWarning { row: 120345, columns: 1000 };
    assert_eq!(warning.message(), "Warning: Row 120345 has 1000 columns, expected 32");
}
