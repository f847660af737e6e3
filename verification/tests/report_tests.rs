use oddiag::report::{escape_field, render_csv, render_record, u64_to_string, ReportError};
use oddiag::scan::{FileTime, Scan, WalkEvent};

fn scan_with(files: &[(&str, u64)]) -> Scan {
    let mut scan = Scan::new(String::from("C:\\Users\\a\\OneDrive"));
    for (p, size) in files {
        scan.scan_step(&WalkEvent::File {
            path: String::from(*p),
            attributes: 0,
            last_modified: FileTime::new(1_600_000_000, 500_000_000),
            size: *size,
        })
        .unwrap();
    }
    scan
}

#[test]
fn decimal_rendering() {
    assert_eq!(u64_to_string(0), "0");
    assert_eq!(u64_to_string(7), "7");
    assert_eq!(u64_to_string(10), "10");
    assert_eq!(u64_to_string(120), "120");
    assert_eq!(u64_to_string(18_446_744_073_709_551_615), "18446744073709551615");
}

#[test]
fn field_escaping() {
    assert_eq!(escape_field("plain.txt"), "plain.txt");
    assert_eq!(escape_field("a,b"), "\"a,b\"");
    assert_eq!(escape_field("say \"hi\""), "\"say \"\"hi\"\"\"");
    assert_eq!(escape_field("line\nbreak"), "\"line\nbreak\"");
    assert_eq!(escape_field(""), "");
}

#[test]
fn record_rendering() {
    let fields = vec![
        String::from("C:\\Users\\a\\f.txt"),
        String::from("120"),
        String::from("2020-09-13 12:26:40"),
    ];
    assert_eq!(
        render_record(&fields),
        "C:\\Users\\a\\f.txt,120,2020-09-13 12:26:40\n"
    );
}

#[test]
fn csv_rendering() {
    let records = vec![
        vec![String::from("h1"), String::from("h2")],
        vec![String::from("a,b"), String::from("2")],
    ];
    assert_eq!(render_csv(&records), "h1,h2\n\"a,b\",2\n");
}

/// The manifest holds one header row plus one row per entry, and the size
/// column re-parses to the exact original byte counts.
#[test]
fn report_round_trips_sizes() {
    let sizes: [u64; 3] = [0, 1_234, 18_000_000_000_000_000_000];
    let scan = scan_with(&[
        ("C:\\Users\\a\\OneDrive\\one.txt", sizes[0]),
        ("C:\\Users\\a\\OneDrive\\two.txt", sizes[1]),
        ("C:\\Users\\a\\OneDrive\\three.txt", sizes[2]),
    ]);
    let text = scan.render_report();
    let lines: Vec<&str> = text.split_terminator('\n').collect();
    assert_eq!(lines.len() as u64, scan.get_count() + 1);
    assert_eq!(lines[0], "file,size_in_bytes,last_modified");
    for (i, line) in lines.iter().enumerate().skip(1) {
        let fields: Vec<&str> = line.split(',').collect();
        assert_eq!(fields.len(), 3);
        let reparsed: u64 = fields[1].parse().unwrap();
        assert_eq!(reparsed, sizes[i - 1]);
    }
}

/// The rows keep the entries' traversal order.
#[test]
fn report_keeps_entry_order() {
    let scan = scan_with(&[
        ("C:\\Users\\a\\OneDrive\\z.txt", 1),
        ("C:\\Users\\a\\OneDrive\\a.txt", 2),
    ]);
    let records = scan.report_records();
    assert_eq!(records.len(), 3);
    assert_eq!(records[1][0], "C:\\Users\\a\\OneDrive\\z.txt");
    assert_eq!(records[2][0], "C:\\Users\\a\\OneDrive\\a.txt");
}

/// The timestamp column is a non-empty local-time rendering.
#[test]
fn report_renders_timestamps() {
    let scan = scan_with(&[("C:\\Users\\a\\OneDrive\\one.txt", 5)]);
    let records = scan.report_records();
    assert_eq!(records[1].len(), 3);
    // the exact text depends on the machine's time zone; the date part of
    // the epoch-second 1600000000 falls on 2020-09-13 or 2020-09-14 in
    // every zone
    assert!(records[1][2].starts_with("2020-09-1"));
}

#[test]
fn report_error_message() {
    let m = ReportError::WriteFailed { cause: String::from("denied") }.message();
    assert_eq!(m, "write failed: denied");
}
