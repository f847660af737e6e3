use oddiag::attrs::{ATTR_HIDDEN, ATTR_PINNED, ATTR_UNPINNED};
use oddiag::scan::{FileTime, Scan, ScanError, ScanResult, WalkEvent};

fn ft(secs: i64) -> FileTime {
    FileTime::new(secs, 0)
}

fn file_event(path: &str, attributes: u32, size: u64) -> WalkEvent {
    WalkEvent::File {
        path: String::from(path),
        attributes,
        last_modified: ft(1_600_000_000),
        size,
    }
}

/// A scan of an empty directory tree: no entries, zero total size.
#[test]
fn empty_scan() {
    let scan = Scan::new(String::from("C:\\Users\\a\\OneDrive"));
    assert_eq!(scan.get_count(), 0);
    assert_eq!(scan.get_size(), 0);
    assert!(scan.get_files().is_empty());
    assert_eq!(scan.get_path(), "C:\\Users\\a\\OneDrive");
}

/// An included and an excluded file: only the included one is recorded.
#[test]
fn doc_and_stub() {
    let mut scan = Scan::new(String::from("C:\\Users\\a\\OneDrive"));
    scan.scan_step(&file_event("C:\\Users\\a\\OneDrive\\doc.txt", 0, 100))
        .unwrap();
    scan.scan_step(&file_event("C:\\Users\\a\\OneDrive\\stub.txt", ATTR_UNPINNED, 0))
        .unwrap();
    assert_eq!(scan.get_count(), 1);
    assert_eq!(scan.get_size(), 100);
    assert_eq!(scan.get_files()[0].get_path(), "C:\\Users\\a\\OneDrive\\doc.txt");
}

/// A pinned but hidden file is excluded.
#[test]
fn pinned_hidden_excluded() {
    let mut scan = Scan::new(String::from("C:\\Users\\a\\OneDrive"));
    scan.scan_step(&file_event(
        "C:\\Users\\a\\OneDrive\\pinned.txt",
        ATTR_PINNED | ATTR_HIDDEN,
        10,
    ))
    .unwrap();
    assert_eq!(scan.get_count(), 0);
    assert_eq!(scan.get_size(), 0);
}

/// The total size is the exact sum of the included sizes, in any order.
#[test]
fn total_is_sum_in_any_order() {
    let sizes: [u64; 4] = [10, 250, 3, 4_000_000_000];
    let mut forward = Scan::new(String::from("C:\\Users\\a\\OneDrive"));
    for (i, s) in sizes.iter().enumerate() {
        forward
            .scan_step(&file_event(&format!("C:\\Users\\a\\OneDrive\\f{}.bin", i), 0, *s))
            .unwrap();
    }
    let mut backward = Scan::new(String::from("C:\\Users\\a\\OneDrive"));
    for (i, s) in sizes.iter().enumerate().rev() {
        backward
            .scan_step(&file_event(&format!("C:\\Users\\a\\OneDrive\\f{}.bin", i), 0, *s))
            .unwrap();
    }
    assert_eq!(forward.get_size(), 10 + 250 + 3 + 4_000_000_000);
    assert_eq!(forward.get_size(), backward.get_size());
    assert_eq!(forward.get_count(), 4);
}

/// Non-file entries are not recorded.
#[test]
fn directories_ignored() {
    let mut scan = Scan::new(String::from("C:\\Users\\a\\OneDrive"));
    scan.scan_step(&WalkEvent::Other).unwrap();
    scan.scan_step(&file_event("C:\\Users\\a\\OneDrive\\doc.txt", 0, 7)).unwrap();
    scan.scan_step(&WalkEvent::Other).unwrap();
    assert_eq!(scan.get_count(), 1);
    assert_eq!(scan.get_size(), 7);
}

/// A metadata failure mid-traversal aborts the scan with
/// `MetadataUnavailable` naming the file, and records nothing for it.
#[test]
fn metadata_failure_aborts() {
    let mut scan = Scan::new(String::from("C:\\Users\\a\\OneDrive"));
    scan.scan_step(&file_event("C:\\Users\\a\\OneDrive\\doc.txt", 0, 100))
        .unwrap();
    let r = scan.scan_step(&WalkEvent::MetadataError {
        path: String::from("C:\\Users\\a\\OneDrive\\bad.txt"),
    });
    match r {
        Err(ScanError::MetadataUnavailable { path }) => {
            assert_eq!(path, "C:\\Users\\a\\OneDrive\\bad.txt");
        }
        _ => panic!("expected MetadataUnavailable"),
    }
    // the scan state is exactly what it was before the failing event
    assert_eq!(scan.get_count(), 1);
    assert_eq!(scan.get_size(), 100);
}

/// A traversal failure aborts the scan with `TraversalFailed`.
#[test]
fn traversal_failure_aborts() {
    let mut scan = Scan::new(String::from("C:\\Users\\a\\OneDrive"));
    let r = scan.scan_step(&WalkEvent::WalkError {
        cause: String::from("permission denied"),
    });
    match r {
        Err(ScanError::TraversalFailed { cause }) => {
            assert_eq!(cause, "permission denied");
        }
        _ => panic!("expected TraversalFailed"),
    }
    assert_eq!(scan.get_count(), 0);
}

/// A whole traversal handed over as one event sequence records every
/// included file.
#[test]
fn scan_events_whole_traversal() {
    let mut scan = Scan::new(String::from("C:\\Users\\a\\OneDrive"));
    let events = vec![
        WalkEvent::Other,
        file_event("C:\\Users\\a\\OneDrive\\doc.txt", 0, 100),
        file_event("C:\\Users\\a\\OneDrive\\stub.txt", ATTR_UNPINNED, 0),
        WalkEvent::Other,
        file_event("C:\\Users\\a\\OneDrive\\more.txt", 0, 20),
    ];
    scan.scan_events(&events).unwrap();
    assert_eq!(scan.get_count(), 2);
    assert_eq!(scan.get_size(), 120);
}

/// The first failing event aborts the traversal; nothing past it is
/// processed.
#[test]
fn scan_events_aborts_at_first_error() {
    let mut scan = Scan::new(String::from("C:\\Users\\a\\OneDrive"));
    let events = vec![
        file_event("C:\\Users\\a\\OneDrive\\doc.txt", 0, 100),
        WalkEvent::MetadataError { path: String::from("C:\\Users\\a\\OneDrive\\bad.txt") },
        file_event("C:\\Users\\a\\OneDrive\\late.txt", 0, 7),
    ];
    let r = scan.scan_events(&events);
    match r {
        Err(ScanError::MetadataUnavailable { path }) => {
            assert_eq!(path, "C:\\Users\\a\\OneDrive\\bad.txt");
        }
        _ => panic!("expected MetadataUnavailable"),
    }
    assert_eq!(scan.get_count(), 1);
    assert_eq!(scan.get_size(), 100);
}

#[test]
fn scan_result_getters() {
    let t = ft(1_234_567_890);
    let e = ScanResult::new(String::from("C:\\Users\\a\\OneDrive\\doc.txt"), 0x20, 0, t, 42);
    assert_eq!(e.get_path(), "C:\\Users\\a\\OneDrive\\doc.txt");
    assert_eq!(e.get_attributes(), 0x20);
    assert_eq!(e.get_reparse_tag(), 0);
    assert_eq!(e.get_last_modified(), t);
    assert_eq!(e.get_size(), 42);
}

#[test]
fn scan_error_messages() {
    let m = ScanError::MetadataUnavailable { path: String::from("p.txt") }.message();
    assert_eq!(m, "metadata unavailable: p.txt");
    let t = ScanError::TraversalFailed { cause: String::from("io") }.message();
    assert_eq!(t, "read error: io");
}
