use mocha::tail::{finish_read, plan_read, FetchOutcome, FileMeta, FileResult, ReadError,
    ReadPlan, MAX_READ_SIZE};

fn meta(size: u64, mtime: Option<i64>) -> FileMeta {
    FileMeta { size, mtime }
}

fn expect_fetch(plan: ReadPlan) -> (u64, u64, bool, bool) {
    match plan {
        ReadPlan::Fetch { start, len, shrunk, tail } => (start, len, shrunk, tail),
        ReadPlan::Finished(res) => panic!("expected a fetch, got {:?}", res),
    }
}

fn expect_content(res: FileResult) -> (String, String, String, u64, u64, Option<i64>, bool) {
    match res {
        FileResult::Content { content, path, name, size, prev_offset, mtime, truncated } => {
            (content, path, name, size, prev_offset, mtime, truncated)
        }
        FileResult::Failure { error } => panic!("expected content, got {:?}", error),
    }
}

fn expect_failure(res: FileResult) -> ReadError {
    match res {
        FileResult::Failure { error } => error,
        FileResult::Content { .. } => panic!("expected a failure"),
    }
}

#[test]
fn initial_read_of_small_file() {
    let m = meta(11, Some(1234));
    let plan = plan_read("dir/log.txt", 0, Some(&m));
    let (start, len, shrunk, tail) = expect_fetch(plan);
    assert_eq!((start, len, shrunk, tail), (0, 11, false, false));
    let bytes = b"hello\nworld".to_vec();
    let res = finish_read("dir/log.txt", 0, &m, shrunk, tail, FetchOutcome::Bytes(bytes));
    let (content, path, name, size, prev, mtime, truncated) = expect_content(res);
    assert_eq!(content, "hello\nworld");
    assert_eq!(path, "dir/log.txt");
    assert_eq!(name, "log.txt");
    assert_eq!(size, 11);
    assert_eq!(prev, 0);
    assert_eq!(mtime, Some(1234));
    assert!(!truncated);
}

#[test]
fn reread_at_reported_size_returns_nothing_new() {
    let bytes = b"alpha\nbeta".to_vec();
    let m = meta(bytes.len() as u64, Some(9));
    let (start, len, shrunk, tail) = expect_fetch(plan_read("log.txt", 0, Some(&m)));
    assert_eq!((start, len), (0, 10));
    let first = finish_read("log.txt", 0, &m, shrunk, tail, FetchOutcome::Bytes(bytes));
    let (_, _, _, size, _, _, _) = expect_content(first);
    match plan_read("log.txt", size, Some(&m)) {
        ReadPlan::Finished(second) => {
            let (content, _, _, _, _, _, truncated) = expect_content(second);
            assert_eq!(content, "");
            assert!(!truncated);
        }
        ReadPlan::Fetch { .. } => panic!("nothing new to fetch"),
    }
}

#[test]
fn unchanged_file_answers_at_once() {
    let m = meta(11, Some(7));
    match plan_read("log.txt", 11, Some(&m)) {
        ReadPlan::Finished(res) => {
            let (content, _, name, size, prev, _, truncated) = expect_content(res);
            assert_eq!(content, "");
            assert_eq!(name, "log.txt");
            assert_eq!(size, 11);
            assert_eq!(prev, 11);
            assert!(!truncated);
        }
        ReadPlan::Fetch { .. } => panic!("an unchanged file needs no fetch"),
    }
}

#[test]
fn differential_read_returns_new_bytes() {
    // A file of size 11 was appended with 5 bytes.
    let m = meta(16, None);
    let (start, len, shrunk, tail) = expect_fetch(plan_read("log.txt", 11, Some(&m)));
    assert_eq!((start, len, shrunk, tail), (11, 5, false, false));
    let res = finish_read("log.txt", 11, &m, shrunk, tail, FetchOutcome::Bytes(b"\nmore".to_vec()));
    let (content, _, _, size, prev, _, truncated) = expect_content(res);
    assert_eq!(content, "\nmore");
    assert_eq!(size, 16);
    assert_eq!(prev, 11);
    assert!(!truncated);
}

#[test]
fn shrunk_file_is_reread_from_start() {
    // The caller had consumed 20 bytes; the file now holds 5.
    let m = meta(5, None);
    let (start, len, shrunk, tail) = expect_fetch(plan_read("log.txt", 20, Some(&m)));
    assert_eq!((start, len, shrunk, tail), (0, 5, true, false));
    let res = finish_read("log.txt", 20, &m, shrunk, tail, FetchOutcome::Bytes(b"fresh".to_vec()));
    let (content, _, _, size, prev, _, truncated) = expect_content(res);
    assert_eq!(content, "fresh");
    assert_eq!(size, 5);
    assert_eq!(prev, 20);
    assert!(truncated);
}

#[test]
fn shrink_to_exactly_the_offset_is_unchanged() {
    let m = meta(5, None);
    match plan_read("log.txt", 5, Some(&m)) {
        ReadPlan::Finished(res) => {
            let (content, _, _, _, _, _, truncated) = expect_content(res);
            assert_eq!(content, "");
            assert!(!truncated);
        }
        ReadPlan::Fetch { .. } => panic!("equality must be checked before the shrink check"),
    }
}

#[test]
fn oversized_initial_read_plans_a_tail() {
    let m = meta(MAX_READ_SIZE + 10, None);
    let (start, len, shrunk, tail) = expect_fetch(plan_read("big.log", 0, Some(&m)));
    assert_eq!(start, 10);
    assert_eq!(len, MAX_READ_SIZE);
    assert!(!shrunk);
    assert!(tail);
}

#[test]
fn tail_read_is_aligned_to_a_line_boundary() {
    let m = meta(MAX_READ_SIZE + 10, None);
    let res = finish_read(
        "big.log",
        0,
        &m,
        false,
        true,
        FetchOutcome::Bytes(b"rtial line\nsecond\nthird".to_vec()),
    );
    let (content, _, _, _, _, _, truncated) = expect_content(res);
    assert_eq!(content, "second\nthird");
    assert!(truncated);
}

#[test]
fn tail_read_without_newline_keeps_the_fragment() {
    let m = meta(MAX_READ_SIZE + 10, None);
    let res = finish_read("big.log", 0, &m, false, true, FetchOutcome::Bytes(b"no boundary".to_vec()));
    let (content, _, _, _, _, _, truncated) = expect_content(res);
    assert_eq!(content, "no boundary");
    assert!(truncated);
}

#[test]
fn differential_read_is_never_capped() {
    // Growth beyond the cap on a polling read is returned in full.
    let m = meta(MAX_READ_SIZE + 100, None);
    let (start, len, shrunk, tail) = expect_fetch(plan_read("big.log", 50, Some(&m)));
    assert_eq!(start, 50);
    assert_eq!(len, MAX_READ_SIZE + 50);
    assert!(!shrunk);
    assert!(!tail);
}

#[test]
fn empty_path_is_a_validation_error() {
    let m = meta(5, None);
    match plan_read("", 0, Some(&m)) {
        ReadPlan::Finished(res) => {
            let error = expect_failure(res);
            assert!(matches!(error, ReadError::EmptyPath));
            assert_eq!(error.message(), "No path provided");
        }
        ReadPlan::Fetch { .. } => panic!("an empty path must be rejected"),
    }
}

#[test]
fn missing_file_cannot_be_opened() {
    match plan_read("gone.log", 7, None) {
        ReadPlan::Finished(res) => {
            let error = expect_failure(res);
            assert!(matches!(error, ReadError::CannotOpen));
            assert_eq!(error.message(), "Cannot open file");
        }
        ReadPlan::Fetch { .. } => panic!("a failed probe must be rejected"),
    }
}

#[test]
fn fetch_failures_surface_as_errors() {
    let m = meta(5, None);
    let open_err = expect_failure(finish_read("log.txt", 0, &m, false, false, FetchOutcome::OpenFailed));
    assert!(matches!(open_err, ReadError::CannotOpen));
    assert_eq!(open_err.message(), "Cannot open file");
    let seek_err = expect_failure(finish_read("log.txt", 2, &m, false, false, FetchOutcome::SeekFailed));
    assert!(matches!(seek_err, ReadError::CannotSeek));
    assert_eq!(seek_err.message(), "Cannot seek in file");
}

#[test]
fn malformed_bytes_are_decoded_lossily() {
    let m = meta(4, None);
    let res = finish_read(
        "bin.log",
        0,
        &m,
        false,
        false,
        FetchOutcome::Bytes(vec![0xff, 0xfe, b'o', b'k']),
    );
    let (content, _, _, _, _, _, _) = expect_content(res);
    assert_eq!(content, "\u{fffd}\u{fffd}ok");
}
