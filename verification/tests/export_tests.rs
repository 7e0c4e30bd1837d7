use mocha::export::export_file;
use mocha::tail::{finish_read, plan_read, FetchOutcome, FileMeta, FileResult, ReadPlan};

#[test]
fn export_rejects_an_empty_path() {
    assert!(export_file(&String::new(), &String::from("text")).is_none());
}

#[test]
fn export_produces_the_exact_bytes() {
    let bytes = export_file(&String::from("out.txt"), &String::from("hello\n")).unwrap();
    assert_eq!(bytes, b"hello\n".to_vec());
}

fn read_back(path: &str, bytes: Vec<u8>) -> String {
    let meta = FileMeta { size: bytes.len() as u64, mtime: None };
    let (shrunk, tail) = match plan_read(path, 0, Some(&meta)) {
        ReadPlan::Fetch { start, len, shrunk, tail } => {
            assert_eq!(start, 0);
            assert_eq!(len, bytes.len() as u64);
            (shrunk, tail)
        }
        ReadPlan::Finished(res) => panic!("expected a fetch, got {:?}", res),
    };
    match finish_read(path, 0, &meta, shrunk, tail, FetchOutcome::Bytes(bytes)) {
        FileResult::Content { content, truncated, .. } => {
            assert!(!truncated);
            content
        }
        FileResult::Failure { error } => panic!("unexpected failure {:?}", error),
    }
}

#[test]
fn exported_content_reads_back_unchanged() {
    let content = String::from("line one\nline two\n");
    let bytes = export_file(&String::from("out.txt"), &content).unwrap();
    assert_eq!(read_back("out.txt", bytes), content);
}

#[test]
fn non_ascii_content_survives_the_round_trip() {
    let content = String::from("caf\u{e9} \u{2192} \u{65e5}\u{672c}\u{8a9e}\nzweite Zeile");
    let bytes = export_file(&String::from("out.txt"), &content).unwrap();
    assert_eq!(read_back("out.txt", bytes), content);
}
