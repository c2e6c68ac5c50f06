use filesplit::error::FileSplitError;
use filesplit::merger::Merger;

#[test]
fn test_merger_creation() {
    let merger = Merger::new();
    let _ = merger;
}

#[test]
fn merger_test_get_split_file_path() {
    assert_eq!(
        Merger::get_split_file_path("/tmp/test.txt", 1),
        String::from("/tmp/test.txt.001")
    );
    assert_eq!(
        Merger::get_split_file_path("/tmp/test.txt", 100),
        String::from("/tmp/test.txt.100")
    );
}

#[test]
fn test_merge_files_success() {
    let merger = Merger::new();
    let parts = vec![
        Some(b"First part ".to_vec()),
        Some(b"Second part ".to_vec()),
        Some(b"Third part".to_vec()),
    ];

    let merged = merger.merge_files("test.txt", &parts).unwrap();
    let content = String::from_utf8(merged).unwrap();
    assert_eq!(content, "First part Second part Third part");
}

#[test]
fn test_merge_files_with_gap() {
    let merger = Merger::new();
    let parts = vec![
        Some(b"Part 1 ".to_vec()),
        Some(b"Part 2".to_vec()),
        None,
        Some(b" Part 4".to_vec()),
    ];

    let merged = merger.merge_files("test.txt", &parts).unwrap();
    let content = String::from_utf8(merged).unwrap();
    assert_eq!(content, "Part 1 Part 2");
}

#[test]
fn test_merge_no_split_files() {
    let merger = Merger::new();
    let parts: Vec<Option<Vec<u8>>> = Vec::new();

    let result = merger.merge_files("test.txt", &parts);

    assert!(result.is_err());
    match result.unwrap_err() {
        FileSplitError::NoSplitFiles(_) => (),
        _ => panic!("予期しないエラー型"),
    }
}

#[test]
fn test_merge_single_file() {
    let merger = Merger::new();
    let parts = vec![Some(b"Only one part".to_vec())];

    let merged = merger.merge_files("test.txt", &parts).unwrap();
    let content = String::from_utf8(merged).unwrap();
    assert_eq!(content, "Only one part");
}

#[test]
fn test_merge_empty_files() {
    let merger = Merger::new();
    let parts = vec![Some(Vec::new()), Some(Vec::new())];

    let merged = merger.merge_files("test.txt", &parts).unwrap();
    let content = String::from_utf8(merged).unwrap();
    assert_eq!(content, "");
}

#[test]
fn test_merge_large_index() {
    let merger = Merger::new();
    let mut parts: Vec<Option<Vec<u8>>> = vec![None; 999];
    parts[998] = Some(b"File 999".to_vec());

    let result = merger.merge_files("test.txt", &parts);
    assert!(result.is_err());
}

#[test]
fn test_merge_error_names_base_path() {
    let merger = Merger::new();
    let parts: Vec<Option<Vec<u8>>> = vec![None];
    let err = merger.merge_files("archive.bin", &parts).unwrap_err();
    match err {
        FileSplitError::NoSplitFiles(base) => assert_eq!(base, "archive.bin"),
        _ => panic!("予期しないエラー型"),
    }
}
