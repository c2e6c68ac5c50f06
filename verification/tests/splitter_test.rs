use filesplit::error::FileSplitError;
use filesplit::splitter::Splitter;

#[test]
fn test_splitter_creation() {
    let splitter = Splitter::new(1024);
    assert_eq!(splitter.chunk_size, 1024);
}

#[test]
fn test_split_file_exact_chunks() {
    let data = b"0123456789abcdefghij1234567890".to_vec();

    let splitter = Splitter::new(10);
    let parts = splitter.split_file("test.txt", Some(&data)).unwrap();

    assert_eq!(parts.len(), 3);
    assert_eq!(parts[0], b"0123456789".to_vec());
    assert_eq!(parts[1], b"abcdefghij".to_vec());
    assert_eq!(parts[2], b"1234567890".to_vec());
}

#[test]
fn test_split_file_with_remainder() {
    let data = b"0123456789abcdefghij12345".to_vec();

    let splitter = Splitter::new(10);
    let parts = splitter.split_file("test.txt", Some(&data)).unwrap();

    assert_eq!(parts.len(), 3);
    assert_eq!(parts[0], b"0123456789".to_vec());
    assert_eq!(parts[1], b"abcdefghij".to_vec());
    assert_eq!(parts[2], b"12345".to_vec());
}

#[test]
fn splitter_test_split_empty_file() {
    let data = Vec::new();

    let splitter = Splitter::new(10);
    let parts = splitter.split_file("test.txt", Some(&data)).unwrap();

    assert_eq!(parts.len(), 0);
}

#[test]
fn test_split_small_file() {
    let data = b"small".to_vec();

    let splitter = Splitter::new(100);
    let parts = splitter.split_file("test.txt", Some(&data)).unwrap();

    assert_eq!(parts.len(), 1);
    assert_eq!(parts[0], b"small".to_vec());
}

#[test]
fn test_split_nonexistent_file() {
    let splitter = Splitter::new(1024);
    let result = splitter.split_file("/nonexistent/file.txt", None);
    assert!(result.is_err());
}

#[test]
fn test_split_nonexistent_file_error_kind() {
    let splitter = Splitter::new(1024);
    let err = splitter.split_file("/nonexistent/file.txt", None).unwrap_err();
    match err {
        FileSplitError::FileNotFound(path) => assert_eq!(path, "/nonexistent/file.txt"),
        _ => panic!("予期しないエラー型"),
    }
}

#[test]
fn test_split_zero_chunk_size() {
    let data = b"some data".to_vec();
    let splitter = Splitter::new(0);
    let err = splitter.split_file("test.txt", Some(&data)).unwrap_err();
    assert!(matches!(err, FileSplitError::InvalidSize(_)));
}
