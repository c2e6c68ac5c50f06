use filesplit::error::FileSplitError;

fn assert_send<T: Send>() {}

fn assert_sync<T: Sync>() {}

#[test]
fn test_error_display() {
    let err = FileSplitError::InvalidSize("abc".to_string());
    assert_eq!(err.message(), "無効なサイズ指定: abc");

    let err = FileSplitError::FileNotFound("/path/to/file".to_string());
    assert_eq!(err.message(), "ファイルが見つかりません: /path/to/file");

    let err = FileSplitError::NoSplitFiles("test.txt".to_string());
    assert_eq!(
        err.message(),
        "分割ファイルが見つかりません: test.txt.001, test.txt.002, ..."
    );
}

#[test]
fn test_io_error_message_prefix() {
    let io_error = std::io::Error::new(std::io::ErrorKind::Other, "disk trouble");
    let err = FileSplitError::from(io_error);
    assert!(err.message().starts_with("I/Oエラー: "));
}

#[test]
fn test_from_io_error() {
    let io_error = std::io::Error::new(std::io::ErrorKind::NotFound, "test error");
    let file_split_error: FileSplitError = io_error.into();

    match file_split_error {
        FileSplitError::IoError(_) => (),
        _ => panic!("予期しないエラー型"),
    }
}

#[test]
fn test_error_is_send_sync() {
    assert_send::<FileSplitError>();
    assert_sync::<FileSplitError>();
}
