use filesplit::cli::Cli;
use filesplit::config::Mode;
use filesplit::error::FileSplitError;
use filesplit::merger::Merger;
use filesplit::splitter::Splitter;

#[test]
fn test_split_and_merge_integration() {
    let test_data = "0123456789".repeat(10).into_bytes();

    let splitter = Splitter::new(30);
    let parts = splitter.split_file("test.txt", Some(&test_data)).unwrap();

    assert_eq!(parts.len(), 4);
    assert_eq!(parts[0].len(), 30);
    assert_eq!(parts[1].len(), 30);
    assert_eq!(parts[2].len(), 30);
    assert_eq!(parts[3].len(), 10);

    let slots: Vec<Option<Vec<u8>>> = parts.iter().map(|p| Some(p.clone())).collect();
    let merged = Merger::new().merge_files("test.txt", &slots).unwrap();
    assert_eq!(merged, test_data);
}

#[test]
fn integration_test_test_split_empty_file() {
    let data = Vec::new();
    let splitter = Splitter::new(100);
    let parts = splitter.split_file("test.txt", Some(&data)).unwrap();
    assert_eq!(parts.len(), 0);
}

#[test]
fn test_merge_nonexistent_files() {
    let parts: Vec<Option<Vec<u8>>> = Vec::new();
    let result = Merger::new().merge_files("nonexistent.txt", &parts);
    assert!(result.is_err());

    let err = result.unwrap_err();
    assert!(err.message().contains("分割ファイルが見つかりません"));
}

#[test]
fn test_invalid_size_argument() {
    let cli = Cli {
        size: Some("abc".to_string()),
        merge: false,
        file_path: "test.txt".to_string(),
    };
    let result = cli.parse_args();
    assert!(result.is_err());

    let err = result.unwrap_err();
    assert!(err.message().contains("有効な数値ではありません"));
}

#[test]
fn test_split_binary_file() {
    let mut test_data = Vec::new();
    for i in 0..=255u8 {
        test_data.push(i);
    }

    let splitter = Splitter::new(100);
    let parts = splitter.split_file("test.bin", Some(&test_data)).unwrap();
    assert_eq!(parts.len(), 3);
    assert_eq!(parts[2].len(), 56);

    let slots: Vec<Option<Vec<u8>>> = parts.iter().map(|p| Some(p.clone())).collect();
    let merged = Merger::new().merge_files("test.bin", &slots).unwrap();
    assert_eq!(merged, test_data);
}

#[test]
fn test_parse_args_split_mode() {
    let cli = Cli {
        size: Some("1024".to_string()),
        merge: false,
        file_path: "data.bin".to_string(),
    };
    let config = cli.parse_args().unwrap();
    assert_eq!(config.file_path, "data.bin");
    match config.mode {
        Mode::Split { size } => assert_eq!(size, 1024),
        _ => panic!("予期しないモード"),
    }
}

#[test]
fn test_parse_args_merge_mode() {
    let cli = Cli {
        size: None,
        merge: true,
        file_path: "data.bin".to_string(),
    };
    let config = cli.parse_args().unwrap();
    assert_eq!(config.file_path, "data.bin");
    assert!(matches!(config.mode, Mode::Merge));
}

#[test]
fn test_parse_args_missing_size() {
    let cli = Cli {
        size: None,
        merge: false,
        file_path: "data.bin".to_string(),
    };
    let err = cli.parse_args().unwrap_err();
    match err {
        FileSplitError::InvalidSize(msg) => {
            assert_eq!(msg, "分割モードでは -s オプションでサイズを指定してください");
        }
        _ => panic!("予期しないエラー型"),
    }
}

#[test]
fn test_resplit_same_input_is_identical() {
    let data = b"the quick brown fox jumps over the lazy dog".to_vec();
    let splitter = Splitter::new(8);
    let first = splitter.split_file("fox.txt", Some(&data)).unwrap();
    let second = splitter.split_file("fox.txt", Some(&data)).unwrap();
    assert_eq!(first, second);
}
