use filesplit::writer::SplitFileWriter;

#[test]
fn test_split_file_writer_creation() {
    let writer = SplitFileWriter::new("/tmp/test.txt");
    assert_eq!(writer.current_index, 1);
    assert_eq!(writer.base_path, String::from("/tmp/test.txt"));
}

#[test]
fn writer_test_get_split_file_path() {
    let writer = SplitFileWriter::new("/tmp/test.txt");

    assert_eq!(
        writer.get_split_file_path(1),
        String::from("/tmp/test.txt.001")
    );
    assert_eq!(
        writer.get_split_file_path(10),
        String::from("/tmp/test.txt.010")
    );
    assert_eq!(
        writer.get_split_file_path(999),
        String::from("/tmp/test.txt.999")
    );
}

#[test]
fn test_writer_wide_indices() {
    let writer = SplitFileWriter::new("report.csv");
    assert_eq!(writer.get_split_file_path(37), String::from("report.csv.037"));
    assert_eq!(writer.get_split_file_path(1000), String::from("report.csv.1000"));
    assert_eq!(writer.get_split_file_path(1042), String::from("report.csv.1042"));
}

#[test]
fn test_writer_advance() {
    let mut writer = SplitFileWriter::new("test.txt");
    assert_eq!(writer.get_split_file_path(writer.current_index), "test.txt.001");
    writer.advance();
    assert_eq!(writer.current_index, 2);
    assert_eq!(writer.get_split_file_path(writer.current_index), "test.txt.002");
    writer.advance();
    assert_eq!(writer.current_index, 3);
    assert_eq!(writer.base_path, String::from("test.txt"));
}
