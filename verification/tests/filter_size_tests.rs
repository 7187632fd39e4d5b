//! Tests for size parsing and formatting and for file filtering.

use ia_get::filters::{format_size, parse_size_string};
use ia_get::metadata_storage::{apply_file_filters, ArchiveFile};

fn create_test_file(name: &str, size: Option<u64>, format: Option<&str>) -> ArchiveFile {
    ArchiveFile {
        name: name.to_string(),
        source: "original".to_string(),
        mtime: None,
        size,
        format: format.map(|s| s.to_string()),
        rotation: None,
        md5: None,
        crc32: None,
        sha1: None,
        btih: None,
        summation: None,
        original: None,
    }
}

fn strings(items: &[&str]) -> Vec<String> {
    items.iter().map(|s| s.to_string()).collect()
}

#[test]
fn test_parse_size_string_basic() {
    let test_cases = vec![("100", 100), ("1024", 1024), ("0", 0)];
    for (input, expected) in test_cases {
        let result = parse_size_string(input);
        assert!(result.is_ok(), "should parse size string {}", input);
        assert_eq!(result.unwrap(), expected);
    }
}

#[test]
fn test_parse_size_string_byte_units() {
    let test_cases = vec![
        ("100B", 100),
        ("1KB", 1024),
        ("2KB", 2048),
        ("1MB", 1024 * 1024),
        ("2MB", 2 * 1024 * 1024),
        ("1GB", 1024 * 1024 * 1024),
        ("2GB", 2 * 1024 * 1024 * 1024),
        ("1TB", 1024_u64.pow(4)),
    ];
    for (input, expected) in test_cases {
        let result = parse_size_string(input);
        assert!(result.is_ok(), "should parse size string {}", input);
        assert_eq!(result.unwrap(), expected, "parsed size should match for {}", input);
    }
}

#[test]
fn test_parse_size_string_decimal() {
    let test_cases = vec![
        ("1.5KB", 1536),
        ("2.5MB", 2621440),
        ("1.25GB", 1342177280),
        ("0.5KB", 512),
    ];
    for (input, expected) in test_cases {
        let result = parse_size_string(input);
        assert!(result.is_ok(), "should parse decimal size string {}", input);
        assert_eq!(result.unwrap(), expected, "parsed size should match for {}", input);
    }
}

#[test]
fn test_parse_size_string_case_insensitive() {
    let test_cases = vec![
        ("1kb", 1024),
        ("1KB", 1024),
        ("1Kb", 1024),
        ("1kB", 1024),
        ("1mb", 1024 * 1024),
        ("1MB", 1024 * 1024),
        ("1Mb", 1024 * 1024),
        ("1mB", 1024 * 1024),
    ];
    for (input, expected) in test_cases {
        let result = parse_size_string(input);
        assert!(result.is_ok(), "should parse case-insensitive size string {}", input);
        assert_eq!(result.unwrap(), expected);
    }
}

#[test]
fn test_parse_size_string_invalid() {
    let invalid_inputs = vec![
        "",
        "invalid",
        "1XX",
        "-1KB",
        "1.KB",
        ".5KB",
        "1 KB",
        "KB1",
        "1KBB",
    ];
    for input in invalid_inputs {
        let result = parse_size_string(input);
        assert!(result.is_err(), "should fail to parse invalid size string {}", input);
    }
}

#[test]
fn test_parse_size_string_edge_cases() {
    assert!(parse_size_string("999TB").is_ok());
    assert_eq!(parse_size_string("0B").unwrap(), 0);
    assert_eq!(parse_size_string("0KB").unwrap(), 0);
    assert!(parse_size_string("0.001KB").is_ok());
}

#[test]
fn test_format_size_basic() {
    let test_cases = vec![
        (0, "0 B"),
        (1, "1 B"),
        (512, "512 B"),
        (1023, "1023 B"),
        (1024, "1.0 KB"),
        (1536, "1.5 KB"),
        (1024 * 1024, "1.0 MB"),
        (1024 * 1024 * 1024, "1.0 GB"),
        (1024_u64.pow(4), "1.0 TB"),
    ];
    for (input, expected) in test_cases {
        let result = format_size(input);
        assert_eq!(result, expected, "size {} should format to {}", input, expected);
    }
}

#[test]
fn test_format_size_complex() {
    let test_cases = vec![
        (1536, "1.5 KB"),
        (2560, "2.5 KB"),
        (1048576 + 524288, "1.5 MB"),
        (3 * 1024 * 1024 * 1024, "3.0 GB"),
    ];
    for (input, expected) in test_cases {
        let result = format_size(input);
        assert_eq!(result, expected, "size {} should format to {}", input, expected);
    }
}

#[test]
fn test_format_size_precision() {
    assert_eq!(format_size(1024 + 100), "1.1 KB");
    assert_eq!(format_size(1024 + 512), "1.5 KB");
    assert_eq!(format_size(1024 + 1000), "2.0 KB");
}

#[test]
fn test_filter_files_by_extension() {
    let files = vec![
        create_test_file("document.pdf", Some(1024), Some("PDF")),
        create_test_file("text.txt", Some(512), Some("Text")),
        create_test_file("image.jpg", Some(2048), Some("JPEG")),
        create_test_file("archive.zip", Some(5000), Some("ZIP")),
        create_test_file("readme.md", Some(256), None),
    ];
    let filtered = apply_file_filters(&files, &strings(&["pdf", "txt"]), &vec![], None, None);
    assert_eq!(filtered.len(), 2);
    let names: Vec<&str> = filtered.iter().map(|f| f.name.as_str()).collect();
    assert!(names.contains(&"document.pdf"));
    assert!(names.contains(&"text.txt"));
}

#[test]
fn test_filter_files_exclude_extensions() {
    let files = vec![
        create_test_file("document.pdf", Some(1024), Some("PDF")),
        create_test_file("image.jpg", Some(2048), Some("JPEG")),
        create_test_file("metadata.json", Some(256), Some("JSON")),
        create_test_file("log.txt", Some(128), Some("Text")),
    ];
    let filtered = apply_file_filters(&files, &vec![], &strings(&["json", "txt"]), None, None);
    assert_eq!(filtered.len(), 2);
    let names: Vec<&str> = filtered.iter().map(|f| f.name.as_str()).collect();
    assert!(names.contains(&"document.pdf"));
    assert!(names.contains(&"image.jpg"));
}

#[test]
fn test_filter_files_by_size() {
    let files = vec![
        create_test_file("small.txt", Some(500), Some("Text")),
        create_test_file("medium.pdf", Some(1024 * 500), Some("PDF")),
        create_test_file("large.zip", Some(1024 * 1024 * 5), Some("ZIP")),
        create_test_file("huge.tar", Some(1024 * 1024 * 1024), Some("TAR")),
    ];
    let filtered = apply_file_filters(&files, &vec![], &vec![], None, Some(1024 * 1024));
    assert_eq!(filtered.len(), 2);
    let names: Vec<&str> = filtered.iter().map(|f| f.name.as_str()).collect();
    assert!(names.contains(&"small.txt"));
    assert!(names.contains(&"medium.pdf"));
}

#[test]
fn test_filter_files_combined() {
    let files = vec![
        create_test_file("small.pdf", Some(500), Some("PDF")),
        create_test_file("large.pdf", Some(1024 * 1024 * 5), Some("PDF")),
        create_test_file("small.txt", Some(256), Some("Text")),
        create_test_file("medium.pdf", Some(1024 * 500), Some("PDF")),
    ];
    let filtered = apply_file_filters(
        &files,
        &strings(&["pdf"]),
        &vec![],
        None,
        Some(1024 * 1024),
    );
    assert_eq!(filtered.len(), 2);
    let names: Vec<&str> = filtered.iter().map(|f| f.name.as_str()).collect();
    assert!(names.contains(&"small.pdf"));
    assert!(names.contains(&"medium.pdf"));
}

#[test]
fn test_filter_files_no_criteria() {
    let files = vec![
        create_test_file("file1.pdf", Some(1024), Some("PDF")),
        create_test_file("file2.txt", Some(512), Some("Text")),
        create_test_file("file3.jpg", Some(2048), Some("JPEG")),
    ];
    let files_len = files.len();
    let filtered = apply_file_filters(&files, &vec![], &vec![], None, None);
    assert_eq!(filtered.len(), files_len);
}

#[test]
fn test_filter_files_no_size_info() {
    let files = vec![
        create_test_file("file1.pdf", None, Some("PDF")),
        create_test_file("file2.txt", Some(512), Some("Text")),
        create_test_file("file3.jpg", None, Some("JPEG")),
    ];
    let filtered = apply_file_filters(&files, &vec![], &vec![], None, Some(1024));
    assert_eq!(filtered.len(), 3, "files with no size should pass size checks");
}

#[test]
fn test_filter_files_case_insensitive() {
    let files = vec![
        create_test_file("document.PDF", Some(1024), Some("pdf")),
        create_test_file("text.TXT", Some(512), Some("Text")),
        create_test_file("image.JPG", Some(2048), Some("jpeg")),
    ];
    let filtered = apply_file_filters(&files, &strings(&["pdf", "txt"]), &vec![], None, None);
    assert_eq!(filtered.len(), 2);
}

#[test]
fn test_extension_matching_dual_check() {
    let files = vec![
        create_test_file("document.dat", Some(1024), Some("PDF")),
        create_test_file("text.pdf", Some(512), Some("Binary")),
        create_test_file("book.pdf", Some(2048), Some("PDF")),
    ];
    let filtered = apply_file_filters(&files, &strings(&["pdf"]), &vec![], None, None);
    assert_eq!(filtered.len(), 3, "should match on format field or file extension");
}

#[test]
fn test_multiple_extension_filtering() {
    let files = vec![
        create_test_file("doc.pdf", Some(1024), Some("PDF")),
        create_test_file("text.txt", Some(512), Some("Text")),
        create_test_file("image.jpg", Some(2048), Some("JPEG")),
        create_test_file("video.mp4", Some(5000), Some("MP4")),
        create_test_file("archive.zip", Some(3000), Some("ZIP")),
    ];
    let filtered = apply_file_filters(
        &files,
        &strings(&["pdf", "txt", "jpg"]),
        &vec![],
        None,
        None,
    );
    assert_eq!(filtered.len(), 3);
}

#[test]
fn test_complex_file_extensions() {
    let files = vec![
        create_test_file("archive.tar.gz", Some(1024), Some("gzip")),
        create_test_file("backup.tar.bz2", Some(2048), Some("bzip2")),
        create_test_file("data.json.gz", Some(512), Some("gzip")),
        create_test_file("simple.txt", Some(256), Some("text")),
    ];
    let filtered = apply_file_filters(&files, &strings(&["gz"]), &vec![], None, None);
    assert_eq!(filtered.len(), 2, "should match files whose extension is gz");
}

#[test]
fn test_filter_empty_file_list() {
    let files: Vec<ArchiveFile> = vec![];
    let filtered = apply_file_filters(&files, &strings(&["pdf"]), &vec![], None, None);
    assert_eq!(filtered.len(), 0);
}

#[test]
fn test_filter_files_empty_names() {
    let files = vec![
        create_test_file("", Some(1024), Some("PDF")),
        create_test_file("normal.pdf", Some(512), Some("PDF")),
    ];
    let filtered = apply_file_filters(&files, &strings(&["pdf"]), &vec![], None, None);
    assert_eq!(filtered.len(), 2, "the empty name still carries the PDF format tag");
}

#[test]
fn test_very_large_size_filters() {
    let files = vec![
        create_test_file("huge.tar", Some(1024 * 1024 * 1024 * 1024), Some("TAR")),
    ];
    let max = parse_size_string("999TB").unwrap();
    let filtered = apply_file_filters(&files, &vec![], &vec![], None, Some(max));
    assert_eq!(filtered.len(), 1);
}

#[test]
fn test_whitespace_in_extension_lists() {
    let files = vec![
        create_test_file("doc.pdf", Some(1024), Some("PDF")),
        create_test_file("text.txt", Some(512), Some("Text")),
    ];
    let entries = ia_get::download_service::split_and_trim(" pdf , txt ");
    let filtered = apply_file_filters(&files, &entries, &vec![], None, None);
    assert_eq!(filtered.len(), 2);
}

#[test]
fn test_matches_format_filter_contains() {
    let file = create_test_file("x.bin", Some(1), Some("Compressed ZIP"));
    assert!(file.matches_format_filter(&strings(&["zip"])));
    assert!(!file.matches_format_filter(&strings(&["pdf"])));
    assert!(file.matches_format_filter(&vec![]));
}

#[test]
fn test_matches_format_filter_extension() {
    // a file without a format tag still matches on its extension
    let file = create_test_file("a.pdf", Some(1), None);
    assert!(file.matches_format_filter(&strings(&["pdf"])));
    assert!(file.matches_format_filter(&strings(&["PDF"])));
    assert!(!file.matches_format_filter(&strings(&["txt"])));
}

#[test]
fn test_meets_size_requirements() {
    let file = create_test_file("x.bin", Some(100), None);
    assert!(file.meets_size_requirements(Some(50), Some(150)));
    assert!(!file.meets_size_requirements(Some(150), None));
    assert!(!file.meets_size_requirements(None, Some(50)));
    let unsized_file = create_test_file("y.bin", None, None);
    assert!(unsized_file.meets_size_requirements(Some(1), Some(2)));
}

#[test]
fn test_validate_md5_case_insensitive() {
    let mut file = create_test_file("x.bin", Some(1), None);
    file.md5 = Some("ABCDEF0123".to_string());
    assert!(file.validate_md5("abcdef0123"));
    assert!(!file.validate_md5("abcdef0124"));
    let without = create_test_file("y.bin", Some(1), None);
    assert!(without.validate_md5("anything"));
}

#[test]
fn test_get_download_url() {
    let file = create_test_file("folder/item.pdf", Some(1), None);
    let url = file.get_download_url("ia800100.us.archive.org", "/1/items/test");
    assert_eq!(url, "https://ia800100.us.archive.org/1/items/test/folder/item.pdf");
}
