//! Tests for the download request and the service-level helpers.

use ia_get::config::Config;
use ia_get::download_service::{split_and_trim, DownloadRequest};

#[test]
fn test_download_request_default() {
    let request = DownloadRequest::default();
    assert_eq!(request.concurrent_downloads, 4);
    assert!(request.enable_compression);
    assert!(!request.auto_decompress);
    assert!(request.verify_md5);
    assert!(request.preserve_mtime);
    assert!(!request.dry_run);
}

#[test]
fn test_download_request_from_config() {
    let config = Config {
        concurrent_downloads: 8,
        default_compress: false,
        default_decompress: true,
        default_dry_run: true,
        default_verbose: true,
        default_resume: false,
        ..Default::default()
    };

    let request = DownloadRequest::from_config(
        &config,
        "test-archive".to_string(),
        "/tmp/test".to_string(),
    );

    assert_eq!(request.identifier, "test-archive");
    assert_eq!(request.output_dir, "/tmp/test".to_string());
    assert_eq!(request.concurrent_downloads, 8);
    assert!(!request.enable_compression);
    assert!(request.auto_decompress);
    assert!(request.dry_run);
    assert!(request.verbose);
    assert!(!request.resume);
}

#[test]
fn test_parse_sizes() {
    let mut request = DownloadRequest::default();
    request.min_file_size = "1MB".to_string();
    request.max_file_size = Some("100MB".to_string());

    let (min_size, max_size) = request.get_parsed_sizes().unwrap();
    assert_eq!(min_size, Some(1_048_576));
    assert_eq!(max_size, Some(104_857_600));
}

#[test]
fn test_parse_sizes_empty_min() {
    let request = DownloadRequest::default();
    let (min_size, max_size) = request.get_parsed_sizes().unwrap();
    assert_eq!(min_size, None);
    assert_eq!(max_size, None);
}

#[test]
fn test_parse_sizes_invalid() {
    let mut request = DownloadRequest::default();
    request.min_file_size = "notasize".to_string();
    assert!(request.get_parsed_sizes().is_err());
}

#[test]
fn test_split_and_trim_formats() {
    let parts = split_and_trim(" pdf , txt ,epub");
    assert_eq!(parts, vec!["pdf".to_string(), "txt".to_string(), "epub".to_string()]);
}

#[test]
fn test_split_and_trim_single() {
    let parts = split_and_trim("gzip");
    assert_eq!(parts, vec!["gzip".to_string()]);
}

#[test]
fn test_split_and_trim_empty() {
    let parts = split_and_trim("");
    assert_eq!(parts, vec!["".to_string()]);
}

#[test]
fn test_from_config_decompress_formats() {
    let config = Config {
        default_decompress_formats: Some("gzip, bzip2".to_string()),
        ..Default::default()
    };
    let request = DownloadRequest::from_config(&config, "x".to_string(), ".".to_string());
    assert_eq!(request.decompress_formats, vec!["gzip".to_string(), "bzip2".to_string()]);
}
