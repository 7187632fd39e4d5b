//! Tests for URL validation, identifier extraction, and URL construction.

use ia_get::metadata::get_json_url;
use ia_get::url_processing::{
    construct_download_url, construct_metadata_url, extract_identifier_from_url, is_archive_url,
    validate_and_process_url,
};

#[test]
fn test_validate_archive_urls() {
    let valid_urls = vec![
        "https://archive.org/details/example",
        "https://web.archive.org/details/example",
        "http://archive.org/details/test123",
        "https://archive.org/details/my-awesome-book",
        "https://archive.org/details/test_with_underscores",
    ];
    for url in valid_urls {
        let result = validate_and_process_url(url);
        assert!(result.is_ok(), "URL {} should be valid", url);
        assert_eq!(result.unwrap(), url, "valid URL should come back unchanged");
    }
}

#[test]
fn test_validate_invalid_urls() {
    // a non-archive host is rejected even when the rest looks plausible;
    // a bare word such as a lone identifier is accepted by design, so only
    // inputs that are neither archive URLs nor identifiers appear here
    let invalid_urls = vec![
        "https://example.com/test",
        "https://google.com",
        "http://not-archive.org/details/test",
        "ftp://archive.org/details/test",
        "",
        "   ",
    ];
    for url in invalid_urls {
        let result = validate_and_process_url(url);
        assert!(result.is_err(), "URL {} should be invalid", url);
    }
}

#[test]
fn test_process_identifiers() {
    let test_cases = vec![
        ("example", "https://archive.org/details/example"),
        ("test123", "https://archive.org/details/test123"),
        ("my-book", "https://archive.org/details/my-book"),
        ("test_underscores", "https://archive.org/details/test_underscores"),
    ];
    for (identifier, expected_url) in test_cases {
        let result = validate_and_process_url(identifier);
        assert!(result.is_ok(), "identifier {} should be valid", identifier);
        assert_eq!(result.unwrap(), expected_url);
    }
}

#[test]
fn test_url_validation_edge_cases() {
    assert!(validate_and_process_url("https://archive.org/details/test/extra/path").is_ok());
    assert!(validate_and_process_url("https://archive.org/details/test?param=value").is_ok());
    assert!(validate_and_process_url("https://archive.org/details/test#fragment").is_ok());
    assert!(validate_and_process_url("https://ARCHIVE.ORG/details/test").is_ok());
}

#[test]
fn test_is_archive_url() {
    assert!(is_archive_url("https://archive.org/details/example"));
    assert!(is_archive_url("https://web.archive.org/details/example"));
    assert!(is_archive_url("http://archive.org/details/test"));
    assert!(is_archive_url("https://ARCHIVE.ORG/details/test"));

    assert!(!is_archive_url("https://example.com"));
    assert!(!is_archive_url("https://not-archive.org/details/test"));
    assert!(!is_archive_url("invalid"));
    assert!(!is_archive_url(""));

    assert!(!is_archive_url("archive.org"));
    assert!(!is_archive_url("https://archive.org"));
}

#[test]
fn test_archive_url_format_variations() {
    let valid_formats = vec![
        "https://archive.org/details/test",
        "http://archive.org/details/test",
        "https://web.archive.org/details/test",
        "https://archive.org/details/test/",
        "https://archive.org/details/test/file.pdf",
        "https://archive.org/details/test?tab=about",
    ];
    for url in valid_formats {
        assert!(is_archive_url(url), "URL {} should be detected as archive URL", url);
    }
}

#[test]
fn test_extract_identifier_from_valid_urls() {
    let test_cases = vec![
        ("https://archive.org/details/example", "example"),
        ("https://web.archive.org/details/test123", "test123"),
        ("http://archive.org/details/my-book", "my-book"),
        ("https://archive.org/details/test_underscores", "test_underscores"),
        ("https://archive.org/details/example/", "example"),
        ("https://archive.org/details/example/file.pdf", "example"),
        ("https://archive.org/details/example?tab=about", "example"),
    ];
    for (url, expected_id) in test_cases {
        let result = extract_identifier_from_url(url);
        assert!(result.is_ok(), "should extract identifier from {}", url);
        assert_eq!(result.unwrap(), expected_id);
    }
}

#[test]
fn test_extract_identifier_from_invalid_urls() {
    let invalid_urls = vec![
        "https://example.com/test",
        "https://archive.org",
        "https://archive.org/",
        "https://archive.org/details",
        "https://archive.org/details/",
        "not-a-url",
        "",
    ];
    for url in invalid_urls {
        let result = extract_identifier_from_url(url);
        assert!(result.is_err(), "should fail to extract identifier from {}", url);
    }
}

#[test]
fn test_extract_complex_identifiers() {
    let complex_cases = vec![
        ("https://archive.org/details/item-with-dashes", "item-with-dashes"),
        ("https://archive.org/details/item_with_underscores", "item_with_underscores"),
        ("https://archive.org/details/item123numbers", "item123numbers"),
        ("https://archive.org/details/very-long-identifier-name-here",
            "very-long-identifier-name-here"),
    ];
    for (url, expected_id) in complex_cases {
        let result = extract_identifier_from_url(url);
        assert!(result.is_ok(), "should extract complex identifier from {}", url);
        assert_eq!(result.unwrap(), expected_id);
    }
}

#[test]
fn test_construct_metadata_url() {
    let test_cases = vec![
        ("example", "https://archive.org/metadata/example"),
        ("test123", "https://archive.org/metadata/test123"),
        ("my-book", "https://archive.org/metadata/my-book"),
        ("test_underscores", "https://archive.org/metadata/test_underscores"),
    ];
    for (identifier, expected_url) in test_cases {
        let result = construct_metadata_url(identifier);
        assert_eq!(result, expected_url);
    }
}

#[test]
fn test_construct_download_url() {
    let test_cases = vec![
        ("example", "https://archive.org/download/example"),
        ("test123", "https://archive.org/download/test123"),
        ("my-book", "https://archive.org/download/my-book"),
        ("test_underscores", "https://archive.org/download/test_underscores"),
    ];
    for (identifier, expected_url) in test_cases {
        let result = construct_download_url(identifier);
        assert_eq!(result, expected_url);
    }
}

#[test]
fn test_url_construction_special_characters() {
    let special_identifiers = vec![
        "item-with-dashes",
        "item_with_underscores",
        "item.with.dots",
        "item123numbers",
    ];
    for identifier in special_identifiers {
        let metadata_url = construct_metadata_url(identifier);
        let download_url = construct_download_url(identifier);
        assert!(metadata_url.contains(identifier));
        assert!(download_url.contains(identifier));
        assert!(metadata_url.starts_with("https://archive.org/metadata/"));
        assert!(download_url.starts_with("https://archive.org/download/"));
    }
}

#[test]
fn test_complete_url_processing_workflow() {
    let test_url = "https://archive.org/details/example";

    let processed_url = validate_and_process_url(test_url).unwrap();
    assert_eq!(processed_url, test_url);

    let identifier = extract_identifier_from_url(&processed_url).unwrap();
    assert_eq!(identifier, "example");

    let metadata_url = construct_metadata_url(&identifier);
    assert_eq!(metadata_url, "https://archive.org/metadata/example");

    let download_url = construct_download_url(&identifier);
    assert_eq!(download_url, "https://archive.org/download/example");
}

#[test]
fn test_identifier_workflow() {
    let identifier = "test123";

    let processed_url = validate_and_process_url(identifier).unwrap();
    assert_eq!(processed_url, "https://archive.org/details/test123");

    let extracted_id = extract_identifier_from_url(&processed_url).unwrap();
    assert_eq!(extracted_id, identifier);

    let metadata_url = construct_metadata_url(&extracted_id);
    let download_url = construct_download_url(&extracted_id);

    assert_eq!(metadata_url, "https://archive.org/metadata/test123");
    assert_eq!(download_url, "https://archive.org/download/test123");
}

#[test]
fn test_error_propagation() {
    let invalid_url = "https://example.com/not-archive";
    assert!(validate_and_process_url(invalid_url).is_err());
    assert!(extract_identifier_from_url(invalid_url).is_err());
}

#[test]
fn test_empty_inputs() {
    assert!(validate_and_process_url("").is_err());
    assert!(validate_and_process_url("   ").is_err());
    assert!(extract_identifier_from_url("").is_err());
    assert!(!is_archive_url(""));
}

#[test]
fn test_very_long_identifiers() {
    let long_identifier = "a".repeat(1000);
    let long_url = format!("https://archive.org/details/{}", long_identifier);

    let result = validate_and_process_url(&long_url);
    assert!(result.is_ok(), "very long URL should be valid");

    let extracted = extract_identifier_from_url(&long_url).unwrap();
    assert_eq!(extracted, long_identifier);
}

#[test]
fn test_unusual_valid_characters() {
    let test_cases = vec![
        "item.with.dots",
        "item-with-dashes",
        "item_with_underscores",
        "item123with456numbers",
        "ItemWithCaps",
    ];
    for identifier in test_cases {
        let url = format!("https://archive.org/details/{}", identifier);
        assert!(validate_and_process_url(&url).is_ok(), "URL with {} should be valid", identifier);
        let extracted = extract_identifier_from_url(&url).unwrap();
        assert_eq!(extracted, identifier);
    }
}

#[test]
fn test_case_sensitivity() {
    assert!(is_archive_url("https://ARCHIVE.ORG/details/test"));
    assert!(is_archive_url("https://Archive.Org/details/test"));

    let mixed_case_url = "https://archive.org/details/MixedCaseIdentifier";
    let extracted = extract_identifier_from_url(mixed_case_url).unwrap();
    assert_eq!(extracted, "MixedCaseIdentifier");
}

#[test]
fn test_metadata_url_generation() {
    let details_url = "https://archive.org/details/example";
    let json_url = get_json_url(details_url);

    assert!(json_url.contains("metadata"));
    assert!(json_url.contains("example"));
    assert!(json_url.starts_with("https://archive.org/metadata/"));
}

#[test]
fn test_loose_identifier_extraction() {
    let from_url = ia_get::extract_identifier_from_url("https://archive.org/details/abc/d").unwrap();
    assert_eq!(from_url, "abc");
    let bare = ia_get::extract_identifier_from_url("just-an-identifier").unwrap();
    assert_eq!(bare, "just-an-identifier");
}
