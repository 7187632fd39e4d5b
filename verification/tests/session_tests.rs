//! Tests for sessions, plan serialisation, and metadata parsing.

use ia_get::json::serialize_plan;
use ia_get::engine::DownloadPlan;
use ia_get::metadata_storage::{
    find_latest_session_file, generate_session_filename, session_version_supported,
    ArchiveFile, ArchiveMetadata, DownloadConfig, DownloadSession, DownloadState,
    SessionFileEntry, SESSION_FORMAT_VERSION,
};
use ia_get::wire::{parse_archive_metadata, parse_numeric_text};

fn file(name: &str, size: Option<u64>) -> ArchiveFile {
    ArchiveFile {
        name: name.to_string(),
        source: "original".to_string(),
        format: None,
        mtime: None,
        size,
        md5: None,
        crc32: None,
        sha1: None,
        btih: None,
        summation: None,
        original: None,
        rotation: None,
    }
}

fn metadata(files: Vec<ArchiveFile>) -> ArchiveMetadata {
    ArchiveMetadata {
        created: 1,
        d1: "d1.example".to_string(),
        d2: "d2.example".to_string(),
        dir: "/1/items/test".to_string(),
        files,
        files_count: 0,
        item_last_updated: 1,
        item_size: 0,
        metadata: "null".to_string(),
        server: "s1.example".to_string(),
        uniq: 7,
        workable_servers: vec!["s1.example".to_string()],
        reviews: vec![],
    }
}

fn config() -> DownloadConfig {
    DownloadConfig {
        output_dir: "/tmp/out".to_string(),
        max_concurrent: 4,
        format_filters: vec![],
        min_size: None,
        max_size: None,
        verify_md5: true,
        preserve_mtime: true,
        user_agent: "ia-get/test".to_string(),
        enable_compression: false,
        auto_decompress: false,
        decompress_formats: vec![],
    }
}

#[test]
fn test_session_new_builds_plan() {
    let md = metadata(vec![file("a.txt", Some(5)), file("b.txt", Some(10))]);
    let requested = vec!["b.txt".to_string(), "a.txt".to_string(), "b.txt".to_string(),
        "missing.txt".to_string()];
    let session = DownloadSession::new(
        "https://archive.org/details/test".to_string(),
        "test".to_string(),
        md,
        config(),
        requested,
        1000,
    );

    assert_eq!(session.file_status.len(), 2, "duplicates and unknown names are dropped");
    assert_eq!(session.file_status[0].file_info.name, "b.txt");
    assert_eq!(session.file_status[1].file_info.name, "a.txt");
    assert_eq!(session.file_status[0].status, DownloadState::Pending);
    assert_eq!(session.file_status[0].bytes_downloaded, 0);
    assert_eq!(session.file_status[0].local_path, "/tmp/out/b.txt");
    assert_eq!(session.session_start, 1000);
}

#[test]
fn test_session_update_and_pending() {
    let md = metadata(vec![file("a.txt", Some(5)), file("b.txt", Some(10))]);
    let requested = vec!["a.txt".to_string(), "b.txt".to_string()];
    let mut session = DownloadSession::new(
        "u".to_string(),
        "test".to_string(),
        md,
        config(),
        requested,
        1000,
    );

    session.update_file_status("a.txt", DownloadState::Completed, 2000);
    assert_eq!(session.file_status[0].status, DownloadState::Completed);
    assert_eq!(session.last_updated, 2000);

    session.update_file_status("nope.txt", DownloadState::Failed, 3000);
    assert_eq!(session.last_updated, 2000, "an unknown name changes nothing");

    let pending = session.get_pending_files();
    assert_eq!(pending, vec!["b.txt".to_string()]);
}

#[test]
fn test_session_pending_includes_paused_not_failed() {
    let md = metadata(vec![file("a.txt", Some(5)), file("b.txt", Some(10))]);
    let requested = vec!["a.txt".to_string(), "b.txt".to_string()];
    let mut session = DownloadSession::new(
        "u".to_string(),
        "test".to_string(),
        md,
        config(),
        requested,
        1000,
    );
    session.update_file_status("a.txt", DownloadState::Paused, 2000);
    session.update_file_status("b.txt", DownloadState::Failed, 3000);
    let pending = session.get_pending_files();
    assert_eq!(
        pending,
        vec!["a.txt".to_string()],
        "a paused file resumes; a failed file is terminal"
    );
}

#[test]
fn test_completed_bytes_counts_completed_sizes() {
    let md = metadata(vec![file("a", Some(5)), file("b", Some(10))]);
    let requested = vec!["a".to_string(), "b".to_string()];
    let mut session = DownloadSession::new(
        "u".to_string(),
        "t".to_string(),
        md,
        config(),
        requested,
        1,
    );
    session.update_file_status("a", DownloadState::Completed, 2);
    assert_eq!(session.completed_bytes(), 5, "only completed files count");
    session.update_file_status("b", DownloadState::Completed, 3);
    assert_eq!(session.completed_bytes(), 15);
}

#[test]
fn test_session_progress_summary() {
    let md = metadata(vec![file("a", Some(5)), file("b", Some(10)), file("c", None)]);
    let requested = vec!["a".to_string(), "b".to_string(), "c".to_string()];
    let mut session = DownloadSession::new(
        "u".to_string(),
        "t".to_string(),
        md,
        config(),
        requested,
        1,
    );
    session.update_file_status("a", DownloadState::Completed, 2);
    session.update_file_status("b", DownloadState::Failed, 3);
    session.file_status[0].bytes_downloaded = 5;

    let progress = session.get_progress_summary();
    assert_eq!(progress.total_files, 3);
    assert_eq!(progress.completed_files, 1);
    assert_eq!(progress.failed_files, 1);
    assert_eq!(progress.in_progress_files, 0);
    assert_eq!(progress.total_bytes, 15);
    assert_eq!(progress.downloaded_bytes, 5);
}

#[test]
fn test_session_reconcile_with_disk() {
    let md = metadata(vec![file("a", Some(5)), file("b", Some(10))]);
    let requested = vec!["a".to_string(), "b".to_string()];
    let mut session = DownloadSession::new(
        "u".to_string(),
        "t".to_string(),
        md,
        config(),
        requested,
        1,
    );
    session.update_file_status("a", DownloadState::Completed, 2);
    session.file_status[0].bytes_downloaded = 5;
    session.update_file_status("b", DownloadState::Completed, 3);
    session.file_status[1].bytes_downloaded = 10;

    // the first file is intact on disk; the second is shorter than recorded
    let lens = vec![Some(5), Some(7)];
    let digests = vec![true, true];
    session.reconcile_with_disk(&lens, &digests, 100);

    assert_eq!(session.file_status[0].status, DownloadState::Completed);
    assert_eq!(session.file_status[1].status, DownloadState::Pending);
    assert_eq!(session.file_status[1].bytes_downloaded, 0);
    for (k, st) in session.file_status.iter().enumerate() {
        if st.status == DownloadState::Completed {
            assert_eq!(lens[k], st.file_info.size, "every completed file matches the disk");
        }
    }
}

#[test]
fn test_session_version_tag() {
    let md = metadata(vec![file("a", Some(5))]);
    let session = DownloadSession::new(
        "u".to_string(),
        "t".to_string(),
        md,
        config(),
        vec!["a".to_string()],
        1,
    );
    assert_eq!(session.version, SESSION_FORMAT_VERSION);
    assert!(session_version_supported(session.version));
    assert!(!session_version_supported(SESSION_FORMAT_VERSION + 1));
}

#[test]
fn test_absorb_outcome_updates_entry() {
    let md = metadata(vec![file("a", Some(5)), file("b", Some(10))]);
    let requested = vec!["a".to_string(), "b".to_string()];
    let mut session = DownloadSession::new(
        "u".to_string(),
        "t".to_string(),
        md,
        config(),
        requested,
        1,
    );
    session.absorb_outcome(
        "a",
        DownloadState::Completed,
        5,
        2,
        &Some("reset".to_string()),
        &Some("s2".to_string()),
        99,
    );
    assert_eq!(session.file_status[0].status, DownloadState::Completed);
    assert_eq!(session.file_status[0].bytes_downloaded, 5);
    assert_eq!(session.file_status[0].retry_count, 2);
    assert_eq!(session.file_status[0].error_message.as_deref(), Some("reset"));
    assert_eq!(session.file_status[0].server_used.as_deref(), Some("s2"));
    assert_eq!(session.last_updated, 99);
    assert_eq!(session.file_status[1].status, DownloadState::Pending, "others untouched");

    let before = session.last_updated;
    session.absorb_outcome("missing", DownloadState::Failed, 0, 0, &None, &None, 123);
    assert_eq!(session.last_updated, before, "an unknown name changes nothing");
}

#[test]
fn test_generate_session_filename_shape() {
    let name = generate_session_filename("myitem", 1700000000);
    assert_eq!(name, "ia-get-session-myitem-1700000000.json");
}

#[test]
fn test_find_latest_session_file() {
    let entries = vec![
        SessionFileEntry { name: "ia-get-session-x-1.json".to_string(), mtime: 10 },
        SessionFileEntry { name: "ia-get-session-x-2.json".to_string(), mtime: 30 },
        SessionFileEntry { name: "unrelated.txt".to_string(), mtime: 99 },
        SessionFileEntry { name: "ia-get-session-y-3.json".to_string(), mtime: 50 },
        SessionFileEntry { name: "ia-get-session-x-4.json".to_string(), mtime: 20 },
    ];
    let best = find_latest_session_file("x", &entries).unwrap();
    assert_eq!(best, "ia-get-session-x-2.json");
    assert!(find_latest_session_file("z", &entries).is_none());
}

#[test]
fn test_plan_serialisation_deterministic() {
    let plan = DownloadPlan {
        files: vec![file("a.txt", Some(5)), file("b/c.txt", None)],
        output_root: "/tmp/out".to_string(),
        concurrency_limit: 4,
        verify_md5: true,
        preserve_mtime: false,
        enable_decompression: false,
        decompress_formats: vec!["gzip".to_string()],
    };
    let once = serialize_plan(&plan);
    let twice = serialize_plan(&plan);
    assert_eq!(once, twice, "serialising the plan twice is byte-identical");
    assert!(once.starts_with("{\"output_root\":\"/tmp/out\",\"concurrency_limit\":4,"));
    assert!(once.contains("\"files\":[{\"name\":\"a.txt\","));
    assert!(once.contains("\"size\":5"));
    assert!(once.contains("\"size\":null"));
    assert!(once.ends_with("]}"));
}

#[test]
fn test_plan_serialisation_escapes() {
    let plan = DownloadPlan {
        files: vec![file("we\"ird\\name\n.txt", Some(1))],
        output_root: "/tmp".to_string(),
        concurrency_limit: 1,
        verify_md5: false,
        preserve_mtime: false,
        enable_decompression: false,
        decompress_formats: vec![],
    };
    let text = serialize_plan(&plan);
    assert!(text.contains("we\\\"ird\\\\name\\n.txt"));
    let parsed: serde_json::Value = serde_json::from_str(&text).unwrap();
    assert_eq!(parsed["files"][0]["name"], "we\"ird\\name\n.txt");
}

#[test]
fn test_parse_archive_metadata() {
    let metadata_json = r#"{
        "created": 1640995200,
        "d1": "ia800100.us.archive.org",
        "d2": "ia600100.us.archive.org",
        "dir": "/test",
        "files": [{
            "name": "test.pdf",
            "source": "original",
            "mtime": "1640995200",
            "size": 1024,
            "format": "pdf",
            "crc32": "12345678",
            "md5": "abcdef123456789",
            "sha1": "fedcba987654321",
            "btih": "999999999999999",
            "summation": "5555"
        }],
        "files_count": 1,
        "item_last_updated": 1640995200,
        "item_size": 1024,
        "metadata": {"title": "Test Archive"},
        "server": "ia800100.us.archive.org",
        "uniq": 123456,
        "workable_servers": ["ia800100.us.archive.org"]
    }"#;
    let md = parse_archive_metadata(metadata_json).unwrap();
    assert_eq!(md.dir, "/test");
    assert_eq!(md.server, "ia800100.us.archive.org");
    assert_eq!(md.files.len(), 1);
    assert_eq!(md.files_count, 1);
    assert_eq!(md.item_size, 1024);
    assert_eq!(md.files[0].name, "test.pdf");
    assert_eq!(md.files[0].size, Some(1024));
    assert_eq!(md.files[0].mtime, Some(1640995200), "a numeric string parses as a number");
    assert_eq!(md.files[0].md5.as_deref(), Some("abcdef123456789"));
    assert_eq!(md.workable_servers, vec!["ia800100.us.archive.org".to_string()]);
    assert!(md.metadata.contains("Test Archive"));
}

#[test]
fn test_parse_archive_metadata_defaults() {
    let minimal = r#"{"dir": "/x", "server": "s1", "files": []}"#;
    let md = parse_archive_metadata(minimal).unwrap();
    assert_eq!(md.files.len(), 0);
    assert_eq!(md.created, 0);
    assert_eq!(md.workable_servers, vec!["s1".to_string()], "the primary server backs the list");
}

#[test]
fn test_parse_archive_metadata_rejects() {
    assert!(parse_archive_metadata("not json").is_err());
    assert!(parse_archive_metadata(r#"{"server": "s1", "files": []}"#).is_err());
    let negative_size = r#"{"dir": "/x", "server": "s1",
        "files": [{"name": "a", "source": "original", "size": -5}]}"#;
    assert!(parse_archive_metadata(negative_size).is_err());
    let empty_size = r#"{"dir": "/x", "server": "s1",
        "files": [{"name": "a", "source": "original", "size": ""}]}"#;
    let md = parse_archive_metadata(empty_size).unwrap();
    assert_eq!(md.files[0].size, None, "an empty size string is an absent size");
}

#[test]
fn test_parse_numeric_text_cases() {
    assert_eq!(parse_numeric_text("").unwrap(), None);
    assert_eq!(parse_numeric_text("123").unwrap(), Some(123));
    assert!(parse_numeric_text("-1").is_err());
    assert!(parse_numeric_text("abc").is_err());
}
