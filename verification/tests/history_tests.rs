//! Tests for the download history database.

use ia_get::download_history::{
    classify_run, generate_download_id, DownloadDatabase, DownloadHistoryManager,
    DownloadRecord, DownloadStatus,
};
use ia_get::metadata_storage::{DownloadConfig, DownloadProgress};

fn unix_now() -> u64 {
    std::time::SystemTime::now()
        .duration_since(std::time::UNIX_EPOCH)
        .map(|d| d.as_secs())
        .unwrap_or(0)
}

fn test_config() -> DownloadConfig {
    DownloadConfig {
        output_dir: "/tmp".to_string(),
        max_concurrent: 4,
        format_filters: vec![],
        min_size: None,
        max_size: None,
        verify_md5: true,
        preserve_mtime: true,
        user_agent: "test".to_string(),
        enable_compression: false,
        auto_decompress: false,
        decompress_formats: vec![],
    }
}

fn record(id: &str, started_at: u64, status: DownloadStatus) -> DownloadRecord {
    DownloadRecord {
        id: id.to_string(),
        archive_identifier: "test_archive".to_string(),
        original_url: "https://archive.org/details/test_archive".to_string(),
        status,
        started_at,
        completed_at: None,
        total_files: 1,
        completed_files: 0,
        failed_files: 0,
        bytes_downloaded: 0,
        settings: test_config(),
        error_message: None,
        failed_file_list: vec![],
    }
}

#[test]
fn test_download_database_creation() {
    let db = DownloadDatabase::new(unix_now());
    assert_eq!(db.version, "1.0");
    assert!(db.records.is_empty());
    assert!(db.created_at > 0);
}

#[test]
fn test_download_record_creation() {
    let config = test_config();

    let record = DownloadRecord {
        id: "test_123".to_string(),
        archive_identifier: "test_archive".to_string(),
        original_url: "https://archive.org/details/test_archive".to_string(),
        status: DownloadStatus::Success,
        started_at: 1000,
        completed_at: Some(2000),
        total_files: 10,
        completed_files: 10,
        failed_files: 0,
        bytes_downloaded: 1024 * 1024,
        settings: config,
        error_message: None,
        failed_file_list: vec![],
    };

    assert_eq!(record.status, DownloadStatus::Success);
    assert_eq!(record.total_files, 10);
}

#[test]
fn test_generate_download_id() {
    let id1 = generate_download_id("testarchive", 1700000000);
    let id2 = generate_download_id("testarchive", 1700000001);

    assert!(id1.starts_with("testarchive_"));
    assert!(id2.starts_with("testarchive_"));

    let parts1: Vec<&str> = id1.split('_').collect();
    let parts2: Vec<&str> = id2.split('_').collect();
    assert_eq!(parts1.len(), 2);
    assert_eq!(parts2.len(), 2);
    assert_eq!(parts1[0], "testarchive");
    assert_eq!(parts2[0], "testarchive");

    assert!(parts1[1].parse::<u64>().is_ok());
    assert!(parts2[1].parse::<u64>().is_ok());
    assert_ne!(id1, id2);
}

#[test]
fn test_manager_add_and_get() {
    let mut manager = DownloadHistoryManager::new("/tmp/cfg", 100).unwrap();
    assert_eq!(manager.get_database_path(), "/tmp/cfg/ia-get-db.json");

    manager.add_download_record(record("a_1", 10, DownloadStatus::Success), 200).unwrap();
    manager.add_download_record(record("a_2", 20, DownloadStatus::Failed), 201).unwrap();
    assert_eq!(manager.database.last_updated, 201);

    let got = manager.get_download_record("a_1").unwrap().unwrap();
    assert_eq!(got.started_at, 10);
    assert!(manager.get_download_record("missing").unwrap().is_none());
}

#[test]
fn test_manager_update_replaces() {
    let mut manager = DownloadHistoryManager::new("/tmp/cfg", 100).unwrap();
    manager.add_download_record(record("a_1", 10, DownloadStatus::InProgress), 200).unwrap();
    let mut updated = record("a_1", 10, DownloadStatus::Success);
    updated.completed_files = 1;
    manager.update_download_record(updated, 300).unwrap();

    assert_eq!(manager.database.records.len(), 1);
    let got = manager.get_download_record("a_1").unwrap().unwrap();
    assert_eq!(got.status, DownloadStatus::Success);
    assert_eq!(got.completed_files, 1);
}

#[test]
fn test_manager_records_sorted_and_filtered() {
    let mut manager = DownloadHistoryManager::new("/tmp/cfg", 100).unwrap();
    manager.add_download_record(record("a_1", 10, DownloadStatus::Success), 200).unwrap();
    manager.add_download_record(record("a_2", 30, DownloadStatus::Failed), 201).unwrap();
    manager.add_download_record(record("a_3", 20, DownloadStatus::Success), 202).unwrap();

    let all = manager.get_download_records(None).unwrap();
    assert_eq!(all.len(), 3);
    assert_eq!(all[0].started_at, 30);
    assert_eq!(all[1].started_at, 20);
    assert_eq!(all[2].started_at, 10);

    let successes = manager.get_download_records(Some(DownloadStatus::Success)).unwrap();
    assert_eq!(successes.len(), 2);

    let recent = manager.get_recent_downloads(2).unwrap();
    assert_eq!(recent.len(), 2);
    assert_eq!(recent[0].started_at, 30);
}

#[test]
fn test_manager_statistics() {
    let mut manager = DownloadHistoryManager::new("/tmp/cfg", 100).unwrap();
    let mut a = record("a_1", 10, DownloadStatus::Success);
    a.completed_files = 3;
    a.bytes_downloaded = 1000;
    let mut b = record("a_2", 20, DownloadStatus::PartialSuccess);
    b.completed_files = 1;
    b.bytes_downloaded = 24;
    manager.add_download_record(a, 200).unwrap();
    manager.add_download_record(b, 201).unwrap();
    manager.add_download_record(record("a_3", 30, DownloadStatus::InProgress), 202).unwrap();

    let stats = manager.get_statistics().unwrap();
    assert_eq!(stats.total_downloads, 3);
    assert_eq!(stats.successful_downloads, 1);
    assert_eq!(stats.partial_downloads, 1);
    assert_eq!(stats.in_progress_downloads, 1);
    assert_eq!(stats.failed_downloads, 0);
    assert_eq!(stats.total_files_downloaded, 4);
    assert_eq!(stats.total_bytes_downloaded, 1024);
}

#[test]
fn test_classify_run_outcomes() {
    let summary = |completed: usize, failed: usize| DownloadProgress {
        total_files: completed + failed,
        completed_files: completed,
        failed_files: failed,
        in_progress_files: 0,
        total_bytes: 0,
        downloaded_bytes: 0,
    };
    assert_eq!(classify_run(&summary(2, 0), false), DownloadStatus::Success);
    assert_eq!(classify_run(&summary(2, 0), true), DownloadStatus::Cancelled);
    assert_eq!(classify_run(&summary(1, 1), false), DownloadStatus::PartialSuccess);
    assert_eq!(classify_run(&summary(0, 1), false), DownloadStatus::Failed);
}

#[test]
fn test_manager_cleanup_old_records() {
    let mut manager = DownloadHistoryManager::new("/tmp/cfg", 100).unwrap();
    let now: u64 = 30 * 86400;
    manager.add_download_record(record("old_1", 86400, DownloadStatus::Success), now).unwrap();
    manager.add_download_record(record("new_1", now - 3600, DownloadStatus::Success), now)
        .unwrap();

    let removed = manager.cleanup_old_records(7, now).unwrap();
    assert_eq!(removed, 1);
    assert_eq!(manager.database.records.len(), 1);
    assert_eq!(manager.database.records[0].id, "new_1");
}
