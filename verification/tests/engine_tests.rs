//! Scenario tests for the download engine: scheduling, retries, integrity,
//! cancellation, and the request/response decisions.

use ia_get::engine::{
    decide_request, on_response, DownloadPlan, Engine, EngineEvent, FailureKind,
    RequestDecision, ResponseAction,
};
use ia_get::metadata_storage::{ArchiveFile, DownloadState};
use ia_get::network::{
    adaptive_buffer_size, backoff_seconds, clamp_retry_after, classify_status,
    is_transient_error, metadata_retry_delay, retry_delay, StatusClass,
};

fn file(name: &str, size: Option<u64>, md5: Option<&str>) -> ArchiveFile {
    ArchiveFile {
        name: name.to_string(),
        source: "original".to_string(),
        format: None,
        mtime: None,
        size,
        md5: md5.map(|s| s.to_string()),
        crc32: None,
        sha1: None,
        btih: None,
        summation: None,
        original: None,
        rotation: None,
    }
}

fn plan(files: Vec<ArchiveFile>, limit: usize) -> DownloadPlan {
    DownloadPlan {
        files,
        output_root: "/tmp/out".to_string(),
        concurrency_limit: limit,
        verify_md5: true,
        preserve_mtime: true,
        enable_decompression: false,
        decompress_formats: vec![],
    }
}

fn servers(names: &[&str]) -> Vec<String> {
    names.iter().map(|s| s.to_string()).collect()
}

#[test]
fn test_zero_file_plan_emits_only_plan_resolved() {
    let mut engine = Engine::new(plan(vec![], 4), servers(&["s1"]), 3);
    engine.resolve_plan();
    assert!(engine.is_finished());
    assert_eq!(engine.events.len(), 1);
    assert!(matches!(engine.events[0], EngineEvent::PlanResolved { total: 0 }));
    assert!(engine.start_next().is_none());
}

#[test]
fn test_happy_path_two_files() {
    let files = vec![file("a.txt", Some(5), Some("d41e8")), file("b.txt", Some(10), Some("5d47f"))];
    let mut engine = Engine::new(plan(files, 4), servers(&["s1"]), 3);
    engine.resolve_plan();

    let first = engine.start_next().unwrap();
    assert_eq!(first, 0);
    engine.record_server(first, 0);
    let second = engine.start_next().unwrap();
    assert_eq!(second, 1);
    assert_eq!(engine.active, 2);

    assert!(engine.on_chunk(first, 5));
    assert!(engine.on_stream_end(first, Some(true)));
    assert!(engine.on_chunk(second, 10));
    assert!(engine.on_stream_end(second, Some(true)));

    assert!(engine.is_finished());
    assert_eq!(engine.active, 0);
    assert_eq!(engine.work[0].state, DownloadState::Completed);
    assert_eq!(engine.work[1].state, DownloadState::Completed);
    assert_eq!(engine.work[0].bytes_on_disk + engine.work[1].bytes_on_disk, 15);
    let done_events = engine
        .events
        .iter()
        .filter(|e| matches!(e, EngineEvent::FileDone { outcome: DownloadState::Completed, .. }))
        .count();
    assert_eq!(done_events, 2);
    assert_eq!(engine.work[0].server_used.as_deref(), Some("s1"));
}

#[test]
fn test_concurrency_limit_respected() {
    let files = vec![
        file("a", Some(1), None),
        file("b", Some(1), None),
        file("c", Some(1), None),
    ];
    let mut engine = Engine::new(plan(files, 2), servers(&["s1"]), 3);
    engine.resolve_plan();
    assert!(engine.start_next().is_some());
    assert!(engine.start_next().is_some());
    assert!(engine.start_next().is_none(), "the third worker must wait for a permit");
    assert_eq!(engine.active, 2);
}

#[test]
fn test_single_owner_per_file() {
    let files = vec![file("a", Some(1), None)];
    let mut engine = Engine::new(plan(files, 4), servers(&["s1"]), 3);
    engine.resolve_plan();
    let i = engine.start_next().unwrap();
    assert_eq!(i, 0);
    assert!(engine.start_next().is_none(), "an owned file is never handed out again");
}

#[test]
fn test_transient_retry_then_success() {
    let files = vec![file("a", Some(4), None)];
    let mut engine = Engine::new(plan(files, 1), servers(&["s1"]), 3);
    engine.resolve_plan();

    let i = engine.start_next().unwrap();
    engine.fail_attempt(i, FailureKind::TransientBackoff, "connect timeout".to_string());
    assert_eq!(engine.work[0].state, DownloadState::Pending);
    assert_eq!(engine.work[0].attempts, 1);
    assert_eq!(engine.work[0].last_error.as_deref(), Some("connect timeout"));

    let i = engine.start_next().unwrap();
    engine.fail_attempt(i, FailureKind::TransientBackoff, "reset".to_string());
    assert_eq!(engine.work[0].state, DownloadState::Pending);
    assert_eq!(engine.work[0].attempts, 2);
    assert_eq!(engine.work[0].last_error.as_deref(), Some("reset"), "only the latest failure stays");

    let i = engine.start_next().unwrap();
    assert!(engine.on_chunk(i, 4));
    assert!(engine.on_stream_end(i, None));
    assert_eq!(engine.work[0].state, DownloadState::Completed);
}

#[test]
fn test_retry_budget_exhausted() {
    let files = vec![file("a", Some(4), None)];
    let mut engine = Engine::new(plan(files, 1), servers(&["s1"]), 2);
    engine.resolve_plan();

    let i = engine.start_next().unwrap();
    engine.fail_attempt(i, FailureKind::TransientBackoff, "x".to_string());
    assert_eq!(engine.work[0].state, DownloadState::Pending);
    let i = engine.start_next().unwrap();
    engine.fail_attempt(i, FailureKind::TransientBackoff, "y".to_string());
    assert_eq!(engine.work[0].state, DownloadState::Failed, "the retry budget is spent");
    assert!(engine.start_next().is_none());
}

#[test]
fn test_permanent_failure_does_not_block_others() {
    let files = vec![file("a", Some(4), None), file("b", Some(2), None)];
    let mut engine = Engine::new(plan(files, 1), servers(&["s1"]), 3);
    engine.resolve_plan();

    let i = engine.start_next().unwrap();
    assert_eq!(i, 0);
    engine.fail_attempt(i, FailureKind::Permanent, "HTTP 404".to_string());
    assert_eq!(engine.work[0].state, DownloadState::Failed);
    assert_eq!(engine.work[0].last_error.as_deref(), Some("HTTP 404"));

    let j = engine.start_next().unwrap();
    assert_eq!(j, 1, "the session continues with the remaining files");
    assert!(engine.on_chunk(j, 2));
    assert!(engine.on_stream_end(j, None));
    assert_eq!(engine.work[1].state, DownloadState::Completed);
    assert!(engine.is_finished());
}

#[test]
fn test_integrity_failure_discards_partial() {
    let files = vec![file("a", Some(4), Some("abc"))];
    let mut engine = Engine::new(plan(files, 1), servers(&["s1"]), 3);
    engine.resolve_plan();

    let i = engine.start_next().unwrap();
    assert!(engine.on_chunk(i, 4));
    assert_eq!(engine.work[0].bytes_on_disk, 4);
    assert!(!engine.on_stream_end(i, Some(false)), "a digest mismatch fails the attempt");
    assert_eq!(engine.work[0].state, DownloadState::Pending);
    assert_eq!(engine.work[0].bytes_on_disk, 0, "the partial copy is discarded exactly once");
    assert_eq!(engine.work[0].attempts, 1);

    let i = engine.start_next().unwrap();
    assert!(engine.on_chunk(i, 4));
    assert!(engine.on_stream_end(i, Some(true)));
    assert_eq!(engine.work[0].state, DownloadState::Completed);
}

#[test]
fn test_body_longer_than_advertised() {
    let files = vec![file("a", Some(4), None)];
    let mut engine = Engine::new(plan(files, 1), servers(&["s1"]), 3);
    engine.resolve_plan();
    let i = engine.start_next().unwrap();
    assert!(engine.on_chunk(i, 3));
    assert!(!engine.on_chunk(i, 2), "bytes on disk never exceed the known size");
    assert_eq!(engine.work[0].bytes_on_disk, 0);
    assert_eq!(engine.work[0].state, DownloadState::Pending);
}

#[test]
fn test_mirror_failover() {
    let files = vec![file("a", Some(4), None)];
    let mut engine = Engine::new(plan(files, 1), servers(&["s1", "s2"]), 3);
    engine.resolve_plan();

    let i = engine.start_next().unwrap();
    engine.record_server(i, 0);
    assert_eq!(engine.pick_server(i, 0), "s1");
    engine.fail_attempt(i, FailureKind::TransientMirror, "HTTP 503".to_string());
    assert_eq!(engine.work[0].state, DownloadState::Pending);

    let i = engine.start_next().unwrap();
    assert_eq!(engine.pick_server(i, 0), "s2", "the next attempt advances past the failing mirror");
    engine.record_server(i, 0);
    assert!(engine.on_chunk(i, 4));
    assert!(engine.on_stream_end(i, None));
    assert_eq!(engine.work[0].server_used.as_deref(), Some("s2"));
}

#[test]
fn test_backoff_deprioritises_mirror() {
    let files = vec![file("a", Some(4), None)];
    let mut engine = Engine::new(plan(files, 1), servers(&["s1", "s2"]), 5);
    engine.resolve_plan();

    let i = engine.start_next().unwrap();
    assert_eq!(engine.pick_server(i, 1000), "s1");
    engine.fail_attempt(i, FailureKind::TransientBackoff, "HTTP 500".to_string());
    engine.note_backoff(i, 1000);

    let i = engine.start_next().unwrap();
    assert_eq!(
        engine.pick_server(i, 1030),
        "s2",
        "a mirror that backed off within the last minute is deprioritised"
    );
    assert_eq!(
        engine.pick_server(i, 1061),
        "s1",
        "after a minute the mirror is preferred again; it was never removed"
    );
}

#[test]
fn test_cancellation_blocks_new_work() {
    let files = vec![file("a", Some(4), None), file("b", Some(4), None)];
    let mut engine = Engine::new(plan(files, 2), servers(&["s1"]), 3);
    engine.resolve_plan();
    let i = engine.start_next().unwrap();
    assert!(engine.on_chunk(i, 2));
    engine.cancel();
    assert!(engine.start_next().is_none(), "no new requests after cancellation");
    engine.pause_file(i);
    assert_eq!(engine.work[0].state, DownloadState::Paused);
    assert_eq!(engine.work[0].bytes_on_disk, 2, "paused files keep their bytes");
    assert_eq!(engine.active, 0);
}

#[test]
fn test_pause_and_resume() {
    let files = vec![file("a", Some(4), None)];
    let mut engine = Engine::new(plan(files, 1), servers(&["s1"]), 3);
    engine.resolve_plan();
    let i = engine.start_next().unwrap();
    assert!(engine.on_chunk(i, 3));
    engine.pause_file(i);
    engine.resume_file(i);
    assert_eq!(engine.work[0].state, DownloadState::Pending);
    assert_eq!(engine.work[0].bytes_on_disk, 3);
    assert_eq!(decide_request(Some(4), Some(3), true), RequestDecision::RangeFrom(3));
}

#[test]
fn test_mark_skipped() {
    let files = vec![file("a", Some(4), None)];
    let mut engine = Engine::new(plan(files, 1), servers(&["s1"]), 3);
    engine.resolve_plan();
    let i = engine.start_next().unwrap();
    engine.mark_skipped(i, 4);
    assert_eq!(engine.work[0].state, DownloadState::Skipped);
    assert!(engine.is_finished());
}

#[test]
fn test_zero_size_file_completes_immediately() {
    let files = vec![file("empty.bin", Some(0), None)];
    let mut engine = Engine::new(plan(files, 1), servers(&["s1"]), 3);
    engine.resolve_plan();
    let i = engine.start_next().unwrap();
    assert!(engine.on_stream_end(i, None), "an empty body completes a zero-size file");
    assert_eq!(engine.work[0].state, DownloadState::Completed);
}

#[test]
fn test_resume_transfers_only_remainder() {
    // a partial local copy of 1024 bytes against a remote size of 4096:
    // the next attempt ranges from 1024 and transfers exactly 3072 bytes
    let files = vec![file("a.bin", Some(4096), None)];
    let mut engine = Engine::new(plan(files, 1), servers(&["s1"]), 3);
    engine.resolve_plan();
    let i = engine.start_next().unwrap();
    let decision = decide_request(Some(4096), Some(1024), true);
    assert_eq!(decision, RequestDecision::RangeFrom(1024));
    let action = on_response(decision, 206, Some(1024), Some(4096), 1024);
    assert_eq!(action, ResponseAction::AppendFrom(1024));
    // the engine already booked the old bytes when resuming the session;
    // here the attempt starts fresh, so book the local copy first
    assert!(engine.on_chunk(i, 1024));
    assert!(engine.on_chunk(i, 3072));
    assert!(engine.on_stream_end(i, None));
    assert_eq!(engine.work[0].bytes_on_disk, 4096);
    assert_eq!(engine.work[0].state, DownloadState::Completed);
}

#[test]
fn test_decide_request_cases() {
    assert_eq!(decide_request(Some(100), Some(100), true), RequestDecision::SkipExisting);
    assert_eq!(decide_request(Some(100), Some(100), false), RequestDecision::FullGet);
    assert_eq!(decide_request(Some(4096), Some(1024), true), RequestDecision::RangeFrom(1024));
    assert_eq!(decide_request(Some(100), Some(0), true), RequestDecision::FullGet);
    assert_eq!(decide_request(Some(100), None, true), RequestDecision::FullGet);
    assert_eq!(decide_request(None, Some(50), true), RequestDecision::FullGet);
}

#[test]
fn test_on_response_cases() {
    let range = RequestDecision::RangeFrom(1024);
    assert_eq!(
        on_response(range, 206, Some(1024), Some(4096), 1024),
        ResponseAction::AppendFrom(1024)
    );
    assert_eq!(
        on_response(range, 206, Some(0), Some(4096), 1024),
        ResponseAction::IntegrityRestart
    );
    assert_eq!(on_response(range, 200, None, Some(4096), 1024), ResponseAction::StartFromZero);
    assert_eq!(
        on_response(range, 416, None, Some(1024), 1024),
        ResponseAction::TreatSkipped,
        "a 416 with a complete local copy is a skip"
    );
    assert_eq!(
        on_response(range, 416, None, Some(4096), 1024),
        ResponseAction::IntegrityRestart
    );
    assert_eq!(
        on_response(range, 503, None, Some(4096), 1024),
        ResponseAction::Failure(StatusClass::TransientMirror)
    );
    assert_eq!(
        on_response(range, 404, None, Some(4096), 1024),
        ResponseAction::Failure(StatusClass::Permanent)
    );
}

#[test]
fn test_status_classification() {
    assert_eq!(classify_status(200), StatusClass::Success);
    assert_eq!(classify_status(206), StatusClass::SuccessPartial);
    assert_eq!(classify_status(416), StatusClass::RangeNotSatisfiable);
    assert_eq!(classify_status(503), StatusClass::TransientMirror);
    assert_eq!(classify_status(502), StatusClass::TransientMirror);
    assert_eq!(classify_status(504), StatusClass::TransientMirror);
    assert_eq!(classify_status(509), StatusClass::TransientMirror);
    assert_eq!(classify_status(500), StatusClass::TransientBackoff);
    assert_eq!(classify_status(429), StatusClass::TransientBackoff);
    assert_eq!(classify_status(408), StatusClass::TransientBackoff);
    assert_eq!(classify_status(404), StatusClass::Permanent);
    assert_eq!(classify_status(410), StatusClass::Permanent);
    assert_eq!(classify_status(422), StatusClass::Permanent);

    assert!(is_transient_error(500));
    assert!(is_transient_error(429));
    assert!(!is_transient_error(404));
}

#[test]
fn test_backoff_schedule() {
    assert_eq!(backoff_seconds(1), 60);
    assert_eq!(backoff_seconds(2), 120);
    assert_eq!(backoff_seconds(3), 240);
    assert_eq!(backoff_seconds(4), 480);
    assert_eq!(backoff_seconds(5), 900, "the backoff is capped at fifteen minutes");
    assert_eq!(backoff_seconds(20), 900);
}

#[test]
fn test_metadata_retry_schedule() {
    assert_eq!(metadata_retry_delay(1), Some(1), "one second after the first failure");
    assert_eq!(metadata_retry_delay(2), Some(2), "two seconds after the second");
    assert_eq!(metadata_retry_delay(3), None, "the third failure stands");
    assert_eq!(metadata_retry_delay(0), None);
}

#[test]
fn test_adaptive_buffer_bounds() {
    assert_eq!(adaptive_buffer_size(0), 65536, "the floor is 64 KiB");
    assert_eq!(adaptive_buffer_size(8 * 1024 * 1024), 1024 * 1024);
    assert_eq!(adaptive_buffer_size(u64::MAX), 8388608, "the ceiling is 8 MiB");
}

#[test]
fn test_retry_after_handling() {
    assert_eq!(clamp_retry_after(0), 1);
    assert_eq!(clamp_retry_after(5), 5);
    assert_eq!(clamp_retry_after(10000), 900);

    assert_eq!(retry_delay(1, Some(5)), 60, "the computed backoff wins when larger");
    assert_eq!(retry_delay(1, Some(600)), 600, "a larger Retry-After overrides the backoff");
    assert_eq!(retry_delay(1, None), 60);
}
