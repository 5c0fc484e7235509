use exemem_client_lib::config::AppConfig;
use exemem_client_lib::config::Environment;
use exemem_client_lib::uploader::backoff_delay_ms;
use exemem_client_lib::uploader::is_done_status;
use exemem_client_lib::uploader::is_terminal_status;
use exemem_client_lib::uploader::progress_url;
use exemem_client_lib::uploader::PermitPool;
use exemem_client_lib::uploader::UploadFlow;
use exemem_client_lib::uploader::UploadSlot;
use exemem_client_lib::uploader::UploadStatus;
use exemem_client_lib::uploader::UploadStep;
use exemem_client_lib::uploader::MAX_CONCURRENT_UPLOADS;

fn test_config(auto_ingest: bool) -> AppConfig {
    AppConfig {
        api_base_url: "https://api.example.com".to_string(),
        api_key: "test-key".to_string(),
        watched_folder: Some("/tmp/watched".to_string()),
        auto_ingest,
        auto_approve_watched: true,
        environment: Environment::Custom,
        session_token: None,
        user_hash: None,
    }
}

fn slot() -> UploadSlot {
    UploadSlot {
        upload_url: "https://bucket.example.com/put/abc".to_string(),
        s3_key: "user/report.pdf".to_string(),
        s3_bucket: Some("bucket".to_string()),
    }
}

#[test]
fn backoff_doubles_from_500() {
    assert_eq!(backoff_delay_ms(0), 500);
    assert_eq!(backoff_delay_ms(1), 1000);
    assert_eq!(backoff_delay_ms(2), 2000);
}

#[test]
fn flow_starts_with_the_guessed_content_type() {
    let f = UploadFlow::new("/tmp/watched/report.pdf", &test_config(true));
    assert_eq!(f.filename, "report.pdf");
    assert_eq!(f.content_type, "application/pdf");
    assert_eq!(f.client_progress_id.len(), 36);
    assert!(matches!(f.step, UploadStep::AcquireSlot { attempt: 0 }));
    assert_eq!(f.slot_url(), "https://api.example.com/api/ingestion/upload-url");
    assert_eq!(f.ingest_url(), "https://api.example.com/api/ingestion/ingest-s3");
}

#[test]
fn slot_failures_retry_then_surface_the_last_error() {
    // Three network errors in a row: the flow never leaves the slot stage
    // for a transfer, and ends with a non-empty error result.
    let f = UploadFlow::new("/tmp/watched/report.pdf", &test_config(true));
    let (f, d1) = f.on_slot_result(Err("network error".to_string()));
    assert!(matches!(f.step, UploadStep::AcquireSlot { attempt: 1 }));
    assert_eq!(d1, Some(500));
    let (f, d2) = f.on_slot_result(Err("network error".to_string()));
    assert!(matches!(f.step, UploadStep::AcquireSlot { attempt: 2 }));
    assert_eq!(d2, Some(1000));
    let (f, d3) = f.on_slot_result(Err("network error".to_string()));
    assert_eq!(d3, None);
    match f.step {
        UploadStep::Finished { result } => {
            assert_eq!(result.status, UploadStatus::Error);
            assert_eq!(
                result.error.as_deref(),
                Some("Failed after 3 attempts: network error")
            );
            assert_eq!(result.filename, "report.pdf");
            assert_eq!(result.progress_id, None);
        }
        other => panic!("expected a finished flow, found {:?}", other),
    }
}

#[test]
fn without_auto_ingest_a_success_ends_as_uploaded() {
    // The happy path with auto-ingest off: the flow never enters the
    // trigger stage and finishes as Uploaded with no progress id.
    let f = UploadFlow::new("/tmp/watched/report.pdf", &test_config(false));
    let (f, _) = f.on_slot_result(Ok(slot()));
    assert!(matches!(f.step, UploadStep::ReadFile { .. }));
    let f = f.on_read_result(Ok(()));
    assert!(matches!(f.step, UploadStep::TransferBytes { attempt: 0, .. }));
    let (f, _) = f.on_transfer_result(Ok(()));
    match f.step {
        UploadStep::Finished { result } => {
            assert_eq!(result.status, UploadStatus::Uploaded);
            assert_eq!(result.progress_id, None);
            assert_eq!(result.s3_key, "user/report.pdf");
            assert_eq!(result.error, None);
        }
        other => panic!("expected a finished flow, found {:?}", other),
    }
}

#[test]
fn with_auto_ingest_a_success_ends_as_ingesting() {
    let f = UploadFlow::new("/tmp/watched/report.pdf", &test_config(true));
    let (f, _) = f.on_slot_result(Ok(slot()));
    let f = f.on_read_result(Ok(()));
    let (f, _) = f.on_transfer_result(Ok(()));
    assert!(matches!(f.step, UploadStep::TriggerIngest { attempt: 0, .. }));
    let (f, _) = f.on_trigger_result(Ok("pid-42".to_string()));
    match f.step {
        UploadStep::Finished { result } => {
            assert_eq!(result.status, UploadStatus::Ingesting);
            assert_eq!(result.progress_id.as_deref(), Some("pid-42"));
            assert_eq!(result.error, None);
        }
        other => panic!("expected a finished flow, found {:?}", other),
    }
}

#[test]
fn a_read_failure_is_not_retried() {
    let f = UploadFlow::new("/tmp/watched/report.pdf", &test_config(true));
    let (f, _) = f.on_slot_result(Ok(slot()));
    let f = f.on_read_result(Err("No such file or directory".to_string()));
    match f.step {
        UploadStep::Finished { result } => {
            assert_eq!(result.status, UploadStatus::Error);
            assert_eq!(
                result.error.as_deref(),
                Some("Failed to read file: No such file or directory")
            );
        }
        other => panic!("expected a finished flow, found {:?}", other),
    }
}

#[test]
fn permit_pool_never_exceeds_its_limit() {
    let mut pool = PermitPool::new(MAX_CONCURRENT_UPLOADS);
    assert!(pool.try_acquire());
    assert!(pool.try_acquire());
    assert!(pool.try_acquire());
    assert!(!pool.try_acquire());
    assert_eq!(pool.in_use, 3);
    pool.release();
    assert!(pool.try_acquire());
    assert!(!pool.try_acquire());
}

#[test]
fn terminal_statuses_are_the_four_documented_ones() {
    for s in ["completed", "done", "error", "failed"] {
        assert!(is_terminal_status(s));
    }
    assert!(!is_terminal_status("processing"));
    assert!(!is_terminal_status("pending"));
    assert!(is_done_status("completed"));
    assert!(is_done_status("done"));
    assert!(!is_done_status("error"));
}

#[test]
fn progress_url_names_the_job() {
    let u = progress_url(&test_config(true), "pid-42");
    assert_eq!(u, "https://api.example.com/api/ingestion/progress/pid-42");
}
