use exemem_client_lib::config::AppConfig;
use exemem_client_lib::config::Environment;
use exemem_client_lib::pipeline::apply_poll_update;
use exemem_client_lib::pipeline::build_sync_status;
use exemem_client_lib::pipeline::chrono_now;
use exemem_client_lib::pipeline::decide_watch_event;
use exemem_client_lib::pipeline::init_progress;
use exemem_client_lib::pipeline::select_approved;
use exemem_client_lib::pipeline::settle_after_poll;
use exemem_client_lib::pipeline::skipped_entry;
use exemem_client_lib::pipeline::update_file_progress;
use exemem_client_lib::pipeline::ActivityEntry;
use exemem_client_lib::pipeline::ActivityLog;
use exemem_client_lib::pipeline::WatchDecision;
use exemem_client_lib::pipeline::MAX_ACTIVITY_LOG;
use exemem_client_lib::scanner::classify_files;
use exemem_client_lib::uploader::is_terminal_status;
use exemem_client_lib::uploader::ProgressResponse;
use exemem_client_lib::uploader::UploadFlow;
use exemem_client_lib::uploader::UploadResult;
use exemem_client_lib::uploader::UploadSlot;
use exemem_client_lib::uploader::UploadStatus;
use exemem_client_lib::uploader::UploadStep;

fn entry(name: &str) -> ActivityEntry {
    ActivityEntry {
        filename: name.to_string(),
        status: UploadStatus::Done,
        error: None,
        timestamp: "0".to_string(),
        category: None,
    }
}

#[test]
fn log_keeps_newest_first_and_drops_the_oldest() {
    // Capacity + 1 insertions: the oldest entry is gone and the newest is
    // at index 0.
    let mut log = ActivityLog::new(3);
    for name in ["one", "two", "three", "four"] {
        log.push(entry(name));
    }
    assert_eq!(log.entries.len(), 3);
    assert_eq!(log.entries[0].filename, "four");
    assert_eq!(log.entries[1].filename, "three");
    assert_eq!(log.entries[2].filename, "two");
    assert!(log.entries.iter().all(|e| e.filename != "one"));
}

#[test]
fn log_honours_the_default_capacity() {
    let mut log = ActivityLog::new(MAX_ACTIVITY_LOG);
    for i in 0..(MAX_ACTIVITY_LOG + 5) {
        log.push(entry(&format!("f{}", i)));
    }
    assert_eq!(log.entries.len(), MAX_ACTIVITY_LOG);
    assert_eq!(log.entries[0].filename, "f54");
}

#[test]
fn log_result_records_the_outcome() {
    let mut log = ActivityLog::new(10);
    let result = UploadResult {
        filename: "a.txt".to_string(),
        s3_key: "k".to_string(),
        progress_id: None,
        status: UploadStatus::Error,
        error: Some("boom".to_string()),
    };
    log.log_result(&result, Some("personal_data".to_string()));
    assert_eq!(log.entries[0].filename, "a.txt");
    assert_eq!(log.entries[0].status, UploadStatus::Error);
    assert_eq!(log.entries[0].error.as_deref(), Some("boom"));
    assert_eq!(log.entries[0].category.as_deref(), Some("personal_data"));
    assert!(!log.entries[0].timestamp.is_empty());
}

#[test]
fn timestamps_are_decimal_seconds() {
    let t = chrono_now();
    assert!(!t.is_empty());
    assert!(t.chars().all(|c| c.is_ascii_digit()));
}

#[test]
fn progress_list_starts_pending() {
    let files = vec!["a.json".to_string(), "b.jpg".to_string()];
    let recs = classify_files("/r", &files);
    let progress = init_progress(&recs);
    assert_eq!(progress.len(), 2);
    assert_eq!(progress[0].filename, "a.json");
    assert_eq!(progress[0].status, "pending");
    assert_eq!(progress[0].percent, 0);
    assert_eq!(progress[0].progress_id, None);
}

#[test]
fn progress_updates_hit_only_the_named_file() {
    let files = vec!["a.json".to_string(), "b.jpg".to_string()];
    let recs = classify_files("/r", &files);
    let mut progress = init_progress(&recs);
    update_file_progress(&mut progress, "b.jpg", "uploading", 10, None);
    assert_eq!(progress[0].status, "pending");
    assert_eq!(progress[1].status, "uploading");
    assert_eq!(progress[1].percent, 10);
    update_file_progress(&mut progress, "b.jpg", "ingesting", 50, Some("pid-1".to_string()));
    assert_eq!(progress[1].progress_id.as_deref(), Some("pid-1"));
    update_file_progress(&mut progress, "missing.txt", "x", 1, None);
    assert_eq!(progress[0].status, "pending");
}

#[test]
fn poll_updates_never_lower_the_percentage() {
    let files = vec!["a.json".to_string()];
    let recs = classify_files("/r", &files);
    let mut progress = init_progress(&recs);
    update_file_progress(&mut progress, "a.json", "ingesting", 60, None);
    let resp = ProgressResponse {
        progress_id: "pid".to_string(),
        status: "processing".to_string(),
        percent: Some(40),
        message: Some("indexing".to_string()),
    };
    apply_poll_update(&mut progress, "a.json", &resp);
    assert_eq!(progress[0].percent, 60);
    assert_eq!(progress[0].status, "processing");
    assert_eq!(progress[0].message.as_deref(), Some("indexing"));
    // A missing percentage counts as 50: still no downgrade.
    let resp2 = ProgressResponse {
        progress_id: "pid".to_string(),
        status: "processing".to_string(),
        percent: None,
        message: None,
    };
    apply_poll_update(&mut progress, "a.json", &resp2);
    assert_eq!(progress[0].percent, 60);
    // An error state may reset the display.
    let resp3 = ProgressResponse {
        progress_id: "pid".to_string(),
        status: "failed".to_string(),
        percent: Some(0),
        message: None,
    };
    apply_poll_update(&mut progress, "a.json", &resp3);
    assert_eq!(progress[0].percent, 0);
}

#[test]
fn approval_selects_by_path_over_both_partitions() {
    let files = vec![
        "a.json".to_string(),
        "b.jpg".to_string(),
        "skip.xyz".to_string(),
        "conf.yaml".to_string(),
    ];
    let recs = classify_files("/r", &files);
    let recommended: Vec<_> = recs.iter().filter(|r| r.should_ingest).cloned().collect();
    let skipped: Vec<_> = recs.iter().filter(|r| !r.should_ingest).cloned().collect();
    let approved = vec!["b.jpg".to_string(), "skip.xyz".to_string()];
    let sel = select_approved(recommended, skipped, &approved);
    let names: Vec<&str> = sel.iter().map(|r| r.path.as_str()).collect();
    assert_eq!(names, vec!["b.jpg", "skip.xyz"]);
}

#[test]
fn watch_decision_needs_approval_and_recommendation() {
    let files = vec!["a.json".to_string(), "skip.xyz".to_string()];
    let recs = classify_files("/r", &files);
    assert_eq!(decide_watch_event(true, &recs[0]), WatchDecision::Upload);
    assert_eq!(decide_watch_event(false, &recs[0]), WatchDecision::RecordOnly);
    assert_eq!(decide_watch_event(true, &recs[1]), WatchDecision::RecordOnly);
}

#[test]
fn skipped_entries_carry_the_reason() {
    let files = vec!["a.json".to_string(), "skip.xyz".to_string()];
    let recs = classify_files("/r", &files);
    let waiting = skipped_entry(&recs[0], "1".to_string());
    assert_eq!(waiting.error.as_deref(), Some("Waiting for approval"));
    assert_eq!(waiting.category.as_deref(), Some("personal_data"));
    let skipped = skipped_entry(&recs[1], "2".to_string());
    assert_eq!(skipped.error.as_deref(), Some("Skipped (unknown)"));
}

#[test]
fn sync_status_reflects_its_inputs() {
    let s = build_sync_status(true, Some("/tmp/w".to_string()), 7, vec![entry("x")]);
    assert!(s.watching);
    assert_eq!(s.folder.as_deref(), Some("/tmp/w"));
    assert_eq!(s.file_count, 7);
    assert_eq!(s.recent_activity.len(), 1);
}

#[test]
fn end_to_end_ingestion_reaches_done() {
    // An approved pdf is uploaded with auto-ingest on; the mocked remote
    // accepts every step, reports one processing poll and then completion;
    // the activity log ends with a Done entry and no error.
    let config = AppConfig {
        api_base_url: "https://api.example.com".to_string(),
        api_key: "test-key".to_string(),
        watched_folder: Some("/tmp/watched".to_string()),
        auto_ingest: true,
        auto_approve_watched: true,
        environment: Environment::Custom,
        session_token: None,
        user_hash: None,
    };
    let f = UploadFlow::new("/tmp/watched/report.pdf", &config);
    let (f, _) = f.on_slot_result(Ok(UploadSlot {
        upload_url: "https://bucket/put".to_string(),
        s3_key: "user/report.pdf".to_string(),
        s3_bucket: None,
    }));
    let f = f.on_read_result(Ok(()));
    let (f, _) = f.on_transfer_result(Ok(()));
    let (f, _) = f.on_trigger_result(Ok("pid-9".to_string()));
    let result = match f.step {
        UploadStep::Finished { result } => result,
        other => panic!("expected a finished flow, found {:?}", other),
    };
    assert_eq!(result.status, UploadStatus::Ingesting);

    let mut progress = vec![exemem_client_lib::pipeline::FileProgress {
        filename: "report.pdf".to_string(),
        progress_id: Some("pid-9".to_string()),
        status: "ingesting".to_string(),
        percent: 50,
        message: None,
    }];
    let polls = vec![
        ProgressResponse {
            progress_id: "pid-9".to_string(),
            status: "processing".to_string(),
            percent: Some(70),
            message: None,
        },
        ProgressResponse {
            progress_id: "pid-9".to_string(),
            status: "completed".to_string(),
            percent: Some(100),
            message: None,
        },
    ];
    let mut last_terminal = None;
    for resp in &polls {
        apply_poll_update(&mut progress, "report.pdf", resp);
        if is_terminal_status(resp.status.as_str()) {
            last_terminal = Some(resp);
            break;
        }
    }
    assert_eq!(progress[0].percent, 100);
    let settled = settle_after_poll(result, last_terminal);
    let mut log = ActivityLog::new(MAX_ACTIVITY_LOG);
    log.log_result(&settled, None);
    assert_eq!(log.entries[0].filename, "report.pdf");
    assert_eq!(log.entries[0].status, UploadStatus::Done);
    assert_eq!(log.entries[0].error, None);
}
