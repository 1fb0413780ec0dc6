use peercore::backoff::backoff_delay;
use peercore::events::FileTransferEvent;
use peercore::metrics::{AttemptStatus, DownloadAttemptSnapshot, DownloadMetrics};
use peercore::orchestrator::{AttemptOutcome, DownloadRun};
use peercore::transfer::FileTransferService;

fn drive_download(
    service: &mut FileTransferService,
    file_hash: &String,
    mut failing_writes: u32,
) -> (DownloadRun, Option<Vec<u8>>) {
    let mut run = DownloadRun::new(file_hash.clone());
    let mut written: Option<Vec<u8>> = None;
    let mut timestamp: u64 = 0;
    while run.is_active() {
        let _delay_ms = run.next_delay_ms();
        let outcome = match service.lookup_file(file_hash) {
            None => AttemptOutcome::NotFoundLocally,
            Some((_name, data)) => {
                if failing_writes > 0 {
                    failing_writes -= 1;
                    AttemptOutcome::IoFailure
                } else {
                    written = Some(data);
                    AttemptOutcome::Completed
                }
            }
        };
        timestamp += 1;
        let snap = run.note_attempt(outcome, 5, timestamp);
        service.record_download_attempt(snap);
    }
    (run, written)
}

#[test]
fn download_retries_then_succeeds() {
    let mut service = FileTransferService::new();
    let file_hash = service.upload_bytes("example.txt".to_string(), b"hello world".to_vec());

    let (run, written) = drive_download(&mut service, &file_hash, 2);

    assert!(run.succeeded(), "expected download to succeed");
    assert_eq!(written.expect("written bytes"), b"hello world".to_vec());

    let metrics_snapshot = service.download_metrics_snapshot();
    assert_eq!(metrics_snapshot.total_success, 1);
    assert_eq!(metrics_snapshot.total_retries, 2);
    assert_eq!(metrics_snapshot.recent_attempts.len(), 3);

    let mut statuses = Vec::new();
    for event in service.drain_events(16) {
        if let FileTransferEvent::DownloadAttempt(snapshot) = event {
            statuses.push(snapshot.status);
        }
    }
    assert!(statuses.contains(&AttemptStatus::Retrying));
    assert!(statuses.contains(&AttemptStatus::Success));

    let snapshot = service.download_metrics_snapshot();
    assert_eq!(snapshot.total_success, 1);
    assert_eq!(snapshot.total_failures, 0);
    assert_eq!(snapshot.total_retries, 2);
}

#[test]
fn download_fails_after_max_attempts_for_missing_file() {
    let mut service = FileTransferService::new();
    let missing = "missing-hash".to_string();

    let (run, written) = drive_download(&mut service, &missing, 0);

    assert!(!run.succeeded(), "expected download to fail");
    assert!(written.is_none());
    assert_eq!(run.attempts, 3);

    let mut failure_seen = false;
    for event in service.drain_events(16) {
        if let FileTransferEvent::DownloadAttempt(snapshot) = event {
            if matches!(snapshot.status, AttemptStatus::Failed) {
                failure_seen = true;
            }
        }
    }
    assert!(failure_seen, "expected a failed attempt event");

    let snapshot = service.download_metrics_snapshot();
    assert_eq!(snapshot.total_success, 0);
    assert_eq!(snapshot.total_failures, 1);
    assert_eq!(snapshot.total_retries, 2);
}

#[test]
fn backoff_delay_schedule() {
    assert_eq!(backoff_delay(1), 0);
    assert_eq!(backoff_delay(2), 250);
    assert_eq!(backoff_delay(3), 500);
    assert_eq!(backoff_delay(4), 1000);
    assert_eq!(backoff_delay(5), 1500);
    assert_eq!(backoff_delay(6), 1500);
}

#[test]
fn file_hash_matches_known_digest() {
    let hash = FileTransferService::calculate_file_hash(b"hello world");
    assert_eq!(
        hash,
        "b94d27b9934d3e08a52e52d7da7dabfac484efe37a5380ee9088f7ace2efcde9"
    );
}

#[test]
fn store_file_data_refuses_mismatching_hash() {
    let mut service = FileTransferService::new();
    let accepted =
        service.store_file_data("not-a-digest".to_string(), "a.txt".to_string(), b"abc".to_vec());
    assert!(!accepted);
    assert!(service.lookup_file(&"not-a-digest".to_string()).is_none());
    assert!(service.get_stored_files().is_empty());
}

#[test]
fn store_file_data_accepts_matching_hash() {
    let mut service = FileTransferService::new();
    let hash = FileTransferService::calculate_file_hash(b"abc");
    let accepted = service.store_file_data(hash.clone(), "a.txt".to_string(), b"abc".to_vec());
    assert!(accepted);
    let (name, data) = service.lookup_file(&hash).expect("stored entry");
    assert_eq!(name, "a.txt");
    assert_eq!(data, b"abc".to_vec());
}

#[test]
fn upload_lists_and_emits_event() {
    let mut service = FileTransferService::new();
    let hash = service.upload_bytes("example.txt".to_string(), b"hello".to_vec());

    let files = service.get_stored_files();
    assert_eq!(files.len(), 1);
    assert_eq!(files[0].0, hash);
    assert_eq!(files[0].1, "example.txt");

    let events = service.drain_events(10);
    assert_eq!(events.len(), 1);
    match &events[0] {
        FileTransferEvent::FileUploaded { file_hash, file_name } => {
            assert_eq!(file_hash, &hash);
            assert_eq!(file_name, "example.txt");
        }
        other => panic!("unexpected event: {:?}", other),
    }
}

#[test]
fn upload_same_bytes_replaces_entry() {
    let mut service = FileTransferService::new();
    let first = service.upload_bytes("old.txt".to_string(), b"same".to_vec());
    let second = service.upload_bytes("new.txt".to_string(), b"same".to_vec());
    assert_eq!(first, second);

    let files = service.get_stored_files();
    assert_eq!(files.len(), 1);
    assert_eq!(files[0].1, "new.txt");
}

#[test]
fn drain_respects_limit_and_order() {
    let mut service = FileTransferService::new();
    service.upload_bytes("a.txt".to_string(), b"a".to_vec());
    service.upload_bytes("b.txt".to_string(), b"b".to_vec());

    let first = service.drain_events(1);
    assert_eq!(first.len(), 1);
    match &first[0] {
        FileTransferEvent::FileUploaded { file_name, .. } => assert_eq!(file_name, "a.txt"),
        other => panic!("unexpected event: {:?}", other),
    }
    let rest = service.drain_events(10);
    assert_eq!(rest.len(), 1);
    assert!(service.drain_events(10).is_empty());
}

#[test]
fn recent_attempts_stay_bounded_and_newest_first() {
    let mut metrics = DownloadMetrics::new();
    for i in 0..25u64 {
        metrics.record_attempt(DownloadAttemptSnapshot {
            file_hash: "h".to_string(),
            attempt: 1,
            max_attempts: 3,
            status: AttemptStatus::Retrying,
            duration_ms: 1,
            timestamp: i,
        });
    }
    let snapshot = metrics.snapshot();
    assert_eq!(snapshot.recent_attempts.len(), 20);
    assert_eq!(snapshot.recent_attempts[0].timestamp, 24);
    assert_eq!(snapshot.recent_attempts[19].timestamp, 5);
    assert_eq!(snapshot.total_retries, 25);
}
