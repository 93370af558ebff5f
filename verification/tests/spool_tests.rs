//! Spool behaviour: the queue lifecycle on the model, the upload walk
//! against fake server answers, recovery, caps, and correlation ids.

use mdqc::config::{CloudConfig, SpoolConfig};
use mdqc::errors::{SpoolError, UploadError};
use mdqc::spool::{payload_file_name, Spool, UtcTime};
use mdqc::uploader::Uploader;

fn spool_config() -> SpoolConfig {
    SpoolConfig {
        max_pending_mb: 1000,
        max_age_days: 30,
        completed_retention_count: 10,
    }
}

fn cloud_config() -> CloudConfig {
    CloudConfig {
        endpoint: String::from("https://example.test/v1/"),
        certificate_thumbprint: None,
        api_token: None,
        proxy: None,
    }
}

fn sample_time() -> UtcTime {
    UtcTime {
        epoch_secs: 1_767_225_600,
        year: 2026,
        month: 1,
        day: 27,
        hour: 9,
        minute: 30,
        second: 5,
    }
}

#[test]
fn enqueue_places_payload_in_pending_only() {
    let mut spool = Spool::new(&spool_config());
    spool.set_agent_id(String::from("agent-1"));

    let receipt = spool
        .enqueue("run-0001", 1024, &sample_time(), 0xDEADBEEF)
        .unwrap();
    assert_eq!(receipt.file_name, "run-0001_payload.json");
    assert_eq!(spool.pending.len(), 1);
    assert_eq!(spool.uploading.len(), 0);
    assert_eq!(spool.failed.len(), 0);
    assert_eq!(spool.completed.len(), 0);
    assert_eq!(spool.pending[0].payload_id, "run-0001");
    assert_eq!(spool.pending[0].size, 1024);
    assert_eq!(spool.pending[0].mtime, 1_767_225_600);
}

#[test]
fn correlation_id_has_exact_shape() {
    let mut spool = Spool::new(&spool_config());
    spool.set_agent_id(String::from("agent-1"));

    let receipt = spool
        .enqueue("run-0002", 10, &sample_time(), 0xDEADBEEF)
        .unwrap();
    assert_eq!(receipt.correlation_id, "agent-1-20260127093005-deadbeef");
}

#[test]
fn payload_file_name_shape() {
    assert_eq!(payload_file_name("abc"), "abc_payload.json");
}

#[test]
fn enqueue_refused_when_pending_over_cap() {
    let cfg = SpoolConfig {
        max_pending_mb: 1,
        max_age_days: 30,
        completed_retention_count: 10,
    };
    let mut spool = Spool::new(&cfg);
    // 2 MB already pending.
    spool
        .enqueue("run-a", 2 * 1024 * 1024, &sample_time(), 1)
        .unwrap();
    match spool.enqueue("run-b", 10, &sample_time(), 2) {
        Err(SpoolError::Full(used, cap)) => {
            assert_eq!(used, 2);
            assert_eq!(cap, 1);
        }
        other => panic!("expected a full spool, got {:?}", other.is_ok()),
    }
    assert_eq!(spool.pending.len(), 1);
}

#[test]
fn enqueue_sweeps_stale_payloads() {
    let mut spool = Spool::new(&spool_config());
    let mut old_time = sample_time();
    // Far older than 30 days before the later enqueue.
    old_time.epoch_secs = 1_000_000;
    spool.enqueue("run-old", 10, &old_time, 1).unwrap();

    let receipt = spool.enqueue("run-new", 10, &sample_time(), 2).unwrap();
    assert_eq!(receipt.expired_pending, vec![String::from("run-old_payload.json")]);
    assert_eq!(spool.pending.len(), 1);
    assert_eq!(spool.pending[0].payload_id, "run-new");
}

#[test]
fn recovery_returns_uploading_to_pending() {
    let mut spool = Spool::new(&spool_config());
    spool.enqueue("run-1", 10, &sample_time(), 1).unwrap();
    spool.enqueue("run-2", 10, &sample_time(), 2).unwrap();
    spool.mark_uploading("run-1").unwrap();
    assert_eq!(spool.uploading.len(), 1);
    assert_eq!(spool.pending.len(), 1);

    // What a restart does first.
    spool.recover();
    assert_eq!(spool.uploading.len(), 0);
    assert_eq!(spool.pending.len(), 2);
    assert_eq!(spool.pending[1].payload_id, "run-1");
}

#[test]
fn transitions_keep_exactly_one_location() {
    let mut spool = Spool::new(&spool_config());
    spool.enqueue("run-1", 10, &sample_time(), 1).unwrap();

    let count = |s: &Spool, id: &str| -> usize {
        s.pending.iter().filter(|e| e.payload_id == id).count()
            + s.uploading.iter().filter(|e| e.payload_id == id).count()
            + s.failed.iter().filter(|e| e.payload_id == id).count()
            + s.completed.iter().filter(|e| e.payload_id == id).count()
    };
    assert_eq!(count(&spool, "run-1"), 1);
    spool.mark_uploading("run-1").unwrap();
    assert_eq!(count(&spool, "run-1"), 1);
    spool.mark_pending("run-1").unwrap();
    assert_eq!(count(&spool, "run-1"), 1);
    spool.mark_uploading("run-1").unwrap();
    spool.mark_completed("run-1").unwrap();
    assert_eq!(count(&spool, "run-1"), 1);
    // A move of an id that is not uploading changes nothing.
    assert!(spool.mark_failed("run-1").is_err());
    assert_eq!(count(&spool, "run-1"), 1);
    assert_eq!(spool.completed.len(), 1);
}

#[test]
fn spool_round_trip_single_success() {
    let mut spool = Spool::new(&spool_config());
    spool.set_agent_id(String::from("agent-1"));
    spool.enqueue("run-1", 10, &sample_time(), 1).unwrap();

    let mut uploader = Uploader::new(&cloud_config(), spool);
    // A fake server that answers 200 once.
    let statuses = vec![200u16];
    let attempts = uploader.upload_with_retry("run-1", &statuses).unwrap();
    assert_eq!(attempts, 1);

    assert_eq!(uploader.spool.completed.len(), 1);
    assert_eq!(uploader.spool.pending.len(), 0);
    assert_eq!(uploader.spool.uploading.len(), 0);
    assert_eq!(uploader.spool.failed.len(), 0);
}

#[test]
fn retry_exhaustion_lands_in_failed() {
    let mut spool = Spool::new(&spool_config());
    spool.enqueue("run-1", 10, &sample_time(), 1).unwrap();

    let mut uploader = Uploader::new(&cloud_config(), spool);
    // A fake server that answers 500 forever.
    let statuses = vec![500u16, 500, 500, 500, 500, 500, 500];
    match uploader.upload_with_retry("run-1", &statuses) {
        Err(UploadError::RetryExhausted(n)) => assert_eq!(n, 5),
        _ => panic!("expected exhaustion"),
    }
    assert_eq!(uploader.spool.failed.len(), 1);
    assert_eq!(uploader.spool.pending.len(), 0);
    assert_eq!(uploader.spool.uploading.len(), 0);
    assert_eq!(uploader.spool.completed.len(), 0);
}

#[test]
fn success_on_third_attempt() {
    let mut spool = Spool::new(&spool_config());
    spool.enqueue("run-1", 10, &sample_time(), 1).unwrap();

    let mut uploader = Uploader::new(&cloud_config(), spool);
    let statuses = vec![500u16, 503, 201, 500, 500];
    let attempts = uploader.upload_with_retry("run-1", &statuses).unwrap();
    assert_eq!(attempts, 3);
    assert_eq!(uploader.spool.completed.len(), 1);
}

#[test]
fn auth_failures_still_count_on_the_ladder() {
    let mut spool = Spool::new(&spool_config());
    spool.enqueue("run-1", 10, &sample_time(), 1).unwrap();

    let mut uploader = Uploader::new(&cloud_config(), spool);
    let statuses = vec![401u16, 403, 401, 403, 401];
    match uploader.upload_with_retry("run-1", &statuses) {
        Err(UploadError::RetryExhausted(n)) => assert_eq!(n, 5),
        _ => panic!("expected exhaustion"),
    }
    assert_eq!(uploader.spool.failed.len(), 1);
}

#[test]
fn completed_directory_is_trimmed_oldest_first() {
    let cfg = SpoolConfig {
        max_pending_mb: 1000,
        max_age_days: 30,
        completed_retention_count: 2,
    };
    let mut spool = Spool::new(&cfg);
    for (i, id) in ["run-1", "run-2", "run-3", "run-4"].iter().enumerate() {
        let mut t = sample_time();
        t.epoch_secs += i as i64;
        spool.enqueue(id, 10, &t, i as u32).unwrap();
        spool.mark_uploading(id).unwrap();
        spool.mark_completed(id).unwrap();
    }
    assert_eq!(spool.completed.len(), 4);
    let removed = spool.cleanup_completed();
    assert_eq!(spool.completed.len(), 2);
    assert_eq!(removed.len(), 2);
    let mut removed_ids: Vec<String> =
        removed.iter().map(|e| e.payload_id.clone()).collect();
    removed_ids.sort();
    assert_eq!(removed_ids, vec!["run-1", "run-2"]);
}

#[test]
fn get_pending_is_oldest_first() {
    let mut spool = Spool::new(&spool_config());
    for (i, id) in ["run-b", "run-a", "run-c"].iter().enumerate() {
        let mut t = sample_time();
        // run-a oldest, then run-b, then run-c.
        t.epoch_secs += match i {
            0 => 5,
            1 => 0,
            _ => 9,
        };
        spool.enqueue(id, 10, &t, i as u32).unwrap();
    }
    let ordered = spool.get_pending();
    let ids: Vec<&str> = ordered.iter().map(|e| e.payload_id.as_str()).collect();
    assert_eq!(ids, vec!["run-a", "run-b", "run-c"]);
}

#[test]
fn agent_id_defaults_to_unregistered() {
    let spool = Spool::new(&spool_config());
    assert_eq!(spool.get_agent_id(), "unregistered");
}

#[test]
fn membership_and_invariant_are_checkable() {
    let mut spool = Spool::new(&spool_config());
    assert!(spool.check_wf());
    assert!(!spool.contains_id("run-1"));

    spool.enqueue("run-1", 10, &sample_time(), 1).unwrap();
    assert!(spool.check_wf());
    assert!(spool.contains_id("run-1"));
    spool.mark_uploading("run-1").unwrap();
    assert!(spool.contains_id("run-1"));

    // A corrupt scan — one payload id in two directories — is detected.
    let mut corrupt = Spool::new(&spool_config());
    corrupt.enqueue("run-1", 10, &sample_time(), 1).unwrap();
    corrupt.completed = corrupt
        .pending
        .iter()
        .map(|e| mdqc::spool::SpoolEntry {
            payload_id: e.payload_id.clone(),
            name: e.name.clone(),
            size: e.size,
            mtime: e.mtime,
        })
        .collect();
    assert!(!corrupt.check_wf());
}
