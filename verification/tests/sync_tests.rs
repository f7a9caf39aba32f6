use miniminio::sync::{remote_bucket, SyncAction, SyncEvent, SyncJob, SyncReply, SyncStatus};

fn finish(action: &SyncAction) -> Option<bool> {
    match action {
        SyncAction::Finish(d) => Some(*d),
        _ => None,
    }
}

#[test]
fn remote_names_carry_the_prefix() {
    assert_eq!(remote_bucket("edge01-", "photos"), "edge01-photos");
    assert_eq!(remote_bucket("", "photos"), "photos");
}

#[test]
fn bucket_creation_checks_first() {
    let (mut job, a) = SyncJob::start(SyncEvent::CreateBucket { bucket: "b".into() }, "p-");
    assert!(matches!(a, SyncAction::HeadBucket(ref b) if b == "p-b"));
    let a = job.next(SyncReply::Status(404));
    assert!(matches!(a, SyncAction::CreateBucket(ref b) if b == "p-b"));
    let a = job.next(SyncReply::Status(409));
    assert_eq!(finish(&a), Some(true));
    // An existing bucket needs nothing more.
    let (mut job, _) = SyncJob::start(SyncEvent::CreateBucket { bucket: "b".into() }, "");
    assert_eq!(finish(&job.next(SyncReply::Status(200))), Some(true));
}

#[test]
fn object_upload_reads_checks_and_puts() {
    let (mut job, a) = SyncJob::start(SyncEvent::PutObject { bucket: "b".into(), key: "k".into() }, "r-");
    assert!(matches!(a, SyncAction::ReadObject(ref b, ref k) if b == "b" && k == "k"));
    let a = job.next(SyncReply::Found);
    assert!(matches!(a, SyncAction::HeadBucket(ref b) if b == "r-b"));
    let a = job.next(SyncReply::Transport);
    assert!(matches!(a, SyncAction::CreateBucket(ref b) if b == "r-b"));
    let a = job.next(SyncReply::Status(500));
    assert!(matches!(a, SyncAction::PutObject(ref b, ref k) if b == "r-b" && k == "k"));
    assert_eq!(finish(&job.next(SyncReply::Status(200))), Some(true));
}

#[test]
fn vanished_objects_are_skipped() {
    let (mut job, _) = SyncJob::start(SyncEvent::PutObject { bucket: "b".into(), key: "k".into() }, "");
    assert_eq!(finish(&job.next(SyncReply::Missing)), Some(true));
}

#[test]
fn deletions_accept_gone_targets() {
    let (mut job, a) = SyncJob::start(SyncEvent::DeleteObject { bucket: "b".into(), key: "k".into() }, "");
    assert!(matches!(a, SyncAction::DeleteObject(ref b, ref k) if b == "b" && k == "k"));
    assert_eq!(finish(&job.next(SyncReply::Status(404))), Some(true));
    let (mut job, a) = SyncJob::start(SyncEvent::DeleteBucket { bucket: "b".into() }, "");
    assert!(matches!(a, SyncAction::DeleteBucket(_)));
    assert_eq!(finish(&job.next(SyncReply::Status(409))), Some(true));
}

#[test]
fn failures_are_retried_with_growing_pauses_then_dropped() {
    let (mut job, _) = SyncJob::start(SyncEvent::DeleteObject { bucket: "b".into(), key: "k".into() }, "");
    let mut waits = Vec::new();
    loop {
        match job.next(SyncReply::Status(500)) {
            SyncAction::Wait(s) => {
                waits.push(s);
                let a = job.next(SyncReply::Waited);
                assert!(matches!(a, SyncAction::DeleteObject(_, _)));
            }
            SyncAction::Finish(d) => {
                assert!(!d);
                break;
            }
            other => panic!("unexpected step {other:?}"),
        }
    }
    assert_eq!(waits, vec![1, 2, 4, 8, 16]);
    // A finished job stays finished.
    assert_eq!(finish(&job.next(SyncReply::Status(204))), Some(false));
}

#[test]
fn a_retry_can_succeed() {
    let (mut job, _) = SyncJob::start(SyncEvent::DeleteBucket { bucket: "b".into() }, "");
    assert!(matches!(job.next(SyncReply::Transport), SyncAction::Wait(1)));
    assert!(matches!(job.next(SyncReply::Waited), SyncAction::DeleteBucket(_)));
    assert_eq!(finish(&job.next(SyncReply::Status(204))), Some(true));
}

#[test]
fn status_counters() {
    let s = SyncStatus::new(true, "http://up");
    s.event_queued();
    s.event_queued();
    s.event_taken();
    s.record_outcome(true, 1700000000);
    s.record_outcome(false, 0);
    let snap = s.snapshot();
    assert!(snap.enabled);
    assert_eq!(snap.endpoint, "http://up");
    assert_eq!(snap.events_pending, 1);
    assert_eq!(snap.events_sent, 1);
    assert_eq!(snap.events_failed, 1);
    assert_eq!(snap.last_sync_epoch, 1700000000);
}
