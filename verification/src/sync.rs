//! Replication of local changes to an upstream S3 endpoint.
//!
//! Each change becomes a [`SyncJob`]. The job asks for one outside step at a
//! time (a request to the upstream server, a read of the local object, a
//! pause); the worker performs it and hands the reply back, until the job
//! finishes. A failed attempt is retried after a pause of 1, 2, 4, 8 and 16
//! seconds; after the sixth failed attempt the change is dropped.

use vstd::prelude::*;
use std::sync::Arc;
use std::sync::atomic::AtomicU64;
use crate::text::{copy_str, push_str};

verus! {

/// A change of local storage to replicate.
#[derive(Debug, Clone)]
pub enum SyncEvent {
    CreateBucket { bucket: String },
    DeleteBucket { bucket: String },
    PutObject { bucket: String, key: String },
    DeleteObject { bucket: String, key: String },
}

/// A change, by the text of its names.
pub enum EventView {
    CreateBucket(Seq<char>),
    DeleteBucket(Seq<char>),
    PutObject(Seq<char>, Seq<char>),
    DeleteObject(Seq<char>, Seq<char>),
}

impl View for SyncEvent {
    type V = EventView;

    open spec fn view(&self) -> EventView {
        match self {
            SyncEvent::CreateBucket { bucket } => EventView::CreateBucket(bucket@),
            SyncEvent::DeleteBucket { bucket } => EventView::DeleteBucket(bucket@),
            SyncEvent::PutObject { bucket, key } => EventView::PutObject(bucket@, key@),
            SyncEvent::DeleteObject { bucket, key } => EventView::DeleteObject(bucket@, key@),
        }
    }
}

/// Where and how to replicate.
#[derive(Clone, Debug)]
pub struct SyncConfig {
    pub endpoint: String,
    pub access_key: String,
    pub secret_key: String,
    pub region: String,
    /// Put before each bucket name on the upstream server: with `edge01-`,
    /// the local bucket `photos` is replicated to `edge01-photos`.
    pub bucket_prefix: String,
}

/// The counters of the replication worker at one moment.
#[derive(Debug, Clone)]
pub struct SyncSnapshot {
    pub enabled: bool,
    pub endpoint: String,
    pub events_sent: u64,
    pub events_failed: u64,
    pub events_pending: u64,
    pub last_sync_epoch: u64,
}

/// The counters of the replication worker, shared between threads.
#[derive(Debug)]
pub struct SyncStatus {
    pub events_sent: AtomicU64,
    pub events_failed: AtomicU64,
    pub events_pending: Arc<AtomicU64>,
    pub last_sync_epoch: AtomicU64,
    pub enabled: bool,
    pub endpoint: String,
}

impl SyncStatus {
    /// Counters at zero.
    pub fn new(enabled: bool, endpoint: &str) -> (s: Arc<Self>)
        ensures
            s.enabled == enabled,
            s.endpoint@ == endpoint@,
    {
        Arc::new(
            SyncStatus {
                events_sent: AtomicU64::new(0),
                events_failed: AtomicU64::new(0),
                events_pending: Arc::new(AtomicU64::new(0)),
                last_sync_epoch: AtomicU64::new(0),
                enabled,
                endpoint: copy_str(endpoint),
            },
        )
    }

    /// The counters as they are now. Other threads may change them while
    /// they are read, so only the fixed fields are stated.
    pub fn snapshot(&self) -> (s: SyncSnapshot)
        ensures
            s.enabled == self.enabled,
            s.endpoint@ == self.endpoint@,
    {
        SyncSnapshot {
            enabled: self.enabled,
            endpoint: copy_str(self.endpoint.as_str()),
            events_sent: self.events_sent.load(std::sync::atomic::Ordering::Relaxed),
            events_failed: self.events_failed.load(std::sync::atomic::Ordering::Relaxed),
            events_pending: self.events_pending.load(std::sync::atomic::Ordering::Relaxed),
            last_sync_epoch: self.last_sync_epoch.load(std::sync::atomic::Ordering::Relaxed),
        }
    }

    /// Counts a change handed to the worker.
    pub fn event_queued(&self) {
        self.events_pending.fetch_add(1, std::sync::atomic::Ordering::Relaxed);
    }

    /// Counts a change taken up by the worker.
    pub fn event_taken(&self) {
        self.events_pending.fetch_sub(1, std::sync::atomic::Ordering::Relaxed);
    }

    /// Counts a finished change: delivered (and when, in seconds since the
    /// epoch) or dropped.
    pub fn record_outcome(&self, delivered: bool, now_epoch: u64) {
        if delivered {
            self.events_sent.fetch_add(1, std::sync::atomic::Ordering::Relaxed);
            self.last_sync_epoch.store(now_epoch, std::sync::atomic::Ordering::Relaxed);
        } else {
            self.events_failed.fetch_add(1, std::sync::atomic::Ordering::Relaxed);
        }
    }
}

/// The upstream name of a local bucket: the configured prefix, then the
/// local name.
pub fn remote_bucket(prefix: &str, bucket: &str) -> (r: String)
    ensures
        r@ == prefix@ + bucket@,
{
    let mut r = copy_str(prefix);
    push_str(&mut r, bucket);
    r
}

// ---------------------------------------------------------------------------
// Replies of the upstream server

/// Statuses with which the upstream server accepts a bucket creation (409:
/// the bucket exists already).
pub open spec fn create_bucket_ok(status: u16) -> bool {
    status == 200 || status == 409
}

/// Statuses with which a bucket deletion counts as done (404: gone already;
/// 409: not empty, left alone).
pub open spec fn delete_bucket_ok(status: u16) -> bool {
    status == 204 || status == 404 || status == 409
}

/// Statuses with which an object upload counts as done.
pub open spec fn put_object_ok(status: u16) -> bool {
    status == 200
}

/// Statuses with which an object deletion counts as done (404: gone already).
pub open spec fn delete_object_ok(status: u16) -> bool {
    status == 204 || status == 404
}

/// A bucket exists upstream when a HEAD request on it answers 200.
pub open spec fn bucket_exists_status(status: u16) -> bool {
    status == 200
}

// ---------------------------------------------------------------------------
// The replication of one change

/// An outside step that a job asks for.
#[derive(Debug)]
pub enum SyncAction {
    /// Ask the upstream server whether the bucket exists.
    HeadBucket(String),
    /// Create the bucket upstream.
    CreateBucket(String),
    /// Delete the bucket upstream.
    DeleteBucket(String),
    /// Read the local object (bucket, key) with its content type.
    ReadObject(String, String),
    /// Upload the object read last to the upstream bucket under the key.
    PutObject(String, String),
    /// Delete the object (bucket, key) upstream.
    DeleteObject(String, String),
    /// Pause for this many seconds before the next attempt.
    Wait(u64),
    /// The job is over: the change was delivered, or dropped.
    Finish(bool),
}

pub enum ActionView {
    HeadBucket(Seq<char>),
    CreateBucket(Seq<char>),
    DeleteBucket(Seq<char>),
    ReadObject(Seq<char>, Seq<char>),
    PutObject(Seq<char>, Seq<char>),
    DeleteObject(Seq<char>, Seq<char>),
    Wait(nat),
    Finish(bool),
}

impl View for SyncAction {
    type V = ActionView;

    open spec fn view(&self) -> ActionView {
        match self {
            SyncAction::HeadBucket(b) => ActionView::HeadBucket(b@),
            SyncAction::CreateBucket(b) => ActionView::CreateBucket(b@),
            SyncAction::DeleteBucket(b) => ActionView::DeleteBucket(b@),
            SyncAction::ReadObject(b, k) => ActionView::ReadObject(b@, k@),
            SyncAction::PutObject(b, k) => ActionView::PutObject(b@, k@),
            SyncAction::DeleteObject(b, k) => ActionView::DeleteObject(b@, k@),
            SyncAction::Wait(s) => ActionView::Wait(*s as nat),
            SyncAction::Finish(d) => ActionView::Finish(*d),
        }
    }
}

/// What the last step gave.
#[derive(Debug, Clone, Copy, PartialEq, Eq, Structural)]
pub enum SyncReply {
    /// The upstream server answered with this HTTP status.
    Status(u16),
    /// The request to the upstream server failed without an answer.
    Transport,
    /// The local object was read.
    Found,
    /// The local object could not be read (it was deleted meanwhile).
    Missing,
    /// The pause is over.
    Waited,
}

/// Where a job stands.
#[derive(Debug, Clone, Copy, PartialEq, Eq, Structural)]
pub enum SyncStage {
    /// Waiting for the HEAD of the bucket to create.
    CheckBucket,
    /// Waiting for the creation of the bucket.
    MakeBucket,
    /// Waiting for the deletion of the bucket.
    RemoveBucket,
    /// Waiting for the local read of the object to upload.
    ReadLocal,
    /// Waiting for the HEAD of the bucket to upload into.
    PutCheckBucket,
    /// Waiting for the creation of the bucket to upload into.
    PutMakeBucket,
    /// Waiting for the upload.
    Upload,
    /// Waiting for the deletion of the object.
    RemoveObject,
    /// Pausing before the next attempt.
    Backoff,
    /// Over: delivered.
    Delivered,
    /// Over: dropped after the last attempt failed.
    Dropped,
}

/// The number of retries after a first failed attempt.
pub open spec fn max_retries() -> nat {
    5
}

/// The pause before retry `attempt + 1`: 2 to the power `attempt` seconds.
pub open spec fn backoff_secs(attempt: nat) -> nat
    decreases attempt,
{
    if attempt == 0 {
        1
    } else {
        2 * backoff_secs((attempt - 1) as nat)
    }
}

/// The state of a job.
pub struct JobState {
    pub event: EventView,
    pub remote: Seq<char>,
    pub attempt: nat,
    pub stage: SyncStage,
}

/// The first step of an attempt.
pub open spec fn first_step(s: JobState) -> (JobState, ActionView) {
    match s.event {
        EventView::CreateBucket(_) => (
            JobState { stage: SyncStage::CheckBucket, ..s },
            ActionView::HeadBucket(s.remote),
        ),
        EventView::DeleteBucket(_) => (
            JobState { stage: SyncStage::RemoveBucket, ..s },
            ActionView::DeleteBucket(s.remote),
        ),
        EventView::PutObject(b, k) => (
            JobState { stage: SyncStage::ReadLocal, ..s },
            ActionView::ReadObject(b, k),
        ),
        EventView::DeleteObject(_, k) => (
            JobState { stage: SyncStage::RemoveObject, ..s },
            ActionView::DeleteObject(s.remote, k),
        ),
    }
}

/// How an attempt goes on after a reply.
pub enum Progress {
    Next(SyncStage, ActionView),
    Succeeded,
    Failed,
}

/// The key of the change, for the changes that have one.
pub open spec fn event_key(e: EventView) -> Seq<char> {
    match e {
        EventView::PutObject(_, k) => k,
        EventView::DeleteObject(_, k) => k,
        _ => Seq::empty(),
    }
}

/// How an attempt goes on when `reply` answers the step of `s.stage`. A
/// reply of the wrong kind counts as a failed request.
pub open spec fn progress(s: JobState, reply: SyncReply) -> Progress {
    match s.stage {
        SyncStage::CheckBucket => match reply {
            SyncReply::Status(st) => if bucket_exists_status(st) {
                Progress::Succeeded
            } else {
                Progress::Next(SyncStage::MakeBucket, ActionView::CreateBucket(s.remote))
            },
            _ => Progress::Failed,
        },
        SyncStage::MakeBucket => match reply {
            SyncReply::Status(st) => if create_bucket_ok(st) {
                Progress::Succeeded
            } else {
                Progress::Failed
            },
            _ => Progress::Failed,
        },
        SyncStage::RemoveBucket => match reply {
            SyncReply::Status(st) => if delete_bucket_ok(st) {
                Progress::Succeeded
            } else {
                Progress::Failed
            },
            _ => Progress::Failed,
        },
        SyncStage::ReadLocal => match reply {
            SyncReply::Missing => Progress::Succeeded,
            SyncReply::Found => Progress::Next(SyncStage::PutCheckBucket, ActionView::HeadBucket(s.remote)),
            _ => Progress::Failed,
        },
        SyncStage::PutCheckBucket => match reply {
            SyncReply::Status(st) => if bucket_exists_status(st) {
                Progress::Next(SyncStage::Upload, ActionView::PutObject(s.remote, event_key(s.event)))
            } else {
                Progress::Next(SyncStage::PutMakeBucket, ActionView::CreateBucket(s.remote))
            },
            _ => Progress::Next(SyncStage::PutMakeBucket, ActionView::CreateBucket(s.remote)),
        },
        SyncStage::PutMakeBucket => Progress::Next(
            SyncStage::Upload,
            ActionView::PutObject(s.remote, event_key(s.event)),
        ),
        SyncStage::Upload => match reply {
            SyncReply::Status(st) => if put_object_ok(st) {
                Progress::Succeeded
            } else {
                Progress::Failed
            },
            _ => Progress::Failed,
        },
        SyncStage::RemoveObject => match reply {
            SyncReply::Status(st) => if delete_object_ok(st) {
                Progress::Succeeded
            } else {
                Progress::Failed
            },
            _ => Progress::Failed,
        },
        _ => Progress::Failed,
    }
}

/// The next state and step of a job after `reply`.
pub open spec fn spec_next(s: JobState, reply: SyncReply) -> (JobState, ActionView) {
    match s.stage {
        SyncStage::Delivered => (s, ActionView::Finish(true)),
        SyncStage::Dropped => (s, ActionView::Finish(false)),
        SyncStage::Backoff => first_step(s),
        _ => match progress(s, reply) {
            Progress::Next(st, a) => (JobState { stage: st, ..s }, a),
            Progress::Succeeded => (JobState { stage: SyncStage::Delivered, ..s }, ActionView::Finish(true)),
            Progress::Failed => if s.attempt < max_retries() {
                (
                    JobState { stage: SyncStage::Backoff, attempt: s.attempt + 1, ..s },
                    ActionView::Wait(backoff_secs(s.attempt)),
                )
            } else {
                (JobState { stage: SyncStage::Dropped, ..s }, ActionView::Finish(false))
            },
        },
    }
}

/// How many steps a job can still take at most, for a measure that every
/// step short of the end lowers.
pub open spec fn stage_rank(st: SyncStage) -> nat {
    match st {
        SyncStage::CheckBucket => 2,
        SyncStage::MakeBucket => 1,
        SyncStage::RemoveBucket => 1,
        SyncStage::ReadLocal => 4,
        SyncStage::PutCheckBucket => 3,
        SyncStage::PutMakeBucket => 2,
        SyncStage::Upload => 1,
        SyncStage::RemoveObject => 1,
        SyncStage::Backoff => 5,
        SyncStage::Delivered => 0,
        SyncStage::Dropped => 0,
    }
}

pub open spec fn remaining_steps(s: JobState) -> nat {
    ((max_retries() - s.attempt) * 6 + stage_rank(s.stage)) as nat
}

/// The replication of one change.
pub struct SyncJob {
    event: SyncEvent,
    remote: String,
    attempt: u32,
    stage: SyncStage,
}

impl SyncJob {
    pub closed spec fn state(&self) -> JobState {
        JobState {
            event: self.event@,
            remote: self.remote@,
            attempt: self.attempt as nat,
            stage: self.stage,
        }
    }

    pub closed spec fn wf(&self) -> bool {
        self.attempt <= max_retries()
    }

    /// The first step of the first attempt of the job for `event`, whose
    /// bucket is named upstream with `bucket_prefix` before it.
    pub fn start(event: SyncEvent, bucket_prefix: &str) -> (r: (SyncJob, SyncAction))
        ensures
            r.0.wf(),
            r.0.state().event == event@,
            r.0.state().attempt == 0,
            (r.0.state(), r.1@) == first_step(
                JobState {
                    event: event@,
                    remote: prefix_bucket(bucket_prefix@, event@),
                    attempt: 0,
                    stage: r.0.state().stage,
                },
            ),
    {
        let remote = match &event {
            SyncEvent::CreateBucket { bucket } => remote_bucket(bucket_prefix, bucket.as_str()),
            SyncEvent::DeleteBucket { bucket } => remote_bucket(bucket_prefix, bucket.as_str()),
            SyncEvent::PutObject { bucket, .. } => remote_bucket(bucket_prefix, bucket.as_str()),
            SyncEvent::DeleteObject { bucket, .. } => remote_bucket(bucket_prefix, bucket.as_str()),
        };
        let mut job = SyncJob { event, remote, attempt: 0, stage: SyncStage::Backoff };
        let a = job.first_action();
        (job, a)
    }

    fn first_action(&mut self) -> (a: SyncAction)
        ensures
            final(self).event@ == old(self).event@,
            (final(self).state(), a@) == first_step(old(self).state()),
            final(self).attempt == old(self).attempt,
    {
        match &self.event {
            SyncEvent::CreateBucket { .. } => {
                self.stage = SyncStage::CheckBucket;
                SyncAction::HeadBucket(self.remote.clone())
            },
            SyncEvent::DeleteBucket { .. } => {
                self.stage = SyncStage::RemoveBucket;
                SyncAction::DeleteBucket(self.remote.clone())
            },
            SyncEvent::PutObject { bucket, key } => {
                let a = SyncAction::ReadObject(bucket.clone(), key.clone());
                self.stage = SyncStage::ReadLocal;
                a
            },
            SyncEvent::DeleteObject { key, .. } => {
                let a = SyncAction::DeleteObject(self.remote.clone(), key.clone());
                self.stage = SyncStage::RemoveObject;
                a
            },
        }
    }

    fn key_copy(&self) -> (k: String)
        ensures
            k@ == event_key(self.event@),
    {
        match &self.event {
            SyncEvent::PutObject { key, .. } => key.clone(),
            SyncEvent::DeleteObject { key, .. } => key.clone(),
            _ => String::new(),
        }
    }

    /// Takes the reply to the last step and gives the next step.
    pub fn next(&mut self, reply: SyncReply) -> (a: SyncAction)
        requires
            old(self).wf(),
        ensures
            final(self).wf(),
            (final(self).state(), a@) == spec_next(old(self).state(), reply),
    {
        match self.stage {
            SyncStage::Delivered => {
                return SyncAction::Finish(true);
            },
            SyncStage::Dropped => {
                return SyncAction::Finish(false);
            },
            SyncStage::Backoff => {
                return self.first_action();
            },
            _ => {},
        }
        let ok: Option<bool> = match self.stage {
            SyncStage::CheckBucket => match reply {
                SyncReply::Status(st) => {
                    if st == 200 {
                        Some(true)
                    } else {
                        self.stage = SyncStage::MakeBucket;
                        return SyncAction::CreateBucket(self.remote.clone());
                    }
                },
                _ => Some(false),
            },
            SyncStage::MakeBucket => match reply {
                SyncReply::Status(st) => Some(st == 200 || st == 409),
                _ => Some(false),
            },
            SyncStage::RemoveBucket => match reply {
                SyncReply::Status(st) => Some(st == 204 || st == 404 || st == 409),
                _ => Some(false),
            },
            SyncStage::ReadLocal => match reply {
                SyncReply::Missing => Some(true),
                SyncReply::Found => {
                    self.stage = SyncStage::PutCheckBucket;
                    return SyncAction::HeadBucket(self.remote.clone());
                },
                _ => Some(false),
            },
            SyncStage::PutCheckBucket => {
                if reply == SyncReply::Status(200) {
                    let k = self.key_copy();
                    self.stage = SyncStage::Upload;
                    return SyncAction::PutObject(self.remote.clone(), k);
                } else {
                    self.stage = SyncStage::PutMakeBucket;
                    return SyncAction::CreateBucket(self.remote.clone());
                }
            },
            SyncStage::PutMakeBucket => {
                let k = self.key_copy();
                self.stage = SyncStage::Upload;
                return SyncAction::PutObject(self.remote.clone(), k);
            },
            SyncStage::Upload => match reply {
                SyncReply::Status(st) => Some(st == 200),
                _ => Some(false),
            },
            SyncStage::RemoveObject => match reply {
                SyncReply::Status(st) => Some(st == 204 || st == 404),
                _ => Some(false),
            },
            _ => None,
        };
        match ok {
            Some(true) => {
                self.stage = SyncStage::Delivered;
                SyncAction::Finish(true)
            },
            _ => {
                if self.attempt < 5 {
                    let secs = backoff(self.attempt);
                    self.attempt = self.attempt + 1;
                    self.stage = SyncStage::Backoff;
                    SyncAction::Wait(secs)
                } else {
                    self.stage = SyncStage::Dropped;
                    SyncAction::Finish(false)
                }
            },
        }
    }
}

/// The upstream bucket of a change.
pub open spec fn prefix_bucket(prefix: Seq<char>, e: EventView) -> Seq<char> {
    match e {
        EventView::CreateBucket(b) => prefix + b,
        EventView::DeleteBucket(b) => prefix + b,
        EventView::PutObject(b, _) => prefix + b,
        EventView::DeleteObject(b, _) => prefix + b,
    }
}

fn backoff(attempt: u32) -> (s: u64)
    requires
        attempt < 5,
    ensures
        s == backoff_secs(attempt as nat),
{
    let mut s: u64 = 1;
    let mut i: u32 = 0;
    while i < attempt
        invariant
            i <= attempt < 5,
            s == backoff_secs(i as nat),
            i == 0 ==> s == 1,
            i == 1 ==> s == 2,
            i == 2 ==> s == 4,
            i == 3 ==> s == 8,
            i == 4 ==> s == 16,
        decreases attempt - i,
    {
        s = s * 2;
        i = i + 1;
    }
    s
}

/// Every step short of the end lowers the number of steps a job can still
/// take, so a job finishes.
pub proof fn lemma_job_progress(s: JobState, reply: SyncReply)
    requires
        s.attempt <= max_retries(),
    ensures
        !(spec_next(s, reply).1 is Finish) ==> remaining_steps(spec_next(s, reply).0) < remaining_steps(s),
        spec_next(s, reply).0.attempt <= max_retries(),
{
}

/// A job pauses at most `max_retries()` times, for 1, 2, 4, 8 and 16
/// seconds.
pub proof fn lemma_backoff_schedule()
    ensures
        backoff_secs(0) == 1,
        backoff_secs(1) == 2,
        backoff_secs(2) == 4,
        backoff_secs(3) == 8,
        backoff_secs(4) == 16,
{
    reveal_with_fuel(backoff_secs, 5);
}

/// The pause before the retry after failed attempt `attempt` (counted from
/// 0) is 2 to the power `attempt` seconds.
pub proof fn lemma_backoff_is_power_of_two(attempt: nat)
    ensures
        backoff_secs(attempt) == vstd::arithmetic::power2::pow2(attempt),
    decreases attempt,
{
    vstd::arithmetic::power2::lemma_pow2(attempt);
    if attempt > 0 {
        lemma_backoff_is_power_of_two((attempt - 1) as nat);
        vstd::arithmetic::power2::lemma_pow2_unfold(attempt);
    } else {
        vstd::arithmetic::power2::lemma2_to64();
    }
}

/// What a job does after a failed request: it pauses 2 to the power
/// `attempt` seconds before the next attempt, or gives the change up after
/// the fifth retry.
pub open spec fn after_failure(s: JobState) -> (JobState, ActionView) {
    if s.attempt < 5 {
        (
            JobState { stage: SyncStage::Backoff, attempt: s.attempt + 1, ..s },
            ActionView::Wait(vstd::arithmetic::power2::pow2(s.attempt)),
        )
    } else {
        (JobState { stage: SyncStage::Dropped, ..s }, ActionView::Finish(false))
    }
}

/// What the upstream server's answers mean. Waiting for the answer to a
/// request, a job finishes as delivered exactly when the status is one that
/// the upstream operation succeeds with:
/// - creating a bucket: 200, or 409 (it exists already);
/// - deleting a bucket: 204, 404 (gone already) or 409 (not empty);
/// - uploading an object: 200 only;
/// - deleting an object: 204, or 404 (gone already).
/// Any other status, a failed request, or a reply of another kind, counts as
/// a failed attempt: the job pauses and retries, or after the last retry
/// gives the change up. Checking whether a bucket exists, 200 finishes the
/// job and any other status goes on to create the bucket.
pub proof fn lemma_reply_outcomes(s: JobState, reply: SyncReply)
    requires
        s.attempt <= 5,
    ensures
        ({
            let ok = match reply {
                SyncReply::Status(st) => match s.stage {
                    SyncStage::MakeBucket => st == 200 || st == 409,
                    SyncStage::RemoveBucket => st == 204 || st == 404 || st == 409,
                    SyncStage::Upload => st == 200,
                    SyncStage::RemoveObject => st == 204 || st == 404,
                    _ => false,
                },
                _ => false,
            };
            (s.stage == SyncStage::MakeBucket || s.stage == SyncStage::RemoveBucket || s.stage
                == SyncStage::Upload || s.stage == SyncStage::RemoveObject) ==> spec_next(s, reply) == (
                if ok {
                    (JobState { stage: SyncStage::Delivered, ..s }, ActionView::Finish(true))
                } else {
                    after_failure(s)
                })
        }),
        s.stage == SyncStage::CheckBucket ==> spec_next(s, reply) == (match reply {
            SyncReply::Status(st) => if st == 200 {
                (JobState { stage: SyncStage::Delivered, ..s }, ActionView::Finish(true))
            } else {
                (JobState { stage: SyncStage::MakeBucket, ..s }, ActionView::CreateBucket(s.remote))
            },
            _ => after_failure(s),
        }),
{
    lemma_backoff_is_power_of_two(s.attempt);
}

/// An object change reaches the upstream server only through a 200 answer
/// to its upload. A job for `PutObject(bucket, key)` that has read the
/// object and found its bucket upstream uploads it under the key; then it
/// reports the change delivered exactly when the upload answers 200, and
/// otherwise pauses 2 to the power `attempt` seconds before retrying (or
/// gives up after the last retry).
pub proof fn lemma_object_upload_outcome(s: JobState, bucket: Seq<char>, key: Seq<char>, st: u16)
    requires
        s.attempt <= 5,
        s.event == EventView::PutObject(bucket, key),
        s.stage == SyncStage::ReadLocal,
    ensures
        ({
            let found = spec_next(s, SyncReply::Found);
            let head_ok = spec_next(found.0, SyncReply::Status(200));
            let put = spec_next(head_ok.0, SyncReply::Status(st));
            &&& found.1 == ActionView::HeadBucket(s.remote)
            &&& head_ok.1 == ActionView::PutObject(s.remote, key)
            &&& (put.1 == ActionView::Finish(true) <==> st == 200)
            &&& st != 200 ==> put.1 == (if s.attempt < 5 {
                ActionView::Wait(vstd::arithmetic::power2::pow2(s.attempt))
            } else {
                ActionView::Finish(false)
            })
        }),
{
    let found = spec_next(s, SyncReply::Found);
    let head_ok = spec_next(found.0, SyncReply::Status(200));
    lemma_reply_outcomes(head_ok.0, SyncReply::Status(st));
}

} // verus!
