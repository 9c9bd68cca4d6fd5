use vstd::prelude::*;
use crate::jobs::{spec_push_error, push_error_entry};

verus! {

/// Lifecycle of the regeneration job class. Unlike import, a regeneration
/// run can end cancelled: cancellation is cooperative, through a flag that
/// workers poll between items.
#[derive(Clone, Copy, Debug, PartialEq, Eq)]
pub enum RegenerationStatus {
    Idle,
    Running,
    Completed,
    Failed,
    Cancelled,
}

impl RegenerationStatus {
    /// The status word shown on the job-status surface.
    pub fn label(&self) -> (r: String)
        ensures
            self is Idle ==> r@ == "idle"@,
            self is Running ==> r@ == "running"@,
            self is Completed ==> r@ == "completed"@,
            self is Failed ==> r@ == "failed"@,
            self is Cancelled ==> r@ == "cancelled"@,
    {
        match self {
            RegenerationStatus::Idle => "idle".to_owned(),
            RegenerationStatus::Running => "running".to_owned(),
            RegenerationStatus::Completed => "completed".to_owned(),
            RegenerationStatus::Failed => "failed".to_owned(),
            RegenerationStatus::Cancelled => "cancelled".to_owned(),
        }
    }
}

/// The shared status record of the regeneration job class, together with its
/// cooperative cancellation flag.
#[derive(Debug)]
pub struct RegenerationJob {
    pub status: RegenerationStatus,
    pub total_media: i64,
    pub processed_media: i64,
    pub updated_metadata: i64,
    pub generated_thumbnails: i64,
    pub updated_tags: i64,
    pub started_at: Option<String>,
    pub completed_at: Option<String>,
    pub errors: Vec<String>,
    pub cancel_requested: bool,
}

impl RegenerationJob {
    pub open spec fn counters_zero(self) -> bool {
        self.total_media == 0 && self.processed_media == 0 && self.updated_metadata == 0
            && self.generated_thumbnails == 0 && self.updated_tags == 0
    }
}

impl Default for RegenerationJob {
    fn default() -> (j: RegenerationJob)
        ensures
            j.status is Idle,
            j.counters_zero(),
            j.started_at is None,
            j.completed_at is None,
            j.errors.deep_view() == Seq::<Seq<char>>::empty(),
            !j.cancel_requested,
    {
        let j = RegenerationJob {
            status: RegenerationStatus::Idle,
            total_media: 0,
            processed_media: 0,
            updated_metadata: 0,
            generated_thumbnails: 0,
            updated_tags: 0,
            started_at: None,
            completed_at: None,
            errors: Vec::new(),
            cancel_requested: false,
        };
        assert(j.errors.deep_view() =~= Seq::<Seq<char>>::empty());
        j
    }
}

/// Append to the regeneration job's capped error log.
pub fn push_job_error(errors: &mut Vec<String>, message: &str)
    ensures
        final(errors).deep_view() == spec_push_error(old(errors).deep_view(), message@),
{
    push_error_entry(errors, message);
}

pub fn is_regeneration_running(job: &RegenerationJob) -> (r: bool)
    ensures
        r == (job.status is Running),
{
    matches!(job.status, RegenerationStatus::Running)
}

/// Request cooperative cancellation. Only effective while a run is active:
/// the flag is raised and workers stop picking up new items; anything already
/// in flight finishes and is still recorded.
pub fn cancel_regeneration(job: &mut RegenerationJob) -> (r: bool)
    ensures
        r == (old(job).status is Running),
        old(job).status is Running ==> *final(job) == (RegenerationJob {
            cancel_requested: true,
            ..*old(job)
        }),
        !(old(job).status is Running) ==> *final(job) == *old(job),
{
    if !matches!(job.status, RegenerationStatus::Running) {
        return false;
    }
    job.cancel_requested = true;
    true
}

pub fn is_cancel_requested(job: &RegenerationJob) -> (r: bool)
    ensures
        r == job.cancel_requested,
{
    job.cancel_requested
}

pub fn clear_cancel_request(job: &mut RegenerationJob)
    ensures
        *final(job) == (RegenerationJob { cancel_requested: false, ..*old(job) }),
{
    job.cancel_requested = false;
}

/// Begin a run: a true no-op when a run is already active, otherwise every
/// counter is reset and the start timestamp is recorded.
pub fn start_job(job: &mut RegenerationJob, now: &str)
    ensures
        old(job).status is Running ==> *final(job) == *old(job),
        !(old(job).status is Running) ==> {
            &&& final(job).status is Running
            &&& final(job).counters_zero()
            &&& final(job).started_at is Some
            &&& final(job).started_at->0@ == now@
            &&& final(job).completed_at is None
            &&& final(job).errors.deep_view() == Seq::<Seq<char>>::empty()
            &&& final(job).cancel_requested == old(job).cancel_requested
        },
{
    if matches!(job.status, RegenerationStatus::Running) {
        return;
    }
    let keep_flag = job.cancel_requested;
    let mut fresh = RegenerationJob::default();
    fresh.status = RegenerationStatus::Running;
    fresh.started_at = Some(now.to_owned());
    fresh.cancel_requested = keep_flag;
    *job = fresh;
}

/// Record how many records the sweep will visit.
pub fn update_job_totals(job: &mut RegenerationJob, total_media: i64)
    ensures
        *final(job) == (RegenerationJob { total_media, ..*old(job) }),
{
    job.total_media = total_media;
}

/// Record one finished record: which of metadata and thumbnail were newly
/// derived, how many keyword tags were merged, and any failure message.
pub fn update_job_progress(
    job: &mut RegenerationJob,
    metadata_updated: bool,
    thumbnail_generated: bool,
    tags_updated: i64,
    error: Option<&str>,
)
    requires
        old(job).processed_media < i64::MAX,
        old(job).updated_metadata < i64::MAX,
        old(job).generated_thumbnails < i64::MAX,
        tags_updated >= 0,
        old(job).updated_tags + tags_updated <= i64::MAX,
    ensures
        final(job).processed_media == old(job).processed_media + 1,
        final(job).updated_metadata == old(job).updated_metadata
            + (if metadata_updated { 1int } else { 0 }),
        final(job).generated_thumbnails == old(job).generated_thumbnails
            + (if thumbnail_generated { 1int } else { 0 }),
        final(job).updated_tags == old(job).updated_tags + tags_updated,
        final(job).errors.deep_view() == (match error {
            Some(m) => spec_push_error(old(job).errors.deep_view(), m@),
            None => old(job).errors.deep_view(),
        }),
        final(job).status == old(job).status,
        final(job).total_media == old(job).total_media,
        final(job).started_at == old(job).started_at,
        final(job).completed_at == old(job).completed_at,
        final(job).cancel_requested == old(job).cancel_requested,
{
    job.processed_media = job.processed_media + 1;
    if metadata_updated {
        job.updated_metadata = job.updated_metadata + 1;
    }
    if thumbnail_generated {
        job.generated_thumbnails = job.generated_thumbnails + 1;
    }
    job.updated_tags = job.updated_tags + tags_updated;
    if let Some(msg) = error {
        push_job_error(&mut job.errors, msg);
    }
}

/// Close a run as completed, recording the completion timestamp.
pub fn finalize_job_success(job: &mut RegenerationJob, now: &str)
    ensures
        *final(job) == (RegenerationJob {
            status: RegenerationStatus::Completed,
            completed_at: final(job).completed_at,
            ..*old(job)
        }),
        final(job).completed_at is Some && final(job).completed_at->0@ == now@,
{
    job.status = RegenerationStatus::Completed;
    job.completed_at = Some(now.to_owned());
}

/// Close a run as failed with one explanatory entry in the error log.
pub fn finalize_job_failure(job: &mut RegenerationJob, message: &str, now: &str)
    ensures
        final(job).status is Failed,
        final(job).completed_at is Some && final(job).completed_at->0@ == now@,
        final(job).errors.deep_view() == spec_push_error(old(job).errors.deep_view(), message@),
        final(job).total_media == old(job).total_media,
        final(job).processed_media == old(job).processed_media,
        final(job).updated_metadata == old(job).updated_metadata,
        final(job).generated_thumbnails == old(job).generated_thumbnails,
        final(job).updated_tags == old(job).updated_tags,
        final(job).started_at == old(job).started_at,
        final(job).cancel_requested == old(job).cancel_requested,
{
    job.status = RegenerationStatus::Failed;
    job.completed_at = Some(now.to_owned());
    push_job_error(&mut job.errors, message);
}

/// Close a run as cancelled, recording the completion timestamp.
pub fn finalize_job_cancelled(job: &mut RegenerationJob, now: &str)
    ensures
        *final(job) == (RegenerationJob {
            status: RegenerationStatus::Cancelled,
            completed_at: final(job).completed_at,
            ..*old(job)
        }),
        final(job).completed_at is Some && final(job).completed_at->0@ == now@,
{
    job.status = RegenerationStatus::Cancelled;
    job.completed_at = Some(now.to_owned());
}

} // verus!
