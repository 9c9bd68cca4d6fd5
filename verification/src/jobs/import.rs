use vstd::prelude::*;
use crate::jobs::{spec_push_error, push_error_entry};

verus! {

/// Lifecycle of the local-import job class. Like regeneration, an import
/// run can end cancelled, through the cooperative flag below.
#[derive(Clone, Copy, Debug, PartialEq, Eq)]
pub enum ImportStatus {
    Idle,
    Running,
    Completed,
    Failed,
    Cancelled,
}

impl ImportStatus {
    /// The status word shown on the job-status surface.
    pub fn label(&self) -> (r: String)
        ensures
            self is Idle ==> r@ == "idle"@,
            self is Running ==> r@ == "running"@,
            self is Completed ==> r@ == "completed"@,
            self is Failed ==> r@ == "failed"@,
            self is Cancelled ==> r@ == "cancelled"@,
    {
        match self {
            ImportStatus::Idle => "idle".to_owned(),
            ImportStatus::Running => "running".to_owned(),
            ImportStatus::Completed => "completed".to_owned(),
            ImportStatus::Failed => "failed".to_owned(),
            ImportStatus::Cancelled => "cancelled".to_owned(),
        }
    }
}

/// The shared, lockable status record of the import job class. All counters
/// and the capped error log live here; workers mutate it one critical section
/// at a time, status queries read a snapshot.
#[derive(Debug)]
pub struct ImportJob {
    pub status: ImportStatus,
    pub total_files: i64,
    pub processed_files: i64,
    pub successful_imports: i64,
    pub failed_imports: i64,
    pub started_at: Option<String>,
    pub completed_at: Option<String>,
    pub errors: Vec<String>,
    pub cancel_requested: bool,
}

impl ImportJob {
    pub open spec fn counters_zero(self) -> bool {
        self.total_files == 0 && self.processed_files == 0 && self.successful_imports == 0
            && self.failed_imports == 0
    }
}

impl Default for ImportJob {
    fn default() -> (j: ImportJob)
        ensures
            j.status is Idle,
            j.counters_zero(),
            j.started_at is None,
            j.completed_at is None,
            j.errors.deep_view() == Seq::<Seq<char>>::empty(),
            !j.cancel_requested,
    {
        let j = ImportJob {
            status: ImportStatus::Idle,
            total_files: 0,
            processed_files: 0,
            successful_imports: 0,
            failed_imports: 0,
            started_at: None,
            completed_at: None,
            errors: Vec::new(),
            cancel_requested: false,
        };
        assert(j.errors.deep_view() =~= Seq::<Seq<char>>::empty());
        j
    }
}

/// Append to the import job's capped error log.
pub fn push_job_error(errors: &mut Vec<String>, message: &str)
    ensures
        final(errors).deep_view() == spec_push_error(old(errors).deep_view(), message@),
{
    push_error_entry(errors, message);
}

pub fn is_import_running(job: &ImportJob) -> (r: bool)
    ensures
        r == (job.status is Running),
{
    matches!(job.status, ImportStatus::Running)
}

/// Begin a run: a true no-op when a run is already active (at most one import
/// job runs at a time), otherwise every counter is reset, the error log is
/// cleared, and the start timestamp is recorded.
pub fn start_import_job(job: &mut ImportJob, now: &str)
    ensures
        old(job).status is Running ==> *final(job) == *old(job),
        !(old(job).status is Running) ==> {
            &&& final(job).status is Running
            &&& final(job).counters_zero()
            &&& final(job).started_at is Some
            &&& final(job).started_at->0@ == now@
            &&& final(job).completed_at is None
            &&& final(job).errors.deep_view() == Seq::<Seq<char>>::empty()
            &&& final(job).cancel_requested == old(job).cancel_requested
        },
{
    if matches!(job.status, ImportStatus::Running) {
        return;
    }
    let keep_flag = job.cancel_requested;
    let mut fresh = ImportJob::default();
    fresh.status = ImportStatus::Running;
    fresh.started_at = Some(now.to_owned());
    fresh.cancel_requested = keep_flag;
    *job = fresh;
}

/// Record how many files the run discovered.
pub fn update_job_totals(job: &mut ImportJob, total_files: i64)
    ensures
        *final(job) == (ImportJob { total_files, ..*old(job) }),
{
    job.total_files = total_files;
}

/// Record one finished file: the processed counter always advances, exactly
/// one of the success/failure counters advances, and a failure message goes
/// to the capped error log.
pub fn update_job_progress(job: &mut ImportJob, success: bool, error_message: Option<&str>)
    requires
        old(job).processed_files < i64::MAX,
        old(job).successful_imports < i64::MAX,
        old(job).failed_imports < i64::MAX,
    ensures
        final(job).processed_files == old(job).processed_files + 1,
        success ==> final(job).successful_imports == old(job).successful_imports + 1
            && final(job).failed_imports == old(job).failed_imports
            && final(job).errors == old(job).errors,
        !success ==> final(job).failed_imports == old(job).failed_imports + 1
            && final(job).successful_imports == old(job).successful_imports
            && final(job).errors.deep_view() == (match error_message {
                Some(m) => spec_push_error(old(job).errors.deep_view(), m@),
                None => old(job).errors.deep_view(),
            }),
        final(job).status == old(job).status,
        final(job).total_files == old(job).total_files,
        final(job).started_at == old(job).started_at,
        final(job).completed_at == old(job).completed_at,
        final(job).cancel_requested == old(job).cancel_requested,
{
    job.processed_files = job.processed_files + 1;
    if success {
        job.successful_imports = job.successful_imports + 1;
    } else {
        job.failed_imports = job.failed_imports + 1;
        if let Some(msg) = error_message {
            push_job_error(&mut job.errors, msg);
        }
    }
}

/// Close a run as completed, recording the completion timestamp.
pub fn finalize_job_success(job: &mut ImportJob, now: &str)
    ensures
        final(job).status is Completed,
        final(job).completed_at is Some && final(job).completed_at->0@ == now@,
        final(job).total_files == old(job).total_files,
        final(job).processed_files == old(job).processed_files,
        final(job).successful_imports == old(job).successful_imports,
        final(job).failed_imports == old(job).failed_imports,
        final(job).started_at == old(job).started_at,
        final(job).errors == old(job).errors,
        final(job).cancel_requested == old(job).cancel_requested,
{
    job.status = ImportStatus::Completed;
    job.completed_at = Some(now.to_owned());
}

/// Request cooperative cancellation of a running import: the flag is
/// raised, workers finish what is in flight, and the scheduler stops
/// dispatching. A no-op unless a run is active.
pub fn cancel_import(job: &mut ImportJob) -> (r: bool)
    ensures
        r == (old(job).status is Running),
        old(job).status is Running ==> *final(job) == (ImportJob {
            cancel_requested: true,
            ..*old(job)
        }),
        !(old(job).status is Running) ==> *final(job) == *old(job),
{
    if !matches!(job.status, ImportStatus::Running) {
        return false;
    }
    job.cancel_requested = true;
    true
}

pub fn is_import_cancel_requested(job: &ImportJob) -> (r: bool)
    ensures
        r == job.cancel_requested,
{
    job.cancel_requested
}

pub fn clear_import_cancel_request(job: &mut ImportJob)
    ensures
        *final(job) == (ImportJob { cancel_requested: false, ..*old(job) }),
{
    job.cancel_requested = false;
}

/// Close a run as cancelled, recording the completion timestamp.
pub fn finalize_import_cancelled(job: &mut ImportJob, now: &str)
    ensures
        *final(job) == (ImportJob {
            status: ImportStatus::Cancelled,
            completed_at: final(job).completed_at,
            ..*old(job)
        }),
        final(job).completed_at is Some && final(job).completed_at->0@ == now@,
{
    job.status = ImportStatus::Cancelled;
    job.completed_at = Some(now.to_owned());
}

/// Close a run as failed with one explanatory entry in the error log.
pub fn finalize_job_failure(job: &mut ImportJob, message: &str, now: &str)
    ensures
        final(job).status is Failed,
        final(job).completed_at is Some && final(job).completed_at->0@ == now@,
        final(job).errors.deep_view() == spec_push_error(old(job).errors.deep_view(), message@),
        final(job).total_files == old(job).total_files,
        final(job).processed_files == old(job).processed_files,
        final(job).successful_imports == old(job).successful_imports,
        final(job).failed_imports == old(job).failed_imports,
        final(job).started_at == old(job).started_at,
        final(job).cancel_requested == old(job).cancel_requested,
{
    job.status = ImportStatus::Failed;
    job.completed_at = Some(now.to_owned());
    push_job_error(&mut job.errors, message);
}

} // verus!
