//! The persisted record of an analysis job and its lifecycle.
//!
//! A record is created `InProgress` with no derived fields. Status updates
//! and the writes of summary and metadata overwrite in place and without
//! condition: the record does not hold a status back from changing again.
//! Results may be fetched only once the status is `Succeeded`.

use crate::error::{ServiceError, ServiceErrorView};
use crate::metadata::VideoMetadata;
use crate::status::{JobStatus, JobStatusView};
use crate::summary::TrackingSummary;
use vstd::prelude::*;
use vstd::string::*;

verus! {

/// The persisted record of one job.
#[derive(Debug, Clone, PartialEq, Eq)]
pub struct RekognitionJobTableEntry {
    /// Identifier that the analysis service gave the job; the primary key.
    pub job_id: String,
    pub user_id: String,
    /// Folder of the job's objects in the object store.
    pub s3_folder_name: String,
    pub filename: String,
    /// Time of creation in seconds since the Unix epoch.
    pub request_timestamp: u64,
    pub job_status: JobStatus,
    pub tracking_summary: Option<TrackingSummary>,
    pub video_metadata: Option<VideoMetadata>,
}

/// Mathematical value of a [`RekognitionJobTableEntry`].
pub struct JobEntryView {
    pub job_id: Seq<char>,
    pub user_id: Seq<char>,
    pub s3_folder_name: Seq<char>,
    pub filename: Seq<char>,
    pub request_timestamp: u64,
    pub job_status: JobStatusView,
    pub tracking_summary: Option<TrackingSummary>,
    pub video_metadata: Option<VideoMetadata>,
}

impl View for RekognitionJobTableEntry {
    type V = JobEntryView;

    open spec fn view(&self) -> JobEntryView {
        JobEntryView {
            job_id: self.job_id@,
            user_id: self.user_id@,
            s3_folder_name: self.s3_folder_name@,
            filename: self.filename@,
            request_timestamp: self.request_timestamp,
            job_status: self.job_status@,
            tracking_summary: self.tracking_summary,
            video_metadata: self.video_metadata,
        }
    }
}

/// The record of a job at its creation.
pub open spec fn fresh_entry(
    job_id: Seq<char>,
    user_id: Seq<char>,
    s3_folder_name: Seq<char>,
    filename: Seq<char>,
    request_timestamp: u64,
) -> JobEntryView {
    JobEntryView {
        job_id,
        user_id,
        s3_folder_name,
        filename,
        request_timestamp,
        job_status: JobStatusView::InProgress,
        tracking_summary: None,
        video_metadata: None,
    }
}

/// The name of the object that holds a job's results, within its folder.
pub open spec fn results_file_name() -> Seq<char> {
    "results.json"@
}

/// The key of the object `name` in `folder`.
pub open spec fn key_in_folder(folder: Seq<char>, name: Seq<char>) -> Seq<char> {
    folder + "/"@ + name
}

/// The key of the object `name` in `folder`: the two joined by a slash.
pub fn object_key(folder: &str, name: &str) -> (key: String)
    ensures
        key@ == key_in_folder(folder@, name@),
{
    let mut key = folder.to_owned();
    key.append("/");
    key.append(name);
    key
}

/// The system clock as `SystemTime::now` reads it, in whole seconds since
/// the Unix epoch; `None` when the clock stands before the epoch. Nothing is
/// claimed of the value.
#[verifier::external_body]
fn seconds_since_epoch() -> (seconds: Option<u64>) {
    match std::time::SystemTime::now().duration_since(std::time::UNIX_EPOCH) {
        Ok(elapsed) => Some(elapsed.as_secs()),
        Err(_) => None,
    }
}

impl RekognitionJobTableEntry {
    /// The record of a job created now: `InProgress`, without summary or
    /// metadata, stamped with the current time (0 if the clock cannot be
    /// read).
    pub fn new(job_id: &str, user_id: &str, s3_folder_name: &str, file_name: &str) -> (entry: Self)
        ensures
            entry@ == fresh_entry(
                job_id@,
                user_id@,
                s3_folder_name@,
                file_name@,
                entry.request_timestamp,
            ),
    {
        let timestamp: u64 = match seconds_since_epoch() {
            Some(seconds) => seconds,
            None => 0,
        };
        Self::created_at(job_id, user_id, s3_folder_name, file_name, timestamp)
    }

    /// The record of a job created at `request_timestamp`.
    pub fn created_at(
        job_id: &str,
        user_id: &str,
        s3_folder_name: &str,
        file_name: &str,
        request_timestamp: u64,
    ) -> (entry: Self)
        ensures
            entry@ == fresh_entry(
                job_id@,
                user_id@,
                s3_folder_name@,
                file_name@,
                request_timestamp,
            ),
    {
        Self {
            job_id: job_id.to_owned(),
            user_id: user_id.to_owned(),
            s3_folder_name: s3_folder_name.to_owned(),
            filename: file_name.to_owned(),
            request_timestamp,
            job_status: JobStatus::InProgress,
            tracking_summary: None,
            video_metadata: None,
        }
    }

    /// A copy of the record.
    pub fn duplicate(&self) -> (copy: Self)
        ensures
            copy@ == self@,
    {
        Self {
            job_id: self.job_id.clone(),
            user_id: self.user_id.clone(),
            s3_folder_name: self.s3_folder_name.clone(),
            filename: self.filename.clone(),
            request_timestamp: self.request_timestamp,
            job_status: self.job_status.duplicate(),
            tracking_summary: self.tracking_summary,
            video_metadata: self.video_metadata,
        }
    }

    /// Overwrites the status, whatever it was.
    pub fn set_status(&mut self, status: JobStatus)
        ensures
            final(self)@ == (JobEntryView { job_status: status@, ..old(self)@ }),
    {
        self.job_status = status;
    }

    /// Takes in the news that the job `job_id` has ended with `status`: the
    /// record of that job takes the status, whatever it held; the record
    /// of another job stays as it is. Says whether the status was taken.
    pub fn on_completion(&mut self, job_id: &str, status: JobStatus) -> (taken: bool)
        ensures
            taken == (old(self)@.job_id == job_id@),
            taken ==> final(self)@ == (JobEntryView { job_status: status@, ..old(self)@ }),
            !taken ==> final(self)@ == old(self)@,
    {
        if *self.job_id.as_str() == *job_id {
            self.job_status = status;
            true
        } else {
            false
        }
    }

    /// Overwrites the tracking summary.
    pub fn set_summary(&mut self, summary: TrackingSummary)
        ensures
            final(self)@ == (JobEntryView { tracking_summary: Some(summary), ..old(self)@ }),
    {
        self.tracking_summary = Some(summary);
    }

    /// Overwrites the video metadata.
    pub fn set_metadata(&mut self, metadata: VideoMetadata)
        ensures
            final(self)@ == (JobEntryView { video_metadata: Some(metadata), ..old(self)@ }),
    {
        self.video_metadata = Some(metadata);
    }

    /// The key of the job's video in the object store.
    pub fn video_key(&self) -> (key: String)
        ensures
            key@ == key_in_folder(self@.s3_folder_name, self@.filename),
    {
        object_key(self.s3_folder_name.as_str(), self.filename.as_str())
    }

    /// The key of the job's results in the object store. Results exist only
    /// for a job that has succeeded: any other status is refused, and the
    /// refusal names it.
    pub fn results_key(&self) -> (key: Result<String, ServiceError>)
        ensures
            self@.job_status == JobStatusView::Succeeded ==> key is Ok && key->Ok_0@
                == key_in_folder(self@.s3_folder_name, results_file_name()),
            self@.job_status != JobStatusView::Succeeded ==> key is Err && key->Err_0@
                == ServiceErrorView::InvalidState(self@.job_status),
    {
        if self.job_status.is_succeeded() {
            Ok(object_key(self.s3_folder_name.as_str(), "results.json"))
        } else {
            Err(ServiceError::InvalidState(self.job_status.duplicate()))
        }
    }
}

} // verus!
