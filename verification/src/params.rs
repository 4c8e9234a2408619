//! Parameters of the service's requests.

use crate::job::key_in_folder;
use crate::job::object_key;
use crate::pager::{LastEvaluatedKey, LastEvaluatedKeyView};
use vstd::prelude::*;

verus! {

/// Where a listing left off: the last job of the page before.
#[derive(Debug, Clone, PartialEq, Eq)]
pub struct GetJobsQueryParams {
    pub job_id: String,
    pub request_timestamp: u64,
}

/// What is to be uploaded.
#[derive(Debug, Clone, PartialEq, Eq)]
pub struct UploadPresignURLQueryParams {
    pub content_type: String,
    pub filename: String,
}

/// The uploaded video to analyse, and for whom.
#[derive(Debug, Clone, PartialEq, Eq)]
pub struct StartAnalysisBodyParams {
    pub user_id: String,
    pub s3_folder_name: String,
    pub filename: String,
}

/// A title for a job.
#[derive(Debug, Clone, PartialEq, Eq)]
pub struct PutTitleParams {
    pub title: String,
}

impl GetJobsQueryParams {
    /// The cursor that these parameters stand for in a listing of the jobs
    /// of `user_id`. The user is taken from the listing, never from the
    /// request, so a cursor cannot point into another user's jobs.
    pub fn cursor(&self, user_id: &str) -> (key: LastEvaluatedKey)
        ensures
            key@ == (LastEvaluatedKeyView {
                job_id: self.job_id@,
                user_id: user_id@,
                request_timestamp: self.request_timestamp,
            }),
    {
        LastEvaluatedKey::new(self.job_id.as_str(), user_id, &self.request_timestamp)
    }
}

impl StartAnalysisBodyParams {
    /// The key of the uploaded video in the object store.
    pub fn video_key(&self) -> (key: String)
        ensures
            key@ == key_in_folder(self.s3_folder_name@, self.filename@),
    {
        object_key(self.s3_folder_name.as_str(), self.filename.as_str())
    }
}

/// The cursor of a listing request for the jobs of `user_id`: none where
/// the request names no last job.
pub fn listing_cursor(user_id: &str, params: Option<GetJobsQueryParams>) -> (cursor: Option<
    LastEvaluatedKey,
>)
    ensures
        match params {
            Some(last) => cursor is Some && cursor->0@ == (LastEvaluatedKeyView {
                job_id: last.job_id@,
                user_id: user_id@,
                request_timestamp: last.request_timestamp,
            }),
            None => cursor is None,
        },
{
    match params {
        Some(last) => Some(last.cursor(user_id)),
        None => None,
    }
}

} // verus!
