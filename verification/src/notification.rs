//! The message by which the analysis service announces that a job has ended.

use crate::status::JobStatus;
use vstd::prelude::*;

verus! {

/// The video that a job analysed, by its place in the object store.
#[derive(Debug, Clone, PartialEq, Eq)]
pub struct VideoObject {
    pub s3_object_name: String,
    pub s3_bucket: String,
}

/// A completion message.
#[derive(Debug, Clone, PartialEq, Eq)]
pub struct RekognitionSNSMessage {
    pub job_id: String,
    pub status: JobStatus,
    /// The analysis that ran.
    pub api: String,
    pub video: VideoObject,
}

} // verus!
