//! The failures that the service's operations report.

use crate::status::{JobStatus, JobStatusView};
use vstd::prelude::*;

verus! {

/// Why an operation failed.
#[derive(Debug, Clone, PartialEq, Eq)]
pub enum ServiceError {
    /// No job with this identifier is in the store.
    NotFound(String),
    /// Results were asked for while the job had this status.
    InvalidState(JobStatus),
    /// A call to the object store, the job store or the analysis service
    /// failed; the text says how.
    UpstreamFailure(String),
    /// A bucket, table or endpoint identifier is not configured.
    ConfigMissing,
}

/// Mathematical value of a [`ServiceError`].
pub enum ServiceErrorView {
    NotFound(Seq<char>),
    InvalidState(JobStatusView),
    UpstreamFailure(Seq<char>),
    ConfigMissing,
}

impl View for ServiceError {
    type V = ServiceErrorView;

    open spec fn view(&self) -> ServiceErrorView {
        match self {
            ServiceError::NotFound(job_id) => ServiceErrorView::NotFound(job_id@),
            ServiceError::InvalidState(status) => ServiceErrorView::InvalidState(status@),
            ServiceError::UpstreamFailure(text) => ServiceErrorView::UpstreamFailure(text@),
            ServiceError::ConfigMissing => ServiceErrorView::ConfigMissing,
        }
    }
}

} // verus!
