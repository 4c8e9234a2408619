//! Reading what the job store and the analysis service answer.

use crate::error::{ServiceError, ServiceErrorView};
use vstd::prelude::*;

verus! {

/// The failure text for a listing answer without a list of items.
pub open spec fn items_missing_text() -> Seq<char> {
    "items not available"@
}

/// The failure text for a start answer without a job identifier.
pub open spec fn job_id_missing_text() -> Seq<char> {
    "Job Id not available"@
}

/// Whether a lookup answer holds no item: it counts none, or lists none.
pub open spec fn holds_no_item<T>(count: i32, items: Option<Vec<T>>) -> bool {
    count == 0 || match items {
        Some(items) => items@.len() == 0,
        None => true,
    }
}

/// The record that a lookup by job identifier found: the first item of the
/// answer. An answer that counts no item, or lists none, means that no job
/// has the identifier.
pub fn single_entry<T>(job_id: &str, count: i32, items: Option<Vec<T>>) -> (found: Result<
    T,
    ServiceError,
>)
    ensures
        holds_no_item(count, items) ==> found is Err && found->Err_0@
            == ServiceErrorView::NotFound(job_id@),
        !holds_no_item(count, items) ==> found is Ok && found->Ok_0 == items->0@[0],
{
    if count == 0 {
        return Err(ServiceError::NotFound(job_id.to_owned()));
    }
    match items {
        None => Err(ServiceError::NotFound(job_id.to_owned())),
        Some(mut items) => {
            if items.len() == 0 {
                Err(ServiceError::NotFound(job_id.to_owned()))
            } else {
                Ok(items.swap_remove(0))
            }
        },
    }
}

/// The items of a listing answer; an answer without a list is a failure of
/// the store.
pub fn listed_items<T>(items: Option<Vec<T>>) -> (listed: Result<Vec<T>, ServiceError>)
    ensures
        match items {
            Some(items) => listed == Ok::<Vec<T>, ServiceError>(items),
            None => listed is Err && listed->Err_0@ == ServiceErrorView::UpstreamFailure(
                items_missing_text(),
            ),
        },
{
    match items {
        Some(items) => Ok(items),
        None => Err(ServiceError::UpstreamFailure("items not available".to_owned())),
    }
}

/// The identifier of a job that was started; an answer without one is a
/// failure of the analysis service.
pub fn started_job(job_id: Option<String>) -> (started: Result<String, ServiceError>)
    ensures
        match job_id {
            Some(job_id) => started == Ok::<String, ServiceError>(job_id),
            None => started is Err && started->Err_0@ == ServiceErrorView::UpstreamFailure(
                job_id_missing_text(),
            ),
        },
{
    match job_id {
        Some(job_id) => Ok(job_id),
        None => Err(ServiceError::UpstreamFailure("Job Id not available".to_owned())),
    }
}

} // verus!
