//! The identifiers of the outside resources that the service works with.
//!
//! They are settled once, when the process starts, and handed to every
//! operation. An operation asks for the ones it needs; an identifier that
//! was not configured fails that operation and no other.

use crate::error::{ServiceError, ServiceErrorView};
use vstd::prelude::*;

verus! {

/// The configured identifiers; `None` where one was not supplied.
#[derive(Debug, Clone, PartialEq, Eq)]
pub struct ServiceConfig {
    /// Bucket of the uploaded videos and of the results.
    pub bucket_name: Option<String>,
    /// Table of the job records.
    pub table_name: Option<String>,
    /// Role by which the analysis service publishes its completion messages.
    pub role_arn: Option<String>,
    /// Topic on which the completion messages arrive.
    pub topic_arn: Option<String>,
}

/// What asking for a setting gives: its text, or `ConfigMissing`.
pub open spec fn setting_or_missing(setting: Option<String>, asked: Result<String, ServiceError>) -> bool {
    match setting {
        Some(text) => asked is Ok && asked->Ok_0@ == text@,
        None => asked is Err && asked->Err_0@ == ServiceErrorView::ConfigMissing,
    }
}

/// The text of a setting, or `ConfigMissing` where there is none.
fn required(setting: &Option<String>) -> (asked: Result<String, ServiceError>)
    ensures
        setting_or_missing(*setting, asked),
{
    match setting {
        Some(text) => Ok(text.clone()),
        None => Err(ServiceError::ConfigMissing),
    }
}

impl ServiceConfig {
    /// The bucket, if configured.
    pub fn bucket(&self) -> (asked: Result<String, ServiceError>)
        ensures
            setting_or_missing(self.bucket_name, asked),
    {
        required(&self.bucket_name)
    }

    /// The job table, if configured.
    pub fn table(&self) -> (asked: Result<String, ServiceError>)
        ensures
            setting_or_missing(self.table_name, asked),
    {
        required(&self.table_name)
    }

    /// The publishing role, if configured.
    pub fn role(&self) -> (asked: Result<String, ServiceError>)
        ensures
            setting_or_missing(self.role_arn, asked),
    {
        required(&self.role_arn)
    }

    /// The completion topic, if configured.
    pub fn topic(&self) -> (asked: Result<String, ServiceError>)
        ensures
            setting_or_missing(self.topic_arn, asked),
    {
        required(&self.topic_arn)
    }
}

} // verus!
