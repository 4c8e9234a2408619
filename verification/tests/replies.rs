use person_tracking::config::ServiceConfig;
use person_tracking::error::ServiceError;
use person_tracking::pager::{KeyAttribute, LastEvaluatedKey, NamedAttribute};
use person_tracking::replies::{listed_items, single_entry, started_job};
use person_tracking::status::JobStatus;
use person_tracking::text::{decimal_text, push_decimal};

#[test]
fn a_lookup_answer_without_an_item_means_no_such_job() {
    let missing = Err(ServiceError::NotFound("job-7".to_string()));
    assert_eq!(single_entry::<u32>("job-7", 0, Some(vec![1, 2])), missing);
    assert_eq!(single_entry::<u32>("job-7", 1, None), missing);
    assert_eq!(single_entry::<u32>("job-7", 1, Some(vec![])), missing);
    assert_eq!(single_entry::<u32>("job-7", 0, None), missing);
}

#[test]
fn a_lookup_answer_gives_its_first_item() {
    assert_eq!(single_entry("job-7", 1, Some(vec![41])), Ok(41));
    assert_eq!(single_entry("job-7", 3, Some(vec!["a", "b", "c"])), Ok("a"));
    assert_eq!(single_entry("job-7", -1, Some(vec![5, 6])), Ok(5));
}

#[test]
fn a_listing_answer_without_a_list_is_a_failure() {
    assert_eq!(listed_items(Some(vec![3, 1, 2])), Ok(vec![3, 1, 2]));
    assert_eq!(listed_items::<u8>(Some(vec![])), Ok(vec![]));
    assert_eq!(
        listed_items::<u8>(None),
        Err(ServiceError::UpstreamFailure("items not available".to_string()))
    );
}

#[test]
fn a_start_answer_without_a_job_identifier_is_a_failure() {
    assert_eq!(started_job(Some("abc".to_string())), Ok("abc".to_string()));
    assert_eq!(
        started_job(None),
        Err(ServiceError::UpstreamFailure("Job Id not available".to_string()))
    );
}

#[test]
fn numbers_are_written_in_decimal() {
    assert_eq!(decimal_text(0), "0");
    assert_eq!(decimal_text(7), "7");
    assert_eq!(decimal_text(10), "10");
    assert_eq!(decimal_text(1_700_000_123), "1700000123");
    assert_eq!(decimal_text(u64::MAX), "18446744073709551615");
    let mut text = "n=".to_string();
    push_decimal(&mut text, 905);
    assert_eq!(text, "n=905");
}

#[test]
fn a_cursor_goes_to_the_store_as_three_attributes() {
    let key = LastEvaluatedKey::new("job-4", "ann", &1_700_000_123);
    assert_eq!(
        key.exclusive_start_key(),
        vec![
            NamedAttribute {
                name: "job_id".to_string(),
                value: KeyAttribute::S("job-4".to_string()),
            },
            NamedAttribute {
                name: "user_id".to_string(),
                value: KeyAttribute::S("ann".to_string()),
            },
            NamedAttribute {
                name: "request_timestamp".to_string(),
                value: KeyAttribute::N("1700000123".to_string()),
            },
        ]
    );
}

#[test]
fn status_labels_come_back_from_their_status() {
    assert_eq!(JobStatus::Failed.label(), "FAILED");
    assert_eq!(JobStatus::InProgress.label(), "INPROGRESS");
    assert_eq!(JobStatus::Succeeded.label(), "SUCCEEDED");
    assert_eq!(JobStatus::Unknown("PAUSED".to_string()).label(), "PAUSED");
    for status in [
        JobStatus::Failed,
        JobStatus::InProgress,
        JobStatus::Succeeded,
        JobStatus::Unknown("PAUSED".to_string()),
    ] {
        assert_eq!(JobStatus::parse(&status.label()), status);
    }
    assert_eq!(
        JobStatus::parse(&JobStatus::Unknown("FAILED".to_string()).label()),
        JobStatus::Failed
    );
}

#[test]
fn a_missing_setting_fails_only_the_operation_that_asks_for_it() {
    let config = ServiceConfig {
        bucket_name: Some("videos".to_string()),
        table_name: None,
        role_arn: Some("role".to_string()),
        topic_arn: None,
    };
    assert_eq!(config.bucket(), Ok("videos".to_string()));
    assert_eq!(config.table(), Err(ServiceError::ConfigMissing));
    assert_eq!(config.role(), Ok("role".to_string()));
    assert_eq!(config.topic(), Err(ServiceError::ConfigMissing));
}
