use person_tracking::detection::{PersonDetail, PersonDetection};
use person_tracking::error::ServiceError;
use person_tracking::fetch::{DetectionFetch, DetectionPage, FetchStep};
use person_tracking::metadata::{ReportedVideoMetadata, VideoMetadata};
use person_tracking::timeline::FrameRate;

fn record(index: i64, timestamp: i64) -> PersonDetection {
    PersonDetection {
        timestamp,
        person: Some(PersonDetail { index, bounding_box: None }),
    }
}

fn page(records: Vec<PersonDetection>, next_token: Option<&str>) -> DetectionPage {
    DetectionPage {
        persons: Some(records),
        video_metadata: None,
        next_token: next_token.map(|token| token.to_string()),
    }
}

/// Plays the answers to a fetch in order and returns where it stands after
/// them, with the tokens that were sent.
fn play(
    job_id: &str,
    answers: Vec<Result<DetectionPage, String>>,
) -> (FetchStep, Vec<Option<String>>) {
    let mut sent = Vec::new();
    let mut step = FetchStep::Continue(DetectionFetch::begin(job_id));
    for answer in answers {
        let fetch = match step {
            FetchStep::Continue(fetch) => fetch,
            ended => return (ended, sent),
        };
        let request = fetch.request();
        assert_eq!(request.job_id, job_id);
        sent.push(request.next_token);
        step = fetch.accept(answer);
    }
    (step, sent)
}

#[test]
fn three_pages_come_out_as_one_collection_in_page_order() {
    let answers = vec![
        Ok(page(vec![record(1, 0), record(2, 10)], Some("a"))),
        Ok(page(vec![record(1, 20), record(3, 30)], Some("b"))),
        Ok(page(vec![record(2, 40)], None)),
    ];
    let (step, sent) = play("job-1", answers);
    assert_eq!(
        step,
        FetchStep::Done(
            vec![record(1, 0), record(2, 10), record(1, 20), record(3, 30), record(2, 40)],
            None
        )
    );
    assert_eq!(sent, vec![None, Some("a".to_string()), Some("b".to_string())]);
}

#[test]
fn a_failure_on_the_second_page_fails_the_whole_fetch() {
    let answers = vec![
        Ok(page(vec![record(1, 0), record(2, 10)], Some("a"))),
        Err("throttled".to_string()),
        Ok(page(vec![record(2, 40)], None)),
    ];
    let (step, sent) = play("job-1", answers);
    assert_eq!(
        step,
        FetchStep::Failed(ServiceError::UpstreamFailure("throttled".to_string()))
    );
    assert_eq!(sent, vec![None, Some("a".to_string())]);
}

#[test]
fn a_page_without_a_list_of_persons_fails_the_fetch() {
    let missing = DetectionPage { persons: None, video_metadata: None, next_token: None };
    let (step, _) = play(
        "job-1",
        vec![Ok(page(vec![record(1, 0)], Some("a"))), Ok(missing)],
    );
    assert_eq!(
        step,
        FetchStep::Failed(ServiceError::UpstreamFailure(
            "persons detection not available".to_string()
        ))
    );
}

#[test]
fn a_single_page_without_token_ends_the_fetch() {
    let (step, sent) = play("job-9", vec![Ok(page(vec![], None))]);
    assert_eq!(step, FetchStep::Done(vec![], None));
    assert_eq!(sent, vec![None]);
}

#[test]
fn a_fetch_waits_while_tokens_keep_coming() {
    let (step, _) = play("job-9", vec![Ok(page(vec![record(5, 1)], Some("next")))]);
    match step {
        FetchStep::Continue(fetch) => {
            assert_eq!(fetch.collected, vec![record(5, 1)]);
            assert_eq!(fetch.token, Some("next".to_string()));
            assert!(fetch.started);
            assert_eq!(fetch.job_id, "job-9");
        }
        other => panic!("fetch ended early: {:?}", other),
    }
}

#[test]
fn metadata_is_that_of_the_first_page() {
    let first = DetectionPage {
        persons: Some(vec![record(1, 0)]),
        video_metadata: Some(ReportedVideoMetadata {
            duration_millis: Some(9000),
            frame_rate: None,
            frame_height: Some(720),
            frame_width: None,
        }),
        next_token: Some("t".to_string()),
    };
    let second = DetectionPage {
        persons: Some(vec![record(1, 50)]),
        video_metadata: Some(ReportedVideoMetadata {
            duration_millis: Some(1),
            frame_rate: Some(FrameRate { frames: 1, seconds: 1 }),
            frame_height: Some(1),
            frame_width: Some(1),
        }),
        next_token: None,
    };
    let (step, _) = play("job-2", vec![Ok(first), Ok(second)]);
    assert_eq!(
        step,
        FetchStep::Done(
            vec![record(1, 0), record(1, 50)],
            Some(VideoMetadata {
                duration: 9000,
                frame_rate: FrameRate { frames: 30, seconds: 1 },
                frame_height: 720,
                frame_width: 6400,
            })
        )
    );
}

#[test]
fn a_failure_on_the_first_page_fails_the_fetch() {
    let (step, sent) = play("job-3", vec![Err("no such job".to_string())]);
    assert_eq!(
        step,
        FetchStep::Failed(ServiceError::UpstreamFailure("no such job".to_string()))
    );
    assert_eq!(sent, vec![None]);
}

#[test]
fn a_recorded_exchange_replays_to_the_same_end() {
    let answers = vec![
        Ok(page(vec![record(1, 0), record(2, 10)], Some("a"))),
        Ok(page(vec![record(1, 20), record(3, 30)], Some("b"))),
        Ok(page(vec![record(2, 40)], None)),
    ];
    assert_eq!(
        DetectionFetch::replay("job-1", answers.clone()),
        FetchStep::Done(
            vec![record(1, 0), record(2, 10), record(1, 20), record(3, 30), record(2, 40)],
            None
        )
    );
    assert_eq!(DetectionFetch::replay("job-1", answers.clone()), play("job-1", answers).0);
    let failing = vec![
        Ok(page(vec![record(1, 0), record(2, 10)], Some("a"))),
        Err("throttled".to_string()),
        Ok(page(vec![record(2, 40)], None)),
    ];
    assert_eq!(
        DetectionFetch::replay("job-1", failing),
        FetchStep::Failed(ServiceError::UpstreamFailure("throttled".to_string()))
    );
    match DetectionFetch::replay("job-1", vec![]) {
        FetchStep::Continue(fetch) => {
            assert!(!fetch.started);
            assert_eq!(fetch.collected, vec![]);
            assert_eq!(fetch.token, None);
        }
        other => panic!("fetch ended without an answer: {:?}", other),
    }
}

#[test]
fn answers_behind_the_last_page_are_not_looked_at() {
    let answers = vec![
        Ok(page(vec![record(1, 0)], None)),
        Err("never asked".to_string()),
        Ok(page(vec![record(9, 9)], None)),
    ];
    assert_eq!(
        DetectionFetch::replay("job-1", answers),
        FetchStep::Done(vec![record(1, 0)], None)
    );
}
