use person_tracking::aggregate::aggregate;
use person_tracking::detection::{
    BoundingBox, PersonBoundingBox, PersonDetail, PersonDetection, PersonDetectionResult,
};
use person_tracking::metadata::{ReportedVideoMetadata, VideoMetadata};
use person_tracking::summary::{tracking_windows, PersonWindow, TrackingSummary};
use person_tracking::timeline::{FrameRate, TrackingResult};

fn boxed(left: f32, top: f32, width: f32, height: f32) -> BoundingBox {
    BoundingBox {
        width: Some(width.to_bits()),
        height: Some(height.to_bits()),
        left: Some(left.to_bits()),
        top: Some(top.to_bits()),
    }
}

fn full(left: f32, top: f32, width: f32, height: f32) -> PersonBoundingBox {
    PersonBoundingBox {
        width: width.to_bits(),
        height: height.to_bits(),
        left: left.to_bits(),
        top: top.to_bits(),
    }
}

fn seen(index: i64, timestamp: i64) -> PersonDetection {
    PersonDetection {
        timestamp,
        person: Some(PersonDetail { index, bounding_box: None }),
    }
}

fn located(index: i64, timestamp: i64, left: f32) -> PersonDetection {
    PersonDetection {
        timestamp,
        person: Some(PersonDetail {
            index,
            bounding_box: Some(boxed(left, 0.25, 0.5, 0.5)),
        }),
    }
}

fn anonymous(timestamp: i64) -> PersonDetection {
    PersonDetection { timestamp, person: None }
}

fn thirty() -> FrameRate {
    FrameRate::per_second(30)
}

#[test]
fn count_is_number_of_distinct_persons() {
    let detections = vec![
        seen(7, 0),
        located(3, 40, 0.1),
        seen(7, 80),
        anonymous(90),
        located(3, 120, 0.2),
        seen(9, 160),
        seen(7, 200),
    ];
    let summary = TrackingSummary::new(detections);
    assert_eq!(summary.total_detection_count, 3);
}

#[test]
fn empty_job_has_empty_summary_and_timeline() {
    let summary = TrackingSummary::new(vec![]);
    assert_eq!(
        summary,
        TrackingSummary { total_detection_count: 0, total_tracking_time_ms: 0 }
    );
    assert_eq!(summary.average_tracking_time_ms(), 0);
    let seconds = summary.average_tracking_time_ms() as f64 / 1000.0;
    assert_eq!(seconds, 0.0);
    assert_eq!(TrackingResult::new_vec(vec![], thirty()), vec![]);
}

#[test]
fn one_person_from_one_to_four_seconds_averages_three() {
    let summary = TrackingSummary::new(vec![seen(1, 1000), seen(1, 4000)]);
    assert_eq!(summary.total_detection_count, 1);
    assert_eq!(summary.total_tracking_time_ms, 3000);
    assert_eq!(summary.average_tracking_time_ms(), 3000);
    let seconds = summary.average_tracking_time_ms() as f64 / 1000.0;
    assert_eq!(seconds, 3.0);
}

#[test]
fn average_is_the_mean_over_persons() {
    let detections = vec![
        seen(1, 1000),
        seen(2, 1500),
        seen(1, 4000),
        seen(2, 2500),
        seen(3, 700),
    ];
    let summary = TrackingSummary::new(detections);
    assert_eq!(summary.total_detection_count, 3);
    assert_eq!(summary.total_tracking_time_ms, 4000);
    assert_eq!(summary.average_tracking_time_ms(), 1333);
}

#[test]
fn summary_does_not_depend_on_the_order_of_detections() {
    let forward = vec![seen(1, 100), seen(2, 300), seen(1, 900), seen(2, 350)];
    let backward = vec![seen(2, 350), seen(1, 900), seen(2, 300), seen(1, 100)];
    assert_eq!(TrackingSummary::new(forward), TrackingSummary::new(backward));
}

#[test]
fn summary_counts_persons_without_a_box_and_skips_detections_without_a_person() {
    let detections = vec![anonymous(5), seen(4, 10), anonymous(5000), seen(4, 60)];
    let summary = TrackingSummary::new(detections);
    assert_eq!(summary.total_detection_count, 1);
    assert_eq!(summary.total_tracking_time_ms, 50);
}

#[test]
fn windows_come_in_order_of_first_appearance() {
    let detections = vec![seen(8, 500), seen(2, 100), seen(8, 50), seen(2, 900)];
    assert_eq!(
        tracking_windows(&detections),
        vec![
            PersonWindow { index: 8, first_seen: 50, last_seen: 500 },
            PersonWindow { index: 2, first_seen: 100, last_seen: 900 },
        ]
    );
}

#[test]
fn windows_span_the_whole_range_of_timestamps() {
    let detections = vec![seen(1, i64::MIN), seen(1, i64::MAX)];
    let summary = TrackingSummary::new(detections);
    assert_eq!(summary.total_tracking_time_ms, u64::MAX as u128);
}

#[test]
fn hundred_milliseconds_at_thirty_frames_is_frame_three() {
    assert_eq!(TrackingResult::timestamp_to_frame(100, thirty()), 3);
    let timeline = TrackingResult::new_vec(vec![located(1, 100, 0.1)], thirty());
    assert_eq!(timeline.len(), 1);
    assert_eq!(timeline[0].frame, 3);
}

#[test]
fn frames_round_to_nearest_with_halves_away_from_zero() {
    assert_eq!(TrackingResult::timestamp_to_frame(0, thirty()), 0);
    assert_eq!(TrackingResult::timestamp_to_frame(16, thirty()), 0);
    assert_eq!(TrackingResult::timestamp_to_frame(17, thirty()), 1);
    assert_eq!(TrackingResult::timestamp_to_frame(50, thirty()), 2);
    assert_eq!(TrackingResult::timestamp_to_frame(-50, thirty()), -2);
    assert_eq!(TrackingResult::timestamp_to_frame(-16, thirty()), 0);
    assert_eq!(TrackingResult::timestamp_to_frame(1000, thirty()), 30);
    let ntsc = FrameRate { frames: 30000, seconds: 1001 };
    assert_eq!(TrackingResult::timestamp_to_frame(1001, ntsc), 30);
    assert_eq!(TrackingResult::timestamp_to_frame(1000, ntsc), 30);
    assert_eq!(TrackingResult::timestamp_to_frame(50, ntsc), 1);
}

#[test]
fn frames_stay_within_range() {
    let fast = FrameRate { frames: u32::MAX, seconds: 1 };
    assert_eq!(TrackingResult::timestamp_to_frame(i64::MAX, fast), i64::MAX);
    assert_eq!(TrackingResult::timestamp_to_frame(i64::MIN, fast), i64::MIN);
    let slow = FrameRate { frames: 1, seconds: u32::MAX };
    assert_eq!(TrackingResult::timestamp_to_frame(i64::MAX, slow), 2147484);
}

#[test]
fn frame_rate_must_be_above_zero() {
    assert!(thirty().positive());
    assert!(!FrameRate { frames: 0, seconds: 1 }.positive());
    assert!(!FrameRate { frames: 30, seconds: 0 }.positive());
}

#[test]
fn persons_in_one_frame_share_an_entry() {
    let timeline = TrackingResult::new_vec(
        vec![located(1, 100, 0.1), located(2, 100, 0.6)],
        thirty(),
    );
    assert_eq!(
        timeline,
        vec![TrackingResult {
            frame: 3,
            persons: vec![
                PersonDetectionResult { index: 1, bounding_box: full(0.1, 0.25, 0.5, 0.5) },
                PersonDetectionResult { index: 2, bounding_box: full(0.6, 0.25, 0.5, 0.5) },
            ],
        }]
    );
}

#[test]
fn one_person_twice_in_a_frame_appears_twice() {
    let timeline = TrackingResult::new_vec(
        vec![located(1, 95, 0.1), located(1, 105, 0.2)],
        thirty(),
    );
    assert_eq!(timeline.len(), 1);
    assert_eq!(timeline[0].frame, 3);
    assert_eq!(
        timeline[0].persons,
        vec![
            PersonDetectionResult { index: 1, bounding_box: full(0.1, 0.25, 0.5, 0.5) },
            PersonDetectionResult { index: 1, bounding_box: full(0.2, 0.25, 0.5, 0.5) },
        ]
    );
}

#[test]
fn timeline_is_sorted_by_frame_whatever_the_input_order() {
    let timeline = TrackingResult::new_vec(
        vec![
            located(1, 1000, 0.1),
            located(2, 0, 0.2),
            located(3, 500, 0.3),
            located(4, 1000, 0.4),
            located(5, 34, 0.5),
        ],
        thirty(),
    );
    let frames: Vec<i64> = timeline.iter().map(|entry| entry.frame).collect();
    assert_eq!(frames, vec![0, 1, 15, 30]);
    let at_thirty: Vec<i64> = timeline[3].persons.iter().map(|person| person.index).collect();
    assert_eq!(at_thirty, vec![1, 4]);
}

#[test]
fn timeline_skips_detections_without_a_complete_box() {
    let partial = PersonDetection {
        timestamp: 200,
        person: Some(PersonDetail {
            index: 6,
            bounding_box: Some(BoundingBox {
                width: Some(0.5f32.to_bits()),
                height: None,
                left: Some(0.1f32.to_bits()),
                top: Some(0.1f32.to_bits()),
            }),
        }),
    };
    let detections = vec![seen(1, 100), anonymous(150), partial, located(2, 300, 0.3)];
    let timeline = TrackingResult::new_vec(detections.clone(), thirty());
    assert_eq!(timeline.len(), 1);
    assert_eq!(timeline[0].frame, 9);
    assert_eq!(timeline[0].persons.len(), 1);
    assert_eq!(timeline[0].persons[0].index, 2);
    assert_eq!(TrackingSummary::new(detections).total_detection_count, 3);
}

#[test]
fn a_detection_is_localized_only_with_all_four_coordinates() {
    assert_eq!(PersonDetectionResult::new(&anonymous(1)), None);
    assert_eq!(PersonDetectionResult::new(&seen(1, 1)), None);
    assert_eq!(
        PersonDetectionResult::new(&located(4, 1, 0.75)),
        Some(PersonDetectionResult { index: 4, bounding_box: full(0.75, 0.25, 0.5, 0.5) })
    );
    let mut incomplete = boxed(0.1, 0.2, 0.3, 0.4);
    incomplete.top = None;
    let detection = PersonDetection {
        timestamp: 1,
        person: Some(PersonDetail { index: 4, bounding_box: Some(incomplete) }),
    };
    assert_eq!(PersonDetectionResult::new(&detection), None);
}

#[test]
fn absent_metadata_fields_take_their_defaults() {
    let nothing = ReportedVideoMetadata {
        duration_millis: None,
        frame_rate: None,
        frame_height: None,
        frame_width: None,
    };
    assert_eq!(
        VideoMetadata::new(nothing),
        VideoMetadata {
            duration: 0,
            frame_rate: FrameRate { frames: 30, seconds: 1 },
            frame_height: 3600,
            frame_width: 6400,
        }
    );
    let everything = ReportedVideoMetadata {
        duration_millis: Some(61_000),
        frame_rate: Some(FrameRate { frames: 25, seconds: 1 }),
        frame_height: Some(1080),
        frame_width: Some(1920),
    };
    assert_eq!(
        VideoMetadata::new(everything),
        VideoMetadata {
            duration: 61_000,
            frame_rate: FrameRate { frames: 25, seconds: 1 },
            frame_height: 1080,
            frame_width: 1920,
        }
    );
}

#[test]
fn aggregation_gives_summary_and_timeline_of_the_same_detections() {
    let detections = vec![
        located(1, 0, 0.1),
        seen(2, 40),
        located(1, 1000, 0.2),
        located(2, 1010, 0.3),
        anonymous(2000),
    ];
    let (summary, timeline) = aggregate(&detections, thirty());
    assert_eq!(summary, TrackingSummary::new(detections.clone()));
    assert_eq!(summary, TrackingSummary::of(&detections));
    assert_eq!(
        summary,
        TrackingSummary { total_detection_count: 2, total_tracking_time_ms: 1970 }
    );
    assert_eq!(timeline, TrackingResult::new_vec(detections.clone(), thirty()));
    assert_eq!(timeline, TrackingResult::timeline_of(&detections, thirty()));
    let frames: Vec<(i64, usize)> =
        timeline.iter().map(|entry| (entry.frame, entry.persons.len())).collect();
    assert_eq!(frames, vec![(0, 1), (30, 2)]);
}
