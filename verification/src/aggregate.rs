//! From the detections of a job to what is kept of them: the summary and
//! the timeline.

use crate::detection::PersonDetection;
use crate::summary::{distinct_persons, person_set, total_tracking_ms, TrackingSummary};
use crate::timeline::{is_timeline, FrameRate, TrackingResult};
use vstd::prelude::*;

verus! {

/// The summary and the timeline of a job's detections at `frame_rate`. The
/// summary counts every person named, with or without a bounding box; the
/// timeline holds the localized persons alone.
pub fn aggregate(detections: &Vec<PersonDetection>, frame_rate: FrameRate) -> (result: (
    TrackingSummary,
    Vec<TrackingResult>,
))
    requires
        frame_rate.is_positive(),
    ensures
        result.0.total_detection_count == distinct_persons(detections@).len(),
        person_set(detections@).finite(),
        result.0.total_detection_count == person_set(detections@).len(),
        result.0.total_tracking_time_ms == total_tracking_ms(detections@),
        is_timeline(result.1@, detections@, frame_rate),
{
    (TrackingSummary::of(detections), TrackingResult::timeline_of(detections, frame_rate))
}

} // verus!
