//! Detection records as the video-analysis service reports them, and the
//! localized form that the timeline keeps.
//!
//! Box coordinates are ratios of the frame size. The library never computes
//! with them, so each is carried as the bit pattern of its IEEE-754
//! single-precision value (what `f32::to_bits` gives).

use vstd::prelude::*;

verus! {

/// A bounding box as reported: any coordinate may be absent.
#[derive(Debug, Clone, Copy, PartialEq, Eq)]
pub struct BoundingBox {
    pub width: Option<u32>,
    pub height: Option<u32>,
    pub left: Option<u32>,
    pub top: Option<u32>,
}

/// The person of a detection: its identity within the job and, if the person
/// was localized, where.
#[derive(Debug, Clone, Copy, PartialEq, Eq)]
pub struct PersonDetail {
    pub index: i64,
    pub bounding_box: Option<BoundingBox>,
}

/// One observation: a video-relative time in milliseconds and, if resolved,
/// the person seen.
#[derive(Debug, Clone, Copy, PartialEq, Eq)]
pub struct PersonDetection {
    pub timestamp: i64,
    pub person: Option<PersonDetail>,
}

/// A complete bounding box.
#[derive(Debug, Clone, Copy, PartialEq, Eq)]
pub struct PersonBoundingBox {
    pub width: u32,
    pub height: u32,
    pub left: u32,
    pub top: u32,
}

/// A person localized in a frame.
#[derive(Debug, Clone, Copy, PartialEq, Eq)]
pub struct PersonDetectionResult {
    pub index: i64,
    pub bounding_box: PersonBoundingBox,
}

/// The complete box that a reported box holds, if all four coordinates are
/// present.
pub open spec fn complete_box(raw: BoundingBox) -> Option<PersonBoundingBox> {
    match (raw.width, raw.height, raw.left, raw.top) {
        (Some(width), Some(height), Some(left), Some(top)) => Some(
            PersonBoundingBox { width, height, left, top },
        ),
        _ => None,
    }
}

/// The localized person of a detection: present exactly when the detection
/// names a person whose box has all four coordinates.
pub open spec fn localized(detection: PersonDetection) -> Option<PersonDetectionResult> {
    match detection.person {
        Some(person) => match person.bounding_box {
            Some(raw) => match complete_box(raw) {
                Some(bounding_box) => Some(
                    PersonDetectionResult { index: person.index, bounding_box },
                ),
                None => None,
            },
            None => None,
        },
        None => None,
    }
}

/// Whether a detection names the person `index`.
pub open spec fn names_person(detection: PersonDetection, index: i64) -> bool {
    match detection.person {
        Some(person) => person.index == index,
        None => false,
    }
}

impl PersonDetectionResult {
    /// The localized person of `person_detection`, or `None` when the
    /// detection names no person or its box is missing or incomplete.
    pub fn new(person_detection: &PersonDetection) -> (result: Option<Self>)
        ensures
            result == localized(*person_detection),
    {
        let Some(person) = person_detection.person else {
            return None;
        };
        let Some(bounding_box) = person.bounding_box else {
            return None;
        };
        let (Some(width), Some(height), Some(left), Some(top)) = (
            bounding_box.width,
            bounding_box.height,
            bounding_box.left,
            bounding_box.top,
        ) else {
            return None;
        };
        Some(
            Self {
                index: person.index,
                bounding_box: PersonBoundingBox { width, height, left, top },
            },
        )
    }
}

} // verus!
