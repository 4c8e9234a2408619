//! Properties of the analysed video.

use crate::timeline::FrameRate;
use vstd::prelude::*;

verus! {

/// Video properties as the analysis service reports them: any may be absent.
#[derive(Debug, Clone, Copy, PartialEq, Eq)]
pub struct ReportedVideoMetadata {
    pub duration_millis: Option<i64>,
    pub frame_rate: Option<FrameRate>,
    pub frame_height: Option<i64>,
    pub frame_width: Option<i64>,
}

/// Video properties with every field settled.
#[derive(Debug, Clone, Copy, PartialEq, Eq)]
pub struct VideoMetadata {
    /// Length of the video in milliseconds.
    pub duration: i64,
    /// Frames per second.
    pub frame_rate: FrameRate,
    /// Vertical size in pixels.
    pub frame_height: i64,
    /// Horizontal size in pixels.
    pub frame_width: i64,
}

/// Duration assumed where none is reported.
pub const DEFAULT_DURATION: i64 = 0;

/// Whole frames per second assumed where no rate is reported.
pub const DEFAULT_FRAMES_PER_SECOND: u32 = 30;

/// Frame height assumed where none is reported.
pub const DEFAULT_FRAME_HEIGHT: i64 = 3600;

/// Frame width assumed where none is reported.
pub const DEFAULT_FRAME_WIDTH: i64 = 6400;

/// The settled form of reported metadata: each absent field takes its
/// default.
pub open spec fn settled(reported: ReportedVideoMetadata) -> VideoMetadata {
    VideoMetadata {
        duration: match reported.duration_millis {
            Some(duration) => duration,
            None => DEFAULT_DURATION,
        },
        frame_rate: match reported.frame_rate {
            Some(rate) => rate,
            None => FrameRate { frames: DEFAULT_FRAMES_PER_SECOND, seconds: 1 },
        },
        frame_height: match reported.frame_height {
            Some(height) => height,
            None => DEFAULT_FRAME_HEIGHT,
        },
        frame_width: match reported.frame_width {
            Some(width) => width,
            None => DEFAULT_FRAME_WIDTH,
        },
    }
}

/// The settled form of optional reported metadata.
pub open spec fn settled_if_any(reported: Option<ReportedVideoMetadata>) -> Option<VideoMetadata> {
    match reported {
        Some(reported) => Some(settled(reported)),
        None => None,
    }
}

impl VideoMetadata {
    /// Settles reported metadata, filling each absent field with its default.
    pub fn new(metadata: ReportedVideoMetadata) -> (video: Self)
        ensures
            video == settled(metadata),
    {
        VideoMetadata {
            duration: match metadata.duration_millis {
                Some(duration) => duration,
                None => DEFAULT_DURATION,
            },
            frame_rate: match metadata.frame_rate {
                Some(rate) => rate,
                None => FrameRate::per_second(DEFAULT_FRAMES_PER_SECOND),
            },
            frame_height: match metadata.frame_height {
                Some(height) => height,
                None => DEFAULT_FRAME_HEIGHT,
            },
            frame_width: match metadata.frame_width {
                Some(width) => width,
                None => DEFAULT_FRAME_WIDTH,
            },
        }
    }
}

} // verus!
