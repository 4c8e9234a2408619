//! The frame-grouped timeline of a job: every localized person, filed under
//! the video frame that its timestamp falls into.
//!
//! A frame rate is an exact ratio of two integers, so a timestamp is turned
//! into a frame number without rounding error: the quotient
//! `timestamp_ms * frames / (seconds * 1000)` is rounded to the nearest
//! integer, halves away from zero, and then held within `i64`.

use crate::detection::{localized, PersonDetection, PersonDetectionResult};
use vstd::prelude::*;

verus! {

/// Frames per second as a ratio: `frames` frames every `seconds` seconds
/// (30 and 1; 30000 and 1001).
#[derive(Debug, Clone, Copy, PartialEq, Eq)]
pub struct FrameRate {
    pub frames: u32,
    pub seconds: u32,
}

/// The persons localized in one frame.
#[derive(Debug, Clone, PartialEq, Eq)]
pub struct TrackingResult {
    pub frame: i64,
    pub persons: Vec<PersonDetectionResult>,
}

/// `n / d` rounded to the nearest integer, halves away from zero (`d > 0`).
pub open spec fn round_half_away(n: int, d: int) -> int {
    if n >= 0 {
        (2 * n + d) / (2 * d)
    } else {
        -((2 * (-n) + d) / (2 * d))
    }
}

/// `x` held within the range of `i64`.
pub open spec fn saturate_i64(x: int) -> int {
    if x > i64::MAX {
        i64::MAX as int
    } else if x < i64::MIN {
        i64::MIN as int
    } else {
        x
    }
}

/// The frame that a timestamp in milliseconds falls into at a frame rate.
pub open spec fn frame_of(timestamp: i64, rate: FrameRate) -> int {
    saturate_i64(round_half_away(timestamp * rate.frames, rate.seconds * 1000))
}

/// The persons localized by `detections` whose timestamp falls into
/// `frame`, in the order of the detections.
pub open spec fn persons_in_frame(
    detections: Seq<PersonDetection>,
    rate: FrameRate,
    frame: int,
) -> Seq<PersonDetectionResult>
    decreases detections.len(),
{
    if detections.len() == 0 {
        Seq::empty()
    } else {
        let earlier = persons_in_frame(detections.drop_last(), rate, frame);
        match localized(detections.last()) {
            Some(person) => if frame_of(detections.last().timestamp, rate) == frame {
                earlier.push(person)
            } else {
                earlier
            },
            None => earlier,
        }
    }
}

/// Whether some entry of `results` is for `frame`.
pub open spec fn has_frame(results: Seq<TrackingResult>, frame: int) -> bool {
    exists|a: int| 0 <= a < results.len() && (#[trigger] results[a]).frame == frame
}

/// Whether `results` is the timeline of `detections`: one entry for each
/// frame that holds a localized person, by ascending frame number, each with
/// exactly the persons of its frame in the order of the detections.
pub open spec fn is_timeline(
    results: Seq<TrackingResult>,
    detections: Seq<PersonDetection>,
    rate: FrameRate,
) -> bool {
    &&& forall|a: int, b: int|
        0 <= a < b < results.len() ==> (#[trigger] results[a]).frame < (#[trigger] results[b]).frame
    &&& forall|a: int|
        0 <= a < results.len() ==> {
            &&& (#[trigger] results[a]).persons@.len() > 0
            &&& results[a].persons@ == persons_in_frame(detections, rate, results[a].frame as int)
        }
    &&& forall|frame: int|
        #![trigger has_frame(results, frame)]
        #![trigger persons_in_frame(detections, rate, frame)]
        persons_in_frame(detections, rate, frame).len() > 0 ==> has_frame(results, frame)
}

/// A frame's persons are exactly the localized persons of the detections
/// that fall into the frame.
pub proof fn lemma_frame_membership(
    detections: Seq<PersonDetection>,
    rate: FrameRate,
    frame: int,
    person: PersonDetectionResult,
)
    ensures
        persons_in_frame(detections, rate, frame).contains(person) <==> exists|i: int|
            0 <= i < detections.len() && localized(#[trigger] detections[i]) == Some(person)
                && frame_of(detections[i].timestamp, rate) == frame,
    decreases detections.len(),
{
    let here = persons_in_frame(detections, rate, frame);
    if detections.len() > 0 {
        let front = detections.drop_last();
        let n = detections.len() - 1;
        let earlier = persons_in_frame(front, rate, frame);
        lemma_frame_membership(front, rate, frame, person);
        let falls_here = localized(detections[n]) is Some && frame_of(detections[n].timestamp, rate)
            == frame;
        if here.contains(person) {
            let k = choose|k: int| 0 <= k < here.len() && here[k] == person;
            if k < earlier.len() {
                assert(earlier[k] == person);
                let i = choose|i: int|
                    0 <= i < front.len() && localized(#[trigger] front[i]) == Some(person)
                        && frame_of(front[i].timestamp, rate) == frame;
                assert(localized(detections[i]) == Some(person));
            } else {
                assert(localized(detections[n]) == Some(person));
            }
        }
        if exists|i: int|
            0 <= i < detections.len() && localized(#[trigger] detections[i]) == Some(person)
                && frame_of(detections[i].timestamp, rate) == frame {
            let i = choose|i: int|
                0 <= i < detections.len() && localized(#[trigger] detections[i]) == Some(person)
                    && frame_of(detections[i].timestamp, rate) == frame;
            if i < n {
                assert(localized(front[i]) == Some(person));
                assert(earlier.contains(person));
                let k = choose|k: int| 0 <= k < earlier.len() && earlier[k] == person;
                assert(here[k] == person);
            } else {
                assert(falls_here);
                assert(here[earlier.len() as int] == person);
            }
        }
    }
}

/// In a timeline every localized detection appears in the entry of its
/// frame, whoever else falls into the same frame.
pub proof fn lemma_timeline_keeps_every_person(
    results: Seq<TrackingResult>,
    detections: Seq<PersonDetection>,
    rate: FrameRate,
    i: int,
)
    requires
        is_timeline(results, detections, rate),
        0 <= i < detections.len(),
        localized(detections[i]) is Some,
    ensures
        exists|a: int|
            0 <= a < results.len() && (#[trigger] results[a]).frame == frame_of(
                detections[i].timestamp,
                rate,
            ) && results[a].persons@.contains(localized(detections[i])->0),
{
    let frame = frame_of(detections[i].timestamp, rate);
    let person = localized(detections[i])->0;
    lemma_frame_membership(detections, rate, frame, person);
    assert(persons_in_frame(detections, rate, frame).contains(person));
    assert(persons_in_frame(detections, rate, frame).len() > 0);
    assert(has_frame(results, frame));
    let a = choose|a: int| 0 <= a < results.len() && (#[trigger] results[a]).frame == frame;
    assert(results[a].persons@.contains(person));
}

/// The timeline of a job without detections is empty.
pub proof fn lemma_empty_timeline(results: Seq<TrackingResult>, rate: FrameRate)
    requires
        is_timeline(results, Seq::empty(), rate),
    ensures
        results.len() == 0,
{
    if results.len() > 0 {
        assert(results[0].persons@.len() > 0);
    }
}

impl FrameRate {
    /// A rate of `frames_per_second` whole frames each second.
    pub fn per_second(frames_per_second: u32) -> (rate: FrameRate)
        ensures
            rate.frames == frames_per_second,
            rate.seconds == 1,
    {
        FrameRate { frames: frames_per_second, seconds: 1 }
    }

    /// Whether the rate is above zero and defined.
    pub open spec fn is_positive(&self) -> bool {
        self.frames > 0 && self.seconds > 0
    }

    /// Tests `is_positive`.
    pub fn positive(&self) -> (yes: bool)
        ensures
            yes == self.is_positive(),
    {
        self.frames > 0 && self.seconds > 0
    }
}

impl TrackingResult {
    /// The timeline of a job's detections at `frame_rate`: one entry for
    /// each frame into which a localized detection falls, by ascending
    /// frame number. Detections that fall into one frame all appear in its
    /// entry, in their given order; detections without a person or without
    /// a complete bounding box are passed over.
    pub fn new_vec(person_detections: Vec<PersonDetection>, frame_rate: FrameRate) -> (results:
        Vec<Self>)
        requires
            frame_rate.is_positive(),
        ensures
            is_timeline(results@, person_detections@, frame_rate),
    {
        Self::timeline_of(&person_detections, frame_rate)
    }

    /// As [`TrackingResult::new_vec`], leaving the detections with the
    /// caller.
    pub fn timeline_of(person_detections: &Vec<PersonDetection>, frame_rate: FrameRate) -> (results:
        Vec<Self>)
        requires
            frame_rate.is_positive(),
        ensures
            is_timeline(results@, person_detections@, frame_rate),
    {
        let mut results: Vec<TrackingResult> = Vec::new();
        let mut i: usize = 0;
        while i < person_detections.len()
            invariant
                i <= person_detections.len(),
                frame_rate.is_positive(),
                is_timeline(results@, person_detections@.take(i as int), frame_rate),
            decreases person_detections.len() - i,
        {
            let ghost seen = person_detections@.take(i as int);
            let ghost next = person_detections@.take(i + 1);
            let ghost before = results@;
            proof {
                assert(next.drop_last() =~= seen);
                assert(next.last() == person_detections@[i as int]);
            }
            let detection = person_detections[i];
            match PersonDetectionResult::new(&detection) {
                None => {
                    proof {
                        assert forall|frame: int|
                            persons_in_frame(next, frame_rate, frame) == persons_in_frame(
                                seen,
                                frame_rate,
                                frame,
                            ) by {}
                    }
                },
                Some(person) => {
                    let frame = Self::timestamp_to_frame(detection.timestamp, frame_rate);
                    let mut pos: usize = results.len();
                    while pos > 0 && results[pos - 1].frame >= frame
                        invariant
                            pos <= results.len(),
                            forall|k: int|
                                pos <= k < results.len() ==> (#[trigger] results@[k]).frame
                                    >= frame,
                        decreases pos,
                    {
                        pos -= 1;
                    }
                    proof {
                        assert forall|g: int| g != frame implies persons_in_frame(
                            next,
                            frame_rate,
                            g,
                        ) == persons_in_frame(seen, frame_rate, g) by {}
                        assert(persons_in_frame(next, frame_rate, frame as int)
                            == persons_in_frame(seen, frame_rate, frame as int).push(person));
                    }
                    if pos < results.len() && results[pos].frame == frame {
                        results[pos].persons.push(person);
                        proof {
                            let after = results@;
                            assert forall|g: int|
                                persons_in_frame(next, frame_rate, g).len() > 0 implies has_frame(
                                after,
                                g,
                            ) by {
                                if g == frame {
                                    assert(after[pos as int].frame == g);
                                } else {
                                    assert(has_frame(before, g));
                                    let a = choose|a: int|
                                        0 <= a < before.len() && (#[trigger] before[a]).frame == g;
                                    assert(after[a].frame == g);
                                }
                            }
                            assert forall|a: int, b: int| 0 <= a < b < after.len() implies (
                            #[trigger] after[a]).frame < (#[trigger] after[b]).frame by {
                                assert(before[a].frame < before[b].frame);
                            }
                            assert forall|a: int| 0 <= a < after.len() implies {
                                &&& (#[trigger] after[a]).persons@.len() > 0
                                &&& after[a].persons@ == persons_in_frame(
                                    next,
                                    frame_rate,
                                    after[a].frame as int,
                                )
                            } by {
                                assert(before[a].persons@.len() > 0);
                                if a != pos {
                                    assert(before[a].frame != before[pos as int].frame);
                                }
                            }
                        }
                    } else {
                        proof {
                            if persons_in_frame(seen, frame_rate, frame as int).len() > 0 {
                                assert(has_frame(before, frame as int));
                                let a = choose|a: int|
                                    0 <= a < before.len() && (#[trigger] before[a]).frame == frame;
                                if a < pos {
                                    assert(before[a].frame <= before[pos - 1].frame);
                                } else if a > pos {
                                    assert(before[pos as int].frame < before[a].frame);
                                }
                            }
                            assert(persons_in_frame(seen, frame_rate, frame as int)
                                =~= Seq::<PersonDetectionResult>::empty());
                        }
                        let mut persons: Vec<PersonDetectionResult> = Vec::new();
                        persons.push(person);
                        results.insert(pos, TrackingResult { frame, persons });
                        proof {
                            let after = results@;
                            assert(after[pos as int].persons@ =~= Seq::<
                                PersonDetectionResult,
                            >::empty().push(person));
                            assert forall|g: int|
                                persons_in_frame(next, frame_rate, g).len() > 0 implies has_frame(
                                after,
                                g,
                            ) by {
                                if g == frame {
                                    assert(after[pos as int].frame == g);
                                } else {
                                    assert(has_frame(before, g));
                                    let a = choose|a: int|
                                        0 <= a < before.len() && (#[trigger] before[a]).frame == g;
                                    if a < pos {
                                        assert(after[a].frame == g);
                                    } else {
                                        assert(after[a + 1].frame == g);
                                    }
                                }
                            }
                            assert forall|a: int, b: int| 0 <= a < b < after.len() implies (
                            #[trigger] after[a]).frame < (#[trigger] after[b]).frame by {
                                let a0 = if a < pos { a } else { a - 1 };
                                let b0 = if b < pos { b } else { b - 1 };
                                if a != pos && b != pos {
                                    assert(before[a0].frame < before[b0].frame);
                                } else if a == pos {
                                    assert(before[b0].frame >= frame);
                                    if b0 > pos {
                                        assert(before[pos as int].frame < before[b0].frame);
                                    }
                                } else {
                                    if a0 < pos - 1 {
                                        assert(before[a0].frame < before[pos - 1].frame);
                                    }
                                }
                            }
                            assert forall|a: int| 0 <= a < after.len() implies {
                                &&& (#[trigger] after[a]).persons@.len() > 0
                                &&& after[a].persons@ == persons_in_frame(
                                    next,
                                    frame_rate,
                                    after[a].frame as int,
                                )
                            } by {
                                if a < pos {
                                    assert(before[a].persons@.len() > 0);
                                    if pos - 1 > a {
                                        assert(before[a].frame < before[pos - 1].frame);
                                    }
                                } else if a > pos {
                                    assert(before[a - 1].persons@.len() > 0);
                                    assert(before[a - 1].frame >= frame);
                                    if a - 1 > pos {
                                        assert(before[pos as int].frame < before[a - 1].frame);
                                    }
                                }
                            }
                        }
                    }
                },
            }
            i += 1;
        }
        proof {
            assert(person_detections@.take(person_detections.len() as int) =~= person_detections@);
        }
        results
    }

    /// The frame that `timestamp` (in milliseconds) falls into at
    /// `frame_rate`: the nearest frame number, halves away from zero.
    pub fn timestamp_to_frame(timestamp: i64, frame_rate: FrameRate) -> (frame: i64)
        requires
            frame_rate.is_positive(),
        ensures
            frame == frame_of(timestamp, frame_rate),
    {
        let frames: u128 = frame_rate.frames as u128;
        let unit: u128 = frame_rate.seconds as u128 * 1000;
        let magnitude: u128 = if timestamp >= 0 {
            timestamp as u128
        } else {
            (-(timestamp as i128)) as u128
        };
        assert(magnitude * frames <= 0x8000_0000_0000_0000 * 0x1_0000_0000) by (nonlinear_arith)
            requires
                magnitude <= 0x8000_0000_0000_0000,
                frames <= 0x1_0000_0000,
        ;
        let scaled: u128 = magnitude * frames;
        let rounded: u128 = (2 * scaled + unit) / (2 * unit);
        if timestamp >= 0 {
            assert(timestamp * frame_rate.frames == magnitude * frames && magnitude * frames >= 0)
                by (nonlinear_arith)
                requires
                    magnitude == timestamp,
                    frames == frame_rate.frames,
                    timestamp >= 0,
            ;
            if rounded > i64::MAX as u128 {
                i64::MAX
            } else {
                rounded as i64
            }
        } else {
            assert(-(timestamp * frame_rate.frames) == magnitude * frames) by (nonlinear_arith)
                requires
                    magnitude == -timestamp,
                    frames == frame_rate.frames,
            ;
            assert(timestamp * frame_rate.frames < 0) by (nonlinear_arith)
                requires
                    timestamp < 0,
                    frame_rate.frames > 0,
            ;
            if rounded > i64::MAX as u128 {
                i64::MIN
            } else {
                -(rounded as i64)
            }
        }
    }
}

} // verus!
