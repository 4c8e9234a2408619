//! The scalar summary of a job: how many distinct persons were tracked and
//! for how long.

use crate::detection::{names_person, PersonDetection};
use std::collections::HashMap;
use vstd::prelude::*;

verus! {

/// How long one person was tracked: the earliest and the latest time, in
/// milliseconds, at which a detection names the person.
#[derive(Debug, Clone, Copy, PartialEq, Eq)]
pub struct PersonWindow {
    pub index: i64,
    pub first_seen: i64,
    pub last_seen: i64,
}

/// Scalar aggregate of a job. The mean tracking time is kept exactly, as the
/// sum of all tracking windows in milliseconds beside the number of persons.
#[derive(Debug, Clone, Copy, PartialEq, Eq)]
pub struct TrackingSummary {
    pub total_detection_count: usize,
    pub total_tracking_time_ms: u128,
}

/// The persons that the detections name, each once, in order of first
/// appearance.
pub open spec fn distinct_persons(detections: Seq<PersonDetection>) -> Seq<i64>
    decreases detections.len(),
{
    if detections.len() == 0 {
        Seq::empty()
    } else {
        let earlier = distinct_persons(detections.drop_last());
        match detections.last().person {
            Some(person) => if earlier.contains(person.index) {
                earlier
            } else {
                earlier.push(person.index)
            },
            None => earlier,
        }
    }
}

/// The set of persons that the detections name.
pub open spec fn person_set(detections: Seq<PersonDetection>) -> Set<i64> {
    Set::new(
        |index: i64|
            exists|i: int| 0 <= i < detections.len() && names_person(#[trigger] detections[i], index),
    )
}

/// The smallest timestamp among the detections that name `index`;
/// `i64::MAX` when none does.
pub open spec fn first_seen(detections: Seq<PersonDetection>, index: i64) -> int
    decreases detections.len(),
{
    if detections.len() == 0 {
        i64::MAX as int
    } else {
        let earlier = first_seen(detections.drop_last(), index);
        let last = detections.last();
        if names_person(last, index) && last.timestamp < earlier {
            last.timestamp as int
        } else {
            earlier
        }
    }
}

/// The largest timestamp among the detections that name `index`;
/// `i64::MIN` when none does.
pub open spec fn last_seen(detections: Seq<PersonDetection>, index: i64) -> int
    decreases detections.len(),
{
    if detections.len() == 0 {
        i64::MIN as int
    } else {
        let earlier = last_seen(detections.drop_last(), index);
        let last = detections.last();
        if names_person(last, index) && last.timestamp > earlier {
            last.timestamp as int
        } else {
            earlier
        }
    }
}

/// The tracking time of `index` in milliseconds.
pub open spec fn tracking_span(detections: Seq<PersonDetection>, index: i64) -> int {
    last_seen(detections, index) - first_seen(detections, index)
}

/// The sum of the tracking times of `persons`.
pub open spec fn sum_of_spans(detections: Seq<PersonDetection>, persons: Seq<i64>) -> int
    decreases persons.len(),
{
    if persons.len() == 0 {
        0
    } else {
        sum_of_spans(detections, persons.drop_last()) + tracking_span(detections, persons.last())
    }
}

/// The sum of the tracking times of all persons that the detections name.
pub open spec fn total_tracking_ms(detections: Seq<PersonDetection>) -> int {
    sum_of_spans(detections, distinct_persons(detections))
}

/// `distinct_persons` lists exactly the persons that some detection names,
/// and none of them twice.
pub proof fn lemma_distinct_persons(detections: Seq<PersonDetection>)
    ensures
        distinct_persons(detections).no_duplicates(),
        forall|index: i64|
            distinct_persons(detections).contains(index) <==> person_set(detections).contains(
                index,
            ),
    decreases detections.len(),
{
    if detections.len() > 0 {
        let front = detections.drop_last();
        let earlier = distinct_persons(front);
        lemma_distinct_persons(front);
        assert forall|index: i64|
            distinct_persons(detections).contains(index) <==> person_set(detections).contains(
                index,
            ) by {
            if distinct_persons(detections).contains(index) {
                if earlier.contains(index) {
                    assert(person_set(front).contains(index));
                    let i = choose|i: int|
                        0 <= i < front.len() && names_person(#[trigger] front[i], index);
                    assert(names_person(detections[i], index));
                } else {
                    let k = choose|k: int|
                        0 <= k < distinct_persons(detections).len() && distinct_persons(
                            detections,
                        )[k] == index;
                    assert(k == earlier.len());
                    assert(names_person(detections[detections.len() - 1], index));
                }
            }
            if person_set(detections).contains(index) {
                let i = choose|i: int|
                    0 <= i < detections.len() && names_person(#[trigger] detections[i], index);
                if i < front.len() {
                    assert(names_person(front[i], index));
                    assert(person_set(front).contains(index));
                    assert(earlier.contains(index));
                    let k = choose|k: int| 0 <= k < earlier.len() && earlier[k] == index;
                    assert(distinct_persons(detections)[k] == index);
                } else {
                    if !earlier.contains(index) {
                        assert(distinct_persons(detections)[earlier.len() as int] == index);
                    } else {
                        let k = choose|k: int| 0 <= k < earlier.len() && earlier[k] == index;
                        assert(distinct_persons(detections)[k] == index);
                    }
                }
            }
        }
    }
}

/// The number of distinct persons is the size of the set of persons named.
pub proof fn lemma_person_count(detections: Seq<PersonDetection>)
    ensures
        person_set(detections).finite(),
        person_set(detections).len() == distinct_persons(detections).len(),
{
    lemma_distinct_persons(detections);
    let persons = distinct_persons(detections);
    assert(persons.to_set() =~= person_set(detections));
    persons.unique_seq_to_set();
}

/// A person that no detection names has the empty window.
pub proof fn lemma_unseen_window(detections: Seq<PersonDetection>, index: i64)
    requires
        !person_set(detections).contains(index),
    ensures
        first_seen(detections, index) == i64::MAX,
        last_seen(detections, index) == i64::MIN,
    decreases detections.len(),
{
    if detections.len() > 0 {
        let front = detections.drop_last();
        assert forall|i: int| 0 <= i < front.len() implies !names_person(
            #[trigger] front[i],
            index,
        ) by {}
        lemma_unseen_window(front, index);
    }
}

/// The window of a person bounds every detection that names the person, and
/// both of its ends are timestamps of such detections.
pub proof fn lemma_window_is_tight(detections: Seq<PersonDetection>, index: i64)
    requires
        person_set(detections).contains(index),
    ensures
        forall|i: int|
            0 <= i < detections.len() && names_person(#[trigger] detections[i], index)
                ==> first_seen(detections, index) <= detections[i].timestamp <= last_seen(
                detections,
                index,
            ),
        exists|i: int|
            0 <= i < detections.len() && names_person(#[trigger] detections[i], index)
                && detections[i].timestamp == first_seen(detections, index),
        exists|i: int|
            0 <= i < detections.len() && names_person(#[trigger] detections[i], index)
                && detections[i].timestamp == last_seen(detections, index),
    decreases detections.len(),
{
    let front = detections.drop_last();
    let n = detections.len() - 1;
    if person_set(front).contains(index) {
        lemma_window_is_tight(front, index);
        assert forall|i: int|
            0 <= i < detections.len() && names_person(
                #[trigger] detections[i],
                index,
            ) implies first_seen(detections, index) <= detections[i].timestamp <= last_seen(
            detections,
            index,
        ) by {
            if i < n {
                assert(names_person(front[i], index));
            }
        }
    } else {
        lemma_unseen_window(front, index);
        let i = choose|i: int|
            0 <= i < detections.len() && names_person(#[trigger] detections[i], index);
        if i < n {
            assert(names_person(front[i], index));
        }
        assert forall|i: int|
            0 <= i < detections.len() && names_person(
                #[trigger] detections[i],
                index,
            ) implies first_seen(detections, index) <= detections[i].timestamp <= last_seen(
            detections,
            index,
        ) by {
            if i < n {
                assert(names_person(front[i], index));
            }
        }
    }
}

/// Whether two sequences hold the same detections, in whatever order and
/// however often.
pub open spec fn same_records(a: Seq<PersonDetection>, b: Seq<PersonDetection>) -> bool {
    &&& forall|i: int| 0 <= i < a.len() ==> b.contains(#[trigger] a[i])
    &&& forall|j: int| 0 <= j < b.len() ==> a.contains(#[trigger] b[j])
}

/// Taking one person out of a list lowers the sum of spans by that
/// person's span.
pub proof fn lemma_sum_without(detections: Seq<PersonDetection>, persons: Seq<i64>, k: int)
    requires
        0 <= k < persons.len(),
    ensures
        sum_of_spans(detections, persons) == sum_of_spans(detections, persons.remove(k))
            + tracking_span(detections, persons[k]),
    decreases persons.len(),
{
    if k < persons.len() - 1 {
        lemma_sum_without(detections, persons.drop_last(), k);
        assert(persons.remove(k).drop_last() =~= persons.drop_last().remove(k));
    }
}

/// The sum of spans over a list of distinct persons depends only on which
/// persons the list holds.
pub proof fn lemma_sum_by_members(detections: Seq<PersonDetection>, a: Seq<i64>, b: Seq<i64>)
    requires
        a.no_duplicates(),
        b.no_duplicates(),
        forall|index: i64| a.contains(index) <==> b.contains(index),
    ensures
        sum_of_spans(detections, a) == sum_of_spans(detections, b),
    decreases a.len(),
{
    if a.len() == 0 {
        if b.len() > 0 {
            assert(a.contains(b[0]));
        }
    } else {
        let last = a.last();
        assert(a.contains(last));
        let k = choose|k: int| 0 <= k < b.len() && b[k] == last;
        let a_rest = a.drop_last();
        let b_rest = b.remove(k);
        assert forall|index: i64| a_rest.contains(index) <==> b_rest.contains(index) by {
            if a_rest.contains(index) {
                assert(b.contains(index));
                let j = choose|j: int| 0 <= j < b.len() && b[j] == index;
                if j < k {
                    assert(b_rest[j] == index);
                } else {
                    assert(b_rest[j - 1] == index);
                }
            }
            if b_rest.contains(index) {
                assert(a.contains(index));
                let i = choose|i: int| 0 <= i < a.len() && a[i] == index;
                assert(a_rest[i] == index);
            }
        }
        assert(b_rest.no_duplicates());
        lemma_sum_by_members(detections, a_rest, b_rest);
        lemma_sum_without(detections, b, k);
    }
}

/// The sum of spans of a list of persons is the same over two sequences of
/// detections that give every person the same window.
pub proof fn lemma_sum_by_windows(
    a: Seq<PersonDetection>,
    b: Seq<PersonDetection>,
    persons: Seq<i64>,
)
    requires
        forall|index: i64|
            first_seen(a, index) == first_seen(b, index) && last_seen(a, index) == last_seen(
                b,
                index,
            ),
    ensures
        sum_of_spans(a, persons) == sum_of_spans(b, persons),
    decreases persons.len(),
{
    if persons.len() > 0 {
        lemma_sum_by_windows(a, b, persons.drop_last());
    }
}

/// The order of the detections, and how often each occurs, does not matter
/// to the summary: two sequences that hold the same detections name the
/// same persons, give each the same window, and have the same count and the
/// same total tracking time.
pub proof fn lemma_summary_ignores_order(a: Seq<PersonDetection>, b: Seq<PersonDetection>)
    requires
        same_records(a, b),
    ensures
        person_set(a) == person_set(b),
        distinct_persons(a).len() == distinct_persons(b).len(),
        forall|index: i64|
            first_seen(a, index) == first_seen(b, index) && last_seen(a, index) == last_seen(
                b,
                index,
            ),
        total_tracking_ms(a) == total_tracking_ms(b),
{
    assert(person_set(a) =~= person_set(b));
    lemma_person_count(a);
    lemma_person_count(b);
    assert forall|index: i64|
        first_seen(a, index) == first_seen(b, index) && last_seen(a, index) == last_seen(
            b,
            index,
        ) by {
        if person_set(a).contains(index) {
            lemma_window_is_tight(a, index);
            lemma_window_is_tight(b, index);
        } else {
            lemma_unseen_window(a, index);
            lemma_unseen_window(b, index);
        }
    }
    lemma_distinct_persons(a);
    lemma_distinct_persons(b);
    lemma_sum_by_members(a, distinct_persons(a), distinct_persons(b));
    lemma_sum_by_windows(a, b, distinct_persons(b));
}

/// A job without detections has no persons and no tracking time.
pub proof fn lemma_empty_summary()
    ensures
        distinct_persons(Seq::empty()).len() == 0,
        total_tracking_ms(Seq::empty()) == 0,
{
}

/// Whether `windows` holds, in order of first appearance, the window of each
/// person that the detections name.
pub open spec fn windows_of(windows: Seq<PersonWindow>, detections: Seq<PersonDetection>) -> bool {
    &&& windows.len() == distinct_persons(detections).len()
    &&& forall|j: int|
        0 <= j < windows.len() ==> {
            &&& (#[trigger] windows[j]).index == distinct_persons(detections)[j]
            &&& windows[j].first_seen == first_seen(detections, windows[j].index)
            &&& windows[j].last_seen == last_seen(detections, windows[j].index)
            &&& windows[j].first_seen <= windows[j].last_seen
        }
}

/// The tracking window of every person that the detections name, in order
/// of first appearance. The order of the detections does not matter to the
/// windows themselves.
pub fn tracking_windows(detections: &Vec<PersonDetection>) -> (windows: Vec<PersonWindow>)
    ensures
        windows_of(windows@, detections@),
{
    broadcast use vstd::std_specs::hash::group_hash_axioms;

    let mut windows: Vec<PersonWindow> = Vec::new();
    // where in `windows` each person stands
    let mut places: HashMap<i64, usize> = HashMap::new();
    let mut i: usize = 0;
    while i < detections.len()
        invariant
            i <= detections.len(),
            windows_of(windows@, detections@.take(i as int)),
            forall|index: i64|
                places@.contains_key(index) <==> distinct_persons(
                    detections@.take(i as int),
                ).contains(index),
            forall|index: i64|
                places@.contains_key(index) ==> (#[trigger] places@[index]) < windows@.len()
                    && windows@[places@[index] as int].index == index,
        decreases detections.len() - i,
    {
        let ghost seen = detections@.take(i as int);
        let ghost next = detections@.take(i + 1);
        proof {
            assert(next.drop_last() =~= seen);
            lemma_distinct_persons(seen);
        }
        let detection = detections[i];
        match detection.person {
            None => {},
            Some(person) => {
                let place: Option<usize> = match places.get(&person.index) {
                    Some(place) => Some(*place),
                    None => None,
                };
                match place {
                    Some(j) => {
                        let found = windows[j];
                        let first: i64 = if detection.timestamp < found.first_seen {
                            detection.timestamp
                        } else {
                            found.first_seen
                        };
                        let last: i64 = if detection.timestamp > found.last_seen {
                            detection.timestamp
                        } else {
                            found.last_seen
                        };
                        windows.set(
                            j,
                            PersonWindow { index: person.index, first_seen: first, last_seen: last },
                        );
                    },
                    None => {
                        proof {
                            lemma_unseen_window(seen, person.index);
                            assert forall|index: i64|
                                places@.insert(person.index, windows@.len() as usize).contains_key(
                                    index,
                                ) <==> distinct_persons(next).contains(index) by {
                                let earlier = distinct_persons(seen);
                                let now = distinct_persons(next);
                                if earlier.contains(index) {
                                    let k = choose|k: int|
                                        0 <= k < earlier.len() && earlier[k] == index;
                                    assert(now[k] == index);
                                }
                                if index == person.index {
                                    assert(now[earlier.len() as int] == index);
                                }
                            }
                        }
                        places.insert(person.index, windows.len());
                        windows.push(
                            PersonWindow {
                                index: person.index,
                                first_seen: detection.timestamp,
                                last_seen: detection.timestamp,
                            },
                        );
                    },
                }
            },
        }
        i += 1;
    }
    proof {
        assert(detections@.take(detections.len() as int) =~= detections@);
    }
    windows
}

impl TrackingSummary {
    /// Summarizes the detections of one job: the number of distinct persons
    /// named, and the sum of their tracking times. Detections without a
    /// person are passed over; a missing bounding box does not matter here.
    pub fn new(person_detections: Vec<PersonDetection>) -> (summary: Self)
        ensures
            summary.total_detection_count == distinct_persons(person_detections@).len(),
            person_set(person_detections@).finite(),
            summary.total_detection_count == person_set(person_detections@).len(),
            summary.total_tracking_time_ms == total_tracking_ms(person_detections@),
    {
        Self::of(&person_detections)
    }

    /// As [`TrackingSummary::new`], leaving the detections with the caller.
    pub fn of(person_detections: &Vec<PersonDetection>) -> (summary: Self)
        ensures
            summary.total_detection_count == distinct_persons(person_detections@).len(),
            person_set(person_detections@).finite(),
            summary.total_detection_count == person_set(person_detections@).len(),
            summary.total_tracking_time_ms == total_tracking_ms(person_detections@),
    {
        let windows = tracking_windows(person_detections);
        let ghost persons = distinct_persons(person_detections@);
        let mut total: u128 = 0;
        let mut j: usize = 0;
        while j < windows.len()
            invariant
                j <= windows.len(),
                windows_of(windows@, person_detections@),
                persons == distinct_persons(person_detections@),
                total == sum_of_spans(person_detections@, persons.take(j as int)),
                total <= j * u64::MAX,
            decreases windows.len() - j,
        {
            let window = windows[j];
            let span: u128 = (window.last_seen as i128 - window.first_seen as i128) as u128;
            proof {
                assert(persons.take(j + 1).drop_last() =~= persons.take(j as int));
            }
            total = total + span;
            j += 1;
        }
        proof {
            assert(persons.take(windows.len() as int) =~= persons);
            lemma_person_count(person_detections@);
        }
        TrackingSummary { total_detection_count: windows.len(), total_tracking_time_ms: total }
    }

    /// The mean tracking time per person in whole milliseconds, rounded
    /// down; 0 when no person was tracked.
    pub fn average_tracking_time_ms(&self) -> (average: u128)
        ensures
            self.total_detection_count == 0 ==> average == 0,
            self.total_detection_count > 0 ==> average == self.total_tracking_time_ms
                / (self.total_detection_count as u128),
    {
        if self.total_detection_count == 0 {
            0
        } else {
            self.total_tracking_time_ms / (self.total_detection_count as u128)
        }
    }
}

} // verus!
