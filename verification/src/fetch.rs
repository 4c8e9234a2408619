//! Draining the analysis service's paginated answer.
//!
//! The service hands out the detections of a job page by page; each page but
//! the last carries a continuation token for the next. [`DetectionFetch`]
//! holds what has arrived so far and decides, page by page, whether to ask
//! again, to finish, or to fail. The caller performs the requests. A failed
//! page fails the whole fetch: the pages before it are dropped.

use crate::detection::PersonDetection;
use crate::error::{ServiceError, ServiceErrorView};
use crate::metadata::{settled_if_any, ReportedVideoMetadata, VideoMetadata};
use vstd::prelude::*;

verus! {

/// One page of the service's answer.
#[derive(Debug, Clone, PartialEq, Eq)]
pub struct DetectionPage {
    pub persons: Option<Vec<PersonDetection>>,
    pub video_metadata: Option<ReportedVideoMetadata>,
    pub next_token: Option<String>,
}

/// Mathematical value of a [`DetectionPage`].
pub struct DetectionPageView {
    pub persons: Option<Seq<PersonDetection>>,
    pub video_metadata: Option<ReportedVideoMetadata>,
    pub next_token: Option<Seq<char>>,
}

impl View for DetectionPage {
    type V = DetectionPageView;

    open spec fn view(&self) -> DetectionPageView {
        DetectionPageView {
            persons: match self.persons {
                Some(persons) => Some(persons@),
                None => None,
            },
            video_metadata: self.video_metadata,
            next_token: match self.next_token {
                Some(token) => Some(token@),
                None => None,
            },
        }
    }
}

/// What the service gave for one request: a page, or the text of a failure.
pub type PageOutcome = Result<DetectionPageView, Seq<char>>;

/// Mathematical value of what the service gave for one request.
pub open spec fn outcome_view(response: Result<DetectionPage, String>) -> PageOutcome {
    match response {
        Ok(page) => Ok(page@),
        Err(text) => Err(text@),
    }
}

/// A request for one page.
#[derive(Debug, Clone, PartialEq, Eq)]
pub struct PageRequest {
    pub job_id: String,
    pub next_token: Option<String>,
}

/// A fetch in progress.
#[derive(Debug, Clone, PartialEq, Eq)]
pub struct DetectionFetch {
    /// The job whose detections are fetched.
    pub job_id: String,
    /// The detections of the pages accepted so far, in order.
    pub collected: Vec<PersonDetection>,
    /// The metadata that the first page carried, settled.
    pub metadata: Option<VideoMetadata>,
    /// The token to send with the next request.
    pub token: Option<String>,
    /// Whether the first page has been accepted.
    pub started: bool,
}

/// Mathematical value of a [`DetectionFetch`].
pub struct DetectionFetchView {
    pub job_id: Seq<char>,
    pub collected: Seq<PersonDetection>,
    pub metadata: Option<VideoMetadata>,
    pub token: Option<Seq<char>>,
    pub started: bool,
}

impl View for DetectionFetch {
    type V = DetectionFetchView;

    open spec fn view(&self) -> DetectionFetchView {
        DetectionFetchView {
            job_id: self.job_id@,
            collected: self.collected@,
            metadata: self.metadata,
            token: match self.token {
                Some(token) => Some(token@),
                None => None,
            },
            started: self.started,
        }
    }
}

/// How a fetch goes on after one answer.
#[derive(Debug, Clone, PartialEq, Eq)]
pub enum FetchStep {
    /// Another page is to be requested.
    Continue(DetectionFetch),
    /// Every page has arrived: all detections in the order of arrival, and
    /// the metadata of the first page.
    Done(Vec<PersonDetection>, Option<VideoMetadata>),
    /// The fetch failed; nothing of what had arrived is kept.
    Failed(ServiceError),
}

/// Mathematical value of a [`FetchStep`].
pub enum FetchStepView {
    Continue(DetectionFetchView),
    Done(Seq<PersonDetection>, Option<VideoMetadata>),
    Failed(ServiceErrorView),
}

impl View for FetchStep {
    type V = FetchStepView;

    open spec fn view(&self) -> FetchStepView {
        match self {
            FetchStep::Continue(fetch) => FetchStepView::Continue(fetch@),
            FetchStep::Done(persons, metadata) => FetchStepView::Done(persons@, *metadata),
            FetchStep::Failed(error) => FetchStepView::Failed(error@),
        }
    }
}

/// The failure text for a page that holds no list of persons.
pub open spec fn persons_missing_text() -> Seq<char> {
    "persons detection not available"@
}

/// The state in which a fetch for `job_id` begins.
pub open spec fn initial_fetch(job_id: Seq<char>) -> DetectionFetchView {
    DetectionFetchView {
        job_id,
        collected: Seq::empty(),
        metadata: None,
        token: None,
        started: false,
    }
}

/// How a fetch in state `fetch` goes on after `outcome`.
pub open spec fn advance(fetch: DetectionFetchView, outcome: PageOutcome) -> FetchStepView {
    match outcome {
        Err(text) => FetchStepView::Failed(ServiceErrorView::UpstreamFailure(text)),
        Ok(page) => match page.persons {
            None => FetchStepView::Failed(
                ServiceErrorView::UpstreamFailure(persons_missing_text()),
            ),
            Some(persons) => {
                let collected = fetch.collected + persons;
                let metadata = if fetch.started {
                    fetch.metadata
                } else {
                    settled_if_any(page.video_metadata)
                };
                match page.next_token {
                    Some(token) => FetchStepView::Continue(
                        DetectionFetchView {
                            job_id: fetch.job_id,
                            collected,
                            metadata,
                            token: Some(token),
                            started: true,
                        },
                    ),
                    None => FetchStepView::Done(collected, metadata),
                }
            },
        },
    }
}

/// How a fetch in state `fetch` stands after the answers `outcomes`, taken
/// in order: still waiting if they run out first, else done or failed at
/// the first answer that ends it.
pub open spec fn drain(fetch: DetectionFetchView, outcomes: Seq<PageOutcome>) -> FetchStepView
    decreases outcomes.len(),
{
    if outcomes.len() == 0 {
        FetchStepView::Continue(fetch)
    } else {
        match advance(fetch, outcomes[0]) {
            FetchStepView::Continue(next) => drain(next, outcomes.skip(1)),
            ended => ended,
        }
    }
}

/// Whether an answer is a page with a list of persons.
pub open spec fn is_usable(outcome: PageOutcome) -> bool {
    match outcome {
        Ok(page) => page.persons is Some,
        Err(_) => false,
    }
}

/// Whether an answer is a page that carries a continuation token.
pub open spec fn has_token(outcome: PageOutcome) -> bool {
    match outcome {
        Ok(page) => page.next_token is Some,
        Err(_) => false,
    }
}

/// The persons of an answer; none where it has no list.
pub open spec fn persons_of(outcome: PageOutcome) -> Seq<PersonDetection> {
    match outcome {
        Ok(page) => match page.persons {
            Some(persons) => persons,
            None => Seq::empty(),
        },
        Err(_) => Seq::empty(),
    }
}

/// The persons of all answers, page after page.
pub open spec fn all_persons(outcomes: Seq<PageOutcome>) -> Seq<PersonDetection>
    decreases outcomes.len(),
{
    if outcomes.len() == 0 {
        Seq::empty()
    } else {
        persons_of(outcomes[0]) + all_persons(outcomes.skip(1))
    }
}

/// The metadata that a fetch reports once `first` is the next answer.
pub open spec fn metadata_after(fetch: DetectionFetchView, first: PageOutcome) -> Option<
    VideoMetadata,
> {
    if fetch.started {
        fetch.metadata
    } else {
        match first {
            Ok(page) => settled_if_any(page.video_metadata),
            Err(_) => None,
        }
    }
}

/// The failure that an unusable answer stands for.
pub open spec fn failure_of(outcome: PageOutcome) -> ServiceErrorView {
    match outcome {
        Ok(_) => ServiceErrorView::UpstreamFailure(persons_missing_text()),
        Err(text) => ServiceErrorView::UpstreamFailure(text),
    }
}

/// A fetch over usable pages, of which all but the last carry a token, ends
/// with the concatenation of the pages in the order of arrival, nothing
/// sorted and nothing dropped, and with the metadata of the first page.
pub proof fn lemma_drain_concatenates(fetch: DetectionFetchView, outcomes: Seq<PageOutcome>)
    requires
        outcomes.len() > 0,
        forall|i: int| 0 <= i < outcomes.len() ==> is_usable(#[trigger] outcomes[i]),
        forall|i: int| 0 <= i < outcomes.len() - 1 ==> has_token(#[trigger] outcomes[i]),
        !has_token(outcomes.last()),
    ensures
        drain(fetch, outcomes) == FetchStepView::Done(
            fetch.collected + all_persons(outcomes),
            metadata_after(fetch, outcomes[0]),
        ),
    decreases outcomes.len(),
{
    let rest = outcomes.skip(1);
    if outcomes.len() == 1 {
        assert(all_persons(rest) =~= Seq::<PersonDetection>::empty());
    } else {
        let next = advance(fetch, outcomes[0])->Continue_0;
        assert forall|i: int| 0 <= i < rest.len() implies is_usable(#[trigger] rest[i]) by {}
        assert forall|i: int| 0 <= i < rest.len() - 1 implies has_token(#[trigger] rest[i]) by {}
        lemma_drain_concatenates(next, rest);
        assert(next.collected + all_persons(rest) =~= fetch.collected + all_persons(outcomes));
    }
}

/// A fetch fails as a whole at the first unusable answer, whatever arrived
/// before it: the result is the failure alone.
pub proof fn lemma_drain_fails_whole(
    fetch: DetectionFetchView,
    outcomes: Seq<PageOutcome>,
    failing: int,
)
    requires
        0 <= failing < outcomes.len(),
        forall|i: int|
            0 <= i < failing ==> is_usable(#[trigger] outcomes[i]) && has_token(outcomes[i]),
        !is_usable(outcomes[failing]),
    ensures
        drain(fetch, outcomes) == FetchStepView::Failed(failure_of(outcomes[failing])),
    decreases outcomes.len(),
{
    if failing > 0 {
        let rest = outcomes.skip(1);
        let next = advance(fetch, outcomes[0])->Continue_0;
        assert forall|i: int| 0 <= i < failing - 1 implies is_usable(#[trigger] rest[i])
            && has_token(rest[i]) by {}
        lemma_drain_fails_whole(next, rest, failing - 1);
    }
}

/// Mathematical values of a sequence of answers.
pub open spec fn outcomes_of(answers: Seq<Result<DetectionPage, String>>) -> Seq<PageOutcome> {
    answers.map_values(|answer: Result<DetectionPage, String>| outcome_view(answer))
}

impl DetectionFetch {
    /// Runs a whole fetch for `job_id` over answers that are already at
    /// hand, in their order. Answers behind the one that ends the fetch are
    /// not looked at.
    pub fn replay(job_id: &str, answers: Vec<Result<DetectionPage, String>>) -> (step: FetchStep)
        requires
            job_id@.len() > 0,
        ensures
            step@ == drain(initial_fetch(job_id@), outcomes_of(answers@)),
    {
        let ghost outcomes = outcomes_of(answers@);
        let ghost start = initial_fetch(job_id@);
        let mut step = FetchStep::Continue(DetectionFetch::begin(job_id));
        proof {
            assert(outcomes.skip(0) =~= outcomes);
        }
        for answer in iter: answers
            invariant
                outcomes == outcomes_of(iter.seq()),
                drain(start, outcomes) == match step@ {
                    FetchStepView::Continue(fetch) => drain(fetch, outcomes.skip(iter.index())),
                    ended => ended,
                },
        {
            proof {
                assert(outcomes.skip(iter.index())[0] == outcome_view(answer));
                assert(outcomes.skip(iter.index()).skip(1) =~= outcomes.skip(iter.index() + 1));
            }
            step = match step {
                FetchStep::Continue(fetch) => fetch.accept(answer),
                ended => ended,
            };
        }
        step
    }

    /// Begins a fetch of the detections of `job_id`.
    pub fn begin(job_id: &str) -> (fetch: DetectionFetch)
        requires
            job_id@.len() > 0,
        ensures
            fetch@ == initial_fetch(job_id@),
    {
        DetectionFetch {
            job_id: job_id.to_owned(),
            collected: Vec::new(),
            metadata: None,
            token: None,
            started: false,
        }
    }

    /// The request to make next: for this job, with the continuation token
    /// of the page accepted last, if there was one.
    pub fn request(&self) -> (request: PageRequest)
        ensures
            request.job_id@ == self@.job_id,
            match request.next_token {
                Some(token) => self@.token == Some(token@),
                None => self@.token is None,
            },
    {
        PageRequest {
            job_id: self.job_id.clone(),
            next_token: match &self.token {
                Some(token) => Some(token.clone()),
                None => None,
            },
        }
    }

    /// Takes in the answer to the request made last and says how the fetch
    /// goes on.
    pub fn accept(self, response: Result<DetectionPage, String>) -> (step: FetchStep)
        ensures
            step@ == advance(self@, outcome_view(response)),
    {
        let page = match response {
            Err(text) => {
                return FetchStep::Failed(ServiceError::UpstreamFailure(text));
            },
            Ok(page) => page,
        };
        let DetectionPage { persons, video_metadata, next_token } = page;
        let mut persons = match persons {
            None => {
                return FetchStep::Failed(
                    ServiceError::UpstreamFailure("persons detection not available".to_owned()),
                );
            },
            Some(persons) => persons,
        };
        let DetectionFetch { job_id, collected, metadata, token: _, started } = self;
        let metadata = if started {
            metadata
        } else {
            match video_metadata {
                Some(reported) => Some(VideoMetadata::new(reported)),
                None => None,
            }
        };
        let mut collected = collected;
        collected.append(&mut persons);
        match next_token {
            Some(token) => FetchStep::Continue(
                DetectionFetch { job_id, collected, metadata, token: Some(token), started: true },
            ),
            None => FetchStep::Done(collected, metadata),
        }
    }
}

} // verus!
