//! Lifecycle status of an analysis job.

use vstd::prelude::*;

verus! {

/// Status of an analysis job. Any text that names none of the three known
/// states is kept verbatim in `Unknown`.
#[derive(Debug, Clone, PartialEq, Eq)]
pub enum JobStatus {
    Failed,
    InProgress,
    Succeeded,
    Unknown(String),
}

/// Mathematical value of a [`JobStatus`].
pub enum JobStatusView {
    Failed,
    InProgress,
    Succeeded,
    Unknown(Seq<char>),
}

impl View for JobStatus {
    type V = JobStatusView;

    open spec fn view(&self) -> JobStatusView {
        match self {
            JobStatus::Failed => JobStatusView::Failed,
            JobStatus::InProgress => JobStatusView::InProgress,
            JobStatus::Succeeded => JobStatusView::Succeeded,
            JobStatus::Unknown(raw) => JobStatusView::Unknown(raw@),
        }
    }
}

/// The status that a wire label stands for.
pub open spec fn status_of_label(label: Seq<char>) -> JobStatusView {
    if label == "FAILED"@ {
        JobStatusView::Failed
    } else if label == "INPROGRESS"@ {
        JobStatusView::InProgress
    } else if label == "SUCCEEDED"@ {
        JobStatusView::Succeeded
    } else {
        JobStatusView::Unknown(label)
    }
}

/// The wire label of a status.
pub open spec fn label_of_status(status: JobStatusView) -> Seq<char> {
    match status {
        JobStatusView::Failed => "FAILED"@,
        JobStatusView::InProgress => "INPROGRESS"@,
        JobStatusView::Succeeded => "SUCCEEDED"@,
        JobStatusView::Unknown(raw) => raw,
    }
}

/// Whether a text is the label of one of the three known states.
pub open spec fn is_known_label(label: Seq<char>) -> bool {
    label == "FAILED"@ || label == "INPROGRESS"@ || label == "SUCCEEDED"@
}

/// A status comes back from its own label, unless it is an `Unknown` that
/// holds the label of a known state; and a label comes back from the status
/// read from it, always.
pub proof fn lemma_label_round_trip(status: JobStatusView, label: Seq<char>)
    ensures
        !(status matches JobStatusView::Unknown(raw) && is_known_label(raw)) ==> status_of_label(
            label_of_status(status),
        ) == status,
        label_of_status(status_of_label(label)) == label,
{
    reveal_strlit("FAILED");
    reveal_strlit("INPROGRESS");
    reveal_strlit("SUCCEEDED");
    assert("INPROGRESS"@.len() == 10);
    assert("SUCCEEDED"@.len() == 9);
}

impl JobStatus {
    /// Whether the job has succeeded.
    pub fn is_succeeded(&self) -> (yes: bool)
        ensures
            yes == (self@ == JobStatusView::Succeeded),
    {
        match self {
            JobStatus::Succeeded => true,
            _ => false,
        }
    }

    /// A copy of the status.
    pub fn duplicate(&self) -> (copy: JobStatus)
        ensures
            copy@ == self@,
    {
        match self {
            JobStatus::Failed => JobStatus::Failed,
            JobStatus::InProgress => JobStatus::InProgress,
            JobStatus::Succeeded => JobStatus::Succeeded,
            JobStatus::Unknown(raw) => JobStatus::Unknown(raw.clone()),
        }
    }

    /// The wire label of the status.
    pub fn label(&self) -> (label: String)
        ensures
            label@ == label_of_status(self@),
    {
        match self {
            JobStatus::Failed => "FAILED".to_owned(),
            JobStatus::InProgress => "INPROGRESS".to_owned(),
            JobStatus::Succeeded => "SUCCEEDED".to_owned(),
            JobStatus::Unknown(raw) => raw.clone(),
        }
    }

    /// Reads a status from its wire label; never fails.
    pub fn parse(label: &str) -> (status: JobStatus)
        ensures
            status@ == status_of_label(label@),
    {
        if *label == *"FAILED" {
            JobStatus::Failed
        } else if *label == *"INPROGRESS" {
            JobStatus::InProgress
        } else if *label == *"SUCCEEDED" {
            JobStatus::Succeeded
        } else {
            JobStatus::Unknown(label.to_owned())
        }
    }
}

} // verus!
