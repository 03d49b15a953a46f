//! The job lifecycle state machine shared with the user interface: the states
//! a job passes through and the transitions allowed between them.
use vstd::prelude::*;

verus! {

#[derive(Copy, Clone, Debug, PartialEq, Eq, Hash, Structural)]
pub enum JobStatus {
    Queued,
    Probing,
    Planning,
    Running,
    Completed,
    Failed,
    Cancelled,
}

/// The transitions allowed out of each state, in order.
pub open spec fn transitions(s: JobStatus) -> Seq<JobStatus> {
    match s {
        JobStatus::Queued => seq![JobStatus::Probing, JobStatus::Cancelled],
        JobStatus::Probing => seq![JobStatus::Planning, JobStatus::Failed, JobStatus::Cancelled, JobStatus::Queued],
        JobStatus::Planning => seq![JobStatus::Running, JobStatus::Failed, JobStatus::Cancelled, JobStatus::Queued],
        JobStatus::Running => seq![JobStatus::Completed, JobStatus::Failed, JobStatus::Cancelled, JobStatus::Queued],
        _ => seq![JobStatus::Queued],
    }
}

pub open spec fn terminal(s: JobStatus) -> bool {
    s == JobStatus::Completed || s == JobStatus::Failed || s == JobStatus::Cancelled
}

pub open spec fn active(s: JobStatus) -> bool {
    s == JobStatus::Probing || s == JobStatus::Planning || s == JobStatus::Running
}

impl JobStatus {
    /// Completed, failed and cancelled jobs are terminal.
    pub fn is_terminal(self) -> (r: bool)
        ensures
            r == terminal(self),
    {
        match self {
            JobStatus::Completed | JobStatus::Failed | JobStatus::Cancelled => true,
            _ => false,
        }
    }

    /// Probing, planning and running jobs are active.
    pub fn is_active(self) -> (r: bool)
        ensures
            r == active(self),
    {
        match self {
            JobStatus::Probing | JobStatus::Planning | JobStatus::Running => true,
            _ => false,
        }
    }

    /// The states this one may move to, in order.
    pub fn allowed_transitions(self) -> (r: Vec<JobStatus>)
        ensures
            r@ == transitions(self),
    {
        let r = match self {
            JobStatus::Queued => vec![JobStatus::Probing, JobStatus::Cancelled],
            JobStatus::Probing => vec![JobStatus::Planning, JobStatus::Failed, JobStatus::Cancelled, JobStatus::Queued],
            JobStatus::Planning => vec![JobStatus::Running, JobStatus::Failed, JobStatus::Cancelled, JobStatus::Queued],
            JobStatus::Running => vec![JobStatus::Completed, JobStatus::Failed, JobStatus::Cancelled, JobStatus::Queued],
            _ => vec![JobStatus::Queued],
        };
        assert(r@ =~= transitions(self));
        r
    }
}

/// Whether a job may move from `from` to `to`.
pub fn can_transition_status(from: JobStatus, to: JobStatus) -> (r: bool)
    ensures
        r == transitions(from).contains(to),
{
    let allowed = from.allowed_transitions();
    let mut i: usize = 0;
    while i < allowed.len()
        invariant
            allowed@ == transitions(from),
            i <= allowed@.len(),
            forall|k: int| 0 <= k < i ==> allowed@[k] != to,
        decreases allowed@.len() - i,
    {
        if allowed[i] == to {
            assert(allowed@[i as int] == to);
            return true;
        }
        i = i + 1;
    }
    false
}

/// Terminal states lead nowhere but back to the queue.
pub proof fn lemma_terminal_only_requeues(from: JobStatus, to: JobStatus)
    requires
        terminal(from),
        transitions(from).contains(to),
    ensures
        to == JobStatus::Queued,
{
    assert(transitions(from) =~= seq![JobStatus::Queued]);
}

} // verus!
