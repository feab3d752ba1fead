//! A job is a fixed list of operations that the host performs in order. The
//! first operation that fails ends the job with its error; nothing is tried
//! again.

use vstd::prelude::*;
use crate::error::{SessionError, SessionErrorView};
use crate::operation::{Operation, OperationView};

verus! {

/// The steps of a job with the progress made on them.
pub struct Job {
    steps: Vec<Operation>,
    position: usize,
    failure: Option<SessionError>,
}

/// What the host reports of one operation: success, or its description of
/// what went wrong.
pub type OutcomeView = Result<(), Seq<char>>;

/// The mathematical content of a [`Job`].
pub struct JobView {
    /// The operations, in the order in which they are to be performed.
    pub steps: Seq<OperationView>,
    /// How many of them have succeeded.
    pub position: nat,
    /// The error that ended the job, if one did.
    pub failure: Option<SessionErrorView>,
}

/// The contents of a list of operations.
pub open spec fn operation_views(steps: Seq<Operation>) -> Seq<OperationView> {
    steps.map_values(|operation: Operation| operation@)
}

/// The content of a host's report.
pub open spec fn outcome_view(outcome: Result<(), String>) -> OutcomeView {
    match outcome {
        Ok(_) => Ok(()),
        Err(detail) => Err(detail@),
    }
}

impl JobView {
    /// A job on which no work has been done.
    pub open spec fn fresh(steps: Seq<OperationView>) -> JobView {
        JobView { steps, position: 0, failure: None }
    }

    /// The operation the host is to perform next; none once the job has
    /// failed or all steps have succeeded.
    pub open spec fn pending(self) -> Option<OperationView> {
        if self.failure is None && self.position < self.steps.len() {
            Some(self.steps[self.position as int])
        } else {
            None
        }
    }

    /// The job after the host has reported on the pending operation. A
    /// report on a job with nothing pending changes nothing.
    pub open spec fn settle(self, outcome: OutcomeView) -> JobView {
        match self.pending() {
            None => self,
            Some(operation) => match outcome {
                Ok(_) => JobView { position: self.position + 1, ..self },
                Err(detail) => JobView {
                    failure: Some(SessionErrorView::failure(operation, detail)),
                    ..self
                },
            },
        }
    }

    /// The job after a series of reports.
    pub open spec fn run(self, outcomes: Seq<OutcomeView>) -> JobView
        decreases outcomes.len(),
    {
        if outcomes.len() == 0 {
            self
        } else {
            self.run(outcomes.drop_last()).settle(outcomes.last())
        }
    }

    /// How the job ended; none while an operation is pending.
    pub open spec fn result(self) -> Option<Result<(), SessionErrorView>> {
        match self.failure {
            Some(error) => Some(Err(error)),
            None => if self.position < self.steps.len() {
                None
            } else {
                Some(Ok(()))
            },
        }
    }
}

impl View for Job {
    type V = JobView;

    closed spec fn view(&self) -> JobView {
        JobView {
            steps: operation_views(self.steps@),
            position: self.position as nat,
            failure: match self.failure {
                Some(error) => Some(error@),
                None => None,
            },
        }
    }
}

impl Job {
    /// A job that performs `steps` in order.
    pub fn new(steps: Vec<Operation>) -> (job: Job)
        ensures
            job@ == JobView::fresh(operation_views(steps@)),
    {
        Job { steps, position: 0, failure: None }
    }

    /// The operation the host is to perform next.
    pub fn pending(&self) -> (operation: Option<&Operation>)
        ensures
            match operation {
                Some(found) => self@.pending() == Some(found@),
                None => self@.pending() is None,
            },
    {
        if self.failure.is_none() && self.position < self.steps.len() {
            Some(&self.steps[self.position])
        } else {
            None
        }
    }

    /// Takes the host's report on the pending operation: success moves on to
    /// the next step, a failure ends the job with the error of that
    /// operation.
    pub fn settle(&mut self, outcome: Result<(), String>)
        ensures
            final(self)@ == old(self)@.settle(outcome_view(outcome)),
    {
        if self.failure.is_none() && self.position < self.steps.len() {
            match outcome {
                Ok(_) => {
                    self.position = self.position + 1;
                },
                Err(detail) => {
                    let error = SessionError::failure(&self.steps[self.position], detail.as_str());
                    self.failure = Some(error);
                },
            }
        }
    }

    /// How the job ended: `Ok` when every step succeeded, the error of the
    /// step that failed, or nothing while an operation is pending.
    pub fn finish(self) -> (result: Option<Result<(), SessionError>>)
        ensures
            match result {
                Some(Ok(_)) => self@.result() == Some(Ok::<(), SessionErrorView>(())),
                Some(Err(error)) => self@.result() == Some(Err::<(), SessionErrorView>(error@)),
                None => self@.result() is None,
            },
    {
        match self.failure {
            Some(error) => Some(Err(error)),
            None => if self.position < self.steps.len() {
                None
            } else {
                Some(Ok(()))
            },
        }
    }
}

/// A failure is final: a job that has failed asks for no further operation,
/// and no report changes it.
pub proof fn lemma_failure_is_final(job: JobView, outcome: OutcomeView)
    requires
        job.failure is Some,
    ensures
        job.pending() is None,
        job.settle(outcome) == job,
        job.result() == Some(Err::<(), SessionErrorView>(job.failure->0)),
{
}

/// Once a job has ended, by failure or by success of its last step, further
/// reports leave it as it is.
pub proof fn lemma_ended_job_is_fixed(job: JobView, outcomes: Seq<OutcomeView>)
    requires
        job.pending() is None,
    ensures
        job.run(outcomes) == job,
    decreases outcomes.len(),
{
    if outcomes.len() > 0 {
        lemma_ended_job_is_fixed(job, outcomes.drop_last());
    }
}

/// While the host reports success, the steps are asked for in their order:
/// after `outcomes.len()` successes the job stands at that step.
pub proof fn lemma_successes_advance(steps: Seq<OperationView>, outcomes: Seq<OutcomeView>)
    requires
        outcomes.len() <= steps.len(),
        forall|i: int| 0 <= i < outcomes.len() ==> outcomes[i] is Ok,
    ensures
        JobView::fresh(steps).run(outcomes) == (JobView {
            steps,
            position: outcomes.len(),
            failure: None,
        }),
    decreases outcomes.len(),
{
    if outcomes.len() > 0 {
        lemma_successes_advance(steps, outcomes.drop_last());
    }
}

/// The first failure decides: when the report on step `k` is the first
/// failure, the job ends with the error of step `k`, whatever is reported
/// afterwards.
pub proof fn lemma_first_failure_decides(
    steps: Seq<OperationView>,
    outcomes: Seq<OutcomeView>,
    k: int,
)
    requires
        0 <= k < outcomes.len(),
        k < steps.len(),
        outcomes[k] is Err,
        forall|i: int| 0 <= i < k ==> outcomes[i] is Ok,
    ensures
        JobView::fresh(steps).run(outcomes).result() == Some(
            Err::<(), SessionErrorView>(SessionErrorView::failure(steps[k], outcomes[k]->Err_0)),
        ),
        JobView::fresh(steps).run(outcomes).position == k,
    decreases outcomes.len(),
{
    let before = outcomes.drop_last();
    if k == outcomes.len() - 1 {
        lemma_successes_advance(steps, before);
    } else {
        lemma_first_failure_decides(steps, before, k);
        lemma_failure_is_final(JobView::fresh(steps).run(before), outcomes.last());
    }
}

/// A job succeeds when every one of its steps was reported as successful.
pub proof fn lemma_all_successes_complete(steps: Seq<OperationView>, outcomes: Seq<OutcomeView>)
    requires
        outcomes.len() == steps.len(),
        forall|i: int| 0 <= i < outcomes.len() ==> outcomes[i] is Ok,
    ensures
        JobView::fresh(steps).run(outcomes).result() == Some(Ok::<(), SessionErrorView>(())),
{
    lemma_successes_advance(steps, outcomes);
}

} // verus!
