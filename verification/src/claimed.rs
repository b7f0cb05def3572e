//! The run of a claimed job, one event at a time.

use vstd::prelude::*;
use vstd::string::StringExecFns;

use crate::change::{backoff, backoff_micros};
use crate::error::StoreError;
use crate::job::{finished, Job, JobStatus};
use crate::registry::HandlerError;
use crate::time::Duration;

verus! {

/// What the run of a job is waiting for.
#[derive(Clone, Copy, Debug, PartialEq, Eq, Structural)]
pub enum RunPhase {
    /// That the failure of a job without a handler is stored.
    Rejecting,
    /// That the handler finishes, or the lock is to be renewed.
    Handling,
    /// That the lock is renewed.
    Renewing,
    /// That the success of the job is stored.
    Completing,
    /// That the failure of the job is stored.
    Failing,
    /// That the job whose lock was lost is looked at.
    Inspecting(LossPhase),
    /// Nothing more.
    Done,
}

/// When it was seen that the lock on a job was lost.
#[derive(Clone, Copy, Debug, PartialEq, Eq, Structural)]
pub enum LossPhase {
    Renewal,
    Completion,
    FailureUpdate,
}

/// The name of a [`LossPhase`].
pub open spec fn loss_phase_text(phase: LossPhase) -> Seq<char> {
    match phase {
        LossPhase::Renewal => "renewal"@,
        LossPhase::Completion => "completion"@,
        LossPhase::FailureUpdate => "failure update"@,
    }
}

impl LossPhase {
    /// The name of the phase.
    pub fn as_str(self) -> (text: &'static str)
        ensures
            text@ == loss_phase_text(self),
    {
        match self {
            LossPhase::Renewal => "renewal",
            LossPhase::Completion => "completion",
            LossPhase::FailureUpdate => "failure update",
        }
    }
}

/// What has happened in the run of a job.
pub enum RunEvent {
    /// The handler finished: it succeeded, or failed or panicked with a message.
    HandlerFinished(Result<(), String>),
    /// The lock is to be renewed.
    RenewalDue,
    /// The lock was renewed, or is lost, or the store refused.
    Renewed(Result<bool, StoreError>),
    /// The end of the job was stored, or its lock is lost, or the store refused.
    Stored(Result<bool, StoreError>),
    /// The job whose lock was lost was looked at.
    Inspected(Result<Option<Job>, StoreError>),
}

/// What is to be done in the run of a job next.
pub enum RunAction {
    /// Start the handler, and wait until it finishes, but no longer than this: then the lock is to
    /// be renewed.
    StartHandler(Duration),
    /// Wait until the handler finishes, but no longer than this: then the lock is to be renewed.
    Await(Duration),
    /// Renew the lock.
    Renew,
    /// Store that the job succeeded.
    Complete,
    /// Store that the job failed at an attempt, with an error.
    Fail { attempt: i32, max_attempts: i32, error: String },
    /// Abort the handler, and look at the job whose lock is lost.
    AbortAndInspect,
    /// Look at the job whose lock is lost.
    Inspect,
    /// End the run. The claim loops are woken where the job was in a named queue, which is free now.
    End { notify: bool },
    /// Nothing: the event was not waited for.
    Ignore,
}

/// What is told of the run of a job.
#[derive(Clone, Copy, Debug, PartialEq, Eq, Structural)]
pub enum RunReport {
    /// Nothing.
    Nothing,
    /// It has started.
    Started,
    /// It succeeded.
    Succeeded,
    /// Its last attempt failed.
    FailedPermanently,
    /// It failed and runs again after so many microseconds.
    WillRetry { backoff_micros: u64 },
    /// Somebody finished it.
    FinishedElsewhere(JobStatus),
    /// Its lock is lost, though it has not finished.
    LockLost(JobStatus),
    /// It is no longer stored.
    Disappeared,
    /// The failure of a job without a handler could not be stored.
    RejectFailed,
    /// Its lock could not be renewed.
    RenewFailed,
    /// Its success could not be stored.
    CompleteFailed,
    /// Its failure could not be stored.
    FailFailed,
    /// It could not be looked at.
    InspectFailed,
}

/// The run of a job between two events.
#[derive(Clone, Copy, Debug, PartialEq, Eq, Structural)]
pub struct JobRun {
    phase: RunPhase,
    attempt: i32,
    max_attempts: i32,
    serial: bool,
    renew_after: Duration,
}

/// What a [`JobRun`] holds: what it is waiting for, the number of the attempt and how many are
/// allowed, whether the job is in a named queue, and after what time its lock is renewed.
#[verifier::ext_equal]
pub struct JobRunView {
    pub phase: RunPhase,
    pub attempt: int,
    pub max_attempts: int,
    pub serial: bool,
    pub renew_after: Duration,
}

impl View for JobRun {
    type V = JobRunView;

    closed spec fn view(&self) -> JobRunView {
        JobRunView {
            phase: self.phase,
            attempt: self.attempt as int,
            max_attempts: self.max_attempts as int,
            serial: self.serial,
            renew_after: self.renew_after,
        }
    }
}

/// What an event makes of the run of a job. A run in which the lock was lost as it was to be renewed
/// ends without more ado; any other wakes the claim loops at its end.
pub open spec fn run_next(run: JobRunView, event: RunEvent) -> JobRunView {
    let phase = match (run.phase, event) {
        (RunPhase::Rejecting, RunEvent::Stored(_)) => RunPhase::Done,
        (RunPhase::Handling, RunEvent::HandlerFinished(Ok(_))) => RunPhase::Completing,
        (RunPhase::Handling, RunEvent::HandlerFinished(Err(_))) => RunPhase::Failing,
        (RunPhase::Handling, RunEvent::RenewalDue) => RunPhase::Renewing,
        (RunPhase::Renewing, RunEvent::Renewed(Ok(false))) => RunPhase::Inspecting(
            LossPhase::Renewal,
        ),
        (RunPhase::Renewing, RunEvent::Renewed(_)) => RunPhase::Handling,
        (RunPhase::Completing, RunEvent::Stored(Ok(false))) => RunPhase::Inspecting(
            LossPhase::Completion,
        ),
        (RunPhase::Completing, RunEvent::Stored(_)) => RunPhase::Done,
        (RunPhase::Failing, RunEvent::Stored(Ok(false))) => RunPhase::Inspecting(
            LossPhase::FailureUpdate,
        ),
        (RunPhase::Failing, RunEvent::Stored(_)) => RunPhase::Done,
        (RunPhase::Inspecting(_), RunEvent::Inspected(_)) => RunPhase::Done,
        (phase, _) => phase,
    };
    JobRunView { phase, ..run }
}

/// Whether the claim loops are woken as a run ends in a phase.
pub open spec fn wakes_claim_loops(run: JobRunView) -> bool {
    run.serial && run.phase != RunPhase::Rejecting && run.phase != RunPhase::Inspecting(
        LossPhase::Renewal,
    )
}

/// What is to be done in a run after an event.
pub open spec fn run_action(run: JobRunView, event: RunEvent) -> RunAction {
    match (run.phase, event) {
        (RunPhase::Rejecting, RunEvent::Stored(_)) => RunAction::End { notify: false },
        (RunPhase::Handling, RunEvent::HandlerFinished(Ok(_))) => RunAction::Complete,
        (RunPhase::Handling, RunEvent::HandlerFinished(Err(error))) => RunAction::Fail {
            attempt: run.attempt as i32,
            max_attempts: run.max_attempts as i32,
            error,
        },
        (RunPhase::Handling, RunEvent::RenewalDue) => RunAction::Renew,
        (RunPhase::Renewing, RunEvent::Renewed(Ok(false))) => RunAction::AbortAndInspect,
        (RunPhase::Renewing, RunEvent::Renewed(_)) => RunAction::Await(run.renew_after),
        (RunPhase::Completing, RunEvent::Stored(Ok(false))) => RunAction::Inspect,
        (RunPhase::Failing, RunEvent::Stored(Ok(false))) => RunAction::Inspect,
        (RunPhase::Completing, RunEvent::Stored(_)) => RunAction::End {
            notify: wakes_claim_loops(run),
        },
        (RunPhase::Failing, RunEvent::Stored(_)) => RunAction::End {
            notify: wakes_claim_loops(run),
        },
        (RunPhase::Inspecting(_), RunEvent::Inspected(_)) => RunAction::End {
            notify: wakes_claim_loops(run),
        },
        _ => RunAction::Ignore,
    }
}

/// What is told of a job whose lock was lost.
pub open spec fn loss_report_of(inspected: Result<Option<Job>, StoreError>) -> RunReport {
    match inspected {
        Ok(Some(job)) => if finished(job.status) {
            RunReport::FinishedElsewhere(job.status)
        } else {
            RunReport::LockLost(job.status)
        },
        Ok(None) => RunReport::Disappeared,
        Err(_) => RunReport::InspectFailed,
    }
}

/// What is told of a job that failed: nothing yet where its lock was lost.
pub open spec fn failure_report_of(
    attempt: int,
    max_attempts: int,
    stored: Result<bool, StoreError>,
) -> RunReport {
    match stored {
        Ok(true) => if attempt >= max_attempts {
            RunReport::FailedPermanently
        } else {
            RunReport::WillRetry { backoff_micros: backoff_micros(attempt) as u64 }
        },
        Ok(false) => RunReport::Nothing,
        Err(_) => RunReport::FailFailed,
    }
}

/// What is told of an event in a run.
pub open spec fn run_report(run: JobRunView, event: RunEvent) -> RunReport {
    match (run.phase, event) {
        (RunPhase::Rejecting, RunEvent::Stored(Err(_))) => RunReport::RejectFailed,
        (RunPhase::Renewing, RunEvent::Renewed(Err(_))) => RunReport::RenewFailed,
        (RunPhase::Completing, RunEvent::Stored(Ok(true))) => RunReport::Succeeded,
        (RunPhase::Completing, RunEvent::Stored(Err(_))) => RunReport::CompleteFailed,
        (RunPhase::Failing, RunEvent::Stored(stored)) => failure_report_of(
            run.attempt,
            run.max_attempts,
            stored,
        ),
        (RunPhase::Inspecting(_), RunEvent::Inspected(inspected)) => loss_report_of(inspected),
        _ => RunReport::Nothing,
    }
}

/// What a handler that ended reports of the attempt: that it succeeded, or the message of its error,
/// or that of the panic by which it ended.
pub fn handler_result(ended: Result<Result<(), HandlerError>, String>) -> (result: Result<
    (),
    String,
>)
    ensures
        match ended {
            Ok(Ok(_)) => result == Ok::<(), String>(()),
            Ok(Err(error)) => result matches Err(message) && message@ == error@,
            Err(message) => result == Err::<(), String>(message),
        },
{
    match ended {
        Ok(Ok(())) => Ok(()),
        Ok(Err(error)) => Err(error.to_string()),
        Err(message) => Err(message),
    }
}

/// Says what is told of a job whose lock was lost.
pub fn loss_report(inspected: &Result<Option<Job>, StoreError>) -> (report: RunReport)
    ensures
        report == loss_report_of(*inspected),
{
    match inspected {
        Ok(Some(job)) => if job.status.is_terminal() {
            RunReport::FinishedElsewhere(job.status)
        } else {
            RunReport::LockLost(job.status)
        },
        Ok(None) => RunReport::Disappeared,
        Err(_) => RunReport::InspectFailed,
    }
}

/// Says what is told of a job that failed.
pub fn failure_report(attempt: i32, max_attempts: i32, stored: &Result<bool, StoreError>) -> (report:
    RunReport)
    ensures
        report == failure_report_of(attempt as int, max_attempts as int, *stored),
{
    match stored {
        Ok(true) => if attempt >= max_attempts {
            RunReport::FailedPermanently
        } else {
            RunReport::WillRetry { backoff_micros: backoff(attempt) }
        },
        Ok(false) => RunReport::Nothing,
        Err(_) => RunReport::FailFailed,
    }
}

/// What is said of a job for which no handler is registered.
pub open spec fn no_handler_text(name: Seq<char>) -> Seq<char> {
    "no handler registered for job "@ + name
}

/// Whether this is how the run of a claimed job starts, and what is to be done and told then.
pub open spec fn run_starts(
    job: Job,
    has_handler: bool,
    lock_renew_interval: Duration,
    start: (JobRun, RunAction, RunReport),
) -> bool {
    &&& start.0@ == (JobRunView {
        phase: if has_handler {
            RunPhase::Handling
        } else {
            RunPhase::Rejecting
        },
        attempt: job.attempt as int,
        max_attempts: job.max_attempts as int,
        serial: job@.queue_name is Some,
        renew_after: lock_renew_interval,
    })
    &&& if has_handler {
        &&& start.1 == RunAction::StartHandler(lock_renew_interval)
        &&& start.2 == RunReport::Started
    } else {
        &&& start.1 matches RunAction::Fail { attempt, max_attempts, error }
        &&& attempt == job.max_attempts
        &&& max_attempts == job.max_attempts
        &&& error@ == no_handler_text(job.name@)
        &&& start.2 == RunReport::Nothing
    }
}

impl JobRun {
    /// Starts the run of a claimed job, given whether a handler is registered for it and how often
    /// its lock is renewed. A job without a handler fails for good.
    pub fn start(job: &Job, has_handler: bool, lock_renew_interval: Duration) -> (start: (
        Self,
        RunAction,
        RunReport,
    ))
        ensures
            run_starts(*job, has_handler, lock_renew_interval, start),
    {
        let serial: bool = job.queue_name.is_some();
        if has_handler {
            (
                JobRun {
                    phase: RunPhase::Handling,
                    attempt: job.attempt,
                    max_attempts: job.max_attempts,
                    serial,
                    renew_after: lock_renew_interval,
                },
                RunAction::StartHandler(lock_renew_interval),
                RunReport::Started,
            )
        } else {
            (
                JobRun {
                    phase: RunPhase::Rejecting,
                    attempt: job.attempt,
                    max_attempts: job.max_attempts,
                    serial,
                    renew_after: lock_renew_interval,
                },
                RunAction::Fail {
                    attempt: job.max_attempts,
                    max_attempts: job.max_attempts,
                    error: "no handler registered for job ".to_owned().concat(job.name.as_str()),
                },
                RunReport::Nothing,
            )
        }
    }

    /// Takes in an event, and says what is to be done and what is told of it.
    pub fn handle(self, event: RunEvent) -> (next: (Self, RunAction, RunReport))
        ensures
            next.0@ == run_next(self@, event),
            next.1 == run_action(self@, event),
            next.2 == run_report(self@, event),
    {
        let notify: bool = self.serial;
        match (self.phase, event) {
            (RunPhase::Rejecting, RunEvent::Stored(stored)) => (
                JobRun { phase: RunPhase::Done, ..self },
                RunAction::End { notify: false },
                match stored {
                    Ok(_) => RunReport::Nothing,
                    Err(_) => RunReport::RejectFailed,
                },
            ),
            (RunPhase::Handling, RunEvent::HandlerFinished(outcome)) => match outcome {
                Ok(()) => (
                    JobRun { phase: RunPhase::Completing, ..self },
                    RunAction::Complete,
                    RunReport::Nothing,
                ),
                Err(error) => (
                    JobRun { phase: RunPhase::Failing, ..self },
                    RunAction::Fail {
                        attempt: self.attempt,
                        max_attempts: self.max_attempts,
                        error,
                    },
                    RunReport::Nothing,
                ),
            },
            (RunPhase::Handling, RunEvent::RenewalDue) => (
                JobRun { phase: RunPhase::Renewing, ..self },
                RunAction::Renew,
                RunReport::Nothing,
            ),
            (RunPhase::Renewing, RunEvent::Renewed(renewed)) => match renewed {
                Ok(true) => (
                    JobRun { phase: RunPhase::Handling, ..self },
                    RunAction::Await(self.renew_after),
                    RunReport::Nothing,
                ),
                Ok(false) => (
                    JobRun { phase: RunPhase::Inspecting(LossPhase::Renewal), ..self },
                    RunAction::AbortAndInspect,
                    RunReport::Nothing,
                ),
                Err(_) => (
                    JobRun { phase: RunPhase::Handling, ..self },
                    RunAction::Await(self.renew_after),
                    RunReport::RenewFailed,
                ),
            },
            (RunPhase::Completing, RunEvent::Stored(stored)) => match stored {
                Ok(true) => (
                    JobRun { phase: RunPhase::Done, ..self },
                    RunAction::End { notify },
                    RunReport::Succeeded,
                ),
                Ok(false) => (
                    JobRun { phase: RunPhase::Inspecting(LossPhase::Completion), ..self },
                    RunAction::Inspect,
                    RunReport::Nothing,
                ),
                Err(_) => (
                    JobRun { phase: RunPhase::Done, ..self },
                    RunAction::End { notify },
                    RunReport::CompleteFailed,
                ),
            },
            (RunPhase::Failing, RunEvent::Stored(stored)) => {
                let report = failure_report(self.attempt, self.max_attempts, &stored);
                match stored {
                    Ok(false) => (
                        JobRun { phase: RunPhase::Inspecting(LossPhase::FailureUpdate), ..self },
                        RunAction::Inspect,
                        report,
                    ),
                    _ => (
                        JobRun { phase: RunPhase::Done, ..self },
                        RunAction::End { notify },
                        report,
                    ),
                }
            },
            (RunPhase::Inspecting(phase), RunEvent::Inspected(inspected)) => (
                JobRun { phase: RunPhase::Done, ..self },
                RunAction::End { notify: notify && phase != LossPhase::Renewal },
                loss_report(&inspected),
            ),
            _ => (self, RunAction::Ignore, RunReport::Nothing),
        }
    }
}

/// A run stores the success of its job only after the handler succeeded, and its failure only after
/// the handler failed.
pub proof fn law_stored_end_is_the_handlers(run: JobRunView, event: RunEvent)
    ensures
        run_action(run, event) is Complete ==> event matches RunEvent::HandlerFinished(Ok(_)),
        run_action(run, event) matches RunAction::Fail { attempt, max_attempts, error } ==> event
            == RunEvent::HandlerFinished(Err(error)),
{
}

/// Once the lock on a job is lost, its run stores nothing more: the result of its handler is
/// discarded.
pub proof fn law_lost_lock_discards_result(run: JobRunView, event: RunEvent)
    requires
        run.phase is Inspecting || run.phase is Done,
    ensures
        !(run_action(run, event) is Complete),
        !(run_action(run, event) is Fail),
        !(run_action(run, event) is Renew),
        run_next(run, event).phase is Inspecting || run_next(run, event).phase is Done,
{
}

/// A lock that could not be renewed for a failure of the store is not taken for lost: the handler
/// goes on.
pub proof fn law_failed_renewal_keeps_running(run: JobRunView, error: StoreError)
    requires
        run.phase is Renewing,
    ensures
        run_next(run, RunEvent::Renewed(Err(error))).phase is Handling,
        run_action(run, RunEvent::Renewed(Err(error))) == RunAction::Await(run.renew_after),
{
}

} // verus!
