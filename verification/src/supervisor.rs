//! The life of a worker from its registration to its end, one event at a time.

use vstd::prelude::*;

use crate::config::WorkerError;
use crate::error::StoreError;
use crate::time::Duration;

verus! {

/// What a worker is waiting for.
#[derive(Clone, Copy, Debug, PartialEq, Eq, Structural)]
pub enum Phase {
    /// That it is registered.
    Registering,
    /// That a shutdown is requested, or one of its loops ends.
    Running,
    /// That its loops are told of the shutdown.
    Announcing,
    /// That its loops end by themselves, for as long as the grace period lasts.
    Draining,
    /// That its loops are aborted.
    Aborting,
    /// That the jobs it has locked are released.
    Releasing,
    /// That it is deregistered.
    Deregistering,
    /// Nothing more.
    Stopped,
}

/// What has happened to a worker.
pub enum WorkerEvent {
    /// Its registration was stored, or not.
    Registered(Result<(), StoreError>),
    /// A shutdown was requested.
    ShutdownRequested,
    /// One of its loops ended, by itself or by the panic that the message tells of; or there is no
    /// loop left.
    LoopEnded(Option<Result<(), String>>),
    /// Its loops were told of the shutdown, or no loop could be told.
    Announced(bool),
    /// All its loops have ended by themselves.
    Drained,
    /// The grace period has passed.
    GraceElapsed,
    /// All its loops were aborted.
    Aborted,
    /// A number of jobs were released, or not.
    Released(Result<u64, StoreError>),
    /// It was deregistered, or not.
    Deregistered(Result<(), StoreError>),
}

/// What is to be done for a worker next.
pub enum WorkerAction {
    /// Start its loops, and wait for a shutdown request or the end of a loop.
    Run,
    /// Tell its loops of the shutdown.
    AnnounceShutdown,
    /// Wait until its loops have ended, but no longer than this.
    DrainLoops(Duration),
    /// Abort its loops and wait until they have ended.
    AbortLoops,
    /// Release the jobs that it has locked.
    ReleaseJobs,
    /// Deregister it.
    Deregister,
    /// Return the result of its run.
    Stop(Result<(), WorkerError>),
    /// Nothing: the event was not waited for.
    Ignore,
}

/// A worker between two events: what it is waiting for, how long its loops may go on after a
/// shutdown was requested, why it stopped running, and what failed first as it was taken down.
pub struct Supervisor {
    phase: Phase,
    grace: Duration,
    failure: Option<WorkerError>,
    cleanup: Option<StoreError>,
}

/// What a [`Supervisor`] holds.
#[verifier::ext_equal]
pub struct SupervisorView {
    pub phase: Phase,
    pub grace: Duration,
    pub failure: Option<WorkerError>,
    pub cleanup: Option<StoreError>,
}

impl View for Supervisor {
    type V = SupervisorView;

    closed spec fn view(&self) -> SupervisorView {
        SupervisorView {
            phase: self.phase,
            grace: self.grace,
            failure: self.failure,
            cleanup: self.cleanup,
        }
    }
}

/// Why a worker whose loop ended stops running.
pub open spec fn loop_failure(outcome: Option<Result<(), String>>) -> WorkerError {
    match outcome {
        Some(Err(message)) => WorkerError::LoopFailed(message),
        _ => WorkerError::LoopExited,
    }
}

/// The result of a run: why it stopped running, else what failed first as it was taken down.
pub open spec fn run_result(failure: Option<WorkerError>, cleanup: Option<StoreError>) -> Result<
    (),
    WorkerError,
> {
    match failure {
        Some(error) => Err(error),
        None => match cleanup {
            Some(error) => Err(WorkerError::Database(error)),
            None => Ok(()),
        },
    }
}

/// Of two things that failed as a worker was taken down, the first is kept.
pub open spec fn first_failure<T>(cleanup: Option<StoreError>, outcome: Result<T, StoreError>) -> Option<
    StoreError,
> {
    if cleanup is Some {
        cleanup
    } else {
        match outcome {
            Ok(_) => None,
            Err(error) => Some(error),
        }
    }
}

/// What an event makes of a worker, and what is to be done then.
pub open spec fn supervise(worker: SupervisorView, event: WorkerEvent) -> (
    SupervisorView,
    WorkerAction,
) {
    match (worker.phase, event) {
        (Phase::Registering, WorkerEvent::Registered(Ok(_))) => (
            SupervisorView { phase: Phase::Running, ..worker },
            WorkerAction::Run,
        ),
        (Phase::Registering, WorkerEvent::Registered(Err(error))) => (
            SupervisorView { phase: Phase::Stopped, ..worker },
            WorkerAction::Stop(Err(WorkerError::Database(error))),
        ),
        (Phase::Running, WorkerEvent::ShutdownRequested) => (
            SupervisorView { phase: Phase::Announcing, ..worker },
            WorkerAction::AnnounceShutdown,
        ),
        (Phase::Running, WorkerEvent::LoopEnded(outcome)) => (
            SupervisorView {
                phase: Phase::Aborting,
                failure: Some(loop_failure(outcome)),
                ..worker
            },
            WorkerAction::AbortLoops,
        ),
        (Phase::Announcing, WorkerEvent::Announced(true)) => (
            SupervisorView { phase: Phase::Draining, ..worker },
            WorkerAction::DrainLoops(worker.grace),
        ),
        (Phase::Announcing, WorkerEvent::Announced(false)) => (
            SupervisorView { phase: Phase::Aborting, ..worker },
            WorkerAction::AbortLoops,
        ),
        (Phase::Draining, WorkerEvent::Drained) => (
            SupervisorView { phase: Phase::Releasing, ..worker },
            WorkerAction::ReleaseJobs,
        ),
        (Phase::Draining, WorkerEvent::GraceElapsed) => (
            SupervisorView { phase: Phase::Aborting, ..worker },
            WorkerAction::AbortLoops,
        ),
        (Phase::Aborting, WorkerEvent::Aborted) => (
            SupervisorView { phase: Phase::Releasing, ..worker },
            WorkerAction::ReleaseJobs,
        ),
        (Phase::Releasing, WorkerEvent::Released(outcome)) => (
            SupervisorView {
                phase: Phase::Deregistering,
                cleanup: first_failure(worker.cleanup, outcome),
                ..worker
            },
            WorkerAction::Deregister,
        ),
        (Phase::Deregistering, WorkerEvent::Deregistered(outcome)) => {
            let cleanup = first_failure(worker.cleanup, outcome);
            (
                SupervisorView { phase: Phase::Stopped, failure: None, cleanup: None, ..worker },
                WorkerAction::Stop(run_result(worker.failure, cleanup)),
            )
        },
        _ => (worker, WorkerAction::Ignore),
    }
}

impl Supervisor {
    /// A worker whose registration is under way.
    pub fn new(shutdown_grace_period: Duration) -> (worker: Self)
        ensures
            worker@ == starting(shutdown_grace_period),
    {
        Supervisor {
            phase: Phase::Registering,
            grace: shutdown_grace_period,
            failure: None,
            cleanup: None,
        }
    }

    /// What the worker is waiting for.
    pub fn phase(&self) -> (phase: Phase)
        ensures
            phase == self@.phase,
    {
        self.phase
    }

    /// Takes in an event, and says what is to be done then.
    pub fn handle(self, event: WorkerEvent) -> (next: (Self, WorkerAction))
        ensures
            (next.0@, next.1) == supervise(self@, event),
    {
        let Supervisor { phase, grace, failure, cleanup } = self;
        match (phase, event) {
            (Phase::Registering, WorkerEvent::Registered(outcome)) => match outcome {
                Ok(()) => (
                    Supervisor { phase: Phase::Running, grace, failure, cleanup },
                    WorkerAction::Run,
                ),
                Err(error) => (
                    Supervisor { phase: Phase::Stopped, grace, failure, cleanup },
                    WorkerAction::Stop(Err(WorkerError::Database(error))),
                ),
            },
            (Phase::Running, WorkerEvent::ShutdownRequested) => (
                Supervisor { phase: Phase::Announcing, grace, failure, cleanup },
                WorkerAction::AnnounceShutdown,
            ),
            (Phase::Running, WorkerEvent::LoopEnded(outcome)) => {
                let error = match outcome {
                    Some(Err(message)) => WorkerError::LoopFailed(message),
                    _ => WorkerError::LoopExited,
                };
                (
                    Supervisor { phase: Phase::Aborting, grace, failure: Some(error), cleanup },
                    WorkerAction::AbortLoops,
                )
            },
            (Phase::Announcing, WorkerEvent::Announced(told)) => if told {
                (
                    Supervisor { phase: Phase::Draining, grace, failure, cleanup },
                    WorkerAction::DrainLoops(grace),
                )
            } else {
                (
                    Supervisor { phase: Phase::Aborting, grace, failure, cleanup },
                    WorkerAction::AbortLoops,
                )
            },
            (Phase::Draining, WorkerEvent::Drained) => (
                Supervisor { phase: Phase::Releasing, grace, failure, cleanup },
                WorkerAction::ReleaseJobs,
            ),
            (Phase::Draining, WorkerEvent::GraceElapsed) => (
                Supervisor { phase: Phase::Aborting, grace, failure, cleanup },
                WorkerAction::AbortLoops,
            ),
            (Phase::Aborting, WorkerEvent::Aborted) => (
                Supervisor { phase: Phase::Releasing, grace, failure, cleanup },
                WorkerAction::ReleaseJobs,
            ),
            (Phase::Releasing, WorkerEvent::Released(outcome)) => {
                let cleanup = match cleanup {
                    Some(error) => Some(error),
                    None => match outcome {
                        Ok(_) => None,
                        Err(error) => Some(error),
                    },
                };
                (
                    Supervisor { phase: Phase::Deregistering, grace, failure, cleanup },
                    WorkerAction::Deregister,
                )
            },
            (Phase::Deregistering, WorkerEvent::Deregistered(outcome)) => {
                let cleanup = match cleanup {
                    Some(error) => Some(error),
                    None => match outcome {
                        Ok(()) => None,
                        Err(error) => Some(error),
                    },
                };
                let result = match failure {
                    Some(error) => Err(error),
                    None => match cleanup {
                        Some(error) => Err(WorkerError::Database(error)),
                        None => Ok(()),
                    },
                };
                (
                    Supervisor { phase: Phase::Stopped, grace, failure: None, cleanup: None },
                    WorkerAction::Stop(result),
                )
            },
            _ => (Supervisor { phase, grace, failure, cleanup }, WorkerAction::Ignore),
        }
    }
}

/// A worker after a number of events.
pub open spec fn supervised(worker: SupervisorView, events: Seq<WorkerEvent>) -> SupervisorView
    decreases events.len(),
{
    if events.len() == 0 {
        worker
    } else {
        supervise(supervised(worker, events.drop_last()), events.last()).0
    }
}

/// What is done for a worker after the last of a number of events.
pub open spec fn last_action(worker: SupervisorView, events: Seq<WorkerEvent>) -> WorkerAction {
    supervise(supervised(worker, events.drop_last()), events.last()).1
}

/// Whether an action was asked for after one of a number of events.
pub open spec fn was_done(
    worker: SupervisorView,
    events: Seq<WorkerEvent>,
    action: WorkerAction,
) -> bool {
    exists|count: int|
        0 < count <= events.len() && #[trigger] last_action(worker, events.take(count)) == action
}

/// A worker that is being started.
pub open spec fn starting(grace: Duration) -> SupervisorView {
    SupervisorView { phase: Phase::Registering, grace, failure: None, cleanup: None }
}

/// What was done after some events was done after more of them.
proof fn lemma_was_done_stays(worker: SupervisorView, events: Seq<WorkerEvent>, action: WorkerAction)
    requires
        events.len() > 0,
        was_done(worker, events.drop_last(), action),
    ensures
        was_done(worker, events, action),
{
    let before = events.drop_last();
    let count = choose|count: int|
        0 < count <= before.len() && #[trigger] last_action(worker, before.take(count)) == action;
    assert(before.take(count) =~= events.take(count));
    assert(last_action(worker, events.take(count)) == action);
}

/// What a phase tells of what was done before.
spec fn phase_history(worker: SupervisorView, events: Seq<WorkerEvent>) -> bool {
    let phase = supervised(worker, events).phase;
    &&& phase != Phase::Registering && phase != Phase::Stopped ==> was_done(
        worker,
        events,
        WorkerAction::Run,
    )
    &&& phase == Phase::Stopped && was_done(worker, events, WorkerAction::Run) ==> was_done(
        worker,
        events,
        WorkerAction::ReleaseJobs,
    ) && was_done(worker, events, WorkerAction::Deregister)
    &&& phase == Phase::Releasing || phase == Phase::Deregistering ==> was_done(
        worker,
        events,
        WorkerAction::ReleaseJobs,
    )
    &&& phase == Phase::Deregistering ==> was_done(worker, events, WorkerAction::Deregister)
    &&& phase == Phase::Registering ==> !was_done(worker, events, WorkerAction::Run)
}

proof fn lemma_phase_history(grace: Duration, events: Seq<WorkerEvent>)
    ensures
        phase_history(starting(grace), events),
    decreases events.len(),
{
    let start = starting(grace);
    if events.len() == 0 {
        assert(!was_done(start, events, WorkerAction::Run));
    } else {
        let before = events.drop_last();
        lemma_phase_history(grace, before);
        let action = last_action(start, events);
        assert(events.take(events.len() as int) =~= events);
        assert(was_done(start, events, action));
        if was_done(start, before, WorkerAction::Run) {
            lemma_was_done_stays(start, events, WorkerAction::Run);
        }
        if was_done(start, before, WorkerAction::ReleaseJobs) {
            lemma_was_done_stays(start, events, WorkerAction::ReleaseJobs);
        }
        if was_done(start, before, WorkerAction::Deregister) {
            lemma_was_done_stays(start, events, WorkerAction::Deregister);
        }
        if was_done(start, events, WorkerAction::Run) && !was_done(start, before, WorkerAction::Run) {
            let count = choose|count: int|
                0 < count <= events.len() && #[trigger] last_action(start, events.take(count))
                    == WorkerAction::Run;
            if count < events.len() {
                assert(before.take(count) =~= events.take(count));
                assert(last_action(start, before.take(count)) == WorkerAction::Run);
            }
            assert(action == WorkerAction::Run);
        }
    }
}

/// A worker that was started releases its jobs and is deregistered before it stops, whatever
/// happens to it.
pub proof fn law_started_worker_cleans_up(grace: Duration, events: Seq<WorkerEvent>)
    requires
        supervised(starting(grace), events).phase == Phase::Stopped,
        was_done(starting(grace), events, WorkerAction::Run),
    ensures
        was_done(starting(grace), events, WorkerAction::ReleaseJobs),
        was_done(starting(grace), events, WorkerAction::Deregister),
{
    lemma_phase_history(grace, events);
}

/// A worker's jobs are released only once its loops have ended, so that no loop of it still runs one
/// of them.
pub proof fn law_jobs_released_after_loops_end(worker: SupervisorView, event: WorkerEvent)
    requires
        supervise(worker, event).1 == WorkerAction::ReleaseJobs,
    ensures
        event == WorkerEvent::Drained || event == WorkerEvent::Aborted,
{
}

/// What ended the run of a worker is what its run returns, though releasing its jobs or
/// deregistering it fails too. Of these, the first to fail is returned where the run was ended by a
/// shutdown request.
pub proof fn law_run_failure_comes_first(
    grace: Duration,
    outcome: Option<Result<(), String>>,
    released: Result<u64, StoreError>,
    deregistered: Result<(), StoreError>,
)
    ensures
        ({
            let running = SupervisorView { phase: Phase::Running, ..starting(grace) };
            &&& last_action(
                running,
                seq![
                    WorkerEvent::LoopEnded(outcome),
                    WorkerEvent::Aborted,
                    WorkerEvent::Released(released),
                    WorkerEvent::Deregistered(deregistered),
                ],
            ) == WorkerAction::Stop(Err(loop_failure(outcome)))
            &&& last_action(
                running,
                seq![
                    WorkerEvent::ShutdownRequested,
                    WorkerEvent::Announced(true),
                    WorkerEvent::Drained,
                    WorkerEvent::Released(released),
                    WorkerEvent::Deregistered(deregistered),
                ],
            ) == WorkerAction::Stop(
                match released {
                    Err(error) => Err(WorkerError::Database(error)),
                    Ok(_) => match deregistered {
                        Err(error) => Err(WorkerError::Database(error)),
                        Ok(_) => Ok(()),
                    },
                },
            )
        }),
{
    let running = SupervisorView { phase: Phase::Running, ..starting(grace) };
    reveal_with_fuel(supervised, 6);
    let failing = seq![
        WorkerEvent::LoopEnded(outcome),
        WorkerEvent::Aborted,
        WorkerEvent::Released(released),
        WorkerEvent::Deregistered(deregistered),
    ];
    let aborting = SupervisorView {
        phase: Phase::Aborting,
        failure: Some(loop_failure(outcome)),
        ..starting(grace)
    };
    assert(failing.drop_last().drop_last().drop_last().drop_last().len() == 0);
    assert(supervised(running, failing.drop_last().drop_last().drop_last()) == aborting);
    let ending = seq![
        WorkerEvent::ShutdownRequested,
        WorkerEvent::Announced(true),
        WorkerEvent::Drained,
        WorkerEvent::Released(released),
        WorkerEvent::Deregistered(deregistered),
    ];
    assert(ending.drop_last().drop_last().drop_last().drop_last().drop_last().len() == 0);
    assert(supervised(running, ending.drop_last().drop_last().drop_last()).phase
        == Phase::Draining);
}

} // verus!
