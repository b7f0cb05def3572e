//! What a call of the functions that a worker is run by gives.

use vstd::prelude::*;

use crate::change::backoff;
use crate::change_laws::law_backoff_is_exponential;
use crate::claimed::{
    handler_result, JobRun, LossPhase, RunAction, RunEvent, RunPhase, RunReport,
};
use crate::config::{WorkerConfig, WorkerError};
use crate::cron::CronJob;
use crate::error::StoreError;
use crate::job::{Job, JobStatus};
use crate::loops::{
    after_claim_event, after_cron_event, after_heartbeat_event, after_recovery_step, cron_report,
    first_recovery_step, is_shutting_down, loop_ends, shutdown_wait_over, ClaimAction, ClaimEvent,
    CronAction, CronEvent, CronReport, HeartbeatAction, HeartbeatEvent, Listener, ListenerAction,
    ListenerEvent, ListenerPhase, RecoveryDecision, RecoveryEvent, RecoveryStep, ShutdownSignal,
    Wake,
};
use crate::registry::{HandlerError, Registry, RegistryBuilder};
use crate::reply::settle_claim;
use crate::rows::CronEnqueueResult;
use crate::supervisor::{Phase, Supervisor, WorkerAction, WorkerEvent};
use crate::text::decimal;
use crate::time::Duration;
use crate::worker::{lock_owner, Worker, WorkerLoop};
use crate::worker_laws::{
    law_end_of_a_handler, law_end_of_a_run, law_end_of_a_worker, law_listener_acts,
    law_listener_waits, law_loops_of_a_worker, law_renewals_of_a_run,
    law_reports_of_a_run, law_settled_claim, law_shutdown_of_a_worker, law_start_of_a_run,
    law_start_of_a_worker,
    law_unexpected_event_changes_nothing, law_what_stays_in_a_run, longest_wait,
};

verus! {

/// A handler is found under the name that it was registered with last, and the others as before.
pub proof fn law_registering_handlers<H>(
    builder: RegistryBuilder<H>,
    name: &str,
    handler: H,
    after: RegistryBuilder<H>,
    registry: Registry<H>,
    other: &str,
    found: Option<&H>,
)
    requires
        call_ensures(RegistryBuilder::<H>::register, (builder, name, handler), after),
        call_ensures(RegistryBuilder::<H>::build, (after,), registry),
        call_ensures(Registry::<H>::get, (&registry, other), found),
    ensures
        other@ == name@ ==> found is Some && *found->0 == handler,
        other@ != name@ ==> (found is Some <==> builder@.dom().contains(other@)),
        other@ != name@ && found is Some ==> *found->0 == builder@[other@],
{
}

/// A registry that is begun has no handler under any name.
pub proof fn law_begun_registry<H>(
    empty: RegistryBuilder<H>,
    registry: Registry<H>,
    name: &str,
    found: Option<&H>,
)
    requires
        call_ensures(Registry::<H>::builder, (), empty),
        call_ensures(RegistryBuilder::<H>::build, (empty,), registry),
        call_ensures(Registry::<H>::get, (&registry, name), found),
    ensures
        found is None,
{
}

/// What a handler comes to is that it succeeded, or the message of its error or its panic.
pub proof fn law_what_a_handler_comes_to(
    error: HandlerError,
    message: String,
    value: u64,
    result: Result<(), String>,
    lifted: Result<u64, HandlerError>,
)
    ensures
        call_ensures(handler_result, (Ok::<Result<(), HandlerError>, String>(Ok(())),), result)
            ==> result == Ok::<(), String>(()),
        call_ensures(handler_result, (Ok::<Result<(), HandlerError>, String>(Err(error)),), result)
            ==> result is Err && result->Err_0@ == error@,
        call_ensures(handler_result, (Err::<Result<(), HandlerError>, String>(message),), result)
            ==> result == Err::<(), String>(message),
        call_ensures(HandlerError::lift::<u64>, (Err::<u64, String>(message),), lifted) ==> lifted
            is Err && lifted->Err_0@ == message@,
        call_ensures(HandlerError::lift::<u64>, (Ok::<u64, String>(value),), lifted) ==> lifted
            == Ok::<u64, HandlerError>(value),
{
}

/// A worker has the handlers, the schedules and the configuration that it was given last.
pub proof fn law_what_a_worker_has<H>(
    worker: Worker<H>,
    registry: Registry<H>,
    crons: Vec<CronJob>,
    config: WorkerConfig,
    after: Worker<H>,
)
    ensures
        call_ensures(Worker::<H>::new, (registry,), after) ==> after.handlers() == registry@
            && after.schedules().len() == 0 && after.settings().concurrency == 4,
        call_ensures(Worker::<H>::with_config, (worker, config), after) ==> after.settings() == config
            && after.handlers() == worker.handlers() && after.schedules() == worker.schedules(),
        call_ensures(Worker::<H>::with_crons, (worker, crons), after) ==> after.schedules() == crons@
            && after.handlers() == worker.handlers() && after.settings() == worker.settings(),
{
}

/// A worker runs each of its loops once, the one for schedules just where it has some, and as many
/// claim loops as jobs may run at a time.
pub proof fn law_loops_call<H>(worker: Worker<H>, loops: Vec<WorkerLoop>, index: usize)
    requires
        call_ensures(Worker::<H>::loops, (&worker,), loops),
        worker.settings().concurrency >= 1,
    ensures
        loops@.no_duplicates(),
        loops@.contains(WorkerLoop::Heartbeat),
        loops@.contains(WorkerLoop::Recovery),
        loops@.contains(WorkerLoop::Listener),
        loops@.contains(WorkerLoop::Cron) <==> worker.schedules().len() > 0,
        loops@.contains(WorkerLoop::Claim(index)) <==> index < worker.settings().concurrency,
{
    law_loops_of_a_worker(
        worker.schedules().len() > 0,
        worker.settings().concurrency as int,
        index,
    );
}

/// The owner of a lock is written as the worker, the number of the claim loop and the id, with colons
/// between.
pub proof fn law_lock_owner_call(worker_id: &str, index: usize, id: u128, owner: String)
    requires
        call_ensures(lock_owner, (worker_id, index, id), owner),
    ensures
        owner@ == worker_id@ + seq![':'] + decimal(index as nat) + seq![':'] + crate::source::id_text(
            id,
        ),
{
    reveal_strlit(":");
    assert(":"@ =~= seq![':']);
}

/// The back-off grows by the factor e from one attempt to the next, from a second after none to that
/// of ten attempts, which is the longest.
pub proof fn law_backoff_call(attempt: i32, next: i32, micros: u64, more: u64)
    requires
        call_ensures(backoff, (attempt,), micros),
        call_ensures(backoff, (next,), more),
        next == attempt + 1,
    ensures
        attempt == 0 ==> micros == 1_000_000,
        attempt >= 10 ==> micros == 22_026_465_795 && more == micros,
        -14 <= attempt < 10 ==> -1_870_000_000_000 <= 1_000_000_000_000 * more - 2_718_281_828_459
            * micros <= 1_870_000_000_000,
        attempt < -14 ==> micros == 0,
{
    law_backoff_is_exponential(attempt as int);
}

/// A worker is shutting down where its loops were told so, and not outside of a worker; the wait for
/// that is over then, or where nothing can be told any more.
pub proof fn law_shutdown_calls(
    current: Option<bool>,
    signal: ShutdownSignal,
    wake: Wake,
    answer: bool,
)
    ensures
        call_ensures(is_shutting_down, (current,), answer) ==> {
            &&& current is None ==> !answer
            &&& current matches Some(told) ==> answer == told
        },
        call_ensures(shutdown_wait_over, (signal,), answer) ==> {
            &&& signal == ShutdownSignal::NoWorker ==> !answer
            &&& signal == ShutdownSignal::Closed ==> answer
            &&& signal matches ShutdownSignal::Told(told) ==> answer == told
        },
        call_ensures(loop_ends, (wake,), answer) ==> {
            &&& wake == Wake::Closed ==> answer
            &&& wake == Wake::Elapsed || wake == Wake::Notified ==> !answer
            &&& wake matches Wake::Told(told) ==> answer == told
        },
{
}

/// The heartbeat loop waits before each report, and reports after each wait that does not end it.
pub proof fn law_heartbeat_call(
    event: HeartbeatEvent,
    config: WorkerConfig,
    action: HeartbeatAction,
    wake: Wake,
)
    requires
        call_ensures(after_heartbeat_event, (event, &config), action),
    ensures
        event == HeartbeatEvent::Begun || event == HeartbeatEvent::Reported ==> action
            == HeartbeatAction::Wait(config.heartbeat_interval),
        event == HeartbeatEvent::Woken(wake) && (wake == Wake::Closed || wake == Wake::Told(true))
            ==> action == HeartbeatAction::End,
        event == HeartbeatEvent::Woken(wake) && (wake == Wake::Elapsed || wake == Wake::Notified
            || wake == Wake::Told(false)) ==> action == HeartbeatAction::Report,
{
}

/// A claim loop claims where it is not told to stop, runs what it claims, waits where there is none or
/// the store refuses, and looks again after that.
pub proof fn law_claim_loop_call(
    event: ClaimEvent,
    config: WorkerConfig,
    action: ClaimAction,
    wake: Wake,
    job: Job,
    error: StoreError,
)
    requires
        call_ensures(after_claim_event, (event, &config), action),
    ensures
        event == ClaimEvent::Checked(true) ==> action == ClaimAction::End,
        event == ClaimEvent::Checked(false) ==> action == ClaimAction::Claim,
        event == ClaimEvent::Claimed(Ok(Some(job))) ==> action == ClaimAction::Run(job),
        event == ClaimEvent::Claimed(Ok(None)) ==> action == ClaimAction::WaitForWork(
            config.poll_interval,
        ),
        event == ClaimEvent::Claimed(Err(error)) ==> action == ClaimAction::WaitAfterError(
            error,
            config.poll_interval,
        ),
        event == ClaimEvent::JobDone ==> action == ClaimAction::Check,
        event == ClaimEvent::Woken(wake) && (wake == Wake::Closed || wake == Wake::Told(true))
            ==> action == ClaimAction::End,
        event == ClaimEvent::Woken(wake) && (wake == Wake::Elapsed || wake == Wake::Notified || wake
            == Wake::Told(false)) ==> action == ClaimAction::Check,
{
}

/// The cron loop enqueues where it is not told to stop, and waits after that.
pub proof fn law_cron_loop_call(
    event: CronEvent,
    config: WorkerConfig,
    action: CronAction,
    wake: Wake,
)
    requires
        call_ensures(after_cron_event, (event, &config), action),
    ensures
        event == CronEvent::Checked(true) ==> action == CronAction::End,
        event == CronEvent::Checked(false) ==> action == CronAction::Enqueue,
        event == CronEvent::Enqueued ==> action == CronAction::Wait(config.cron_poll_interval),
        event == CronEvent::Woken(wake) && (wake == Wake::Closed || wake == Wake::Told(true))
            ==> action == CronAction::End,
        event == CronEvent::Woken(wake) && (wake == Wake::Elapsed || wake == Wake::Notified || wake
            == Wake::Told(false)) ==> action == CronAction::Check,
{
}

/// The recovery loop goes from a wait to dead workers, to stale locks, to pruning where a time is set
/// for that, and back to a wait, whatever comes of a step; it wakes the claim loops where jobs were
/// put back.
pub proof fn law_recovery_call(
    step: RecoveryStep,
    event: RecoveryEvent,
    config: WorkerConfig,
    decision: RecoveryDecision,
    first: RecoveryStep,
    done: Result<u64, StoreError>,
    wake: Wake,
)
    requires
        call_ensures(first_recovery_step, (&config,), first),
        call_ensures(after_recovery_step, (step, &event, &config), decision),
    ensures
        first == RecoveryStep::Wait(config.recovery_interval),
        step is Wait && event == RecoveryEvent::Woken(wake) && (wake == Wake::Closed || wake
            == Wake::Told(true)) ==> decision.next == RecoveryStep::End,
        step is Wait && event == RecoveryEvent::Woken(wake) && (wake == Wake::Elapsed || wake
            == Wake::Notified || wake == Wake::Told(false)) ==> decision.next
            == RecoveryStep::DeadWorkers(config.stale_after),
        step is DeadWorkers ==> decision.next == RecoveryStep::StaleLocks(config.stale_after),
        step is StaleLocks ==> decision.next == match config.finished_job_retention {
            Some(time) => RecoveryStep::Prune(time),
            None => RecoveryStep::Wait(config.recovery_interval),
        },
        step is Prune ==> decision.next == RecoveryStep::Wait(config.recovery_interval),
        event == RecoveryEvent::Done(done) ==> (decision.notify <==> done is Ok && done->Ok_0 > 0 && (
        step is DeadWorkers || step is StaleLocks)),
        event == RecoveryEvent::Done(done) ==> (decision.failed <==> done is Err && (step
            is DeadWorkers || step is StaleLocks || step is Prune)),
        event == RecoveryEvent::Done(done) && (step is DeadWorkers || step is StaleLocks || step
            is Prune) ==> decision.told == match done {
            Ok(count) => if count > 0 {
                Some(count)
            } else {
                None
            },
            Err(_) => None,
        },
{
}

/// A listener waits as long as the time between two polls after its first failure, and twice as long
/// after each further one, at most half a minute.
pub proof fn law_listener_call(
    poll_interval: Duration,
    listener: Listener,
    failed: (Listener, ListenerAction),
    again: (Listener, ListenerAction),
)
    requires
        call_ensures(Listener::new, (poll_interval,), listener),
        call_ensures(Listener::handle, (listener, ListenerEvent::Connected(false)), failed),
        call_ensures(Listener::handle, (failed.0, ListenerEvent::Woken(Wake::Elapsed)), again),
    ensures
        failed.1 is Wait,
        failed.1->Wait_0@ == if poll_interval@ <= longest_wait() {
            poll_interval@
        } else {
            longest_wait()
        },
        again.1 == ListenerAction::Check,
        again.0@.phase == ListenerPhase::Connecting,
        again.0@.delay == if 2 * failed.1->Wait_0@ <= longest_wait() {
            2 * failed.1->Wait_0@
        } else {
            longest_wait()
        },
{
    law_listener_waits(listener@, poll_interval@);
    law_listener_acts(listener@, ListenerEvent::Connected(false), failed.1, Wake::Elapsed);
    law_listener_acts(
        failed.0@,
        ListenerEvent::Woken(Wake::Elapsed),
        again.1,
        Wake::Elapsed,
    );
}

/// A listener that listens wakes the claim loops for each notification, and waits where the connection
/// is lost.
pub proof fn law_listening_call(
    listener: Listener,
    event: ListenerEvent,
    next: (Listener, ListenerAction),
)
    requires
        call_ensures(Listener::handle, (listener, event), next),
    ensures
        listener@.phase == ListenerPhase::Connecting && event == ListenerEvent::Connected(true) ==> {
            &&& next.1 == ListenerAction::NotifyAndReceive
            &&& next.0@.phase == ListenerPhase::Listening
        },
        listener@.phase == ListenerPhase::Connecting && event == ListenerEvent::Checked(true)
            ==> next.1 == ListenerAction::End,
        listener@.phase == ListenerPhase::Connecting && event == ListenerEvent::Checked(false)
            ==> next.1 == ListenerAction::Connect,
        listener@.phase == ListenerPhase::Listening && event == ListenerEvent::Received(true)
            ==> next.1 == ListenerAction::NotifyAndReceive && next.0@.phase
            == ListenerPhase::Listening,
        listener@.phase == ListenerPhase::Listening && event == ListenerEvent::Received(false)
            ==> next.1 is Wait && next.0@.phase == ListenerPhase::Waiting,
        (listener@.phase == ListenerPhase::Listening || listener@.phase == ListenerPhase::Waiting) && (
        event == ListenerEvent::Woken(Wake::Closed) || event == ListenerEvent::Woken(
            Wake::Told(true),
        )) ==> next.1 == ListenerAction::End,
{
    law_listener_acts(listener@, event, next.1, Wake::Closed);
    law_listener_acts(listener@, event, next.1, Wake::Told(true));
}

/// A reply of the store to a claim stands, but for the refusal of a place in a named queue that was
/// taken at the same moment: then there is no job.
pub proof fn law_settle_claim_call(
    reply: Result<Option<Job>, StoreError>,
    settled: Result<Option<Job>, StoreError>,
    job: Job,
)
    requires
        call_ensures(settle_claim, (reply,), settled),
    ensures
        reply is Ok ==> settled == reply,
        reply matches Err(error) ==> {
            let taken = {
                &&& error is Database
                &&& error->Database_0.code is Some
                &&& error->Database_0.code->0@ == "23505"@
                &&& error->Database_0.constraint is Some
                &&& error->Database_0.constraint->0@ == "jobs_queue_running_idx"@
            };
            &&& taken ==> settled == Ok::<Option<Job>, StoreError>(None)
            &&& !taken ==> settled == reply
        },
{
    law_settled_claim(reply, job);
}

/// What is told of an occurrence is what became of it.
pub proof fn law_cron_report_call(
    outcome: Result<CronEnqueueResult, StoreError>,
    report: CronReport,
)
    requires
        call_ensures(cron_report, (&outcome,), report),
    ensures
        outcome matches Ok(CronEnqueueResult::Enqueued(id)) ==> report == CronReport::Enqueued(id),
        outcome matches Ok(CronEnqueueResult::AlreadyQueued(id)) ==> report
            == CronReport::AlreadyQueued(id),
        outcome matches Ok(CronEnqueueResult::Skipped) ==> report == CronReport::Nothing,
        outcome is Err ==> report == CronReport::Failed,
{
}

/// The run of a claimed job starts its handler, or fails the job for good where it has none.
pub proof fn law_start_run_call<H>(
    worker: Worker<H>,
    job: Job,
    start: (JobRun, RunAction, RunReport),
)
    requires
        call_ensures(Worker::<H>::start_run, (&worker, &job), start),
    ensures
        start.0@.attempt == job.attempt,
        start.0@.max_attempts == job.max_attempts,
        start.0@.serial <==> job.queue_name is Some,
        start.0@.renew_after == worker.settings().lock_renew_interval,
        worker.handlers().dom().contains(job.name@) ==> {
            &&& start.0@.phase == RunPhase::Handling
            &&& start.1 == RunAction::StartHandler(worker.settings().lock_renew_interval)
            &&& start.2 == RunReport::Started
        },
        !worker.handlers().dom().contains(job.name@) ==> {
            &&& start.0@.phase == RunPhase::Rejecting
            &&& start.1 is Fail
            &&& start.1->attempt == job.max_attempts
            &&& start.1->max_attempts == job.max_attempts
            &&& start.1->error@ == "no handler registered for job "@ + job.name@
        },
{
    let has_handler = worker.handlers().contains_key(job.name@);
    law_start_of_a_run(job, has_handler, worker.settings().lock_renew_interval, start);
}

/// A run renews its lock while the handler works, stores what the handler came to, and ends once that
/// is stored; where the lock is lost, it looks at the job before it ends.
pub proof fn law_handle_run_call(
    run: JobRun,
    event: RunEvent,
    next: (JobRun, RunAction, RunReport),
    message: String,
    stored: Result<bool, StoreError>,
    inspected: Result<Option<Job>, StoreError>,
    loss: LossPhase,
)
    requires
        i32::MIN <= run@.attempt <= i32::MAX,
        i32::MIN <= run@.max_attempts <= i32::MAX,
        call_ensures(JobRun::handle, (run, event), next),
    ensures
        next.0@.attempt == run@.attempt,
        next.0@.max_attempts == run@.max_attempts,
        next.0@.serial == run@.serial,
        next.0@.renew_after == run@.renew_after,
        run@.phase == RunPhase::Handling && event == RunEvent::RenewalDue ==> next.1
            == RunAction::Renew && next.0@.phase == RunPhase::Renewing,
        run@.phase == RunPhase::Renewing && event == RunEvent::Renewed(Ok(true)) ==> next.1
            == RunAction::Await(run@.renew_after) && next.0@.phase == RunPhase::Handling,
        run@.phase == RunPhase::Renewing && event == RunEvent::Renewed(Ok(false)) ==> next.1
            == RunAction::AbortAndInspect && next.0@.phase == RunPhase::Inspecting(
            LossPhase::Renewal,
        ),
        run@.phase == RunPhase::Handling && event == RunEvent::HandlerFinished(Ok(())) ==> next.1
            == RunAction::Complete && next.0@.phase == RunPhase::Completing,
        run@.phase == RunPhase::Handling && event == RunEvent::HandlerFinished(Err(message)) ==> {
            &&& next.1 is Fail
            &&& next.1->attempt == run@.attempt
            &&& next.1->max_attempts == run@.max_attempts
            &&& next.1->error == message
            &&& next.0@.phase == RunPhase::Failing
        },
        (run@.phase == RunPhase::Completing || run@.phase == RunPhase::Failing) && event
            == RunEvent::Stored(stored) ==> {
            &&& stored != Ok::<bool, StoreError>(false) ==> next.1 == (RunAction::End {
                notify: run@.serial,
            }) && next.0@.phase == RunPhase::Done
            &&& stored == Ok::<bool, StoreError>(false) ==> next.1 == RunAction::Inspect && next.0@.phase
                is Inspecting
        },
        run@.phase == RunPhase::Completing && event == RunEvent::Stored(Ok(true)) ==> next.2
            == RunReport::Succeeded,
        run@.phase == RunPhase::Failing && event == RunEvent::Stored(Ok(true)) ==> (next.2
            == RunReport::FailedPermanently <==> run@.attempt >= run@.max_attempts),
        run@.phase == RunPhase::Inspecting(loss) && event == RunEvent::Inspected(inspected) ==> {
            &&& next.0@.phase == RunPhase::Done
            &&& next.1 is End
            &&& next.1->notify <==> run@.serial && loss != LossPhase::Renewal
            &&& inspected matches Ok(Some(job)) ==> next.2 == (if job.status == JobStatus::Queued
                || job.status == JobStatus::Running {
                RunReport::LockLost(job.status)
            } else {
                RunReport::FinishedElsewhere(job.status)
            })
            &&& inspected == Ok::<Option<Job>, StoreError>(None) ==> next.2 == RunReport::Disappeared
            &&& inspected is Err ==> next.2 == RunReport::InspectFailed
        },
{
    let view = run@;
    law_what_stays_in_a_run(view, event);
    law_renewals_of_a_run(view, StoreError::InvalidMaxAttempts);
    if view.phase == RunPhase::Handling {
        law_end_of_a_handler(view, message);
    }
    law_end_of_a_run(view, stored, inspected, loss);
    if let Ok(Some(job)) = inspected {
        law_reports_of_a_run(view, job, StoreError::InvalidMaxAttempts, loss);
    }
}

/// A worker is registered, runs, tells its loops of a shutdown, gives them the grace period, releases
/// its jobs and is deregistered, one after the other; a loop that ends by itself, or a grace period
/// that passes, has the loops aborted.
pub proof fn law_supervise_call(
    worker: Supervisor,
    event: WorkerEvent,
    next: (Supervisor, WorkerAction),
    message: String,
    released: Result<u64, StoreError>,
)
    requires
        call_ensures(Supervisor::handle, (worker, event), next),
    ensures
        next.0@.grace == worker@.grace,
        worker@.phase == Phase::Registering && event == WorkerEvent::Registered(Ok(())) ==> next.1
            == WorkerAction::Run && next.0@.phase == Phase::Running,
        worker@.phase == Phase::Running && event == WorkerEvent::ShutdownRequested ==> next.1
            == WorkerAction::AnnounceShutdown && next.0@.phase == Phase::Announcing,
        worker@.phase == Phase::Running && event == WorkerEvent::LoopEnded(Some(Err(message))) ==> {
            &&& next.1 == WorkerAction::AbortLoops
            &&& next.0@.failure == Some(WorkerError::LoopFailed(message))
            &&& next.0@.phase == Phase::Aborting
        },
        worker@.phase == Phase::Running && (event == WorkerEvent::LoopEnded(Some(Ok(()))) || event
            == WorkerEvent::LoopEnded(None)) ==> {
            &&& next.1 == WorkerAction::AbortLoops
            &&& next.0@.failure == Some(WorkerError::LoopExited)
            &&& next.0@.phase == Phase::Aborting
        },
        worker@.phase == Phase::Announcing && event == WorkerEvent::Announced(true) ==> next.1
            == WorkerAction::DrainLoops(worker@.grace) && next.0@.phase == Phase::Draining,
        worker@.phase == Phase::Announcing && event == WorkerEvent::Announced(false) ==> next.1
            == WorkerAction::AbortLoops && next.0@.phase == Phase::Aborting,
        worker@.phase == Phase::Draining && event == WorkerEvent::Drained ==> next.1
            == WorkerAction::ReleaseJobs && next.0@.phase == Phase::Releasing,
        worker@.phase == Phase::Draining && event == WorkerEvent::GraceElapsed ==> next.1
            == WorkerAction::AbortLoops && next.0@.phase == Phase::Aborting,
        worker@.phase == Phase::Aborting && event == WorkerEvent::Aborted ==> next.1
            == WorkerAction::ReleaseJobs && next.0@.phase == Phase::Releasing,
        worker@.phase == Phase::Releasing && event == WorkerEvent::Released(released) ==> next.1
            == WorkerAction::Deregister && next.0@.phase == Phase::Deregistering && next.0@.failure
            == worker@.failure,
{
    law_unexpected_event_changes_nothing(worker@, event);
    law_start_of_a_worker(worker@, worker@.grace, StoreError::InvalidMaxAttempts);
    law_shutdown_of_a_worker(worker@, message);
}

/// A worker that has released its jobs is deregistered, and then stops: with what ended its run, else
/// with what failed first after that, else with success.
pub proof fn law_stop_call(
    worker: Supervisor,
    released: Result<u64, StoreError>,
    deregistered: Result<(), StoreError>,
    next: (Supervisor, WorkerAction),
    last: (Supervisor, WorkerAction),
)
    requires
        worker@.phase == Phase::Releasing,
        worker@.cleanup is None,
        call_ensures(Supervisor::handle, (worker, WorkerEvent::Released(released)), next),
        call_ensures(Supervisor::handle, (next.0, WorkerEvent::Deregistered(deregistered)), last),
    ensures
        next.1 == WorkerAction::Deregister,
        last.1 is Stop,
        last.1->Stop_0 == match worker@.failure {
            Some(failure) => Err::<(), WorkerError>(failure),
            None => match released {
                Err(error) => Err(WorkerError::Database(error)),
                Ok(_) => match deregistered {
                    Err(error) => Err(WorkerError::Database(error)),
                    Ok(_) => Ok(()),
                },
            },
        },
{
    law_end_of_a_worker(worker@, released, deregistered);
}

} // verus!
