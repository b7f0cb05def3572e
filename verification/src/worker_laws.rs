//! What a worker needs to start, which loops it runs, and what these do one after the other.

use vstd::prelude::*;

use crate::claimed::{
    failure_report_of, loss_report_of, run_action, run_next, run_report, run_starts, JobRun,
    JobRunView, LossPhase, RunAction, RunEvent, RunPhase, RunReport,
};
use crate::change::backoff_micros;
use crate::config::{config_problem, WorkerConfig, WorkerError};
use crate::cron::{occurrence_in_range, CronJob};
use crate::error::StoreError;
use crate::job::{Job, JobStatus};
use crate::loops::{
    claim_action, cron_action, cron_report_of, ends_loop, heartbeat_action, listener_acts, listener_next,
    listening_from, next_recovery_step, recovery_decision, recovery_wait, ClaimAction, ClaimEvent,
    CronAction, CronEvent, CronReport, HeartbeatAction, HeartbeatEvent, ListenerAction, ListenerEvent,
    ListenerPhase, ListenerView, RecoveryEvent, RecoveryStep, Wake,
};
use crate::reply::settled_claim;
use crate::rows::CronEnqueueResult;
use crate::search::lemma_first_such_holds;
use crate::source::id_text;
use crate::supervisor::{
    first_failure, loop_failure, run_result, starting, supervise, Phase, SupervisorView,
    WorkerAction, WorkerEvent,
};
use crate::text::texts;
use crate::time::Duration;
use crate::worker::{
    cron_refused, due_occurrences, first_out_of_range, first_refused, repeats_identifier,
    start_outcome, too_frequent, worker_loops, WorkerLoop,
};

verus! {

/// A configuration can work where jobs can run, nothing is done without a pause, and a worker that
/// reports and renews its locks in time is never taken for dead.
pub proof fn law_what_configuration_can_work(config: WorkerConfig)
    requires
        config.poll_interval@ >= 0,
        config.cron_poll_interval@ >= 0,
        config.heartbeat_interval@ >= 0,
        config.lock_renew_interval@ >= 0,
        config.recovery_interval@ >= 0,
    ensures
        config_problem(config) is None <==> {
            &&& config.concurrency > 0
            &&& config.poll_interval@ > 0
            &&& config.cron_poll_interval@ > 0
            &&& config.heartbeat_interval@ > 0
            &&& config.lock_renew_interval@ > 0
            &&& config.recovery_interval@ > 0
            &&& config.stale_after@ > config.heartbeat_interval@
            &&& config.stale_after@ > config.lock_renew_interval@
        },
{
}

/// A configuration that cannot work is said to be so for what is wrong with it, and where that is one
/// thing alone, for that.
pub proof fn law_what_is_said_of_a_configuration(config: WorkerConfig, good: WorkerConfig)
    requires
        config_problem(good) is None,
    ensures
        config.concurrency == 0 ==> config_problem(config) == Some(
            "concurrency must be greater than zero"@,
        ),
        config_problem(WorkerConfig { poll_interval: config.poll_interval, ..good }) == if config.poll_interval@
            == 0 {
            Some("poll_interval must be greater than zero"@)
        } else {
            None::<Seq<char>>
        },
        config_problem(WorkerConfig { cron_poll_interval: config.cron_poll_interval, ..good })
            == if config.cron_poll_interval@ == 0 {
            Some("cron_poll_interval must be greater than zero"@)
        } else {
            None::<Seq<char>>
        },
        config_problem(WorkerConfig { recovery_interval: config.recovery_interval, ..good })
            == if config.recovery_interval@ == 0 {
            Some("recovery_interval must be greater than zero"@)
        } else {
            None::<Seq<char>>
        },
        config_problem(WorkerConfig { heartbeat_interval: config.heartbeat_interval, ..good })
            == if config.heartbeat_interval@ == 0 {
            Some("heartbeat_interval must be greater than zero"@)
        } else if good.stale_after@ <= config.heartbeat_interval@ {
            Some("stale_after must be greater than heartbeat_interval"@)
        } else {
            None::<Seq<char>>
        },
        config_problem(WorkerConfig { lock_renew_interval: config.lock_renew_interval, ..good })
            == if config.lock_renew_interval@ == 0 {
            Some("lock_renew_interval must be greater than zero"@)
        } else if good.stale_after@ <= config.lock_renew_interval@ {
            Some("stale_after must be greater than lock_renew_interval"@)
        } else {
            None::<Seq<char>>
        },
{
}

/// Where more than one thing is wrong with a configuration, it is the first that is told of: that no
/// job can run, then pauses that are missing, then a time after which the worker counts as dead too
/// soon.
pub proof fn law_what_is_said_first(config: WorkerConfig)
    ensures
        config.concurrency > 0 && config.poll_interval@ == 0 ==> config_problem(config) == Some(
            "poll_interval must be greater than zero"@,
        ),
        config.concurrency > 0 && config.poll_interval@ > 0 && config.cron_poll_interval@ == 0
            ==> config_problem(config) == Some("cron_poll_interval must be greater than zero"@),
        config.concurrency > 0 && config.poll_interval@ > 0 && config.cron_poll_interval@ > 0
            && config.heartbeat_interval@ == 0 ==> config_problem(config) == Some(
            "heartbeat_interval must be greater than zero"@,
        ),
        config.concurrency > 0 && config.poll_interval@ > 0 && config.cron_poll_interval@ > 0
            && config.heartbeat_interval@ > 0 && config.lock_renew_interval@ == 0
            ==> config_problem(config) == Some("lock_renew_interval must be greater than zero"@),
        config.concurrency > 0 && config.poll_interval@ > 0 && config.cron_poll_interval@ > 0
            && config.heartbeat_interval@ > 0 && config.lock_renew_interval@ > 0
            && config.recovery_interval@ == 0 ==> config_problem(config) == Some(
            "recovery_interval must be greater than zero"@,
        ),
        config.concurrency > 0 && config.poll_interval@ > 0 && config.cron_poll_interval@ > 0
            && config.heartbeat_interval@ > 0 && config.lock_renew_interval@ > 0
            && config.recovery_interval@ > 0 && config.stale_after@ <= config.heartbeat_interval@
            ==> config_problem(config) == Some(
            "stale_after must be greater than heartbeat_interval"@,
        ),
{
}

/// A worker that is given no configuration runs four jobs at a time, looks for jobs every two seconds
/// and at schedules every thirty, reports every fifteen seconds and renews its locks every thirty,
/// counts as dead after ten minutes, looks for the dead every minute, has thirty seconds to shut
/// down, and keeps finished jobs for thirty days.
pub proof fn law_default_configuration(config: WorkerConfig, id: u128)
    requires
        config.is_default(id),
    ensures
        config.worker_id@ == "pgspawn_"@ + id_text(id),
        config.concurrency == 4,
        config.poll_interval@ == 2_000_000_000,
        config.cron_poll_interval@ == 30_000_000_000,
        config.heartbeat_interval@ == 15_000_000_000,
        config.lock_renew_interval@ == 30_000_000_000,
        config.stale_after@ == 600_000_000_000,
        config.recovery_interval@ == 60_000_000_000,
        config.shutdown_grace_period@ == 30_000_000_000,
        config.finished_job_retention matches Some(time) && time@ == 2_592_000_000_000_000,
{
}

/// A worker starts with its schedules where each names a job that has a handler and no two have the
/// same identifier. Else it is the first schedule for which that is not so that keeps it from
/// starting.
pub proof fn law_what_schedules_can_be_run<H>(
    handlers: Map<Seq<char>, H>,
    crons: Seq<CronJob>,
    one: int,
    other: int,
)
    ensures
        first_refused(handlers, crons) is None && 0 <= one < other < crons.len() ==> {
            &&& handlers.dom().contains(crons[one].name@)
            &&& handlers.dom().contains(crons[other].name@)
            &&& crons[one].identifier@ != crons[other].identifier@
        },
        first_refused(handlers, crons) is None && 0 <= one < crons.len() ==> handlers.dom().contains(
            crons[one].name@,
        ),
        first_refused(handlers, crons) matches Some(place) ==> {
            &&& 0 <= place < crons.len()
            &&& handlers.dom().contains(crons[place].name@) ==> exists|earlier: int|
                0 <= earlier < place && (#[trigger] crons[earlier]).identifier@
                    == crons[place].identifier@
            &&& 0 <= one < place ==> handlers.dom().contains(crons[one].name@)
            &&& 0 <= one < other < place ==> crons[one].identifier@ != crons[other].identifier@
        },
{
    let test = |place: int| cron_refused(handlers, crons, place);
    lemma_first_such_holds(test, 0, crons.len() as int);
    if 0 <= one < other < crons.len() {
        assert(test(one) == cron_refused(handlers, crons, one));
        assert(test(other) == cron_refused(handlers, crons, other));
        assert(crons[one].identifier@ == crons[other].identifier@ ==> repeats_identifier(
            crons,
            other,
        ));
    }
    if 0 <= one < crons.len() {
        assert(test(one) == cron_refused(handlers, crons, one));
    }
    if let Some(place) = first_refused(handlers, crons) {
        assert(test(place));
        if handlers.dom().contains(crons[place].name@) {
            assert(repeats_identifier(crons, place));
        }
    }
}

/// A worker starts where its configuration can work, it has a handler, each of its schedules names a
/// job that has one, and no two schedules have the same identifier: then it is told the names of its
/// handlers, each once. It is told what is missing else: that there is no handler at all, or none for
/// a job that a schedule names, or which identifier comes twice.
pub proof fn law_start<H>(
    handlers: Map<Seq<char>, H>,
    crons: Seq<CronJob>,
    config: WorkerConfig,
    result: Result<Vec<String>, WorkerError>,
    name: Seq<char>,
    one: int,
    other: int,
)
    requires
        start_outcome(handlers, crons, config, result),
    ensures
        result matches Ok(names) ==> {
            &&& config_problem(config) is None
            &&& texts(names@).no_duplicates()
            &&& texts(names@).contains(name) <==> handlers.dom().contains(name)
            &&& exists|some: Seq<char>| handlers.dom().contains(some)
            &&& 0 <= one < crons.len() ==> handlers.dom().contains(crons[one].name@)
            &&& 0 <= one < other < crons.len() ==> crons[one].identifier@ != crons[other].identifier@
        },
        result is Ok || result->Err_0 is InvalidConfig || result->Err_0 is EmptyRegistry
            || result->Err_0 is MissingCronHandler || result->Err_0 is DuplicateCronIdentifier,
        result is Err && result->Err_0 is InvalidConfig <==> config_problem(config) is Some,
        result matches Err(WorkerError::InvalidConfig(message)) ==> config_problem(config) == Some(
            message@,
        ),
        result is Err && result->Err_0 is EmptyRegistry ==> !handlers.dom().contains(name),
        result matches Err(WorkerError::MissingCronHandler(missing)) ==> {
            &&& !handlers.dom().contains(missing@)
            &&& exists|i: int| 0 <= i < crons.len() && (#[trigger] crons[i]).name@ == missing@
        },
        result matches Err(WorkerError::DuplicateCronIdentifier(repeated)) ==> exists|
            i: int,
            j: int,
        |
            {
                &&& 0 <= i < j < crons.len()
                &&& (#[trigger] crons[i]).identifier@ == repeated@
                &&& (#[trigger] crons[j]).identifier@ == repeated@
            },
{
    law_what_schedules_can_be_run(handlers, crons, one, other);
    if config_problem(config) is None {
        if handlers.dom() =~= Set::empty() {
        } else {
            let some = choose|some: Seq<char>| handlers.dom().contains(some);
            assert(handlers.dom().contains(some)) by {
                if forall|some: Seq<char>| !handlers.dom().contains(some) {
                    assert(handlers.dom() =~= Set::empty());
                }
            }
            assert(handlers.contains_key(name) == handlers.dom().contains(name));
            if let Some(place) = first_refused(handlers, crons) {
                let test = |place: int| cron_refused(handlers, crons, place);
                lemma_first_such_holds(test, 0, crons.len() as int);
                assert(test(place));
                if handlers.contains_key(crons[place].name@) {
                    let earlier = choose|earlier: int|
                        0 <= earlier < place && (#[trigger] crons[earlier]).identifier@
                            == crons[place].identifier@;
                    assert(crons[earlier].identifier@ == crons[place].identifier@);
                } else {
                    assert(crons[place].name@ == crons[place].name@);
                }
            }
        }
    }
}

/// Whether a worker has a handler, its schedules name jobs that have one, and no two of them have the
/// same identifier.
pub open spec fn nothing_missing<H>(handlers: Map<Seq<char>, H>, crons: Seq<CronJob>) -> bool {
    &&& exists|name: Seq<char>| #[trigger] handlers.dom().contains(name)
    &&& forall|i: int|
        0 <= i < crons.len() ==> handlers.dom().contains((#[trigger] crons[i]).name@)
    &&& forall|i: int, j: int|
        0 <= i < j < crons.len() ==> (#[trigger] crons[i]).identifier@ != (
        #[trigger] crons[j]).identifier@
}

/// A worker to which nothing is missing starts.
pub proof fn law_start_succeeds<H>(
    handlers: Map<Seq<char>, H>,
    crons: Seq<CronJob>,
    config: WorkerConfig,
    result: Result<Vec<String>, WorkerError>,
)
    requires
        start_outcome(handlers, crons, config, result),
        config_problem(config) is None,
        nothing_missing(handlers, crons),
    ensures
        result is Ok,
{
    law_what_schedules_can_be_run(handlers, crons, 0, 0);
    if let Some(place) = first_refused(handlers, crons) {
        assert(handlers.dom().contains(crons[place].name@));
    }
}

/// A claim that the store refused because the named queue was taken at the same moment is one that
/// found no job. Every other reply stands.
pub proof fn law_settled_claim(reply: Result<Option<Job>, StoreError>, job: Job)
    ensures
        settled_claim(Ok(Some(job))) == Ok::<Option<Job>, StoreError>(Some(job)),
        settled_claim(Ok(None)) == Ok::<Option<Job>, StoreError>(None),
        reply matches Err(error) ==> {
            let taken = {
                &&& error is Database
                &&& error->Database_0.code is Some
                &&& error->Database_0.code->0@ == "23505"@
                &&& error->Database_0.constraint is Some
                &&& error->Database_0.constraint->0@ == "jobs_queue_running_idx"@
            };
            &&& taken ==> settled_claim(reply) == Ok::<Option<Job>, StoreError>(None)
            &&& !taken ==> settled_claim(reply) == reply
        },
{
}

/// What is told of an occurrence is what became of it.
pub proof fn law_cron_reports(id: u128, error: StoreError)
    ensures
        cron_report_of(Ok(CronEnqueueResult::Enqueued(id))) == CronReport::Enqueued(id),
        cron_report_of(Ok(CronEnqueueResult::AlreadyQueued(id))) == CronReport::AlreadyQueued(id),
        cron_report_of(Ok(CronEnqueueResult::Skipped)) == CronReport::Nothing,
        cron_report_of(Err(error)) == CronReport::Failed,
{
}

/// A worker has one loop for its reports, one for recovery, one that listens, one for schedules just
/// where it has some, and one numbered claim loop for each job that may run at a time, at least one.
pub proof fn law_loops_of_a_worker(schedules: bool, concurrency: int, index: usize)
    requires
        concurrency <= usize::MAX,
    ensures
        ({
            let loops = worker_loops(schedules, concurrency);
            let claims = if concurrency < 1 {
                1
            } else {
                concurrency
            };
            &&& loops.contains(WorkerLoop::Heartbeat)
            &&& loops.contains(WorkerLoop::Recovery)
            &&& loops.contains(WorkerLoop::Listener)
            &&& loops.contains(WorkerLoop::Cron) <==> schedules
            &&& loops.contains(WorkerLoop::Claim(index)) <==> index < claims
            &&& loops.no_duplicates()
            &&& loops.len() == claims + if schedules {
                4int
            } else {
                3
            }
        }),
{
    let loops = worker_loops(schedules, concurrency);
    let kinds: int = if schedules {
        4
    } else {
        3
    };
    let claims = if concurrency < 1 {
        1
    } else {
        concurrency
    };
    assert(loops.len() == kinds + claims);
    assert(loops[0] == WorkerLoop::Heartbeat);
    assert(loops[1] == WorkerLoop::Recovery);
    assert(loops[2] == WorkerLoop::Listener);
    if schedules {
        assert(loops[3] == WorkerLoop::Cron);
    }
    assert forall|i: int| kinds <= i < loops.len() implies #[trigger] loops[i] == WorkerLoop::Claim(
        (i - kinds) as usize,
    ) by {}
    if index < claims {
        assert(loops[kinds + index] == WorkerLoop::Claim(index));
    }
    assert(loops.no_duplicates()) by {
        assert forall|i: int, j: int| 0 <= i < j < loops.len() implies loops[i] != loops[j] by {
            if i >= kinds {
                assert((i - kinds) as usize != (j - kinds) as usize);
            }
        }
    }
}

/// A schedule comes too often where it is of intervals shorter than the time between two looks at the
/// schedules.
pub proof fn law_what_comes_too_often(cron: CronJob, config: WorkerConfig)
    ensures
        too_frequent(cron, config) <==> (cron.schedule matches crate::cron::CronSchedule::Interval {
            every,
        } && every@ < config.cron_poll_interval@),
{
}

/// Each schedule that has an occurrence comes once among those that are due, with the time of that and
/// of the next one after it; and nothing else does.
pub proof fn law_due_occurrences(crons: Seq<CronJob>, now: int, count: int, place: int)
    requires
        0 <= count <= crons.len(),
    ensures
        0 <= place < count && crons[place].schedule.due(now) is Some ==> due_occurrences(
            crons,
            now,
            count,
        ).contains(
            (
                place,
                crons[place].schedule.due(now)->0,
                crons[place].schedule.next(crons[place].schedule.due(now)->0),
            ),
        ),
        forall|i: int|
            0 <= i < due_occurrences(crons, now, count).len() ==> {
                let due = #[trigger] due_occurrences(crons, now, count)[i];
                &&& 0 <= due.0 < count
                &&& crons[due.0].schedule.due(now) == Some(due.1)
                &&& due.2 == crons[due.0].schedule.next(due.1)
            },
        forall|i: int, j: int|
            0 <= i < j < due_occurrences(crons, now, count).len() ==> (#[trigger] due_occurrences(
                crons,
                now,
                count,
            )[i]).0 < (#[trigger] due_occurrences(crons, now, count)[j]).0,
    decreases count,
{
    if count > 0 {
        law_due_occurrences(crons, now, count - 1, place);
        let fewer = due_occurrences(crons, now, count - 1);
        let all = due_occurrences(crons, now, count);
        assert forall|i: int| 0 <= i < all.len() implies {
            let due = #[trigger] all[i];
            &&& 0 <= due.0 < count
            &&& crons[due.0].schedule.due(now) == Some(due.1)
            &&& due.2 == crons[due.0].schedule.next(due.1)
        } by {
            if i < fewer.len() {
                assert(all[i] == fewer[i]);
            }
        }
        assert forall|i: int, j: int| 0 <= i < j < all.len() implies (#[trigger] all[i]).0 < (
        #[trigger] all[j]).0 by {
            assert(all[i] == fewer[i]);
            if j < fewer.len() {
                assert(all[j] == fewer[j]);
            }
        }
        if 0 <= place < count && crons[place].schedule.due(now) is Some {
            let wanted = (
                place,
                crons[place].schedule.due(now)->0,
                crons[place].schedule.next(crons[place].schedule.due(now)->0),
            );
            if place < count - 1 {
                let at = choose|at: int| 0 <= at < fewer.len() && fewer[at] == wanted;
                assert(all[at] == wanted);
            } else {
                assert(all.last() == wanted);
            }
        }
    }
}

/// The first schedule that comes out of range is one whose occurrences are, and none before it is.
pub proof fn law_first_out_of_range(crons: Seq<CronJob>, now: int, place: int)
    ensures
        first_out_of_range(crons, now) matches Some(found) ==> {
            &&& 0 <= found < crons.len()
            &&& !occurrence_in_range(crons[found].schedule, now)
            &&& 0 <= place < found ==> occurrence_in_range(crons[place].schedule, now)
        },
        first_out_of_range(crons, now) is None && 0 <= place < crons.len() ==> occurrence_in_range(
            crons[place].schedule,
            now,
        ),
{
    let test = |place: int| !occurrence_in_range(crons[place].schedule, now);
    lemma_first_such_holds(test, 0, crons.len() as int);
    assert(test(place) == !occurrence_in_range(crons[place].schedule, now));
    if let Some(found) = first_out_of_range(crons, now) {
        assert(test(found));
    }
}

/// A loop ends where it is told that the worker shuts down or can be told nothing more, and for no
/// other reason.
pub proof fn law_what_ends_a_loop(told: bool)
    ensures
        ends_loop(Wake::Told(told)) <==> told,
        ends_loop(Wake::Closed),
        !ends_loop(Wake::Elapsed),
        !ends_loop(Wake::Notified),
{
}

/// The heartbeat loop reports after each wait that does not end it, and waits as long as is set
/// before each report.
pub proof fn law_heartbeats(wake: Wake, config: WorkerConfig)
    ensures
        heartbeat_action(HeartbeatEvent::Begun, config) == HeartbeatAction::Wait(
            config.heartbeat_interval,
        ),
        heartbeat_action(HeartbeatEvent::Reported, config) == HeartbeatAction::Wait(
            config.heartbeat_interval,
        ),
        wake == Wake::Elapsed || wake == Wake::Notified || wake == Wake::Told(false)
            ==> heartbeat_action(HeartbeatEvent::Woken(wake), config) == HeartbeatAction::Report,
        wake == Wake::Closed || wake == Wake::Told(true) ==> heartbeat_action(
            HeartbeatEvent::Woken(wake),
            config,
        ) == HeartbeatAction::End,
{
}

/// A claim loop claims a job whenever it is not told to stop, runs what it has claimed, and waits as
/// long as is set where there is none or the store refuses; then it looks again.
pub proof fn law_claim_loops(
    wake: Wake,
    job: Job,
    error: StoreError,
    config: WorkerConfig,
)
    ensures
        claim_action(ClaimEvent::Checked(false), config) == ClaimAction::Claim,
        claim_action(ClaimEvent::Checked(true), config) == ClaimAction::End,
        claim_action(ClaimEvent::Claimed(Ok(Some(job))), config) == ClaimAction::Run(job),
        claim_action(ClaimEvent::Claimed(Ok(None)), config) == ClaimAction::WaitForWork(
            config.poll_interval,
        ),
        claim_action(ClaimEvent::Claimed(Err(error)), config) == ClaimAction::WaitAfterError(
            error,
            config.poll_interval,
        ),
        claim_action(ClaimEvent::JobDone, config) == ClaimAction::Check,
        wake == Wake::Elapsed || wake == Wake::Notified || wake == Wake::Told(false)
            ==> claim_action(ClaimEvent::Woken(wake), config) == ClaimAction::Check,
        wake == Wake::Closed || wake == Wake::Told(true) ==> claim_action(
            ClaimEvent::Woken(wake),
            config,
        ) == ClaimAction::End,
{
}

/// The cron loop enqueues what is due whenever it is not told to stop, and waits as long as is set
/// after that.
pub proof fn law_cron_loop(wake: Wake, config: WorkerConfig)
    ensures
        cron_action(CronEvent::Checked(false), config) == CronAction::Enqueue,
        cron_action(CronEvent::Checked(true), config) == CronAction::End,
        cron_action(CronEvent::Enqueued, config) == CronAction::Wait(config.cron_poll_interval),
        wake == Wake::Elapsed || wake == Wake::Notified || wake == Wake::Told(false) ==> cron_action(
            CronEvent::Woken(wake),
            config,
        ) == CronAction::Check,
        wake == Wake::Closed || wake == Wake::Told(true) ==> cron_action(
            CronEvent::Woken(wake),
            config,
        ) == CronAction::End,
{
}

/// The recovery loop wakes the claim loops just where it has put jobs back on the queue, tells of
/// jobs just where there were some, and tells of every failure. It waits as long as is set, and ends
/// only after a wait.
pub proof fn law_recovery_loop(
    step: RecoveryStep,
    count: u64,
    error: StoreError,
    wake: Wake,
    config: WorkerConfig,
)
    requires
        step is DeadWorkers || step is StaleLocks || step is Prune,
    ensures
        recovery_wait(config) == RecoveryStep::Wait(config.recovery_interval),
        recovery_decision(step, RecoveryEvent::Done(Ok(count)), config).notify <==> count > 0 && !(
        step is Prune),
        count > 0 ==> recovery_decision(step, RecoveryEvent::Done(Ok(count)), config).told == Some(
            count,
        ),
        recovery_decision(step, RecoveryEvent::Done(Ok(0)), config).told is None,
        !recovery_decision(step, RecoveryEvent::Done(Ok(count)), config).failed,
        recovery_decision(step, RecoveryEvent::Done(Err(error)), config).failed,
        !recovery_decision(step, RecoveryEvent::Done(Err(error)), config).notify,
        recovery_decision(step, RecoveryEvent::Done(Err(error)), config).told is None,
        recovery_decision(step, RecoveryEvent::Done(Err(error)), config).next == recovery_decision(
            step,
            RecoveryEvent::Done(Ok(count)),
            config,
        ).next,
        recovery_decision(step, RecoveryEvent::Done(Ok(count)), config).next == next_recovery_step(
            step,
            RecoveryEvent::Done(Ok(count)),
            config,
        ),
        ({
            let woken = recovery_decision(
                recovery_wait(config),
                RecoveryEvent::Woken(wake),
                config,
            );
            &&& !woken.notify && !woken.failed && woken.told is None
            &&& woken.next == RecoveryStep::End <==> wake == Wake::Closed || wake == Wake::Told(
                true,
            )
            &&& woken.next == RecoveryStep::End || woken.next == RecoveryStep::DeadWorkers(
                config.stale_after,
            )
        }),
{
}

/// A recovery loop that has ended stays so.
pub proof fn law_recovery_ends(event: RecoveryEvent, config: WorkerConfig)
    ensures
        recovery_decision(RecoveryStep::End, event, config).next == RecoveryStep::End,
        !recovery_decision(RecoveryStep::End, event, config).notify,
{
}

/// An event that a listener does not wait for leaves it as it is, and one that has ended stays so.
pub proof fn law_listener_ignores(listener: ListenerView, event: ListenerEvent)
    ensures
        listener.phase == ListenerPhase::Ended ==> listener_next(listener, event) == listener,
        event is Checked && listener.phase != ListenerPhase::Connecting ==> listener_next(
            listener,
            event,
        ) == listener,
        event is Connected && listener.phase != ListenerPhase::Connecting ==> listener_next(
            listener,
            event,
        ) == listener,
        event is Received && listener.phase != ListenerPhase::Listening ==> listener_next(
            listener,
            event,
        ) == listener,
        event is Woken && listener.phase == ListenerPhase::Connecting ==> listener_next(
            listener,
            event,
        ) == listener,
        listener_next(listener, event).poll_interval == listener.poll_interval,
{
}

/// The longest wait of a listener, half a minute.
pub open spec fn longest_wait() -> int {
    30_000_000_000
}

/// A listener begins by trying to connect, and waits as long as the time between two polls after its
/// first failure, but at most half a minute. The wait is doubled for each further failure, up to that,
/// and starts anew once it has listened.
pub proof fn law_listener_waits(listener: ListenerView, poll_interval: int)
    ensures
        ({
            let first = listening_from(poll_interval);
            &&& first.phase == ListenerPhase::Connecting
            &&& first.poll_interval == poll_interval
            &&& poll_interval <= longest_wait() ==> first.delay == poll_interval
            &&& poll_interval > longest_wait() ==> first.delay == longest_wait()
        }),
        listener.phase == ListenerPhase::Connecting ==> {
            let failed = listener_next(listener, ListenerEvent::Connected(false));
            let again = listener_next(failed, ListenerEvent::Woken(Wake::Elapsed));
            let listening = listener_next(listener, ListenerEvent::Connected(true));
            &&& failed.phase == ListenerPhase::Waiting
            &&& failed.delay == listener.delay
            &&& again.phase == ListenerPhase::Connecting
            &&& 2 * listener.delay <= longest_wait() ==> again.delay == 2 * listener.delay
            &&& 2 * listener.delay > longest_wait() ==> again.delay == longest_wait()
            &&& listening.phase == ListenerPhase::Listening
            &&& listening.poll_interval == listener.poll_interval
            &&& listening.delay == listening_from(listener.poll_interval).delay
            &&& again.poll_interval == listener.poll_interval
        },
{
}

/// A listener connects where it is not told to stop, wakes the claim loops for each notification, and
/// waits and tries again where the connection is lost. It ends where it is told to stop.
pub proof fn law_listener_acts(
    listener: ListenerView,
    event: ListenerEvent,
    action: ListenerAction,
    wake: Wake,
)
    requires
        listener_acts(listener, event, listener_next(listener, event), action),
    ensures
        listener.phase == ListenerPhase::Connecting && event == ListenerEvent::Checked(false)
            ==> action == ListenerAction::Connect && listener_next(listener, event) == listener,
        listener.phase == ListenerPhase::Connecting && event == ListenerEvent::Checked(true)
            ==> action == ListenerAction::End,
        listener.phase == ListenerPhase::Connecting && event == ListenerEvent::Connected(true)
            ==> action == ListenerAction::NotifyAndReceive,
        listener.phase == ListenerPhase::Connecting && event == ListenerEvent::Connected(false)
            ==> action is Wait && action->Wait_0@ == listener.delay,
        listener.phase == ListenerPhase::Listening && event == ListenerEvent::Received(true)
            ==> action == ListenerAction::NotifyAndReceive && listener_next(listener, event)
            == listener,
        listener.phase == ListenerPhase::Listening && event == ListenerEvent::Received(false)
            ==> action is Wait && action->Wait_0@ == listener.delay && listener_next(
            listener,
            event,
        ).phase == ListenerPhase::Waiting,
        listener.phase == ListenerPhase::Listening && event == ListenerEvent::Woken(wake) ==> {
            &&& wake == Wake::Closed || wake == Wake::Told(true) ==> action == ListenerAction::End
            &&& wake == Wake::Elapsed || wake == Wake::Notified || wake == Wake::Told(false)
                ==> action == ListenerAction::Receive && listener_next(listener, event) == listener
        },
        listener.phase == ListenerPhase::Waiting && event == ListenerEvent::Woken(wake) ==> {
            &&& wake == Wake::Closed || wake == Wake::Told(true) ==> action == ListenerAction::End
            &&& wake == Wake::Elapsed || wake == Wake::Notified || wake == Wake::Told(false)
                ==> action == ListenerAction::Check && listener_next(listener, event).phase
                == ListenerPhase::Connecting
        },
        action == ListenerAction::End <==> listener_next(listener, event).phase
            == ListenerPhase::Ended,
{
}

/// The run of a claimed job starts its handler, and renews the lock as often as is set. Where there
/// is no handler it stores that the job failed at its last attempt, so that it does not run again.
pub proof fn law_start_of_a_run(
    job: Job,
    has_handler: bool,
    renew_after: Duration,
    start: (JobRun, RunAction, RunReport),
)
    requires
        run_starts(job, has_handler, renew_after, start),
    ensures
        start.0@.attempt == job.attempt,
        start.0@.max_attempts == job.max_attempts,
        start.0@.serial <==> job.queue_name is Some,
        start.0@.renew_after == renew_after,
        has_handler ==> {
            &&& start.0@.phase == RunPhase::Handling
            &&& start.1 == RunAction::StartHandler(renew_after)
            &&& start.2 == RunReport::Started
        },
        !has_handler ==> {
            &&& start.0@.phase == RunPhase::Rejecting
            &&& start.1 is Fail
            &&& start.1->attempt == job.max_attempts
            &&& start.1->max_attempts == job.max_attempts
            &&& start.1->error@ == "no handler registered for job "@ + job.name@
            &&& start.2 == RunReport::Nothing
        },
{
}

/// While its handler works, a run renews the lock each time that is due, and goes on where that
/// succeeds or the store refuses. Where the lock is lost, it aborts the handler, and looks at the job.
pub proof fn law_renewals_of_a_run(run: JobRunView, error: StoreError)
    ensures
        run.phase == RunPhase::Handling ==> {
            &&& run_next(run, RunEvent::RenewalDue).phase == RunPhase::Renewing
            &&& run_action(run, RunEvent::RenewalDue) == RunAction::Renew
            &&& run_report(run, RunEvent::RenewalDue) == RunReport::Nothing
        },
        run.phase == RunPhase::Renewing ==> {
            &&& run_next(run, RunEvent::Renewed(Ok(true))).phase == RunPhase::Handling
            &&& run_action(run, RunEvent::Renewed(Ok(true))) == RunAction::Await(run.renew_after)
            &&& run_report(run, RunEvent::Renewed(Ok(true))) == RunReport::Nothing
            &&& run_next(run, RunEvent::Renewed(Err(error))).phase == RunPhase::Handling
            &&& run_action(run, RunEvent::Renewed(Err(error))) == RunAction::Await(run.renew_after)
            &&& run_report(run, RunEvent::Renewed(Err(error))) == RunReport::RenewFailed
            &&& run_next(run, RunEvent::Renewed(Ok(false))).phase == RunPhase::Inspecting(
                LossPhase::Renewal,
            )
            &&& run_action(run, RunEvent::Renewed(Ok(false))) == RunAction::AbortAndInspect
            &&& run_report(run, RunEvent::Renewed(Ok(false))) == RunReport::Nothing
        },
{
}

/// What the handler came to is stored: its success, or its failure with the number of the attempt,
/// the attempts that are allowed and the message.
pub proof fn law_end_of_a_handler(run: JobRunView, message: String)
    requires
        run.phase == RunPhase::Handling,
        i32::MIN <= run.attempt <= i32::MAX,
        i32::MIN <= run.max_attempts <= i32::MAX,
    ensures
        run_next(run, RunEvent::HandlerFinished(Ok(()))).phase == RunPhase::Completing,
        run_action(run, RunEvent::HandlerFinished(Ok(()))) == RunAction::Complete,
        run_report(run, RunEvent::HandlerFinished(Ok(()))) == RunReport::Nothing,
        run_next(run, RunEvent::HandlerFinished(Err(message))).phase == RunPhase::Failing,
        run_report(run, RunEvent::HandlerFinished(Err(message))) == RunReport::Nothing,
        ({
            let action = run_action(run, RunEvent::HandlerFinished(Err(message)));
            &&& action is Fail
            &&& action->attempt == run.attempt
            &&& action->max_attempts == run.max_attempts
            &&& action->error == message
        }),
{
}

/// A run ends once what its handler came to is stored, or could not be. Where the lock is lost, it
/// looks at the job first, and ends then. At its end the claim loops are woken just where the job was
/// in a named queue, unless the lock was lost while its handler worked, or it had none.
pub proof fn law_end_of_a_run(
    run: JobRunView,
    stored: Result<bool, StoreError>,
    inspected: Result<Option<Job>, StoreError>,
    loss: LossPhase,
)
    ensures
        run.phase == RunPhase::Rejecting ==> {
            &&& run_next(run, RunEvent::Stored(stored)).phase == RunPhase::Done
            &&& run_action(run, RunEvent::Stored(stored)) == (RunAction::End { notify: false })
            &&& run_report(run, RunEvent::Stored(stored)) == if stored is Err {
                RunReport::RejectFailed
            } else {
                RunReport::Nothing
            }
        },
        run.phase == RunPhase::Completing || run.phase == RunPhase::Failing ==> {
            let next = run_next(run, RunEvent::Stored(stored));
            let action = run_action(run, RunEvent::Stored(stored));
            &&& stored != Ok::<bool, StoreError>(false) ==> next.phase == RunPhase::Done && action == (
            RunAction::End { notify: run.serial })
            &&& stored == Ok::<bool, StoreError>(false) ==> {
                &&& action == RunAction::Inspect
                &&& run_report(run, RunEvent::Stored(stored)) == RunReport::Nothing
                &&& run.phase == RunPhase::Completing ==> next.phase == RunPhase::Inspecting(
                    LossPhase::Completion,
                )
                &&& run.phase == RunPhase::Failing ==> next.phase == RunPhase::Inspecting(
                    LossPhase::FailureUpdate,
                )
            }
        },
        run.phase == RunPhase::Inspecting(loss) ==> {
            let action = run_action(run, RunEvent::Inspected(inspected));
            &&& run_next(run, RunEvent::Inspected(inspected)).phase == RunPhase::Done
            &&& action is End
            &&& action->notify <==> run.serial && loss != LossPhase::Renewal
        },
{
}

/// What is told of a run: that the job succeeded, or failed for good at its last attempt, or runs again
/// after its back-off; what the store refused; and what became of a job whose lock is lost.
pub proof fn law_reports_of_a_run(run: JobRunView, job: Job, error: StoreError, loss: LossPhase)
    ensures
        run.phase == RunPhase::Completing ==> {
            &&& run_report(run, RunEvent::Stored(Ok(true))) == RunReport::Succeeded
            &&& run_report(run, RunEvent::Stored(Err(error))) == RunReport::CompleteFailed
        },
        run.phase == RunPhase::Failing ==> {
            let told = run_report(run, RunEvent::Stored(Ok(true)));
            &&& told == RunReport::FailedPermanently <==> run.attempt >= run.max_attempts
            &&& run.attempt < run.max_attempts ==> told == (RunReport::WillRetry {
                backoff_micros: backoff_micros(run.attempt) as u64,
            })
            &&& run_report(run, RunEvent::Stored(Err(error))) == RunReport::FailFailed
            &&& told == failure_report_of(run.attempt, run.max_attempts, Ok(true))
        },
        run.phase == RunPhase::Inspecting(loss) ==> {
            let told = run_report(run, RunEvent::Inspected(Ok(Some(job))));
            &&& job.status == JobStatus::Succeeded || job.status == JobStatus::Failed || job.status
                == JobStatus::Cancelled ==> told == RunReport::FinishedElsewhere(job.status)
            &&& job.status == JobStatus::Queued || job.status == JobStatus::Running ==> told
                == RunReport::LockLost(job.status)
            &&& run_report(run, RunEvent::Inspected(Ok(None))) == RunReport::Disappeared
            &&& run_report(run, RunEvent::Inspected(Err(error))) == RunReport::InspectFailed
            &&& told == loss_report_of(Ok(Some(job)))
        },
{
}

/// Through a run, the number of the attempt, the attempts that are allowed, whether the job is in a
/// named queue, and the time between renewals stay. An event that a run does not wait for changes
/// nothing; none is waited for at the end.
pub proof fn law_what_stays_in_a_run(run: JobRunView, event: RunEvent)
    ensures
        run_next(run, event).attempt == run.attempt,
        run_next(run, event).max_attempts == run.max_attempts,
        run_next(run, event).serial == run.serial,
        run_next(run, event).renew_after == run.renew_after,
        run_action(run, event) == RunAction::Ignore ==> run_next(run, event) == run && run_report(
            run,
            event,
        ) == RunReport::Nothing,
        run.phase == RunPhase::Done ==> run_action(run, event) == RunAction::Ignore,
        event is HandlerFinished || event is RenewalDue ==> (run_action(run, event)
            != RunAction::Ignore <==> run.phase == RunPhase::Handling),
        event is Renewed ==> (run_action(run, event) != RunAction::Ignore <==> run.phase
            == RunPhase::Renewing),
        event is Stored ==> (run_action(run, event) != RunAction::Ignore <==> run.phase
            == RunPhase::Rejecting || run.phase == RunPhase::Completing || run.phase
            == RunPhase::Failing),
        event is Inspected ==> (run_action(run, event) != RunAction::Ignore <==> run.phase
            is Inspecting),
{
}

/// A worker begins with its registration, and runs once that is stored. Where it cannot be, it stops
/// with the refusal.
pub proof fn law_start_of_a_worker(worker: SupervisorView, grace: Duration, error: StoreError)
    ensures
        starting(grace).phase == Phase::Registering,
        starting(grace).grace == grace,
        starting(grace).failure is None,
        starting(grace).cleanup is None,
        worker.phase == Phase::Registering ==> {
            let done = supervise(worker, WorkerEvent::Registered(Ok(())));
            let refused = supervise(worker, WorkerEvent::Registered(Err(error)));
            &&& done.0.phase == Phase::Running
            &&& done.0.failure == worker.failure && done.0.cleanup == worker.cleanup
            &&& done.1 == WorkerAction::Run
            &&& refused.0.phase == Phase::Stopped
            &&& refused.1 == WorkerAction::Stop(Err(WorkerError::Database(error)))
        },
{
}

/// A running worker that is to shut down tells its loops, and gives them the grace period to end.
/// Where they cannot be told, or the period passes, they are aborted. A worker whose loop ends by
/// itself aborts the others, and stops for that reason: the panic, where there was one.
pub proof fn law_shutdown_of_a_worker(worker: SupervisorView, message: String)
    ensures
        worker.phase == Phase::Running ==> {
            let asked = supervise(worker, WorkerEvent::ShutdownRequested);
            let panicked = supervise(worker, WorkerEvent::LoopEnded(Some(Err(message))));
            let ended = supervise(worker, WorkerEvent::LoopEnded(Some(Ok(()))));
            let gone = supervise(worker, WorkerEvent::LoopEnded(None));
            &&& asked.0 == (SupervisorView { phase: Phase::Announcing, ..worker })
            &&& asked.1 == WorkerAction::AnnounceShutdown
            &&& panicked.1 == WorkerAction::AbortLoops
            &&& panicked.0 == (SupervisorView {
                phase: Phase::Aborting,
                failure: Some(WorkerError::LoopFailed(message)),
                ..worker
            })
            &&& ended.1 == WorkerAction::AbortLoops
            &&& ended.0 == (SupervisorView {
                phase: Phase::Aborting,
                failure: Some(WorkerError::LoopExited),
                ..worker
            })
            &&& gone == ended
        },
        worker.phase == Phase::Announcing ==> {
            let told = supervise(worker, WorkerEvent::Announced(true));
            let untold = supervise(worker, WorkerEvent::Announced(false));
            &&& told.0 == (SupervisorView { phase: Phase::Draining, ..worker })
            &&& told.1 == WorkerAction::DrainLoops(worker.grace)
            &&& untold.0 == (SupervisorView { phase: Phase::Aborting, ..worker })
            &&& untold.1 == WorkerAction::AbortLoops
        },
        worker.phase == Phase::Draining ==> {
            let drained = supervise(worker, WorkerEvent::Drained);
            let late = supervise(worker, WorkerEvent::GraceElapsed);
            &&& drained.0 == (SupervisorView { phase: Phase::Releasing, ..worker })
            &&& drained.1 == WorkerAction::ReleaseJobs
            &&& late.0 == (SupervisorView { phase: Phase::Aborting, ..worker })
            &&& late.1 == WorkerAction::AbortLoops
        },
        worker.phase == Phase::Aborting ==> {
            let aborted = supervise(worker, WorkerEvent::Aborted);
            &&& aborted.0 == (SupervisorView { phase: Phase::Releasing, ..worker })
            &&& aborted.1 == WorkerAction::ReleaseJobs
        },
{
}

/// A worker that was taken down releases its jobs and is deregistered, though the first fails. It
/// stops with what ended its run; where that was a shutdown, with what failed first after it; and
/// with success where nothing failed.
pub proof fn law_end_of_a_worker(
    worker: SupervisorView,
    released: Result<u64, StoreError>,
    deregistered: Result<(), StoreError>,
)
    requires
        worker.phase == Phase::Releasing,
        worker.cleanup is None,
    ensures
        ({
            let next = supervise(worker, WorkerEvent::Released(released));
            let last = supervise(next.0, WorkerEvent::Deregistered(deregistered));
            &&& next.0.phase == Phase::Deregistering
            &&& next.0.failure == worker.failure
            &&& next.1 == WorkerAction::Deregister
            &&& last.0.phase == Phase::Stopped
            &&& last.1 is Stop
            &&& worker.failure is Some ==> last.1->Stop_0 == Err::<(), WorkerError>(
                worker.failure->0,
            )
            &&& worker.failure is None && released is Err ==> last.1->Stop_0
                == Err::<(), WorkerError>(WorkerError::Database(released->Err_0))
            &&& worker.failure is None && released is Ok && deregistered is Err ==> last.1->Stop_0
                == Err::<(), WorkerError>(WorkerError::Database(deregistered->Err_0))
            &&& worker.failure is None && released is Ok && deregistered is Ok ==> last.1->Stop_0
                == Ok::<(), WorkerError>(())
        }),
{
}

/// An event that a worker does not wait for changes nothing.
pub proof fn law_unexpected_event_changes_nothing(worker: SupervisorView, event: WorkerEvent)
    ensures
        supervise(worker, event).1 == WorkerAction::Ignore ==> supervise(worker, event).0 == worker,
        supervise(worker, event).1 != WorkerAction::Ignore <==> {
            ||| worker.phase == Phase::Registering && event is Registered
            ||| worker.phase == Phase::Running && (event is ShutdownRequested || event is LoopEnded)
            ||| worker.phase == Phase::Announcing && event is Announced
            ||| worker.phase == Phase::Draining && (event is Drained || event is GraceElapsed)
            ||| worker.phase == Phase::Aborting && event is Aborted
            ||| worker.phase == Phase::Releasing && event is Released
            ||| worker.phase == Phase::Deregistering && event is Deregistered
        },
        supervise(worker, event).0.grace == worker.grace,
{
}

/// Why a worker stopped comes before what failed after that, and of that the first.
pub proof fn law_which_failure_counts(
    failure: WorkerError,
    first: StoreError,
    second: StoreError,
    message: String,
)
    ensures
        run_result(Some(failure), Some(first)) == Err::<(), WorkerError>(failure),
        run_result(Some(failure), None) == Err::<(), WorkerError>(failure),
        run_result(None, Some(first)) == Err::<(), WorkerError>(WorkerError::Database(first)),
        run_result(None, None) == Ok::<(), WorkerError>(()),
        first_failure::<u64>(Some(first), Err(second)) == Some(first),
        first_failure::<u64>(Some(first), Ok(0)) == Some(first),
        first_failure::<u64>(None, Err(second)) == Some(second),
        first_failure::<u64>(None, Ok(0)) is None,
        loop_failure(Some(Err(message))) == WorkerError::LoopFailed(message),
        loop_failure(Some(Ok(()))) == WorkerError::LoopExited,
        loop_failure(None) == WorkerError::LoopExited,
{
}

} // verus!
