//! What the loops of a worker decide between two waits.

use vstd::prelude::*;

use crate::config::WorkerConfig;
use crate::error::StoreError;
use crate::job::Job;
use crate::rows::CronEnqueueResult;
use crate::time::{least, Duration, NANOS_PER_SECOND};

verus! {

/// Whether the worker that runs the current job has begun shutting down. `current` is what its loops
/// were last told, and is missing outside of a handler.
pub fn is_shutting_down(current: Option<bool>) -> (shutting_down: bool)
    ensures
        shutting_down == (current == Some(true)),
{
    match current {
        Some(told) => told,
        None => false,
    }
}

/// What a handler that waits for a shutdown sees.
#[derive(Clone, Copy, Debug, PartialEq, Eq, Structural)]
pub enum ShutdownSignal {
    /// It is not run by a worker.
    NoWorker,
    /// What the worker last told its loops.
    Told(bool),
    /// The worker can tell its loops nothing any more.
    Closed,
}

/// Whether the wait for a shutdown is over. Outside of a handler it never is.
pub fn shutdown_wait_over(signal: ShutdownSignal) -> (over: bool)
    ensures
        over == (signal == ShutdownSignal::Told(true) || signal == ShutdownSignal::Closed),
{
    match signal {
        ShutdownSignal::NoWorker => false,
        ShutdownSignal::Told(shutting_down) => shutting_down,
        ShutdownSignal::Closed => true,
    }
}

/// What ended the wait of a loop.
#[derive(Clone, Copy, Debug, PartialEq, Eq, Structural)]
pub enum Wake {
    /// The loops were told something: whether the worker is shutting down.
    Told(bool),
    /// The worker can tell its loops nothing any more.
    Closed,
    /// The time to wait is over.
    Elapsed,
    /// There may be new work.
    Notified,
}

/// Whether a loop ends after a wait: the worker is shutting down, or gone.
pub open spec fn ends_loop(wake: Wake) -> bool {
    wake == Wake::Told(true) || wake == Wake::Closed
}

/// Whether a loop ends after a wait.
pub fn loop_ends(wake: Wake) -> (ends: bool)
    ensures
        ends == ends_loop(wake),
{
    match wake {
        Wake::Told(shutting_down) => shutting_down,
        Wake::Closed => true,
        Wake::Elapsed => false,
        Wake::Notified => false,
    }
}

/// What has happened to the heartbeat loop.
#[derive(Clone, Copy, Debug, PartialEq, Eq, Structural)]
pub enum HeartbeatEvent {
    /// It has begun.
    Begun,
    /// A wait was ended.
    Woken(Wake),
    /// It has reported, or could not.
    Reported,
}

/// What the heartbeat loop does next.
#[derive(Clone, Copy, Debug, PartialEq, Eq, Structural)]
pub enum HeartbeatAction {
    /// It waits for as long as this.
    Wait(Duration),
    /// It reports that the worker is alive.
    Report,
    /// It ends.
    End,
}

/// What the heartbeat loop of a worker does after an event. It waits before each report, the first
/// one too.
pub open spec fn heartbeat_action(event: HeartbeatEvent, config: WorkerConfig) -> HeartbeatAction {
    match event {
        HeartbeatEvent::Begun => HeartbeatAction::Wait(config.heartbeat_interval),
        HeartbeatEvent::Woken(wake) => if ends_loop(wake) {
            HeartbeatAction::End
        } else {
            HeartbeatAction::Report
        },
        HeartbeatEvent::Reported => HeartbeatAction::Wait(config.heartbeat_interval),
    }
}

/// Says what the heartbeat loop of a worker does after an event.
pub fn after_heartbeat_event(event: HeartbeatEvent, config: &WorkerConfig) -> (action:
    HeartbeatAction)
    ensures
        action == heartbeat_action(event, *config),
{
    match event {
        HeartbeatEvent::Begun => HeartbeatAction::Wait(config.heartbeat_interval),
        HeartbeatEvent::Woken(wake) => if loop_ends(wake) {
            HeartbeatAction::End
        } else {
            HeartbeatAction::Report
        },
        HeartbeatEvent::Reported => HeartbeatAction::Wait(config.heartbeat_interval),
    }
}

/// The steps of the recovery loop.
#[derive(Clone, Copy, Debug, PartialEq, Eq, Structural)]
pub enum RecoveryStep {
    /// Wait for as long as this.
    Wait(Duration),
    /// Requeue the jobs of workers that have been silent for longer than this.
    DeadWorkers(Duration),
    /// Requeue the jobs whose locks were renewed longer ago than this.
    StaleLocks(Duration),
    /// Delete jobs that finished longer ago than this.
    Prune(Duration),
    /// End the loop.
    End,
}

/// What came of a step of the recovery loop.
pub enum RecoveryEvent {
    /// A wait was ended.
    Woken(Wake),
    /// A number of jobs were requeued or deleted, or the store refused.
    Done(Result<u64, StoreError>),
}

/// What the recovery loop does after a step.
#[derive(Clone, Copy, Debug, PartialEq, Eq, Structural)]
pub struct RecoveryDecision {
    /// Whether the claim loops are woken, for there are jobs to claim.
    pub notify: bool,
    /// How many jobs to tell of in the log; none where nothing happened.
    pub told: Option<u64>,
    /// Whether the failure of the step is logged.
    pub failed: bool,
    /// The next step.
    pub next: RecoveryStep,
}

/// The step with which the recovery loop of a worker begins: it waits before each round, the first
/// one too.
pub open spec fn recovery_wait(config: WorkerConfig) -> RecoveryStep {
    RecoveryStep::Wait(config.recovery_interval)
}

/// The step of the recovery loop of a worker that follows another one.
pub open spec fn next_recovery_step(
    step: RecoveryStep,
    event: RecoveryEvent,
    config: WorkerConfig,
) -> RecoveryStep {
    match step {
        RecoveryStep::Wait(_) => match event {
            RecoveryEvent::Woken(wake) => if ends_loop(wake) {
                RecoveryStep::End
            } else {
                RecoveryStep::DeadWorkers(config.stale_after)
            },
            RecoveryEvent::Done(_) => RecoveryStep::DeadWorkers(config.stale_after),
        },
        RecoveryStep::DeadWorkers(_) => RecoveryStep::StaleLocks(config.stale_after),
        RecoveryStep::StaleLocks(_) => match config.finished_job_retention {
            Some(retention) => RecoveryStep::Prune(retention),
            None => recovery_wait(config),
        },
        RecoveryStep::Prune(_) => recovery_wait(config),
        RecoveryStep::End => RecoveryStep::End,
    }
}

/// What the recovery loop of a worker decides after a step. A step that fails does not keep the
/// others from being taken.
pub open spec fn recovery_decision(
    step: RecoveryStep,
    event: RecoveryEvent,
    config: WorkerConfig,
) -> RecoveryDecision {
    let requeues = step is DeadWorkers || step is StaleLocks;
    let works = requeues || step is Prune;
    let next = next_recovery_step(step, event, config);
    match event {
        RecoveryEvent::Done(Ok(count)) => RecoveryDecision {
            notify: requeues && count > 0,
            told: if works && count > 0 {
                Some(count)
            } else {
                None
            },
            failed: false,
            next,
        },
        RecoveryEvent::Done(Err(_)) => RecoveryDecision {
            notify: false,
            told: None,
            failed: works,
            next,
        },
        RecoveryEvent::Woken(_) => RecoveryDecision {
            notify: false,
            told: None,
            failed: false,
            next,
        },
    }
}

/// The step with which the recovery loop of a worker begins.
pub fn first_recovery_step(config: &WorkerConfig) -> (step: RecoveryStep)
    ensures
        step == recovery_wait(*config),
{
    RecoveryStep::Wait(config.recovery_interval)
}

/// Says what the recovery loop of a worker does after a step.
pub fn after_recovery_step(step: RecoveryStep, event: &RecoveryEvent, config: &WorkerConfig) -> (
    decision: RecoveryDecision)
    ensures
        decision == recovery_decision(step, *event, *config),
{
    let next = match step {
        RecoveryStep::Wait(_) => match event {
            RecoveryEvent::Woken(wake) => if loop_ends(*wake) {
                RecoveryStep::End
            } else {
                RecoveryStep::DeadWorkers(config.stale_after)
            },
            RecoveryEvent::Done(_) => RecoveryStep::DeadWorkers(config.stale_after),
        },
        RecoveryStep::DeadWorkers(_) => RecoveryStep::StaleLocks(config.stale_after),
        RecoveryStep::StaleLocks(_) => match config.finished_job_retention {
            Some(retention) => RecoveryStep::Prune(retention),
            None => first_recovery_step(config),
        },
        RecoveryStep::Prune(_) => first_recovery_step(config),
        RecoveryStep::End => RecoveryStep::End,
    };
    let requeues: bool = match step {
        RecoveryStep::DeadWorkers(_) => true,
        RecoveryStep::StaleLocks(_) => true,
        _ => false,
    };
    let works: bool = match step {
        RecoveryStep::Prune(_) => true,
        _ => requeues,
    };
    match event {
        RecoveryEvent::Done(Ok(count)) => RecoveryDecision {
            notify: requeues && *count > 0,
            told: if works && *count > 0 {
                Some(*count)
            } else {
                None
            },
            failed: false,
            next,
        },
        RecoveryEvent::Done(Err(_)) => RecoveryDecision {
            notify: false,
            told: None,
            failed: works,
            next,
        },
        RecoveryEvent::Woken(_) => RecoveryDecision {
            notify: false,
            told: None,
            failed: false,
            next,
        },
    }
}

/// The longest wait before another attempt to listen for notifications, in seconds.
pub const MAX_RECONNECT_SECONDS: u64 = 30;

/// What the listener loop is waiting for.
#[derive(Clone, Copy, Debug, PartialEq, Eq, Structural)]
pub enum ListenerPhase {
    /// That it connects and listens.
    Connecting,
    /// A notification.
    Listening,
    /// The time of another attempt.
    Waiting,
    /// Nothing more.
    Ended,
}

/// What has happened to the listener loop.
#[derive(Clone, Copy, Debug, PartialEq, Eq, Structural)]
pub enum ListenerEvent {
    /// Whether the worker is shutting down, which is looked at before each attempt.
    Checked(bool),
    /// It listens, or could not connect or listen.
    Connected(bool),
    /// A notification came, or the connection was lost.
    Received(bool),
    /// A wait was ended.
    Woken(Wake),
}

/// What the listener loop does next.
#[derive(Clone, Copy, Debug, PartialEq, Eq, Structural)]
pub enum ListenerAction {
    /// It looks whether the worker is shutting down.
    Check,
    /// It connects and listens.
    Connect,
    /// It wakes the claim loops, and waits for the next notification.
    NotifyAndReceive,
    /// It waits for the next notification.
    Receive,
    /// It waits before another attempt.
    Wait(Duration),
    /// It ends.
    End,
}

/// The listener loop between two events.
#[derive(Clone, Copy, Debug)]
pub struct Listener {
    phase: ListenerPhase,
    poll_interval: Duration,
    delay: Duration,
}

/// What a [`Listener`] holds: what it is waiting for, the time between two polls, and the next wait
/// before an attempt.
pub struct ListenerView {
    pub phase: ListenerPhase,
    pub poll_interval: int,
    pub delay: int,
}

impl View for Listener {
    type V = ListenerView;

    closed spec fn view(&self) -> ListenerView {
        ListenerView {
            phase: self.phase,
            poll_interval: self.poll_interval@,
            delay: self.delay@,
        }
    }
}

/// A wait before an attempt to listen, cut at the longest one.
pub open spec fn capped_delay(delay: int) -> int {
    least(delay, MAX_RECONNECT_SECONDS * NANOS_PER_SECOND)
}

/// The listener loop of a worker that polls at an interval, as it begins.
pub open spec fn listening_from(poll_interval: int) -> ListenerView {
    ListenerView {
        phase: ListenerPhase::Connecting,
        poll_interval,
        delay: capped_delay(poll_interval),
    }
}

/// What an event makes of the listener loop.
pub open spec fn listener_next(listener: ListenerView, event: ListenerEvent) -> ListenerView {
    match (listener.phase, event) {
        (ListenerPhase::Connecting, ListenerEvent::Checked(true)) => ListenerView {
            phase: ListenerPhase::Ended,
            ..listener
        },
        (ListenerPhase::Connecting, ListenerEvent::Connected(true)) => ListenerView {
            phase: ListenerPhase::Listening,
            delay: capped_delay(listener.poll_interval),
            ..listener
        },
        (ListenerPhase::Connecting, ListenerEvent::Connected(false)) => ListenerView {
            phase: ListenerPhase::Waiting,
            ..listener
        },
        (ListenerPhase::Listening, ListenerEvent::Received(false)) => ListenerView {
            phase: ListenerPhase::Waiting,
            ..listener
        },
        (ListenerPhase::Listening, ListenerEvent::Woken(wake)) => if ends_loop(wake) {
            ListenerView { phase: ListenerPhase::Ended, ..listener }
        } else {
            listener
        },
        (ListenerPhase::Waiting, ListenerEvent::Woken(wake)) => if ends_loop(wake) {
            ListenerView { phase: ListenerPhase::Ended, ..listener }
        } else {
            ListenerView {
                phase: ListenerPhase::Connecting,
                delay: capped_delay(2 * listener.delay),
                ..listener
            }
        },
        _ => listener,
    }
}

/// Whether an action is the one that follows an event: `before` is the loop before it, `after` the
/// loop after it.
pub open spec fn listener_acts(
    before: ListenerView,
    event: ListenerEvent,
    after: ListenerView,
    action: ListenerAction,
) -> bool {
    match after.phase {
        ListenerPhase::Ended => action is End,
        ListenerPhase::Waiting => action matches ListenerAction::Wait(delay) && delay@
            == after.delay,
        ListenerPhase::Listening => if event == ListenerEvent::Connected(true) || event
            == ListenerEvent::Received(true) {
            action is NotifyAndReceive
        } else {
            action is Receive
        },
        ListenerPhase::Connecting => if before.phase is Connecting && event
            == ListenerEvent::Checked(false) {
            action is Connect
        } else {
            action is Check
        },
    }
}

impl Listener {
    /// The listener loop of a worker that polls at an interval.
    pub fn new(poll_interval: Duration) -> (listener: Self)
        ensures
            listener@ == listening_from(poll_interval@),
    {
        Listener {
            phase: ListenerPhase::Connecting,
            poll_interval,
            delay: poll_interval.shorter(Duration::from_secs(MAX_RECONNECT_SECONDS)),
        }
    }

    /// Takes in an event, and says what the loop does next.
    pub fn handle(self, event: ListenerEvent) -> (next: (Self, ListenerAction))
        ensures
            next.0@ == listener_next(self@, event),
            listener_acts(self@, event, next.0@, next.1),
    {
        let longest: Duration = Duration::from_secs(MAX_RECONNECT_SECONDS);
        match self.phase {
            ListenerPhase::Connecting => match event {
                ListenerEvent::Checked(shutting_down) => if shutting_down {
                    (Listener { phase: ListenerPhase::Ended, ..self }, ListenerAction::End)
                } else {
                    (self, ListenerAction::Connect)
                },
                ListenerEvent::Connected(listening) => if listening {
                    (
                        Listener {
                            phase: ListenerPhase::Listening,
                            poll_interval: self.poll_interval,
                            delay: self.poll_interval.shorter(longest),
                        },
                        ListenerAction::NotifyAndReceive,
                    )
                } else {
                    (
                        Listener { phase: ListenerPhase::Waiting, ..self },
                        ListenerAction::Wait(self.delay),
                    )
                },
                _ => (self, ListenerAction::Check),
            },
            ListenerPhase::Listening => match event {
                ListenerEvent::Received(notified) => if notified {
                    (self, ListenerAction::NotifyAndReceive)
                } else {
                    (
                        Listener { phase: ListenerPhase::Waiting, ..self },
                        ListenerAction::Wait(self.delay),
                    )
                },
                ListenerEvent::Woken(wake) => if loop_ends(wake) {
                    (Listener { phase: ListenerPhase::Ended, ..self }, ListenerAction::End)
                } else {
                    (self, ListenerAction::Receive)
                },
                ListenerEvent::Connected(true) => (self, ListenerAction::NotifyAndReceive),
                _ => (self, ListenerAction::Receive),
            },
            ListenerPhase::Waiting => match event {
                ListenerEvent::Woken(wake) => if loop_ends(wake) {
                    (Listener { phase: ListenerPhase::Ended, ..self }, ListenerAction::End)
                } else {
                    (
                        Listener {
                            phase: ListenerPhase::Connecting,
                            poll_interval: self.poll_interval,
                            delay: self.delay.saturating_double().shorter(longest),
                        },
                        ListenerAction::Check,
                    )
                },
                _ => (self, ListenerAction::Wait(self.delay)),
            },
            ListenerPhase::Ended => (self, ListenerAction::End),
        }
    }
}

/// What has happened to a claim loop.
pub enum ClaimEvent {
    /// Whether the worker is shutting down, which is looked at before each claim.
    Checked(bool),
    /// A job was claimed, or there was none, or the store refused.
    Claimed(Result<Option<Job>, StoreError>),
    /// The claimed job was run.
    JobDone,
    /// A wait was ended.
    Woken(Wake),
}

/// What a claim loop does next.
pub enum ClaimAction {
    /// It looks whether the worker is shutting down.
    Check,
    /// It takes note of notifications from now on, and claims a job.
    Claim,
    /// It runs a job.
    Run(Job),
    /// It waits for a notification, but no longer than this.
    WaitForWork(Duration),
    /// It waits for as long as this, after the store has refused.
    WaitAfterError(StoreError, Duration),
    /// It ends.
    End,
}

/// What a claim loop of a worker does after an event. It claims no job once it has seen that the
/// worker is shutting down.
pub open spec fn claim_action(event: ClaimEvent, config: WorkerConfig) -> ClaimAction {
    match event {
        ClaimEvent::Checked(shutting_down) => if shutting_down {
            ClaimAction::End
        } else {
            ClaimAction::Claim
        },
        ClaimEvent::Claimed(Ok(Some(job))) => ClaimAction::Run(job),
        ClaimEvent::Claimed(Ok(None)) => ClaimAction::WaitForWork(config.poll_interval),
        ClaimEvent::Claimed(Err(error)) => ClaimAction::WaitAfterError(error, config.poll_interval),
        ClaimEvent::JobDone => ClaimAction::Check,
        ClaimEvent::Woken(wake) => if ends_loop(wake) {
            ClaimAction::End
        } else {
            ClaimAction::Check
        },
    }
}

/// Says what a claim loop of a worker does after an event.
pub fn after_claim_event(event: ClaimEvent, config: &WorkerConfig) -> (action: ClaimAction)
    ensures
        action == claim_action(event, *config),
{
    match event {
        ClaimEvent::Checked(shutting_down) => if shutting_down {
            ClaimAction::End
        } else {
            ClaimAction::Claim
        },
        ClaimEvent::Claimed(claimed) => match claimed {
            Ok(Some(job)) => ClaimAction::Run(job),
            Ok(None) => ClaimAction::WaitForWork(config.poll_interval),
            Err(error) => ClaimAction::WaitAfterError(error, config.poll_interval),
        },
        ClaimEvent::JobDone => ClaimAction::Check,
        ClaimEvent::Woken(wake) => if loop_ends(wake) {
            ClaimAction::End
        } else {
            ClaimAction::Check
        },
    }
}

/// What is told of an attempt to enqueue an occurrence of a schedule.
#[derive(Clone, Copy, Debug, PartialEq, Eq, Structural)]
pub enum CronReport {
    /// A job was enqueued; the claim loops are woken.
    Enqueued(u128),
    /// An unfinished job held the job key.
    AlreadyQueued(u128),
    /// Nothing is told.
    Nothing,
    /// The store refused.
    Failed,
}

/// What is told of an attempt to enqueue an occurrence of a schedule.
pub open spec fn cron_report_of(outcome: Result<CronEnqueueResult, StoreError>) -> CronReport {
    match outcome {
        Ok(CronEnqueueResult::Enqueued(id)) => CronReport::Enqueued(id),
        Ok(CronEnqueueResult::AlreadyQueued(id)) => CronReport::AlreadyQueued(id),
        Ok(CronEnqueueResult::Skipped) => CronReport::Nothing,
        Err(_) => CronReport::Failed,
    }
}

/// Says what is told of an attempt to enqueue an occurrence of a schedule.
pub fn cron_report(outcome: &Result<CronEnqueueResult, StoreError>) -> (report: CronReport)
    ensures
        report == match *outcome {
            Ok(CronEnqueueResult::Enqueued(id)) => CronReport::Enqueued(id),
            Ok(CronEnqueueResult::AlreadyQueued(id)) => CronReport::AlreadyQueued(id),
            Ok(CronEnqueueResult::Skipped) => CronReport::Nothing,
            Err(_) => CronReport::Failed,
        },
        report == cron_report_of(*outcome),
{
    match outcome {
        Ok(CronEnqueueResult::Enqueued(id)) => CronReport::Enqueued(*id),
        Ok(CronEnqueueResult::AlreadyQueued(id)) => CronReport::AlreadyQueued(*id),
        Ok(CronEnqueueResult::Skipped) => CronReport::Nothing,
        Err(_) => CronReport::Failed,
    }
}

/// What has happened to the cron loop.
#[derive(Clone, Copy, Debug, PartialEq, Eq, Structural)]
pub enum CronEvent {
    /// Whether the worker is shutting down, which is looked at before each round.
    Checked(bool),
    /// It has tried to enqueue every occurrence that was due.
    Enqueued,
    /// A wait was ended.
    Woken(Wake),
}

/// What the cron loop does next.
#[derive(Clone, Copy, Debug, PartialEq, Eq, Structural)]
pub enum CronAction {
    /// It looks whether the worker is shutting down.
    Check,
    /// It enqueues the occurrences that are due.
    Enqueue,
    /// It waits for as long as this.
    Wait(Duration),
    /// It ends.
    End,
}

/// What the cron loop of a worker does after an event.
pub open spec fn cron_action(event: CronEvent, config: WorkerConfig) -> CronAction {
    match event {
        CronEvent::Checked(shutting_down) => if shutting_down {
            CronAction::End
        } else {
            CronAction::Enqueue
        },
        CronEvent::Enqueued => CronAction::Wait(config.cron_poll_interval),
        CronEvent::Woken(wake) => if ends_loop(wake) {
            CronAction::End
        } else {
            CronAction::Check
        },
    }
}

/// Says what the cron loop of a worker does after an event.
pub fn after_cron_event(event: CronEvent, config: &WorkerConfig) -> (action: CronAction)
    ensures
        action == cron_action(event, *config),
{
    match event {
        CronEvent::Checked(shutting_down) => if shutting_down {
            CronAction::End
        } else {
            CronAction::Enqueue
        },
        CronEvent::Enqueued => CronAction::Wait(config.cron_poll_interval),
        CronEvent::Woken(wake) => if loop_ends(wake) {
            CronAction::End
        } else {
            CronAction::Check
        },
    }
}

/// The listener loop never waits longer than thirty seconds before another attempt, and every wait
/// that follows a failed attempt is twice as long as the one before, up to that.
pub proof fn law_listener_backs_off(listener: ListenerView, event: ListenerEvent)
    requires
        0 <= listener.delay <= MAX_RECONNECT_SECONDS * NANOS_PER_SECOND,
        0 <= listener.poll_interval,
    ensures
        0 <= listener_next(listener, event).delay <= MAX_RECONNECT_SECONDS * NANOS_PER_SECOND,
        listener.phase is Waiting && listener_next(listener, event).phase is Connecting
            ==> listener_next(listener, event).delay == least(
            2 * listener.delay,
            MAX_RECONNECT_SECONDS * NANOS_PER_SECOND,
        ),
        listener_next(listener, event).phase is Listening && !(listener.phase is Listening)
            ==> listener_next(listener, event).delay == capped_delay(listener.poll_interval),
{
}

/// A listener loop that has listened again wakes the claim loops, so that notifications missed in
/// between are made up for.
pub proof fn law_listening_again_wakes_claim_loops(
    before: ListenerView,
    event: ListenerEvent,
    action: ListenerAction,
)
    requires
        listener_acts(before, event, listener_next(before, event), action),
        !(before.phase is Listening),
        listener_next(before, event).phase is Listening,
    ensures
        action is NotifyAndReceive,
{
}

/// A loop that has seen that the worker is shutting down, or that the worker is gone, ends: it
/// neither claims nor enqueues a job, and does not wait again.
pub proof fn law_shutdown_ends_the_loops(wake: Wake, config: WorkerConfig)
    ensures
        claim_action(ClaimEvent::Checked(true), config) is End,
        cron_action(CronEvent::Checked(true), config) is End,
        ends_loop(wake) ==> {
            &&& claim_action(ClaimEvent::Woken(wake), config) is End
            &&& cron_action(CronEvent::Woken(wake), config) is End
            &&& heartbeat_action(HeartbeatEvent::Woken(wake), config) is End
            &&& next_recovery_step(recovery_wait(config), RecoveryEvent::Woken(wake), config) is End
        },
{
}

/// A round of the recovery loop that nothing ends looks for dead workers and for stale locks, both
/// by the time after which they count as such, then deletes old jobs where some time is set for
/// that, and waits for the next round, whatever comes of a step.
pub proof fn law_recovery_goes_round(
    wake: Wake,
    dead: Result<u64, StoreError>,
    stale: Result<u64, StoreError>,
    pruned: Result<u64, StoreError>,
    config: WorkerConfig,
)
    requires
        !ends_loop(wake),
    ensures
        ({
            let first = next_recovery_step(
                recovery_wait(config),
                RecoveryEvent::Woken(wake),
                config,
            );
            let second = next_recovery_step(first, RecoveryEvent::Done(dead), config);
            let third = next_recovery_step(second, RecoveryEvent::Done(stale), config);
            &&& first == RecoveryStep::DeadWorkers(config.stale_after)
            &&& second == RecoveryStep::StaleLocks(config.stale_after)
            &&& match config.finished_job_retention {
                Some(retention) => {
                    &&& third == RecoveryStep::Prune(retention)
                    &&& next_recovery_step(third, RecoveryEvent::Done(pruned), config)
                        == recovery_wait(config)
                },
                None => third == recovery_wait(config),
            }
        }),
{
}

} // verus!
