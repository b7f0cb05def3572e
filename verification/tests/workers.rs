use pgspawn::claimed::{
    failure_report, handler_result, loss_report, JobRun, LossPhase, RunAction, RunEvent, RunReport,
};
use pgspawn::loops::{
    after_claim_event, after_cron_event, after_heartbeat_event, after_recovery_step, cron_report,
    first_recovery_step, is_shutting_down, loop_ends, shutdown_wait_over, ClaimAction, ClaimEvent,
    CronAction, CronEvent, CronReport, HeartbeatAction, HeartbeatEvent, Listener, ListenerAction,
    ListenerEvent, RecoveryEvent, RecoveryStep, ShutdownSignal, Wake,
};
use pgspawn::reply::{is_unique_violation, settle_claim};
use pgspawn::supervisor::{Phase, Supervisor, WorkerAction, WorkerEvent};
use pgspawn::worker::{lock_owner, WorkerLoop};
use pgspawn::{
    CronEnqueueResult, CronJob, DailyJobSchedule, DatabaseError, Duration, HandlerError, Job,
    JobStatus, Registry, StoreError, Timestamp, Worker, WorkerConfig, WorkerError,
};

fn job(queue_name: Option<&str>, attempt: i32, max_attempts: i32, status: JobStatus) -> Job {
    let now = Timestamp::from_second(0).unwrap();
    Job {
        id: 7,
        name: "test".to_owned(),
        status,
        payload: serde_json::Value::Null,
        queue_name: queue_name.map(str::to_owned),
        priority: 0,
        run_at: now,
        job_key: None,
        attempt,
        max_attempts,
        locked_by: None,
        locked_at: None,
        error: None,
        queued_at: now,
        started_at: None,
        finished_at: None,
        created_at: now,
        updated_at: now,
    }
}

fn start(job: &Job, has_handler: bool) -> (JobRun, RunAction, RunReport) {
    JobRun::start(job, has_handler, Duration::from_secs(30))
}

fn refused(code: &str, constraint: &str) -> StoreError {
    StoreError::Database(DatabaseError {
        code: Some(code.to_owned()),
        constraint: Some(constraint.to_owned()),
        message: "refused".to_owned(),
    })
}

fn valid() -> WorkerConfig {
    WorkerConfig::default()
}

fn problem(config: WorkerConfig) -> &'static str {
    match config.validate() {
        Err(WorkerError::InvalidConfig(message)) => message,
        _ => panic!("the configuration should be refused"),
    }
}

#[test]
fn worker_config_defaults_renew_locks_before_stale_recovery() {
    let config = WorkerConfig::default();

    assert!(config.lock_renew_interval < config.stale_after);
    assert!(!config.shutdown_grace_period.is_zero());
}

#[test]
fn worker_config_rejects_zero_concurrency() {
    let config = WorkerConfig {
        concurrency: 0,
        ..WorkerConfig::default()
    };

    assert!(matches!(
        config.validate(),
        Err(WorkerError::InvalidConfig(
            "concurrency must be greater than zero"
        ))
    ));
}

#[test]
fn worker_config_names_each_problem() {
    let zero = Duration::from_secs(0);
    assert!(valid().validate().is_ok());
    assert_eq!(
        problem(WorkerConfig { poll_interval: zero, ..valid() }),
        "poll_interval must be greater than zero"
    );
    assert_eq!(
        problem(WorkerConfig { cron_poll_interval: zero, ..valid() }),
        "cron_poll_interval must be greater than zero"
    );
    assert_eq!(
        problem(WorkerConfig { heartbeat_interval: zero, ..valid() }),
        "heartbeat_interval must be greater than zero"
    );
    assert_eq!(
        problem(WorkerConfig { lock_renew_interval: zero, ..valid() }),
        "lock_renew_interval must be greater than zero"
    );
    assert_eq!(
        problem(WorkerConfig { recovery_interval: zero, ..valid() }),
        "recovery_interval must be greater than zero"
    );
    assert_eq!(
        problem(WorkerConfig { stale_after: Duration::from_secs(15), ..valid() }),
        "stale_after must be greater than heartbeat_interval"
    );
    assert_eq!(
        problem(WorkerConfig { stale_after: Duration::from_secs(30), ..valid() }),
        "stale_after must be greater than lock_renew_interval"
    );
    assert!(WorkerConfig { stale_after: Duration::from_millis(30_001), ..valid() }
        .validate()
        .is_ok());
    assert!(WorkerConfig { shutdown_grace_period: zero, ..valid() }.validate().is_ok());
}

#[test]
fn default_worker_ids_are_random() {
    let one = WorkerConfig::default();
    let other = WorkerConfig::default();
    assert!(one.worker_id.starts_with("pgspawn_"));
    assert_eq!(one.worker_id.len(), "pgspawn_".len() + 36);
    assert_ne!(one.worker_id, other.worker_id);
    let id: uuid::Uuid = one.worker_id["pgspawn_".len()..].parse().expect("an id");
    assert_eq!(id.get_version_num(), 4);
    assert_eq!(one.concurrency, 4);
    assert_eq!(one.poll_interval, Duration::from_secs(2));
    assert_eq!(one.finished_job_retention, Some(Duration::from_secs(2_592_000)));
}

#[test]
fn ids_are_written_with_hyphens() {
    let config = WorkerConfig::with_id(0x0123_4567_89ab_cdef_fedc_ba98_7654_3210);
    assert_eq!(config.worker_id, "pgspawn_01234567-89ab-cdef-fedc-ba9876543210");
    assert_eq!(
        lock_owner("worker", 10, 1),
        "worker:10:00000000-0000-0000-0000-000000000001"
    );
    assert_eq!(
        lock_owner("", 0, u128::MAX),
        ":0:ffffffff-ffff-ffff-ffff-ffffffffffff"
    );
}

#[test]
fn registry_keeps_the_last_handler_of_a_name() {
    let registry = Registry::builder()
        .register("a", 1)
        .register("b", 2)
        .register("a", 3)
        .build();
    assert_eq!(registry.get("a"), Some(&3));
    assert_eq!(registry.get("b"), Some(&2));
    assert_eq!(registry.get("c"), None);
    let mut names = registry.names();
    names.sort();
    assert_eq!(names, vec!["a".to_owned(), "b".to_owned()]);
}

#[test]
fn handler_errors_carry_a_message() {
    assert_eq!(HandlerError::new("boom").to_string(), "boom");
    assert_eq!(HandlerError::lift::<u8>(Ok(4)).unwrap(), 4);
    let failed = HandlerError::lift::<u8>(Err("missing field `value`".to_owned()));
    assert_eq!(failed.unwrap_err().to_string(), "missing field `value`");
}

#[test]
fn the_end_of_a_handler_is_its_result() {
    assert_eq!(handler_result(Ok(Ok(()))), Ok(()));
    assert_eq!(
        handler_result(Ok(Err(HandlerError::new("boom")))),
        Err("boom".to_owned())
    );
    assert_eq!(handler_result(Err("panicked".to_owned())), Err("panicked".to_owned()));
}

fn worker(names: &[&str], crons: Vec<CronJob>) -> Worker<u8> {
    let mut builder = Registry::builder();
    for name in names {
        builder = builder.register(name, 0);
    }
    Worker::new(builder.build()).with_crons(crons)
}

#[test]
fn a_worker_checks_what_it_needs_to_start() {
    assert!(matches!(worker(&[], vec![]).check(), Err(WorkerError::EmptyRegistry)));
    let config = WorkerConfig { concurrency: 0, ..WorkerConfig::default() };
    assert!(matches!(
        worker(&[], vec![]).with_config(config).check(),
        Err(WorkerError::InvalidConfig(_))
    ));
    let tick = || CronJob::interval("tick", "tick", Duration::from_secs(1));
    match worker(&["other"], vec![tick()]).check() {
        Err(WorkerError::MissingCronHandler(name)) => assert_eq!(name, "tick"),
        _ => panic!("the handler is missing"),
    }
    match worker(&["tick"], vec![tick(), tick()]).check() {
        Err(WorkerError::DuplicateCronIdentifier(identifier)) => assert_eq!(identifier, "tick"),
        _ => panic!("the identifier is repeated"),
    }
    let daily = CronJob::daily_utc("noon", "tick", DailyJobSchedule::new(12, 0));
    assert_eq!(
        worker(&["tick"], vec![tick(), daily]).check().unwrap(),
        vec!["tick".to_owned()]
    );
}

#[test]
fn a_worker_runs_one_loop_of_each_kind_and_many_claim_loops() {
    let config = WorkerConfig { concurrency: 2, ..WorkerConfig::default() };
    assert_eq!(
        worker(&["a"], vec![]).with_config(config.clone()).loops(),
        vec![
            WorkerLoop::Heartbeat,
            WorkerLoop::Recovery,
            WorkerLoop::Listener,
            WorkerLoop::Claim(0),
            WorkerLoop::Claim(1),
        ]
    );
    let cron = CronJob::interval("a", "a", Duration::from_secs(1));
    assert!(worker(&["a"], vec![cron])
        .with_config(config)
        .loops()
        .contains(&WorkerLoop::Cron));
}

#[test]
fn intervals_shorter_than_the_poll_are_pointed_out() {
    let crons = vec![
        CronJob::interval("short", "a", Duration::from_secs(29)),
        CronJob::interval("long", "a", Duration::from_secs(30)),
        CronJob::daily_utc("day", "a", DailyJobSchedule::new(0, 0)),
        CronJob::interval("shorter", "a", Duration::from_secs(1)),
    ];
    assert_eq!(worker(&["a"], crons).too_frequent(), vec![0, 3]);
}

#[test]
fn occurrences_are_due_by_the_clock() {
    let before = jiff::Timestamp::now().as_second();
    let cron = CronJob::interval("second", "a", Duration::from_secs(1));
    let round = worker(&["a"], vec![cron]).due_now();
    let after = jiff::Timestamp::now().as_second();
    assert_eq!(round.due.len(), 1);
    let due = round.due[0].due_at.as_second();
    assert!(before <= due && due <= after);
}

#[test]
fn lock_owners_name_their_worker_and_differ() {
    let worker = worker(&["a"], vec![]);
    let id = worker.config().worker_id.clone();
    let one = worker.new_lock_owner(0);
    let other = worker.new_lock_owner(0);
    assert!(one.starts_with(&format!("{id}:0:")));
    assert_ne!(one, other);
}

const GRACE: u64 = 12;

fn starting() -> Supervisor {
    Supervisor::new(Duration::from_secs(GRACE))
}

/// A configuration whose spans all differ.
fn spans() -> WorkerConfig {
    WorkerConfig {
        poll_interval: Duration::from_secs(3),
        cron_poll_interval: Duration::from_secs(4),
        heartbeat_interval: Duration::from_secs(5),
        lock_renew_interval: Duration::from_secs(6),
        stale_after: Duration::from_secs(7),
        recovery_interval: Duration::from_secs(8),
        shutdown_grace_period: Duration::from_secs(9),
        finished_job_retention: Some(Duration::from_secs(60)),
        ..WorkerConfig::default()
    }
}

#[test]
fn a_worker_runs_by_its_own_configuration() {
    let worker = worker(&["test"], vec![]).with_config(spans());

    let (state, _) = worker.supervisor().handle(WorkerEvent::Registered(Ok(())));
    let (state, _) = state.handle(WorkerEvent::ShutdownRequested);
    match state.handle(WorkerEvent::Announced(true)).1 {
        WorkerAction::DrainLoops(grace) => assert_eq!(grace, Duration::from_secs(9)),
        _ => panic!("the loops are drained"),
    }

    let (_, action) = worker.listener().handle(ListenerEvent::Connected(false));
    assert_eq!(action, ListenerAction::Wait(Duration::from_secs(3)));

    let (_, action, report) = worker.start_run(&job(None, 1, 2, JobStatus::Running));
    match action {
        RunAction::StartHandler(span) => assert_eq!(span, Duration::from_secs(6)),
        _ => panic!("the handler is started"),
    }
    assert_eq!(report, RunReport::Started);
    let other = Job { name: "other".to_owned(), ..job(None, 1, 2, JobStatus::Running) };
    assert!(matches!(worker.start_run(&other).1, RunAction::Fail { .. }));
}

#[test]
fn a_requested_shutdown_drains_and_cleans_up() {
    let (worker, action) = starting().handle(WorkerEvent::Registered(Ok(())));
    assert!(matches!(action, WorkerAction::Run));
    let (worker, action) = worker.handle(WorkerEvent::ShutdownRequested);
    assert!(matches!(action, WorkerAction::AnnounceShutdown));
    let (worker, action) = worker.handle(WorkerEvent::Announced(true));
    match action {
        WorkerAction::DrainLoops(grace) => assert_eq!(grace, Duration::from_secs(GRACE)),
        _ => panic!("the loops are drained"),
    }
    let (worker, action) = worker.handle(WorkerEvent::Drained);
    assert!(matches!(action, WorkerAction::ReleaseJobs));
    let (worker, action) = worker.handle(WorkerEvent::Released(Ok(2)));
    assert!(matches!(action, WorkerAction::Deregister));
    let (worker, action) = worker.handle(WorkerEvent::Deregistered(Ok(())));
    assert!(matches!(action, WorkerAction::Stop(Ok(()))));
    assert_eq!(worker.phase(), Phase::Stopped);
}

#[test]
fn a_grace_period_that_passes_aborts_the_loops() {
    let (worker, _) = starting().handle(WorkerEvent::Registered(Ok(())));
    let (worker, _) = worker.handle(WorkerEvent::ShutdownRequested);
    let (worker, _) = worker.handle(WorkerEvent::Announced(true));
    let (worker, action) = worker.handle(WorkerEvent::GraceElapsed);
    assert!(matches!(action, WorkerAction::AbortLoops));
    let (worker, action) = worker.handle(WorkerEvent::Aborted);
    assert!(matches!(action, WorkerAction::ReleaseJobs));
    assert_eq!(worker.phase(), Phase::Releasing);
}

#[test]
fn the_failure_of_a_loop_outlives_failures_of_the_cleanup() {
    let (worker, _) = starting().handle(WorkerEvent::Registered(Ok(())));
    let (worker, action) = worker.handle(WorkerEvent::LoopEnded(Some(Err("panicked".to_owned()))));
    assert!(matches!(action, WorkerAction::AbortLoops));
    let (worker, _) = worker.handle(WorkerEvent::Aborted);
    let (worker, _) = worker.handle(WorkerEvent::Released(Err(StoreError::DuplicateId)));
    let (_, action) = worker.handle(WorkerEvent::Deregistered(Err(StoreError::JobKeyHeld)));
    match action {
        WorkerAction::Stop(Err(WorkerError::LoopFailed(message))) => assert_eq!(message, "panicked"),
        _ => panic!("the loop failed"),
    }
}

#[test]
fn the_first_failure_of_the_cleanup_is_returned() {
    let stop = |released: Result<u64, StoreError>, deregistered: Result<(), StoreError>| {
        let (worker, _) = starting().handle(WorkerEvent::Registered(Ok(())));
        let (worker, _) = worker.handle(WorkerEvent::ShutdownRequested);
        let (worker, action) = worker.handle(WorkerEvent::Announced(false));
        assert!(matches!(action, WorkerAction::AbortLoops));
        let (worker, _) = worker.handle(WorkerEvent::Aborted);
        let (worker, _) = worker.handle(WorkerEvent::Released(released));
        worker.handle(WorkerEvent::Deregistered(deregistered)).1
    };
    assert!(matches!(
        stop(Err(StoreError::DuplicateId), Err(StoreError::JobKeyHeld)),
        WorkerAction::Stop(Err(WorkerError::Database(StoreError::DuplicateId)))
    ));
    assert!(matches!(
        stop(Ok(0), Err(StoreError::JobKeyHeld)),
        WorkerAction::Stop(Err(WorkerError::Database(StoreError::JobKeyHeld)))
    ));
}

#[test]
fn a_loop_that_ends_by_itself_ends_the_worker() {
    for outcome in [None, Some(Ok(()))] {
        let (worker, _) = starting().handle(WorkerEvent::Registered(Ok(())));
        let (worker, _) = worker.handle(WorkerEvent::LoopEnded(outcome));
        let (worker, _) = worker.handle(WorkerEvent::Aborted);
        let (worker, _) = worker.handle(WorkerEvent::Released(Ok(0)));
        let (_, action) = worker.handle(WorkerEvent::Deregistered(Ok(())));
        assert!(matches!(action, WorkerAction::Stop(Err(WorkerError::LoopExited))));
    }
}

#[test]
fn a_worker_that_cannot_register_stops() {
    let (worker, action) =
        starting().handle(WorkerEvent::Registered(Err(StoreError::DuplicateId)));
    assert!(matches!(
        action,
        WorkerAction::Stop(Err(WorkerError::Database(StoreError::DuplicateId)))
    ));
    let (worker, action) = worker.handle(WorkerEvent::Drained);
    assert!(matches!(action, WorkerAction::Ignore));
    assert_eq!(worker.phase(), Phase::Stopped);
}

#[test]
fn shutdown_helpers_are_inert_outside_a_handler() {
    assert!(!is_shutting_down(None));
    assert!(!shutdown_wait_over(ShutdownSignal::NoWorker));
    assert!(is_shutting_down(Some(true)));
    assert!(!is_shutting_down(Some(false)));
    assert!(shutdown_wait_over(ShutdownSignal::Told(true)));
    assert!(!shutdown_wait_over(ShutdownSignal::Told(false)));
    assert!(shutdown_wait_over(ShutdownSignal::Closed));
}

#[test]
fn loops_end_when_the_worker_shuts_down_or_is_gone() {
    assert!(loop_ends(Wake::Told(true)));
    assert!(loop_ends(Wake::Closed));
    assert!(!loop_ends(Wake::Told(false)));
    assert!(!loop_ends(Wake::Elapsed));
    assert!(!loop_ends(Wake::Notified));
}

#[test]
fn the_heartbeat_loop_waits_and_reports_in_turn() {
    let after = |event| after_heartbeat_event(event, &spans());
    let wait = HeartbeatAction::Wait(Duration::from_secs(5));
    assert_eq!(after(HeartbeatEvent::Begun), wait);
    assert_eq!(after(HeartbeatEvent::Woken(Wake::Elapsed)), HeartbeatAction::Report);
    assert_eq!(after(HeartbeatEvent::Reported), wait);
    assert_eq!(after(HeartbeatEvent::Woken(Wake::Closed)), HeartbeatAction::End);
    assert_eq!(after(HeartbeatEvent::Woken(Wake::Told(true))), HeartbeatAction::End);
}

#[test]
fn the_cron_loop_enqueues_and_waits_in_turn() {
    let after = |event| after_cron_event(event, &spans());
    assert_eq!(after(CronEvent::Checked(true)), CronAction::End);
    assert_eq!(after(CronEvent::Checked(false)), CronAction::Enqueue);
    assert_eq!(after(CronEvent::Enqueued), CronAction::Wait(Duration::from_secs(4)));
    assert_eq!(after(CronEvent::Woken(Wake::Elapsed)), CronAction::Check);
    assert_eq!(after(CronEvent::Woken(Wake::Told(true))), CronAction::End);
}

#[test]
fn recovery_takes_its_steps_in_turn() {
    let config = spans();
    let wait = RecoveryStep::Wait(Duration::from_secs(8));
    let woken = |wake| RecoveryEvent::Woken(wake);
    let done = |count| RecoveryEvent::Done(Ok(count));
    assert_eq!(first_recovery_step(&config), wait);
    let ended = after_recovery_step(wait, &woken(Wake::Closed), &config);
    assert_eq!(ended.next, RecoveryStep::End);
    let waited = after_recovery_step(wait, &woken(Wake::Elapsed), &config);
    assert!(!waited.notify && waited.told.is_none() && !waited.failed);
    assert_eq!(waited.next, RecoveryStep::DeadWorkers(Duration::from_secs(7)));
    let dead = after_recovery_step(waited.next, &done(2), &config);
    assert!(dead.notify);
    assert_eq!(dead.told, Some(2));
    assert_eq!(dead.next, RecoveryStep::StaleLocks(Duration::from_secs(7)));
    let refused = RecoveryEvent::Done(Err(StoreError::JobKeyHeld));
    let stale = after_recovery_step(dead.next, &refused, &config);
    assert!(!stale.notify && stale.failed);
    assert_eq!(stale.next, RecoveryStep::Prune(Duration::from_secs(60)));
    let pruned = after_recovery_step(stale.next, &done(3), &config);
    assert!(!pruned.notify);
    assert_eq!(pruned.told, Some(3));
    assert_eq!(pruned.next, wait);
    let forever = WorkerConfig { finished_job_retention: None, ..spans() };
    let kept = after_recovery_step(dead.next, &done(0), &forever);
    assert_eq!(kept.told, None);
    assert_eq!(kept.next, wait);
}

fn failed_delays(poll_interval: Duration, count: usize) -> Vec<Duration> {
    let mut listener = Listener::new(poll_interval);
    let mut delays = Vec::new();
    for _ in 0..count {
        let (waiting, action) = listener.handle(ListenerEvent::Connected(false));
        match action {
            ListenerAction::Wait(delay) => delays.push(delay),
            _ => panic!("a failed attempt is followed by a wait"),
        }
        let (next, action) = waiting.handle(ListenerEvent::Woken(Wake::Elapsed));
        assert_eq!(action, ListenerAction::Check);
        listener = next;
    }
    delays
}

#[test]
fn the_listener_backs_off_up_to_thirty_seconds() {
    let seconds = |values: &[u64]| -> Vec<Duration> {
        values.iter().map(|value| Duration::from_secs(*value)).collect()
    };
    assert_eq!(
        failed_delays(Duration::from_secs(2), 6),
        seconds(&[2, 4, 8, 16, 30, 30])
    );
    assert_eq!(failed_delays(Duration::from_secs(60), 2), seconds(&[30, 30]));
}

#[test]
fn the_listener_wakes_claim_loops_and_starts_over_when_it_listens_again() {
    let listener = Listener::new(Duration::from_secs(2));
    let (listener, _) = listener.handle(ListenerEvent::Connected(false));
    let (listener, _) = listener.handle(ListenerEvent::Woken(Wake::Elapsed));
    let (listener, action) = listener.handle(ListenerEvent::Checked(false));
    assert_eq!(action, ListenerAction::Connect);
    let (listener, action) = listener.handle(ListenerEvent::Connected(true));
    assert_eq!(action, ListenerAction::NotifyAndReceive);
    let (listener, action) = listener.handle(ListenerEvent::Received(true));
    assert_eq!(action, ListenerAction::NotifyAndReceive);
    let (listener, action) = listener.handle(ListenerEvent::Woken(Wake::Told(false)));
    assert_eq!(action, ListenerAction::Receive);
    let (listener, action) = listener.handle(ListenerEvent::Received(false));
    assert_eq!(action, ListenerAction::Wait(Duration::from_secs(2)));
    let (_, action) = listener.handle(ListenerEvent::Woken(Wake::Closed));
    assert_eq!(action, ListenerAction::End);
}

#[test]
fn claim_loops_run_what_they_claim() {
    let after = |event| after_claim_event(event, &spans());
    assert!(matches!(after(ClaimEvent::Checked(false)), ClaimAction::Claim));
    assert!(matches!(after(ClaimEvent::Checked(true)), ClaimAction::End));
    match after(ClaimEvent::Claimed(Ok(Some(job(None, 1, 2, JobStatus::Running))))) {
        ClaimAction::Run(job) => assert_eq!(job.id, 7),
        _ => panic!("the job is run"),
    }
    match after(ClaimEvent::Claimed(Ok(None))) {
        ClaimAction::WaitForWork(span) => assert_eq!(span, Duration::from_secs(3)),
        _ => panic!("it waits for work"),
    }
    match after(ClaimEvent::Claimed(Err(StoreError::AttemptOverflow))) {
        ClaimAction::WaitAfterError(StoreError::AttemptOverflow, span) => {
            assert_eq!(span, Duration::from_secs(3))
        }
        _ => panic!("it waits before it tries again"),
    }
    assert!(matches!(after(ClaimEvent::JobDone), ClaimAction::Check));
    assert!(matches!(after(ClaimEvent::Woken(Wake::Notified)), ClaimAction::Check));
    assert!(matches!(after(ClaimEvent::Woken(Wake::Told(true))), ClaimAction::End));
}

#[test]
fn cron_attempts_are_reported() {
    assert_eq!(
        cron_report(&Ok(CronEnqueueResult::Enqueued(1))),
        CronReport::Enqueued(1)
    );
    assert_eq!(
        cron_report(&Ok(CronEnqueueResult::AlreadyQueued(2))),
        CronReport::AlreadyQueued(2)
    );
    assert_eq!(cron_report(&Ok(CronEnqueueResult::Skipped)), CronReport::Nothing);
    assert_eq!(cron_report(&Err(StoreError::DuplicateId)), CronReport::Failed);
}

#[test]
fn a_job_without_a_handler_fails_for_good() {
    let (run, action, report) = start(&job(Some("q"), 1, 9, JobStatus::Running), false);
    match action {
        RunAction::Fail { attempt, max_attempts, error } => {
            assert_eq!((attempt, max_attempts), (9, 9));
            assert_eq!(error, "no handler registered for job test");
        }
        _ => panic!("the job fails"),
    }
    assert_eq!(report, RunReport::Nothing);
    let (_, action, report) = run.handle(RunEvent::Stored(Err(StoreError::JobKeyHeld)));
    assert!(matches!(action, RunAction::End { notify: false }));
    assert_eq!(report, RunReport::RejectFailed);
}

#[test]
fn handlers_observe_shutdown_and_can_finish_early() {
    // A handler that returns within the grace period completes its job.
    assert!(!is_shutting_down(Some(false)));
    assert!(shutdown_wait_over(ShutdownSignal::Told(true)));
    let (run, action, report) = start(&job(None, 1, 25, JobStatus::Running), true);
    match action {
        RunAction::StartHandler(span) => assert_eq!(span, Duration::from_secs(30)),
        _ => panic!("the handler is started"),
    }
    assert_eq!(report, RunReport::Started);
    let (run, action, _) = run.handle(RunEvent::HandlerFinished(Ok(())));
    assert!(matches!(action, RunAction::Complete));
    let (_, action, report) = run.handle(RunEvent::Stored(Ok(true)));
    assert!(matches!(action, RunAction::End { notify: false }));
    assert_eq!(report, RunReport::Succeeded);
}

#[test]
fn a_lost_lock_aborts_the_handler_and_is_looked_into() {
    let (run, _, _) = start(&job(Some("q"), 1, 25, JobStatus::Running), true);
    let (run, action, _) = run.handle(RunEvent::RenewalDue);
    assert!(matches!(action, RunAction::Renew));
    let (run, action, report) = run.handle(RunEvent::Renewed(Err(StoreError::JobKeyHeld)));
    match action {
        RunAction::Await(span) => assert_eq!(span, Duration::from_secs(30)),
        _ => panic!("the handler goes on"),
    }
    assert_eq!(report, RunReport::RenewFailed);
    let (run, _, _) = run.handle(RunEvent::RenewalDue);
    let (run, action, _) = run.handle(RunEvent::Renewed(Ok(true)));
    assert!(matches!(action, RunAction::Await(_)));
    let (run, _, _) = run.handle(RunEvent::RenewalDue);
    let (run, action, _) = run.handle(RunEvent::Renewed(Ok(false)));
    assert!(matches!(action, RunAction::AbortAndInspect));
    let (_, action, report) = run.handle(RunEvent::Inspected(Ok(Some(job(
        Some("q"),
        1,
        25,
        JobStatus::Succeeded,
    )))));
    assert!(matches!(action, RunAction::End { notify: false }));
    assert_eq!(report, RunReport::FinishedElsewhere(JobStatus::Succeeded));
}

#[test]
fn the_end_of_a_job_in_a_named_queue_wakes_claim_loops() {
    let running = start(&job(Some("q"), 1, 25, JobStatus::Running), true).0;
    let (run, _, _) = running.handle(RunEvent::HandlerFinished(Ok(())));
    let (_, action, _) = run.handle(RunEvent::Stored(Ok(true)));
    assert!(matches!(action, RunAction::End { notify: true }));
    let (_, action, report) = run.handle(RunEvent::Stored(Err(StoreError::JobKeyHeld)));
    assert!(matches!(action, RunAction::End { notify: true }));
    assert_eq!(report, RunReport::CompleteFailed);
    let (run, action, _) = run.handle(RunEvent::Stored(Ok(false)));
    assert!(matches!(action, RunAction::Inspect));
    let (_, action, report) = run.handle(RunEvent::Inspected(Ok(None)));
    assert!(matches!(action, RunAction::End { notify: true }));
    assert_eq!(report, RunReport::Disappeared);
}

#[test]
fn a_failed_handler_stores_its_message() {
    let (run, _, _) = start(&job(None, 2, 3, JobStatus::Running), true);
    let (run, action, _) = run.handle(RunEvent::HandlerFinished(Err("boom".to_owned())));
    match action {
        RunAction::Fail { attempt, max_attempts, error } => {
            assert_eq!((attempt, max_attempts, error.as_str()), (2, 3, "boom"));
        }
        _ => panic!("the failure is stored"),
    }
    let (_, _, report) = run.handle(RunEvent::Stored(Ok(true)));
    assert_eq!(report, RunReport::WillRetry { backoff_micros: 7_389_056 });
    let (run, action, _) = run.handle(RunEvent::Stored(Ok(false)));
    assert!(matches!(action, RunAction::Inspect));
    let (_, _, report) = run.handle(RunEvent::Inspected(Err(StoreError::JobKeyHeld)));
    assert_eq!(report, RunReport::InspectFailed);
}

#[test]
fn failures_and_losses_are_reported() {
    assert_eq!(failure_report(3, 3, &Ok(true)), RunReport::FailedPermanently);
    assert_eq!(
        failure_report(12, 25, &Ok(true)),
        RunReport::WillRetry { backoff_micros: 22_026_465_795 }
    );
    for (attempt, backoff_micros) in [(0, 1_000_000), (-1, 367_879), (-14, 1), (-15, 0)] {
        assert_eq!(
            failure_report(attempt, 3, &Ok(true)),
            RunReport::WillRetry { backoff_micros }
        );
        let exact = f64::exp(f64::from(attempt)) * 1e6;
        assert_eq!(exact.round(), backoff_micros as f64);
    }
    assert_eq!(failure_report(1, 3, &Ok(false)), RunReport::Nothing);
    assert_eq!(
        failure_report(1, 3, &Err(StoreError::JobKeyHeld)),
        RunReport::FailFailed
    );
    assert_eq!(
        loss_report(&Ok(Some(job(None, 1, 2, JobStatus::Queued)))),
        RunReport::LockLost(JobStatus::Queued)
    );
    assert_eq!(LossPhase::Renewal.as_str(), "renewal");
    assert_eq!(LossPhase::Completion.as_str(), "completion");
    assert_eq!(LossPhase::FailureUpdate.as_str(), "failure update");
}

#[test]
fn a_full_named_queue_is_no_failure_of_a_claim() {
    let violation = refused("23505", "jobs_queue_running_idx");
    assert!(is_unique_violation(&violation, "jobs_queue_running_idx"));
    assert!(!is_unique_violation(&violation, "jobs_pkey"));
    assert!(!is_unique_violation(
        &refused("23503", "jobs_queue_running_idx"),
        "jobs_queue_running_idx"
    ));
    assert!(!is_unique_violation(&StoreError::DuplicateId, "jobs_queue_running_idx"));
    assert!(matches!(settle_claim(Err(violation)), Ok(None)));
    assert!(matches!(
        settle_claim(Err(StoreError::AttemptOverflow)),
        Err(StoreError::AttemptOverflow)
    ));
    let claimed = settle_claim(Ok(Some(job(None, 1, 2, JobStatus::Running)))).unwrap();
    assert_eq!(claimed.map(|job| job.id), Some(7));
}
