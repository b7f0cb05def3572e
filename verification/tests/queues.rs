use jiff::tz::TimeZone;
use pgspawn::batch::order_ids;
use pgspawn::supervisor::{Supervisor, WorkerAction, WorkerEvent};
use pgspawn::claimed::{JobRun, RunAction, RunEvent};
use pgspawn::{
    CronEnqueueResult, CronJob, CronRow, DailyJobSchedule, Duration, EnqueueError, EnqueueOptions,
    EnqueueRequest, Job, JobKeyMode, JobStatus, Queue, StoreError, Timestamp, WorkerRow,
};

const HOUR: i64 = 3600;

fn at(second: i64) -> Timestamp {
    Timestamp::from_second(1_800_000_000 + second).unwrap()
}

fn json(text: &str) -> serde_json::Value {
    serde_json::from_str(text).unwrap()
}

fn names(list: &[&str]) -> Vec<String> {
    list.iter().map(|name| (*name).to_owned()).collect()
}

fn later(second: i64) -> EnqueueOptions {
    EnqueueOptions {
        run_at: Some(at(second)),
        ..EnqueueOptions::default()
    }
}

fn stored(queue: &Queue, id: u128) -> Job {
    queue.get(id).expect("the job is stored")
}

fn running(id: u128, owner: &str, locked_at: Timestamp) -> Job {
    Job {
        id,
        name: "rescue".to_owned(),
        status: JobStatus::Running,
        payload: json("{}"),
        queue_name: None,
        priority: 0,
        run_at: at(0),
        job_key: None,
        attempt: 1,
        max_attempts: 25,
        locked_by: Some(owner.to_owned()),
        locked_at: Some(locked_at),
        error: None,
        queued_at: at(0),
        started_at: Some(at(0)),
        finished_at: None,
        created_at: at(0),
        updated_at: at(0),
    }
}

fn registered(id: &str, last_heartbeat_at: Timestamp) -> WorkerRow {
    WorkerRow {
        id: id.to_owned(),
        task_names: names(&["rescue"]),
        metadata: json("{}"),
        started_at: at(0),
        last_heartbeat_at,
    }
}

#[test]
fn enqueue_runs_typed_job_to_success() {
    let mut queue = Queue::new();
    let id = queue
        .enqueue_typed("count", serde_json::to_value(7), at(0))
        .unwrap();
    let unclaimed = queue.enqueue("unregistered", json("{}"), at(0)).unwrap();

    // A job enqueued for at once may run from the time that the client's clock shows.
    let clock = stored(&queue, id).run_at;
    let job = queue
        .claim_next("worker:0:lock", &names(&["count"]), clock)
        .unwrap()
        .expect("a job to claim");
    assert_eq!(job.id, id);
    assert_eq!(job.payload, serde_json::to_value(7).unwrap());
    assert!(queue.complete_locked(id, "worker:0:lock", at(1)));
    let job = stored(&queue, id);
    assert_eq!(job.status, JobStatus::Succeeded);
    assert_eq!(job.attempt, 1);
    assert_eq!(job.finished_at, Some(at(1)));
    assert!(job.error.is_none());
    assert_eq!(stored(&queue, unclaimed).status, JobStatus::Queued);
}

#[test]
fn failing_job_backs_off_then_fails_permanently() {
    let mut queue = Queue::new();
    let explode = names(&["explode"]);
    let options = EnqueueOptions {
        max_attempts: 2,
        ..later(0)
    };
    let id = queue
        .enqueue_with_options("explode", json("{}"), options, at(0))
        .unwrap();

    let job = queue.claim_next("w:0:l", &explode, at(0)).unwrap().unwrap();
    assert!(queue
        .fail_locked(id, "w:0:l", job.attempt, job.max_attempts, "boom", at(0))
        .unwrap());
    let job = stored(&queue, id);
    assert_eq!(job.status, JobStatus::Queued);
    assert_eq!(job.error.as_deref(), Some("boom"));
    assert_eq!(job.run_at, at(0).saturating_later(2, 718_282_000));
    assert!(queue.claim_next("w:0:l", &explode, at(2)).unwrap().is_none());

    let job = queue.claim_next("w:0:l", &explode, at(3)).unwrap().unwrap();
    assert_eq!(job.attempt, 2);
    assert!(job.error.is_none());
    assert!(queue
        .fail_locked(id, "w:0:l", job.attempt, job.max_attempts, "boom", at(4))
        .unwrap());
    let job = stored(&queue, id);
    assert_eq!(job.status, JobStatus::Failed);
    assert_eq!(job.attempt, 2);
    assert_eq!(job.error.as_deref(), Some("boom"));
    assert_eq!(job.finished_at, Some(at(4)));
}

#[test]
fn cancel_and_retry_round_trip() {
    let mut queue = Queue::new();
    let id = queue
        .enqueue_with_options("later", json("{}"), later(HOUR), at(0))
        .unwrap();

    assert!(queue.cancel(id, at(1)));
    assert!(!queue.cancel(id, at(2)));
    assert_eq!(stored(&queue, id).status, JobStatus::Cancelled);

    assert!(queue.retry(id, at(3)).unwrap());
    let job = queue
        .claim_next("w:0:l", &names(&["later"]), at(3))
        .unwrap()
        .expect("a retried job is due at once");
    assert_eq!(job.attempt, 1);
    assert!(queue.complete_locked(id, "w:0:l", at(4)));
    assert!(!queue.retry(id, at(5)).unwrap());
}

#[test]
fn job_key_deduplicates_and_replaces_queued_jobs() {
    let mut queue = Queue::new();
    let delayed = || EnqueueOptions {
        job_key: Some("singleton".to_owned()),
        ..later(HOUR)
    };

    let first = queue
        .enqueue_with_options("keyed", json("{\"version\":1}"), delayed(), at(0))
        .unwrap();
    let second = queue
        .enqueue_with_options("keyed", json("{\"version\":2}"), delayed(), at(1))
        .unwrap();
    assert_eq!(first, second, "active job key should deduplicate");
    assert_eq!(stored(&queue, first).payload, json("{\"version\":1}"));

    let replaced = queue
        .enqueue_with_options(
            "keyed",
            json("{\"version\":3}"),
            EnqueueOptions {
                job_key_mode: JobKeyMode::Replace,
                ..delayed()
            },
            at(2),
        )
        .unwrap();
    assert_eq!(first, replaced);
    assert_eq!(stored(&queue, first).payload, json("{\"version\":3}"));

    assert!(queue.cancel(first, at(3)));
    let third = queue
        .enqueue_with_options("keyed", json("{\"version\":4}"), delayed(), at(4))
        .unwrap();
    assert_ne!(first, third, "cancelled jobs should release their job key");

    // The key is taken again, so the cancelled job cannot come back.
    assert!(matches!(queue.retry(first, at(5)), Err(StoreError::JobKeyHeld)));
    assert_eq!(stored(&queue, first).status, JobStatus::Cancelled);
}

#[test]
fn named_queue_serializes_execution_across_concurrency() {
    let mut queue = Queue::new();
    let mut ids = Vec::new();
    for index in 0..3 {
        let options = EnqueueOptions {
            queue_name: Some("only-one".to_owned()),
            ..later(0)
        };
        let payload = json(&format!("{{\"index\":{index}}}"));
        ids.push(
            queue
                .enqueue_with_options("serial", payload, options, at(index))
                .unwrap(),
        );
    }
    let serial = names(&["serial"]);
    for (index, id) in ids.iter().enumerate() {
        let now = at(10 + index as i64);
        let job = queue.claim_next("w:0:a", &serial, now).unwrap().unwrap();
        assert_eq!(job.id, *id);
        assert!(
            queue.claim_next("w:1:b", &serial, now).unwrap().is_none(),
            "queue name should serialize execution"
        );
        assert!(queue.complete_locked(*id, "w:0:a", now));
    }
    assert_eq!(queue.counts().succeeded, 3);
}

#[test]
fn delayed_job_runs_after_due_time() {
    let mut queue = Queue::new();
    let delayed = names(&["delayed"]);
    let run_at = at(0).saturating_later(1, 500_000_000);
    let options = EnqueueOptions {
        run_at: Some(run_at),
        ..EnqueueOptions::default()
    };
    let id = queue
        .enqueue_with_options("delayed", json("{}"), options, at(0))
        .unwrap();
    assert!(queue.claim_next("w:0:l", &delayed, at(1)).unwrap().is_none());
    let job = queue.claim_next("w:0:l", &delayed, run_at).unwrap().unwrap();
    assert_eq!(job.id, id);
    assert!(
        job.started_at.unwrap() >= job.run_at,
        "delayed job must not start before run_at"
    );
}

#[test]
fn enqueue_many_runs_every_job_and_preserves_request_order() {
    let mut queue = Queue::new();
    assert!(queue.enqueue_many(&[], at(0)).unwrap().is_empty());

    let requests: Vec<EnqueueRequest> = (0..50)
        .map(|value| {
            let payload = serde_json::from_str(&format!("{{\"value\":{value}}}"));
            EnqueueRequest::typed("batched", payload).unwrap()
        })
        .collect();
    let ids = queue.enqueue_many(&requests, at(0)).unwrap();
    assert_eq!(ids.len(), 50);
    for (index, id) in ids.iter().enumerate() {
        assert_eq!(
            stored(&queue, *id).payload,
            json(&format!("{{\"value\":{index}}}")),
            "returned ids must line up with the requests that produced them"
        );
    }
    let mut claimed = 0;
    let batched = names(&["batched"]);
    let late = Timestamp::from_second(4_000_000_000).unwrap();
    while let Some(job) = queue.claim_next("w:0:l", &batched, late).unwrap() {
        assert!(queue.complete_locked(job.id, "w:0:l", late));
        claimed += 1;
    }
    assert_eq!(claimed, 50);
}

#[test]
fn enqueue_many_applies_job_key_rules_and_rejects_batch_duplicates() {
    let mut queue = Queue::new();
    let keyed = |key: &str, mode: JobKeyMode, run_at: i64| EnqueueOptions {
        job_key: Some(key.to_owned()),
        job_key_mode: mode,
        ..later(run_at)
    };
    let existing = queue
        .enqueue_with_options(
            "keyed",
            json("{\"version\":1}"),
            keyed("shared", JobKeyMode::Dedupe, HOUR),
            at(0),
        )
        .unwrap();
    let preserved = queue
        .enqueue_with_options(
            "keyed",
            json("{\"version\":1}"),
            keyed("preserved", JobKeyMode::Dedupe, 2 * HOUR),
            at(0),
        )
        .unwrap();

    let same = || {
        EnqueueRequest::new("keyed", json("{}")).with_options(keyed(
            "same",
            JobKeyMode::Dedupe,
            HOUR,
        ))
    };
    match queue.enqueue_many(&[same(), same()], at(1)) {
        Err(EnqueueError::DuplicateJobKey(key)) => assert_eq!(key, "same"),
        _ => panic!("a repeated job key within one batch must be rejected"),
    }
    assert_eq!(queue.counts().queued, 2, "a rejected batch must insert nothing");

    let ids = queue
        .enqueue_many(
            &[
                EnqueueRequest::new("keyed", json("{\"version\":2}")).with_options(keyed(
                    "shared",
                    JobKeyMode::Dedupe,
                    HOUR,
                )),
                EnqueueRequest::new("keyed", json("{\"version\":2}")).with_options(keyed(
                    "replaceable",
                    JobKeyMode::Replace,
                    HOUR,
                )),
                EnqueueRequest::new("keyed", json("{\"version\":2}")).with_options(keyed(
                    "preserved",
                    JobKeyMode::PreserveRunAt,
                    5 * HOUR,
                )),
                EnqueueRequest::new("keyed", json("{\"version\":1}")),
            ],
            at(2),
        )
        .unwrap();
    assert_eq!(ids[0], existing, "an existing job key must return its job id");
    assert_eq!(stored(&queue, ids[0]).payload, json("{\"version\":1}"), "payload preserved");
    assert_eq!(ids[2], preserved);
    let job = stored(&queue, ids[2]);
    assert_eq!(job.payload, json("{\"version\":2}"));
    assert_eq!(job.run_at, at(2 * HOUR), "batch preserve mode must keep the current schedule");

    let replaced = queue
        .enqueue_many(
            &[
                EnqueueRequest::new("keyed", json("{\"version\":3}")).with_options(keyed(
                    "replaceable",
                    JobKeyMode::Replace,
                    HOUR,
                )),
            ],
            at(3),
        )
        .unwrap();
    assert_eq!(replaced[0], ids[1], "replacement keeps the existing job id");
    assert_eq!(stored(&queue, ids[1]).payload, json("{\"version\":3}"), "payload replaced");
}

#[test]
fn enqueue_many_in_rolls_back_a_mixed_mode_failure_on_a_bare_connection() {
    let mut queue = Queue::new();
    let requests = [
        EnqueueRequest::new("batched", json("{}")).with_options(EnqueueOptions {
            job_key: Some("valid-first-group".to_owned()),
            ..EnqueueOptions::default()
        }),
        EnqueueRequest::new("batched", json("{}")).with_options(EnqueueOptions {
            max_attempts: 0,
            job_key: Some("invalid-second-group".to_owned()),
            job_key_mode: JobKeyMode::Replace,
            ..EnqueueOptions::default()
        }),
    ];
    let result = queue.enqueue_many(&requests, at(0));
    assert!(
        matches!(
            result,
            Err(EnqueueError::Database(StoreError::InvalidMaxAttempts))
        ),
        "the invalid max_attempts must reject the batch"
    );
    assert_eq!(
        queue.counts().queued,
        0,
        "an error in a later job-key mode must roll back earlier statements"
    );
}

#[test]
fn job_key_mode_preserve_run_at_refreshes_payload_without_postponing() {
    let mut queue = Queue::new();
    let debounced = |run_at: i64, mode: JobKeyMode| EnqueueOptions {
        job_key: Some("debounce".to_owned()),
        job_key_mode: mode,
        ..later(run_at)
    };
    let id = queue
        .enqueue_with_options(
            "debounced",
            json("{\"version\":1}"),
            debounced(HOUR, JobKeyMode::PreserveRunAt),
            at(0),
        )
        .unwrap();
    let repeated = queue
        .enqueue_with_options(
            "debounced",
            json("{\"version\":2}"),
            debounced(5 * HOUR, JobKeyMode::PreserveRunAt),
            at(1),
        )
        .unwrap();
    assert_eq!(repeated, id);
    let job = stored(&queue, id);
    assert_eq!(job.payload, json("{\"version\":2}"), "payload refreshed");
    assert_eq!(
        job.run_at,
        at(HOUR),
        "preserve_run_at must not postpone the original schedule"
    );

    queue
        .enqueue_with_options(
            "debounced",
            json("{\"version\":3}"),
            debounced(5 * HOUR, JobKeyMode::Replace),
            at(2),
        )
        .unwrap();
    assert_eq!(stored(&queue, id).run_at, at(5 * HOUR));
}

#[test]
fn job_key_modes_never_replace_a_running_job_definition() {
    let mut original = running(9, "worker:0:lock", at(0));
    original.name = "original".to_owned();
    original.payload = json("{\"version\":1}");
    original.queue_name = Some("serial".to_owned());
    original.priority = 7;
    original.run_at = at(-60);
    original.max_attempts = 9;
    original.job_key = Some("running-key".to_owned());
    let mut queue = Queue::from_rows(vec![original], vec![], vec![]).unwrap();

    for mode in [
        JobKeyMode::Dedupe,
        JobKeyMode::Replace,
        JobKeyMode::PreserveRunAt,
    ] {
        let returned = queue
            .enqueue_with_options(
                "replacement",
                json("{\"version\":2}"),
                EnqueueOptions {
                    queue_name: Some("other-queue".to_owned()),
                    priority: -10,
                    run_at: Some(at(0)),
                    max_attempts: 2,
                    job_key: Some("running-key".to_owned()),
                    job_key_mode: mode,
                },
                at(0),
            )
            .unwrap();
        assert_eq!(returned, 9);
    }

    let job = stored(&queue, 9);
    assert_eq!(job.name, "original");
    assert_eq!(job.status, JobStatus::Running);
    assert_eq!(job.payload, json("{\"version\":1}"));
    assert_eq!(job.queue_name.as_deref(), Some("serial"));
    assert_eq!(job.priority, 7);
    assert_eq!(job.run_at, at(-60));
    assert_eq!(job.max_attempts, 9);
    assert_eq!(job.locked_by.as_deref(), Some("worker:0:lock"));
}

#[test]
fn permanently_fail_and_complete_retire_unfinished_jobs() {
    let mut queue = Queue::new();
    let doomed = queue
        .enqueue_with_options("poison", json("{}"), later(HOUR), at(0))
        .unwrap();
    assert!(queue.permanently_fail(doomed, "operator stopped it", at(1)));
    let job = stored(&queue, doomed);
    assert_eq!(job.status, JobStatus::Failed);
    assert_eq!(job.error.as_deref(), Some("operator stopped it"));
    assert!(
        !queue.permanently_fail(doomed, "again", at(2)),
        "a finished job cannot be failed again"
    );

    let retired = queue
        .enqueue_with_options("obsolete", json("{}"), later(HOUR), at(0))
        .unwrap();
    assert!(queue.complete(retired, at(1)));
    let job = stored(&queue, retired);
    assert_eq!(job.status, JobStatus::Succeeded);
    assert!(job.error.is_none());
    assert!(!queue.complete(1, at(1)));
}

#[test]
fn operator_completion_discards_a_running_handler_and_releases_its_slot() {
    let mut queue = Queue::new();
    let all = names(&["blocked", "next"]);
    let serial = || EnqueueOptions {
        queue_name: Some("slot".to_owned()),
        ..later(0)
    };
    let blocked = queue
        .enqueue_with_options("blocked", json("{}"), serial(), at(0))
        .unwrap();
    let next = queue
        .enqueue_with_options("next", json("{}"), serial(), at(1))
        .unwrap();
    assert_eq!(queue.claim_next("w:0:a", &all, at(1)).unwrap().unwrap().id, blocked);
    assert!(queue.complete(blocked, at(2)));
    assert_eq!(queue.claim_next("w:1:b", &all, at(3)).unwrap().unwrap().id, next);

    // What the handler of the first job still reports is discarded.
    assert!(!queue.renew_lock(blocked, "w:0:a", at(4)));
    assert!(!queue.fail_locked(blocked, "w:0:a", 1, 25, "late", at(4)).unwrap());
    assert!(!queue.complete_locked(blocked, "w:0:a", at(4)));
    let retired = stored(&queue, blocked);
    assert_eq!(retired.status, JobStatus::Succeeded);
    assert!(retired.locked_by.is_none());
    assert_eq!(retired.finished_at, Some(at(2)));
}

#[test]
fn force_unlock_worker_releases_jobs_and_deregisters() {
    let mut queue = Queue::from_rows(
        vec![
            running(1, "departed:0:lock", at(0)),
            running(2, "departed2:0:lock", at(0)),
        ],
        vec![registered("departed", at(0))],
        vec![],
    )
    .unwrap();
    let workers = queue.workers();
    assert_eq!(workers.len(), 1);
    assert_eq!(workers[0].id, "departed");
    assert_eq!(workers[0].task_names, names(&["rescue"]));

    assert_eq!(queue.force_unlock_worker("departed", at(5)), 1);
    let job = stored(&queue, 1);
    assert_eq!(job.status, JobStatus::Queued);
    assert!(job.locked_by.is_none());
    assert_eq!(job.run_at, at(5));
    assert_eq!(job.error.as_deref(), Some("released by operator"));
    assert!(queue.workers().is_empty());
    let counts = queue.counts();
    assert_eq!(counts.queued, 1);
    assert_eq!(counts.running, 1);
}

#[test]
fn reschedule_moves_queued_job_and_notifies_workers() {
    let mut queue = Queue::new();
    let id = queue
        .enqueue_with_options("rescheduled", json("{}"), later(HOUR), at(0))
        .unwrap();
    assert!(queue.reschedule(id, at(1), at(1)));
    let job = queue
        .claim_next("w:0:l", &names(&["rescheduled"]), at(1))
        .unwrap()
        .unwrap();
    assert_eq!(job.id, id);
    assert!(!queue.reschedule(id, at(9), at(2)), "running jobs must not be rescheduled");
    assert!(queue.complete_locked(id, "w:0:l", at(2)));
    assert!(
        !queue.reschedule(id, at(3), at(3)),
        "finished jobs must not be rescheduled"
    );
    assert_eq!(stored(&queue, id).run_at, at(1));
}

#[test]
fn priority_orders_available_work() {
    let mut queue = Queue::new();
    for priority in [10, 0, 5] {
        let options = EnqueueOptions {
            priority,
            ..later(0)
        };
        queue
            .enqueue_typed_with_options("prioritized", serde_json::to_value(priority), options, at(0))
            .unwrap();
    }
    let mut order = Vec::new();
    while let Some(job) = queue
        .claim_next("w:0:l", &names(&["prioritized"]), at(1))
        .unwrap()
    {
        order.push(job.priority);
    }
    assert_eq!(order, vec![0, 5, 10], "lower priority values should run first");
}

#[test]
fn claims_go_by_run_time_and_age_within_a_priority() {
    let mut queue = Queue::new();
    let mut enqueue = |run_at: i64, now: i64| {
        queue
            .enqueue_with_options("job", json("{}"), later(run_at), at(now))
            .unwrap()
    };
    let young = enqueue(5, 3);
    let old = enqueue(5, 2);
    let early = enqueue(4, 9);
    let mut order = Vec::new();
    while let Some(job) = queue.claim_next("w:0:l", &names(&["job"]), at(10)).unwrap() {
        order.push(job.id);
    }
    assert_eq!(order, vec![early, old, young]);
}

#[test]
fn recovers_jobs_from_dead_workers_and_stale_locks() {
    let mut queue = Queue::from_rows(
        vec![
            running(1, "ghost:0:lock", at(-HOUR)),
            running(2, "vanished:0:lock", at(-HOUR)),
            running(3, "alive:0:lock", at(0)),
        ],
        vec![registered("ghost", at(-HOUR)), registered("alive", at(0))],
        vec![],
    )
    .unwrap();
    let stale_after = Duration::from_millis(800);
    assert_eq!(queue.recover_dead_workers(stale_after, at(0)), 1);
    assert_eq!(
        stored(&queue, 1).error.as_deref(),
        Some("recovered dead worker job")
    );
    assert_eq!(queue.recover_stale(stale_after, at(0)), 1);
    assert_eq!(
        stored(&queue, 2).error.as_deref(),
        Some("recovered stale running job")
    );
    assert_eq!(stored(&queue, 3).status, JobStatus::Running);

    for _ in 0..2 {
        let job = queue
            .claim_next("alive:1:lock", &names(&["rescue"]), at(0))
            .unwrap()
            .unwrap();
        assert!(queue.complete_locked(job.id, "alive:1:lock", at(1)));
    }
    for id in [1, 2] {
        let job = stored(&queue, id);
        assert_eq!(job.status, JobStatus::Succeeded);
        assert_eq!(job.attempt, 2, "recovered run should count as a new attempt");
    }
    let left: Vec<String> = queue.workers().into_iter().map(|worker| worker.id).collect();
    assert_eq!(left, names(&["alive"]), "dead worker registration should be removed");
}

#[test]
fn handlers_can_request_retry_during_shutdown() {
    let mut queue = Queue::new();
    let id = queue
        .enqueue_with_options("cooperative-retry", json("{}"), later(0), at(0))
        .unwrap();
    let job = queue
        .claim_next("w:0:l", &names(&["cooperative-retry"]), at(0))
        .unwrap()
        .unwrap();
    let (run, _, _) = JobRun::start(&job, true, Duration::from_secs(30));
    let (_, action, _) =
        run.handle(RunEvent::HandlerFinished(Err("shutdown requested".to_owned())));
    match action {
        RunAction::Fail { attempt, max_attempts, error } => {
            assert!(queue
                .fail_locked(id, "w:0:l", attempt, max_attempts, &error, at(1))
                .unwrap());
        }
        _ => panic!("the failure is stored"),
    }
    let job = stored(&queue, id);
    assert_eq!(job.status, JobStatus::Queued);
    assert_eq!(job.attempt, 1);
    assert_eq!(job.error.as_deref(), Some("shutdown requested"));
    assert!(job.locked_by.is_none());
}

#[test]
fn graceful_shutdown_releases_unfinished_jobs() {
    let mut queue = Queue::new();
    let id = queue
        .enqueue_with_options("stuck", json("{}"), later(0), at(0))
        .unwrap();
    queue
        .claim_next("worker:0:lock", &names(&["stuck"]), at(0))
        .unwrap()
        .unwrap();
    let (worker, _) = Supervisor::new(Duration::from_secs(30)).handle(WorkerEvent::Registered(Ok(())));
    let (worker, _) = worker.handle(WorkerEvent::ShutdownRequested);
    let (worker, _) = worker.handle(WorkerEvent::Announced(true));
    let (worker, _) = worker.handle(WorkerEvent::GraceElapsed);
    let (_, action) = worker.handle(WorkerEvent::Aborted);
    assert!(matches!(action, WorkerAction::ReleaseJobs));
    assert_eq!(queue.release_worker_jobs("worker", at(1)), 1);

    let job = stored(&queue, id);
    assert_eq!(job.status, JobStatus::Queued);
    assert_eq!(job.attempt, 1);
    assert_eq!(job.error.as_deref(), Some("released by shutting down worker"));
    assert!(job.locked_by.is_none());
}

#[test]
fn interval_cron_coordinates_across_workers() {
    let mut queue = Queue::new();
    let cron = CronJob::interval("tick", "tick", Duration::from_secs(1));
    let tick = names(&["tick"]);
    let mut run_ats = Vec::new();
    for second in 0..4 {
        let now = at(second).saturating_later(0, 100_000_000);
        let due = cron.schedule.latest_due_at(now).unwrap();
        let next = cron.schedule.next_after(due);
        // Two workers see the same occurrence.
        for worker in 0..2 {
            match queue.try_enqueue_cron(&cron, due, next, now).unwrap() {
                CronEnqueueResult::Enqueued(id) => {
                    assert!(second > 0 && worker == 0);
                    run_ats.push(stored(&queue, id).run_at);
                }
                CronEnqueueResult::Skipped => assert!(second == 0 || worker == 1),
                CronEnqueueResult::AlreadyQueued(_) => panic!("the last tick has finished"),
            }
        }
        while let Some(job) = queue.claim_next("w:0:l", &tick, now).unwrap() {
            assert!(queue.complete_locked(job.id, "w:0:l", now));
        }
    }
    assert_eq!(
        run_ats,
        vec![at(1), at(2), at(3)],
        "each interval boundary should enqueue exactly one job across workers"
    );
}

#[test]
fn timezone_daily_cron_catches_up_on_start() {
    let mut queue = Queue::new();
    let cron = CronJob::daily_in_timezone(
        "daily-report",
        "report",
        DailyJobSchedule::new(0, 0),
        "America/New_York",
    )
    .expect("valid time zone")
    .catch_up_on_start();
    let now = at(0);
    let due = cron.schedule.latest_due_at(now).unwrap();
    let next = cron.schedule.next_after(due);
    let id = match queue.try_enqueue_cron(&cron, due, next, now).unwrap() {
        CronEnqueueResult::Enqueued(id) => id,
        _ => panic!("the latest occurrence is enqueued"),
    };
    let job = queue.claim_next("w:0:l", &names(&["report"]), now).unwrap().unwrap();
    assert_eq!(job.id, id);

    let new_york = TimeZone::get("America/New_York").expect("tzdb available");
    let run_at = jiff::Timestamp::from_second(job.run_at.as_second()).unwrap();
    let local = new_york.to_datetime(run_at);
    assert_eq!(
        (local.hour(), local.minute(), local.second()),
        (0, 0, 0),
        "catch-up occurrence should be local midnight in New York"
    );
    let (_, _, crons) = queue.into_rows();
    assert!(
        crons[0].next_run_at > crons[0].last_run_at && crons[0].last_run_at.is_some(),
        "cron row should track last and next run"
    );
}

#[test]
fn a_cron_whose_job_is_unfinished_is_not_stacked() {
    let mut queue = Queue::new();
    let cron = CronJob::interval("tick", "tick", Duration::from_secs(10)).catch_up_on_start();
    let first = match queue.try_enqueue_cron_at(&cron, at(0), at(10), 1, at(1)).unwrap() {
        CronEnqueueResult::Enqueued(id) => id,
        _ => panic!("enqueued"),
    };
    assert_eq!(first, 1);
    assert_eq!(
        queue.try_enqueue_cron_at(&cron, at(10), at(20), 2, at(11)).unwrap(),
        CronEnqueueResult::AlreadyQueued(1)
    );
    assert_eq!(stored(&queue, 1).run_at, at(0));
    // An occurrence that was recorded is not enqueued again, nor an earlier one.
    assert_eq!(
        queue.try_enqueue_cron_at(&cron, at(10), at(20), 3, at(12)).unwrap(),
        CronEnqueueResult::Skipped
    );
    assert_eq!(
        queue.try_enqueue_cron_at(&cron, at(0), at(10), 3, at(12)).unwrap(),
        CronEnqueueResult::Skipped
    );
    let broken = CronJob::interval("broken", "tick", Duration::from_secs(10))
        .options(EnqueueOptions {
            max_attempts: 0,
            ..EnqueueOptions::default()
        })
        .catch_up_on_start();
    assert!(matches!(
        queue.try_enqueue_cron_at(&broken, at(0), at(10), 4, at(1)),
        Err(StoreError::InvalidMaxAttempts)
    ));
    let (_, _, crons) = queue.into_rows();
    assert_eq!(crons.len(), 1, "a refused occurrence is not recorded");
}

#[test]
fn finished_jobs_are_pruned_after_retention() {
    let mut queue = Queue::new();
    let id = queue
        .enqueue_with_options("ephemeral", json("{}"), later(0), at(0))
        .unwrap();
    let waiting = queue.enqueue("ephemeral", json("{}"), at(0)).unwrap();
    assert_eq!(queue.prune_finished(Duration::from_secs(0), at(9)), 0);
    assert!(queue.complete(id, at(1)));
    assert_eq!(queue.prune_finished(Duration::from_secs(0), at(1)), 0);
    assert_eq!(queue.prune_finished(Duration::from_secs(8), at(9)), 0);
    assert_eq!(queue.prune_finished(Duration::from_millis(7_999), at(9)), 1);
    assert!(queue.get(id).is_none());
    assert!(queue.get(waiting).is_some());
}

#[test]
fn recent_jobs_come_newest_first() {
    let mut queue = Queue::new();
    let mut ids = Vec::new();
    for second in [3, 1, 2] {
        ids.push(
            queue
                .enqueue_with_options("job", json("{}"), later(0), at(second))
                .unwrap(),
        );
    }
    let recent = |limit: i64| -> Vec<u128> {
        queue
            .recent(limit)
            .unwrap()
            .into_iter()
            .map(|job| job.id)
            .collect()
    };
    assert_eq!(recent(10), vec![ids[0], ids[2], ids[1]]);
    assert_eq!(recent(2), vec![ids[0], ids[2]]);
    assert!(recent(0).is_empty());
    assert!(matches!(queue.recent(-1), Err(StoreError::NegativeLimit)));
}

#[test]
fn workers_are_listed_by_start() {
    let mut queue = Queue::new();
    queue.register_worker("late", &names(&["a"]), json("{}"), at(5));
    queue.register_worker("early", &names(&["b"]), json("{}"), at(1));
    queue.register_worker("late", &names(&["c"]), json("{}"), at(9));
    let workers = queue.workers();
    assert_eq!(workers.len(), 2);
    assert_eq!(workers[0].id, "early");
    assert_eq!(workers[1].id, "late");
    assert_eq!(workers[1].task_names, names(&["c"]));
    assert_eq!(workers[1].started_at, at(5));
    assert_eq!(workers[1].last_heartbeat_at, at(9));
    queue.deregister_worker("late");
    queue.deregister_worker("nobody");
    assert_eq!(queue.workers().len(), 1);
}

#[test]
fn new_jobs_are_checked() {
    let mut queue = Queue::new();
    let none = EnqueueOptions {
        max_attempts: 0,
        ..EnqueueOptions::default()
    };
    assert!(matches!(
        queue.enqueue_with_options("job", json("{}"), none, at(0)),
        Err(StoreError::InvalidMaxAttempts)
    ));
    let enqueue = |queue: &mut Queue| {
        queue.enqueue_at("job", json("{}"), EnqueueOptions::default(), at(1), 5, at(0))
    };
    assert_eq!(enqueue(&mut queue).unwrap(), 5);
    assert_eq!(stored(&queue, 5).run_at, at(1));
    assert_eq!(stored(&queue, 5).created_at, at(0));
    assert!(matches!(enqueue(&mut queue), Err(StoreError::DuplicateId)));
    let unreadable: Result<serde_json::Value, serde_json::Error> = serde_json::from_str("{");
    assert!(matches!(
        queue.enqueue_typed("job", unreadable, at(0)),
        Err(EnqueueError::Serialize(_))
    ));
    assert_eq!(queue.counts().queued, 1);
}

#[test]
fn attempts_that_cannot_be_counted_are_refused() {
    let mut job = running(1, "w:0:l", at(0));
    job.status = JobStatus::Queued;
    job.locked_by = None;
    job.locked_at = None;
    job.attempt = i32::MAX;
    let mut queue = Queue::from_rows(vec![job], vec![], vec![]).unwrap();
    assert!(matches!(
        queue.claim_next("w:0:l", &names(&["rescue"]), at(0)),
        Err(StoreError::AttemptOverflow)
    ));
    assert_eq!(stored(&queue, 1).status, JobStatus::Queued);
}

#[test]
fn renewed_locks_are_not_stale() {
    let mut queue = Queue::from_rows(vec![running(1, "w:0:l", at(0))], vec![], vec![]).unwrap();
    assert!(!queue.renew_lock(1, "other", at(50)));
    assert!(queue.renew_lock(1, "w:0:l", at(50)));
    assert_eq!(queue.recover_stale(Duration::from_secs(60), at(110)), 0);
    assert_eq!(queue.recover_stale(Duration::from_secs(60), at(111)), 1);
    assert!(!queue.renew_lock(1, "w:0:l", at(112)));
}

#[test]
fn a_locked_job_that_finished_comes_back_only_if_its_key_is_free() {
    // A row that finished under its lock, as an operator's statement can leave it.
    let mut finished = running(1, "w:0:l", at(0));
    finished.status = JobStatus::Succeeded;
    finished.job_key = Some("k".to_owned());
    let mut queue = Queue::from_rows(vec![finished], vec![], vec![]).unwrap();
    let options = EnqueueOptions {
        job_key: Some("k".to_owned()),
        ..later(0)
    };
    let id = queue.enqueue_with_options("job", json("{}"), options, at(0)).unwrap();
    assert!(matches!(
        queue.fail_locked(1, "w:0:l", 1, 25, "late", at(1)),
        Err(StoreError::JobKeyHeld)
    ));
    assert!(queue.cancel(id, at(2)));
    assert!(queue.fail_locked(1, "w:0:l", 1, 25, "late", at(3)).unwrap());
    assert_eq!(stored(&queue, 1).status, JobStatus::Queued);
}

#[test]
fn rows_that_cannot_stand_together_are_refused() {
    let keyed = |id: u128| {
        let mut job = running(id, "w:0:l", at(0));
        job.job_key = Some("k".to_owned());
        job
    };
    let serial = |id: u128| {
        let mut job = running(id, "w:0:l", at(0));
        job.queue_name = Some("q".to_owned());
        job
    };
    let refused = |jobs: Vec<Job>| Queue::from_rows(jobs, vec![], vec![]).is_none();
    assert!(refused(vec![keyed(1), keyed(2)]));
    assert!(refused(vec![serial(1), serial(2)]));
    assert!(refused(vec![running(1, "a:0:l", at(0)), running(1, "b:0:l", at(0))]));
    let mut negative = running(1, "w:0:l", at(0));
    negative.attempt = -1;
    assert!(refused(vec![negative]));
    let mut done = keyed(2);
    done.status = JobStatus::Failed;
    assert!(!refused(vec![keyed(1), done]));
    let twice = vec![registered("w", at(0)), registered("w", at(1))];
    assert!(Queue::from_rows(vec![], twice, vec![]).is_none());
    let cron = || CronRow {
        identifier: "c".to_owned(),
        name: "n".to_owned(),
        payload: json("{}"),
        last_run_at: None,
        next_run_at: None,
        created_at: at(0),
    };
    assert!(Queue::from_rows(vec![], vec![], vec![cron(), cron()]).is_none());
    let mut queue = Queue::from_rows(vec![], vec![], vec![cron()]).unwrap();
    let tick = CronJob::interval("c", "n", Duration::from_secs(1));
    assert!(matches!(
        queue.try_enqueue_cron(&tick, at(0), at(1), at(1)),
        Ok(CronEnqueueResult::Enqueued(_))
    ));
}

#[test]
fn ids_of_a_batch_follow_its_requests() {
    let keyed = |key: &str| {
        EnqueueRequest::new("job", json("{}")).with_options(EnqueueOptions {
            job_key: Some(key.to_owned()),
            ..EnqueueOptions::default()
        })
    };
    let requests = [keyed("a"), EnqueueRequest::new("job", json("{}")), keyed("b")];
    let reply = vec![
        (30, Some("b".to_owned())),
        (20, None),
        (10, Some("a".to_owned())),
    ];
    assert_eq!(order_ids(&requests, &vec![1, 2, 3], &reply).unwrap(), vec![10, 2, 30]);
    let short = vec![(10, Some("a".to_owned()))];
    match order_ids(&requests, &vec![1, 2, 3], &short) {
        Err(StoreError::Protocol(message)) => {
            assert_eq!(message, "batch insert returned no row for job key `b`");
        }
        _ => panic!("the row for `b` is missing"),
    }
}

#[test]
fn a_batch_stores_mode_by_mode() {
    let mut queue = Queue::new();
    let request = |mode: JobKeyMode| {
        EnqueueRequest::new("job", json("{}")).with_options(EnqueueOptions {
            job_key_mode: mode,
            ..EnqueueOptions::default()
        })
    };
    let requests = [
        request(JobKeyMode::PreserveRunAt),
        request(JobKeyMode::Replace),
        request(JobKeyMode::Dedupe),
    ];
    let run_ats = vec![at(0), at(1), at(2)];
    let ids = queue
        .enqueue_many_at(&requests, &run_ats, &vec![1, 2, 3], at(0))
        .unwrap();
    assert_eq!(ids, vec![1, 2, 3]);
    let (jobs, _, _) = queue.into_rows();
    let order: Vec<u128> = jobs.iter().map(|job| job.id).collect();
    assert_eq!(order, vec![3, 2, 1]);
    assert_eq!(jobs[0].run_at, at(2));
    let mut queue = Queue::from_rows(jobs, vec![], vec![]).unwrap();
    assert!(matches!(
        queue.enqueue_many_at(&requests, &run_ats, &vec![4, 5, 1], at(0)),
        Err(EnqueueError::Database(StoreError::DuplicateId))
    ));
    assert_eq!(queue.counts().queued, 3);
}

fn stored_rows(queue: Queue) -> Vec<String> {
    let mut rows: Vec<String> = queue
        .into_rows()
        .0
        .iter()
        .map(|job| format!("{job:?}"))
        .collect();
    rows.sort();
    rows
}

fn mixed_jobs() -> Vec<Job> {
    let finished = Job {
        status: JobStatus::Succeeded,
        locked_by: None,
        locked_at: None,
        finished_at: Some(at(-HOUR)),
        ..running(3, "gone:0:x", at(0))
    };
    let queued = |id: u128, priority: i32| Job {
        status: JobStatus::Queued,
        locked_by: None,
        locked_at: None,
        priority,
        job_key: Some(format!("key {id}")),
        ..running(id, "gone:0:x", at(0))
    };
    vec![
        queued(1, 5),
        running(2, "gone:0:x", at(-HOUR)),
        finished,
        queued(4, 1),
    ]
}

/// Runs an operation on all jobs, and on those with a property with the others put back after it,
/// and compares what is stored then.
fn agrees_on_a_part<R: PartialEq + std::fmt::Debug>(
    keep: impl Fn(&Job) -> bool,
    operation: impl Fn(&mut Queue) -> R,
) {
    let mut whole = Queue::from_rows(mixed_jobs(), vec![], vec![]).unwrap();
    let expected = operation(&mut whole);
    let (part, others): (Vec<Job>, Vec<Job>) = mixed_jobs().into_iter().partition(keep);
    let mut part = Queue::from_rows(part, vec![], vec![]).unwrap();
    assert_eq!(operation(&mut part), expected);
    let mut jobs = part.into_rows().0;
    jobs.extend(others);
    let rejoined = Queue::from_rows(jobs, vec![], vec![]).unwrap();
    assert_eq!(stored_rows(rejoined), stored_rows(whole));
}

#[test]
fn operations_on_a_part_of_the_jobs_leave_the_others_alone() {
    let unfinished = |job: &Job| !job.status.is_terminal();
    let claimable = |job: &Job| match job.status {
        JobStatus::Queued => job.run_at <= at(1) && job.name == "rescue",
        JobStatus::Running => job.queue_name.is_some(),
        _ => false,
    };
    agrees_on_a_part(claimable, |queue| {
        let claimed = queue.claim_next("me:0:y", &names(&["rescue"]), at(1)).unwrap();
        claimed.map(|job| job.id)
    });
    agrees_on_a_part(unfinished, |queue| queue.release_worker_jobs("gone", at(1)));
    agrees_on_a_part(
        |job| job.status.is_terminal(),
        |queue| queue.prune_finished(Duration::from_secs(60), at(1)),
    );
    agrees_on_a_part(|job| job.id == 4, |queue| queue.cancel(4, at(1)));
    agrees_on_a_part(
        |job| job.id == 1,
        |queue| {
            let options = EnqueueOptions {
                job_key: Some("key 1".to_owned()),
                job_key_mode: JobKeyMode::Replace,
                ..later(9)
            };
            queue.enqueue_at("other", json("{}"), options, at(2), 77, at(1)).unwrap()
        },
    );
    agrees_on_a_part(
        |_| false,
        |queue| {
            let requests = vec![EnqueueRequest::new("a", json("1")), EnqueueRequest::new("b", json("2"))];
            queue.enqueue_many_at(&requests, &vec![at(2), at(3)], &vec![78, 79], at(1)).unwrap()
        },
    );
}

#[test]
fn ids_of_a_batch_are_all_different() {
    let mut queue = Queue::from_rows(mixed_jobs(), vec![], vec![]).unwrap();
    let keyed = EnqueueRequest::new("a", json("1")).with_options(EnqueueOptions {
        job_key: Some("key 1".to_owned()),
        ..EnqueueOptions::default()
    });
    let requests = vec![EnqueueRequest::new("a", json("1")), keyed, EnqueueRequest::new("a", json("1"))];
    let ids = queue.enqueue_many(&requests, at(1)).unwrap();
    assert_eq!(ids[1], 1);
    assert!(ids[0] != ids[1] && ids[1] != ids[2] && ids[0] != ids[2]);
}
