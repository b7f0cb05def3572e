//! How a worker is set up, and why it stops.

use vstd::prelude::*;
use vstd::string::StringExecFns;

use crate::error::StoreError;
use crate::source::{id_text, new_id, random_id, write_id};
use crate::time::{Duration, NANOS_PER_SECOND};

verus! {

/// How a worker is set up.
#[derive(Debug)]
pub struct WorkerConfig {
    /// Names the worker; no two workers share one.
    pub worker_id: String,
    /// How many jobs the worker runs at a time.
    pub concurrency: usize,
    /// How often idle claim loops poll for delayed work or missed notifications, and how long to
    /// wait before retrying after a claim error.
    pub poll_interval: Duration,
    /// How often schedules are looked at.
    pub cron_poll_interval: Duration,
    /// How often the worker reports that it is alive.
    pub heartbeat_interval: Duration,
    /// How often the lock on a running job is renewed.
    pub lock_renew_interval: Duration,
    /// After what silence a worker counts as dead, and a lock as stale.
    pub stale_after: Duration,
    /// How often dead workers, stale locks and old jobs are looked for.
    pub recovery_interval: Duration,
    /// How long running handlers may go on after a shutdown was requested.
    pub shutdown_grace_period: Duration,
    /// How long finished jobs are kept; forever where no time is given.
    pub finished_job_retention: Option<Duration>,
}

impl Clone for WorkerConfig {
    fn clone(&self) -> (copy: Self)
        ensures
            copy.worker_id@ == self.worker_id@,
            copy.concurrency == self.concurrency,
            copy.poll_interval == self.poll_interval,
            copy.cron_poll_interval == self.cron_poll_interval,
            copy.heartbeat_interval == self.heartbeat_interval,
            copy.lock_renew_interval == self.lock_renew_interval,
            copy.stale_after == self.stale_after,
            copy.recovery_interval == self.recovery_interval,
            copy.shutdown_grace_period == self.shutdown_grace_period,
            copy.finished_job_retention == self.finished_job_retention,
    {
        WorkerConfig {
            worker_id: self.worker_id.clone(),
            concurrency: self.concurrency,
            poll_interval: self.poll_interval,
            cron_poll_interval: self.cron_poll_interval,
            heartbeat_interval: self.heartbeat_interval,
            lock_renew_interval: self.lock_renew_interval,
            stale_after: self.stale_after,
            recovery_interval: self.recovery_interval,
            shutdown_grace_period: self.shutdown_grace_period,
            finished_job_retention: self.finished_job_retention,
        }
    }
}

/// Why a worker does not start, or stopped.
#[derive(Debug)]
pub enum WorkerError {
    /// No handler is registered.
    EmptyRegistry,
    /// The configuration cannot work.
    InvalidConfig(&'static str),
    /// No handler is registered for the job of a schedule.
    MissingCronHandler(String),
    /// Two schedules have the same identifier.
    DuplicateCronIdentifier(String),
    /// The store refused.
    Database(StoreError),
    /// A loop of the worker came to an end by itself.
    LoopExited,
    /// A loop of the worker panicked.
    LoopFailed(String),
}

/// What is wrong with a configuration, where something is.
pub open spec fn config_problem(config: WorkerConfig) -> Option<Seq<char>> {
    if config.concurrency == 0 {
        Some("concurrency must be greater than zero"@)
    } else if config.poll_interval@ == 0 {
        Some("poll_interval must be greater than zero"@)
    } else if config.cron_poll_interval@ == 0 {
        Some("cron_poll_interval must be greater than zero"@)
    } else if config.heartbeat_interval@ == 0 {
        Some("heartbeat_interval must be greater than zero"@)
    } else if config.lock_renew_interval@ == 0 {
        Some("lock_renew_interval must be greater than zero"@)
    } else if config.recovery_interval@ == 0 {
        Some("recovery_interval must be greater than zero"@)
    } else if config.stale_after@ <= config.heartbeat_interval@ {
        Some("stale_after must be greater than heartbeat_interval"@)
    } else if config.stale_after@ <= config.lock_renew_interval@ {
        Some("stale_after must be greater than lock_renew_interval"@)
    } else {
        None
    }
}

impl WorkerConfig {
    /// Checks that the configuration can work.
    pub fn validate(&self) -> (result: Result<(), WorkerError>)
        ensures
            match config_problem(*self) {
                None => result is Ok,
                Some(problem) => result matches Err(WorkerError::InvalidConfig(message)) && message@
                    == problem,
            },
    {
        if self.concurrency == 0 {
            return Err(WorkerError::InvalidConfig("concurrency must be greater than zero"));
        }
        if self.poll_interval.is_zero() {
            return Err(WorkerError::InvalidConfig("poll_interval must be greater than zero"));
        }
        if self.cron_poll_interval.is_zero() {
            return Err(WorkerError::InvalidConfig("cron_poll_interval must be greater than zero"));
        }
        if self.heartbeat_interval.is_zero() {
            return Err(WorkerError::InvalidConfig("heartbeat_interval must be greater than zero"));
        }
        if self.lock_renew_interval.is_zero() {
            return Err(WorkerError::InvalidConfig("lock_renew_interval must be greater than zero"));
        }
        if self.recovery_interval.is_zero() {
            return Err(WorkerError::InvalidConfig("recovery_interval must be greater than zero"));
        }
        if self.stale_after.at_most(self.heartbeat_interval) {
            return Err(
                WorkerError::InvalidConfig("stale_after must be greater than heartbeat_interval"),
            );
        }
        if self.stale_after.at_most(self.lock_renew_interval) {
            return Err(
                WorkerError::InvalidConfig("stale_after must be greater than lock_renew_interval"),
            );
        }
        Ok(())
    }

    /// Whether this is the configuration that a worker with a random id gets if it is given none.
    pub open spec fn is_default(self, id: u128) -> bool {
        &&& self.worker_id@ == "pgspawn_"@ + id_text(id)
        &&& self.concurrency == 4
        &&& self.poll_interval@ == 2 * NANOS_PER_SECOND
        &&& self.cron_poll_interval@ == 30 * NANOS_PER_SECOND
        &&& self.heartbeat_interval@ == 15 * NANOS_PER_SECOND
        &&& self.lock_renew_interval@ == 30 * NANOS_PER_SECOND
        &&& self.stale_after@ == 10 * 60 * NANOS_PER_SECOND
        &&& self.recovery_interval@ == 60 * NANOS_PER_SECOND
        &&& self.shutdown_grace_period@ == 30 * NANOS_PER_SECOND
        &&& self.finished_job_retention is Some
        &&& self.finished_job_retention->0@ == 30 * 24 * 60 * 60 * NANOS_PER_SECOND
    }

    /// The configuration of a worker that is given nothing but a number to make its id from.
    pub fn with_id(id: u128) -> (config: Self)
        ensures
            config.is_default(id),
            config_problem(config) is None,
    {
        WorkerConfig {
            worker_id: "pgspawn_".to_owned().concat(write_id(id).as_str()),
            concurrency: 4,
            poll_interval: Duration::from_secs(2),
            cron_poll_interval: Duration::from_secs(30),
            heartbeat_interval: Duration::from_secs(15),
            lock_renew_interval: Duration::from_secs(30),
            stale_after: Duration::from_secs(10 * 60),
            recovery_interval: Duration::from_secs(60),
            shutdown_grace_period: Duration::from_secs(30),
            finished_job_retention: Some(Duration::from_secs(30 * 24 * 60 * 60)),
        }
    }
}

impl Default for WorkerConfig {
    fn default() -> (config: Self)
        ensures
            exists|id: u128| random_id(id) && #[trigger] config.is_default(id),
            config_problem(config) is None,
    {
        let id: u128 = new_id();
        WorkerConfig::with_id(id)
    }
}

} // verus!
