//! Durable background jobs: the rules by which jobs are enqueued, claimed, retried, recovered and
//! scheduled, and by which a worker runs them.
//!
//! The rules work on plain values. A program around the library keeps the jobs in a database, runs
//! the handlers, and asks the library what is to be done.

pub mod batch;
pub mod batch_laws;
pub mod calendar;
pub mod calendar_laws;
pub mod change;
pub mod change_laws;
pub mod claimed;
pub mod config;
pub mod cron;
pub mod cron_laws;
pub mod environment;
pub mod error;
pub mod job;
pub mod job_laws;
pub mod json;
pub mod laws;
pub mod listing;
pub mod loops;
pub mod maker_laws;
pub mod operation_laws;
pub mod part_laws;
pub mod queue;
pub mod queue_laws;
pub mod registry;
pub mod reply;
pub mod roster;
pub mod rows;
pub mod running_laws;
pub mod schedule;
pub mod schedule_laws;
pub mod search;
pub mod sifting;
pub mod sorting;
pub mod soundness;
pub mod source;
pub mod store_laws;
pub mod supervisor;
pub mod table;
pub mod text;
pub mod text_laws;
pub mod time;
pub mod timetable;
pub mod worker;
pub mod worker_laws;
pub mod zone;

pub use crate::calendar::Weekday;
pub use crate::config::{WorkerConfig, WorkerError};
pub use crate::cron::{CronJob, CronSchedule};
pub use crate::environment::{Environment, ParseEnvironmentError};
pub use crate::error::{DatabaseError, EnqueueError, StoreError};
pub use crate::job::{
    EnqueueOptions, EnqueueRequest, Job, JobKeyMode, JobRow, JobStatus, ParseJobStatusError,
};
pub use crate::loops::is_shutting_down;
pub use crate::queue::Queue;
pub use crate::registry::{HandlerError, Registry, RegistryBuilder};
pub use crate::rows::{CronEnqueueResult, CronRow, JobCounts, WorkerInfo, WorkerRow};
pub use crate::schedule::{DailyJobSchedule, MonthlyJobSchedule};
pub use crate::time::{Duration, Timestamp};
pub use crate::worker::Worker;
