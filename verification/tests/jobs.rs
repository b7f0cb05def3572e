use std::str::FromStr;

use pgspawn::queue::duration_millis_i64;
use pgspawn::text::{decimal_text, eq_ignore_ascii_case, starts_with, trim};
use pgspawn::time::{MAX_SECOND, MIN_SECOND};
use pgspawn::{
    Duration, EnqueueError, EnqueueOptions, EnqueueRequest, Environment, JobKeyMode, JobRow,
    JobStatus, StoreError, Timestamp,
};

const STATUSES: [(JobStatus, &str); 5] = [
    (JobStatus::Queued, "queued"),
    (JobStatus::Running, "running"),
    (JobStatus::Succeeded, "succeeded"),
    (JobStatus::Failed, "failed"),
    (JobStatus::Cancelled, "cancelled"),
];

#[test]
fn statuses_are_read_as_they_are_written() {
    for (status, text) in STATUSES {
        assert_eq!(status.as_str(), text);
        assert_eq!(status.to_string(), text);
        assert_eq!(JobStatus::from_str(text).unwrap(), status);
        assert_eq!(
            status.is_terminal(),
            matches!(text, "succeeded" | "failed" | "cancelled")
        );
    }
    let error = JobStatus::parse("Queued").unwrap_err();
    assert_eq!(error.to_string(), "unknown job status `Queued`");
    assert!(JobStatus::from_str("").is_err());
}

#[test]
fn job_key_modes_have_names() {
    assert_eq!(JobKeyMode::Dedupe.as_str(), "dedupe");
    assert_eq!(JobKeyMode::Replace.as_str(), "replace");
    assert_eq!(JobKeyMode::PreserveRunAt.as_str(), "preserve_run_at");
    assert_eq!(JobKeyMode::default(), JobKeyMode::Dedupe);
}

#[test]
fn environments_are_read_without_regard_to_case_and_space() {
    for environment in Environment::ALL {
        let text = environment.as_str();
        assert_eq!(Environment::from_str(text), Ok(environment));
        assert_eq!(
            Environment::from_str(&format!(" \t{}\u{a0}\n", text.to_uppercase())),
            Ok(environment)
        );
        assert_eq!(environment.to_string(), text);
    }
    assert_eq!(
        Environment::DEPLOYED,
        [Environment::Production, Environment::Staging]
    );
    let error = Environment::parse(" prod ").unwrap_err();
    assert_eq!(error.to_string(), "unsupported environment `prod`");
    assert!(Environment::parse("pro duction").is_err());
    assert!(Environment::parse("").is_err());
}

#[test]
fn texts_are_trimmed_as_std_does_it() {
    for text in ["", " ", "a", " a ", "\u{2003}a b\u{3000}", "\u{200b}a", "\u{85}\u{1680}x\u{205f}"] {
        assert_eq!(trim(text), text.trim());
    }
    assert!(eq_ignore_ascii_case("TeSt", "tEsT"));
    assert!(!eq_ignore_ascii_case("\u{c4}", "\u{e4}"));
    assert!(!eq_ignore_ascii_case("test", "tests"));
    assert!(!eq_ignore_ascii_case("[", "{"));
    assert!(starts_with("worker:0", "worker:"));
    assert!(!starts_with("worker", "worker:"));
    assert!(starts_with("\u{1f980}x", "\u{1f980}"));
}

#[test]
fn numbers_are_written_in_decimal() {
    for number in [0, 7, 10, 99, 1234567890, u64::MAX] {
        assert_eq!(decimal_text(number), number.to_string());
    }
}

fn row(status: &str) -> JobRow {
    let now = Timestamp::from_second(5).unwrap();
    JobRow {
        id: 3,
        name: "job".to_owned(),
        status: status.to_owned(),
        payload: serde_json::Value::Bool(true),
        queue_name: Some("q".to_owned()),
        priority: -1,
        run_at: now,
        job_key: Some("k".to_owned()),
        attempt: 2,
        max_attempts: 4,
        locked_by: None,
        locked_at: None,
        error: Some("e".to_owned()),
        queued_at: now,
        started_at: Some(now),
        finished_at: None,
        created_at: now,
        updated_at: now,
    }
}

#[test]
fn a_row_is_read_where_its_status_is_known() {
    let job = row("failed").into_job().unwrap();
    assert_eq!(job.id, 3);
    assert_eq!(job.status, JobStatus::Failed);
    assert_eq!(job.payload, serde_json::Value::Bool(true));
    assert_eq!(job.queue_name.as_deref(), Some("q"));
    assert_eq!(job.error.as_deref(), Some("e"));
    match row("lost").into_job() {
        Err(StoreError::ColumnDecode { index, source }) => {
            assert_eq!(index, "status");
            assert_eq!(source.to_string(), "unknown job status `lost`");
        }
        _ => panic!("the status is unknown"),
    }
}

#[test]
fn requests_start_from_default_options() {
    let request = EnqueueRequest::new("name", serde_json::Value::Null);
    assert_eq!(request.name, "name");
    assert_eq!(request.options.max_attempts, 25);
    assert_eq!(request.options.priority, 0);
    let request = request.with_options(EnqueueOptions {
        priority: 3,
        ..EnqueueOptions::default()
    });
    assert_eq!(request.options.priority, 3);
    let typed = EnqueueRequest::typed("name", serde_json::to_value(7)).unwrap();
    assert_eq!(typed.payload, serde_json::to_value(7).unwrap());
    let unreadable: Result<serde_json::Value, serde_json::Error> = serde_json::from_str("{");
    assert!(EnqueueRequest::typed("name", unreadable).is_err());
    let unreadable: Result<serde_json::Value, serde_json::Error> = serde_json::from_str("{");
    assert!(matches!(
        EnqueueError::from(unreadable.unwrap_err()),
        EnqueueError::Serialize(_)
    ));
    assert!(matches!(
        EnqueueError::from(StoreError::DuplicateId),
        EnqueueError::Database(StoreError::DuplicateId)
    ));
}

#[test]
fn millis_are_clamped() {
    assert_eq!(duration_millis_i64(Duration::from_secs(2)), 2000);
    assert_eq!(duration_millis_i64(Duration::new(0, 1_999_999).unwrap()), 1);
    assert_eq!(duration_millis_i64(Duration::from_secs(u64::MAX)), i64::MAX);
}

#[test]
fn timestamps_agree_with_jiff() {
    for (second, nanosecond) in [
        (0, 0),
        (0, -1),
        (5, -1),
        (-5, 1),
        (MIN_SECOND, 0),
        (MIN_SECOND, 1),
        (MAX_SECOND, 999_999_999),
        (MIN_SECOND, -1),
        (MAX_SECOND + 1, -1),
        (1, 1_000_000_000),
    ] {
        let ours = Timestamp::new(second, nanosecond);
        let theirs = jiff::Timestamp::new(second, nanosecond).ok();
        assert_eq!(
            ours.map(|t| (t.as_second(), t.subsec_nanosecond(), t.as_nanosecond())),
            theirs.map(|t| (t.as_second(), t.subsec_nanosecond(), t.as_nanosecond()))
        );
    }
    let one = Timestamp::new(0, -1).unwrap();
    let other = Timestamp::new(0, 0).unwrap();
    assert!(one < other && one.is_before(other));
    assert_eq!(one.shifted(1), Timestamp::new(0, 999_999_999).unwrap());
    assert_eq!(
        Timestamp::new(MAX_SECOND, 5).unwrap().saturating_later(1, 0),
        Timestamp::new(MAX_SECOND, 999_999_999).unwrap()
    );
}

#[test]
fn durations_agree_with_std() {
    for (secs, nanos) in [(0, 0), (1, 999_999_999), (u64::MAX, 1), (u64::MAX / 2, 600_000_000)] {
        let ours = Duration::new(secs, nanos).unwrap();
        let theirs = std::time::Duration::new(secs, nanos);
        assert_eq!(ours.as_nanos(), theirs.as_nanos());
        assert_eq!(ours.as_millis(), theirs.as_millis());
        assert_eq!(ours.is_zero(), theirs.is_zero());
        assert_eq!(
            ours.saturating_double().as_nanos(),
            theirs.saturating_mul(2).as_nanos()
        );
    }
    assert_eq!(Duration::new(0, 1_000_000_000), None);
    assert_eq!(
        Duration::from_millis(1_500).as_nanos(),
        std::time::Duration::from_millis(1_500).as_nanos()
    );
}
