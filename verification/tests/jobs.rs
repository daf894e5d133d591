use taskmeister::jobs::{Job, JobFlags, JobStatus};

#[test]
fn default_flags_are_cleared() {
    let flags = JobFlags::default();
    assert!(!flags.remove_service);
    assert!(!flags.restart_job);
}

#[test]
fn consume_returns_flags_and_resets() {
    let mut flags = JobFlags { remove_service: true, restart_job: false };
    let taken = flags.consume();
    assert_eq!(taken, JobFlags { remove_service: true, restart_job: false });
    assert_eq!(flags, JobFlags::default());
    let again = flags.consume();
    assert_eq!(again, JobFlags::default());
}

#[test]
fn new_job_is_created_with_zero_counters() {
    let job = Job::new();
    assert_eq!(job.status, JobStatus::Created);
    assert_eq!(job.retries, 0);
    assert_eq!(job.last_exit_code, 0);
    assert!(job.started.is_none());
    assert_eq!(job.flags, JobFlags::default());
}
