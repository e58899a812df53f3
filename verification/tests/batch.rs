use vt_core::batch::{
    estimate_remaining_time, BatchJob, BatchQueue, JobStatus, MemoryPressure, Priority,
    ResourceMonitor,
};
use vt_core::clock::{elapsed_between, now, timestamp, Span, Timestamp};
use vt_core::config::{BatchConfig, Config};
use vt_core::ieee::{Double, F64};

fn test_config() -> Config {
    Config::with_cores(Some(8))
}

fn test_batch_config() -> BatchConfig {
    BatchConfig {
        max_concurrent: 2,
        memory_threshold: Double::new(90.0f64.to_bits(), "90"),
        enable_priority: true,
    }
}

fn job_with(id: &str, number: &str, config: Config, priority: Priority) -> BatchJob {
    BatchJob::new(
        id.into(),
        format!("input{number}.mp4"),
        format!("output{number}.mp4"),
        config,
        priority,
    )
}

fn single_job() -> BatchJob {
    job_with("job-1", "", test_config(), Priority::Normal)
}

fn value(x: F64) -> f64 {
    f64::from_bits(x.bits)
}

fn next_id(queue: &mut BatchQueue) -> Option<String> {
    let place = queue.next_job(MemoryPressure::Normal)?;
    Some(queue.jobs()[place].id.clone())
}

#[test]
fn test_priority_ordering() {
    assert!(Priority::High < Priority::Normal);
    assert!(Priority::Normal < Priority::Low);
    assert_eq!(Priority::default(), Priority::Normal);
}

#[test]
fn test_job_status_is_terminal() {
    assert!(JobStatus::Completed.is_terminal());
    assert!(JobStatus::Failed.is_terminal());
    assert!(JobStatus::Cancelled.is_terminal());
    assert!(!JobStatus::Queued.is_terminal());
    assert!(!JobStatus::Running.is_terminal());
    assert!(!JobStatus::Paused.is_terminal());
}

#[test]
fn test_job_status_is_active() {
    assert!(JobStatus::Running.is_active());
    assert!(JobStatus::Paused.is_active());
    assert!(!JobStatus::Queued.is_active());
    assert!(!JobStatus::Completed.is_active());
}

#[test]
fn test_batch_job_new() {
    let job = single_job();
    assert_eq!(job.id, "job-1");
    assert_eq!(job.input_path, "input.mp4");
    assert_eq!(job.output_path, "output.mp4");
    assert_eq!(job.status, JobStatus::Queued);
    assert_eq!(job.priority, Priority::Normal);
    assert!((value(job.progress) - 0.0).abs() < f64::EPSILON);
    assert!(job.error.is_none());
    assert!(job.started_at.is_none());
    assert!(job.completed_at.is_none());
}

#[test]
fn test_batch_job_update_progress() {
    let mut job = single_job();
    job.update_progress(F64::from_bits(0.5f64.to_bits()));
    assert!((value(job.progress) - 0.5).abs() < f64::EPSILON);
    job.update_progress(F64::from_bits((-0.1f64).to_bits()));
    assert!((value(job.progress) - 0.0).abs() < f64::EPSILON);
    job.update_progress(F64::from_bits(1.5f64.to_bits()));
    assert!((value(job.progress) - 1.0).abs() < f64::EPSILON);
}

#[test]
fn test_batch_job_lifecycle() {
    let mut job = single_job();
    assert_eq!(job.status, JobStatus::Queued);
    job.start();
    assert_eq!(job.status, JobStatus::Running);
    assert!(job.started_at.is_some());
    job.pause();
    assert_eq!(job.status, JobStatus::Paused);
    job.status = JobStatus::Running;
    job.complete();
    assert_eq!(job.status, JobStatus::Completed);
    assert!((value(job.progress) - 1.0).abs() < f64::EPSILON);
    assert!(job.completed_at.is_some());
}

#[test]
fn test_batch_job_fail() {
    let mut job = single_job();
    job.start();
    job.fail("ASR engine failed".into());
    assert_eq!(job.status, JobStatus::Failed);
    assert_eq!(job.error.as_deref(), Some("ASR engine failed"));
    assert!(job.completed_at.is_some());
}

#[test]
fn test_batch_job_cancel() {
    let mut job = single_job();
    job.cancel();
    assert_eq!(job.status, JobStatus::Cancelled);
    assert!(job.completed_at.is_some());
}

#[test]
fn test_batch_job_elapsed() {
    let mut job = single_job();
    assert!(job.elapsed().is_none());
    job.start();
    assert!(job.elapsed().is_some());
    job.complete();
    assert!(job.elapsed().is_some());
}

#[test]
fn test_resource_monitor_new() {
    let config = test_batch_config();
    let monitor = ResourceMonitor::new(&config);
    assert_eq!(value(monitor.memory_threshold), 90.0);
    assert_eq!(monitor.initial_max_concurrent, 2);
    assert_eq!(monitor.max_concurrent, 2);
}

#[test]
fn test_resource_monitor_check_and_adjust() {
    let config = test_batch_config();
    for pressure in [
        MemoryPressure::Unknown,
        MemoryPressure::High,
        MemoryPressure::Normal,
        MemoryPressure::Low,
    ] {
        let mut monitor = ResourceMonitor::new(&config);
        let result = monitor.check_and_adjust(pressure);
        assert!(result >= 1, "check_and_adjust should return at least 1");
    }
}

#[test]
fn test_resource_monitor_reset() {
    let config = test_batch_config();
    let mut monitor = ResourceMonitor::new(&config);
    monitor.check_and_adjust(MemoryPressure::High);
    monitor.reset();
    assert_eq!(
        monitor.current_max_concurrent(),
        config.max_concurrent,
        "Reset should restore initial max concurrent"
    );
}

#[test]
fn test_batch_queue_new() {
    let config = test_config();
    let queue = BatchQueue::new(&config);
    assert!(queue.is_empty());
    assert_eq!(queue.len(), 0);
    assert!(!queue.paused);
}

#[test]
fn test_batch_queue_add_job() {
    let mut queue = BatchQueue::with_config(test_batch_config());
    queue.add_job(job_with("job-1", "1", test_config(), Priority::Normal));
    assert_eq!(queue.len(), 1);
    assert_eq!(queue.pending_count(), 1);
    assert_eq!(queue.running_count(), 0);
}

#[test]
fn test_batch_queue_next_job_fifo() {
    let config = test_config();
    let mut batch_config = test_batch_config();
    batch_config.enable_priority = false;
    let mut queue = BatchQueue::with_config(batch_config);
    queue.add_job(job_with("job-1", "1", config.clone(), Priority::Low));
    queue.add_job(job_with("job-2", "2", config, Priority::High));
    assert_eq!(next_id(&mut queue).as_deref(), Some("job-1"));
    assert_eq!(queue.running_count(), 1);
}

#[test]
fn test_batch_queue_next_job_priority() {
    let config = test_config();
    let mut queue = BatchQueue::with_config(test_batch_config());
    queue.add_job(job_with("job-1", "1", config.clone(), Priority::Low));
    queue.add_job(job_with("job-2", "2", config.clone(), Priority::High));
    queue.add_job(job_with("job-3", "3", config, Priority::Normal));
    assert_eq!(next_id(&mut queue).as_deref(), Some("job-2"));
    assert_eq!(queue.running_count(), 1);
    assert_eq!(next_id(&mut queue).as_deref(), Some("job-3"));
    assert_eq!(queue.running_count(), 2);
    assert!(next_id(&mut queue).is_none());
}

#[test]
fn test_batch_queue_concurrency_limit() {
    let config = test_config();
    let mut queue = BatchQueue::with_config(test_batch_config());
    queue.add_job(job_with("job-1", "1", config.clone(), Priority::Normal));
    queue.add_job(job_with("job-2", "2", config.clone(), Priority::Normal));
    queue.add_job(job_with("job-3", "3", config, Priority::Normal));
    assert_eq!(next_id(&mut queue).as_deref(), Some("job-1"));
    assert_eq!(next_id(&mut queue).as_deref(), Some("job-2"));
    assert!(next_id(&mut queue).is_none());
    queue.complete_job("job-1");
    assert_eq!(next_id(&mut queue).as_deref(), Some("job-3"));
}

#[test]
fn test_batch_queue_pause_resume() {
    let mut queue = BatchQueue::with_config(test_batch_config());
    queue.add_job(job_with("job-1", "1", test_config(), Priority::Normal));
    queue.pause();
    assert!(
        next_id(&mut queue).is_none(),
        "Paused queue should not return jobs"
    );
    queue.resume();
    assert_eq!(next_id(&mut queue).as_deref(), Some("job-1"));
}

#[test]
fn test_batch_queue_cancel_job() {
    let mut queue = BatchQueue::with_config(test_batch_config());
    queue.add_job(job_with("job-1", "1", test_config(), Priority::Normal));
    queue.cancel_job("job-1");
    assert_eq!(queue.get_status("job-1"), Some(JobStatus::Cancelled));
    assert!(
        next_id(&mut queue).is_none(),
        "Cancelled job should not be returned"
    );
}

#[test]
fn test_batch_queue_cancel_all() {
    let config = test_config();
    let mut queue = BatchQueue::with_config(test_batch_config());
    queue.add_job(job_with("job-1", "1", config.clone(), Priority::Normal));
    queue.add_job(job_with("job-2", "2", config, Priority::Normal));
    queue.cancel_all();
    assert_eq!(queue.get_status("job-1"), Some(JobStatus::Cancelled));
    assert_eq!(queue.get_status("job-2"), Some(JobStatus::Cancelled));
}

#[test]
fn test_batch_queue_complete_job() {
    let mut queue = BatchQueue::with_config(test_batch_config());
    queue.add_job(job_with("job-1", "1", test_config(), Priority::Normal));
    let _ = queue.next_job(MemoryPressure::Normal);
    queue.complete_job("job-1");
    assert_eq!(queue.get_status("job-1"), Some(JobStatus::Completed));
    assert_eq!(queue.completed_count(), 1);
}

#[test]
fn test_batch_queue_fail_job() {
    let mut queue = BatchQueue::with_config(test_batch_config());
    queue.add_job(job_with("job-1", "1", test_config(), Priority::Normal));
    queue.fail_job("job-1", "Processing failed".into());
    assert_eq!(queue.get_status("job-1"), Some(JobStatus::Failed));
    assert_eq!(queue.failed_count(), 1);
}

#[test]
fn test_batch_queue_get_all_statuses() {
    let config = test_config();
    let mut queue = BatchQueue::with_config(test_batch_config());
    queue.add_job(job_with("job-1", "1", config.clone(), Priority::Normal));
    queue.add_job(job_with("job-2", "2", config, Priority::Normal));
    let statuses = queue.get_all_statuses();
    assert_eq!(statuses.len(), 2);
    let status_of = |id: &str| statuses.iter().find(|s| s.0 == id).map(|s| s.1);
    assert_eq!(status_of("job-1"), Some(JobStatus::Queued));
    assert_eq!(status_of("job-2"), Some(JobStatus::Queued));
}

#[test]
fn test_batch_queue_update_progress() {
    let mut queue = BatchQueue::with_config(test_batch_config());
    queue.add_job(job_with("job-1", "1", test_config(), Priority::Normal));
    queue.update_progress("job-1", F64::from_bits(0.5f64.to_bits()));
    let progress = queue.get_progress("job-1").map(value);
    assert!((progress.unwrap() - 0.5).abs() < f64::EPSILON);
}

#[test]
fn test_batch_queue_estimate_remaining_time() {
    let config = test_config();
    let mut queue = BatchQueue::with_config(test_batch_config());
    assert!(queue.estimate_remaining_time().is_none());
    queue.add_job(job_with("job-1", "1", config.clone(), Priority::Normal));
    let _ = queue.next_job(MemoryPressure::Normal);
    queue.complete_job("job-1");
    queue.add_job(job_with("job-2", "2", config, Priority::Normal));
    assert!(
        queue.estimate_remaining_time().is_some(),
        "Should estimate remaining time with history"
    );
}

#[test]
fn test_estimate_remaining_time_empty() {
    let result = estimate_remaining_time(&vec![], 5, 2);
    assert!(result.is_none());
}

#[test]
fn test_estimate_remaining_time_with_data() {
    let durations = vec![Span::from_secs(60), Span::from_secs(120)];
    let result = estimate_remaining_time(&durations, 4, 2);
    assert!(result.is_some());
    assert_eq!(result.unwrap(), Span::from_secs(180));
}

#[test]
fn test_estimate_remaining_time_zero_concurrent() {
    let durations = vec![Span::from_secs(60)];
    let result = estimate_remaining_time(&durations, 2, 0);
    assert!(result.is_some());
    assert_eq!(result.unwrap(), Span::from_secs(120));
}

#[test]
fn a_pause_leaves_running_jobs_alone() {
    let mut queue = BatchQueue::with_config(test_batch_config());
    queue.add_job(job_with("job-1", "1", test_config(), Priority::Normal));
    queue.add_job(job_with("job-2", "2", test_config(), Priority::Normal));
    assert_eq!(next_id(&mut queue).as_deref(), Some("job-1"));
    queue.pause();
    assert_eq!(queue.get_status("job-1"), Some(JobStatus::Running));
    queue.start();
    assert_eq!(next_id(&mut queue).as_deref(), Some("job-2"));
}

#[test]
fn memory_pressure_halves_and_restores_the_limit() {
    let mut config = test_batch_config();
    config.max_concurrent = 5;
    let mut monitor = ResourceMonitor::new(&config);
    assert_eq!(monitor.check_and_adjust(MemoryPressure::High), 2);
    assert_eq!(monitor.check_and_adjust(MemoryPressure::High), 1);
    assert_eq!(monitor.check_and_adjust(MemoryPressure::High), 1);
    assert_eq!(monitor.check_and_adjust(MemoryPressure::Normal), 1);
    assert_eq!(monitor.check_and_adjust(MemoryPressure::Low), 2);
    assert_eq!(monitor.check_and_adjust(MemoryPressure::Unknown), 2);
    monitor.reset();
    assert_eq!(monitor.check_and_adjust(MemoryPressure::Low), 5);
}

#[test]
fn memory_pressure_is_judged_by_the_threshold() {
    let number = |x: f64| F64::from_bits(x.to_bits());
    let judge = |usage: Option<f64>| {
        MemoryPressure::judge(usage.map(number), number(80.0), number(56.0))
    };
    assert_eq!(judge(None), MemoryPressure::Unknown);
    assert_eq!(judge(Some(80.5)), MemoryPressure::High);
    assert_eq!(judge(Some(80.0)), MemoryPressure::Normal);
    assert_eq!(judge(Some(56.0)), MemoryPressure::Normal);
    assert_eq!(judge(Some(55.9)), MemoryPressure::Low);
}

#[test]
fn the_time_of_a_job_runs_from_its_start_to_its_end() {
    let mut job = BatchJob::new_at(
        "job".into(),
        "in".into(),
        "out".into(),
        test_config(),
        Priority::High,
        timestamp(10, 0),
    );
    job.start_at(timestamp(20, 0));
    assert_eq!(job.elapsed_at(timestamp(25, 0)), Some(Span::from_secs(5)));
    job.complete_at(timestamp(27, 0));
    assert_eq!(job.elapsed_at(timestamp(99, 0)), Some(Span::from_secs(7)));
    assert_eq!(elapsed_between(timestamp(5, 0), timestamp(3, 0)), None);
}

#[test]
fn a_history_of_times_gives_the_remaining_time() {
    let mut queue = BatchQueue::with_config(test_batch_config());
    queue.add_job(job_with("a", "1", test_config(), Priority::Normal));
    assert_eq!(
        queue.next_job_at(MemoryPressure::Normal, timestamp(100, 0)),
        Some(0)
    );
    queue.complete_job_at("a", timestamp(160, 0), timestamp(160, 0));
    queue.add_job(job_with("b", "2", test_config(), Priority::Normal));
    queue.add_job(job_with("c", "3", test_config(), Priority::Normal));
    assert_eq!(queue.estimate_remaining_time(), Some(Span::from_secs(60)));
    queue.fail_job_at("b", "gone".into(), timestamp(170, 0));
    queue.cancel_job_at("c", timestamp(171, 0));
    assert_eq!(queue.pending_count(), 0);
    assert_eq!(queue.failed_count(), 1);
    assert_eq!(queue.get_status("nobody"), None);
}

#[test]
fn the_clock_stands_after_the_epoch() {
    let first: Timestamp = now();
    let second = now();
    assert!(first.nanos > 1_600_000_000_000_000_000);
    assert!(second.nanos >= first.nanos);
    assert_eq!(timestamp(1, 5).nanos, 1_000_000_005);
}

#[test]
fn jobs_can_be_changed_in_place() {
    let mut queue = BatchQueue::with_config(test_batch_config());
    queue.add_job(single_job());
    queue.jobs_mut()[0].priority = Priority::High;
    assert_eq!(queue.jobs()[0].priority, Priority::High);
    queue.cancel_all_at(timestamp(1, 0));
    assert!(queue.jobs()[0].status.is_terminal());
    assert_eq!(queue.current_max_concurrent(), 2);
}

#[test]
fn what_is_over_stays_as_it_is() {
    let mut queue = BatchQueue::with_config(test_batch_config());
    queue.add_job(job_with("a", "1", test_config(), Priority::Normal));
    queue.complete_job("a");
    queue.cancel_job("a");
    assert_eq!(queue.get_status("a"), Some(JobStatus::Completed));
    queue.fail_job("a", "late".into());
    assert_eq!(queue.get_status("a"), Some(JobStatus::Completed));
    assert!(queue.jobs()[0].error.is_none());
    queue.cancel_all();
    queue.resume();
    assert_eq!(queue.get_status("a"), Some(JobStatus::Completed));
    assert_eq!(queue.next_job(MemoryPressure::Normal), None);

    queue.add_job(job_with("b", "2", test_config(), Priority::Normal));
    assert_eq!(queue.next_job_at(MemoryPressure::Normal, timestamp(10, 0)), Some(1));
    queue.fail_job_at("b", "broken".into(), timestamp(20, 0));
    queue.complete_job_at("b", timestamp(30, 0), timestamp(30, 0));
    queue.cancel_job_at("b", timestamp(40, 0));
    assert_eq!(queue.get_status("b"), Some(JobStatus::Failed));
    assert_eq!(queue.jobs()[1].completed_at, Some(timestamp(20, 0)));
    assert!(queue.estimate_remaining_time().is_none());
}

#[test]
fn a_job_that_is_over_is_not_taken_up_again() {
    let mut job = single_job();
    job.start_at(timestamp(10, 0));
    job.complete_at(timestamp(20, 0));
    job.start_at(timestamp(30, 0));
    job.start();
    job.fail("late".into());
    job.cancel();
    assert_eq!(job.status, JobStatus::Completed);
    assert_eq!(job.started_at, Some(timestamp(10, 0)));
    assert_eq!(job.completed_at, Some(timestamp(20, 0)));
    assert!(job.error.is_none());
    let mut job = single_job();
    job.cancel_at(timestamp(5, 0));
    job.complete();
    assert_eq!(job.status, JobStatus::Cancelled);
    assert_eq!(value(job.progress), 0.0);
    assert_eq!(job.completed_at, Some(timestamp(5, 0)));
}
