use endgame::jobs::progress::{
    AttachStep, DeletionOutcome, FlushEnd, FlushStep, JobPhase, JobProgress, StatusWait,
    truncate_failure,
};
use endgame::jobs::queue::{
    DownloadQueue, QueueReply, RunnerStep, WorkerEnd, counted_outcome, counted_phase,
    next_pending_position,
    outcome_phase, worker_outcome,
};
use endgame::jobs::status::{format_bytes, format_duration, render, render_uploading};
use endgame::media::request::{DownloadLimits, DownloadOutcome, DownloadRequest};
use endgame::policy::EffectiveUserLimits;
use endgame::store::DownloadStatOutcome;
use endgame::time::Duration;

fn limits() -> DownloadLimits {
    DownloadLimits {
        max_upload_bytes: 1_000,
        command_timeout: Duration::from_secs(60),
        upload_timeout: Duration::from_secs(60),
        job_timeout: Duration::from_secs(90),
    }
}

fn request(url: &str) -> DownloadRequest {
    DownloadRequest::video(url.to_string(), None)
}

fn at(seconds: u64) -> Duration {
    Duration::from_secs(seconds)
}

fn started(step: RunnerStep) -> (u64, i64) {
    match step {
        RunnerStep::Start(job) => (job.id, job.owner_id),
        _ => panic!("expected a job to start"),
    }
}

fn text(reply: QueueReply) -> String {
    match reply {
        QueueReply::Message { text } => text,
        _ => panic!("expected a message"),
    }
}

#[test]
fn progress_only_final_phases_are_terminal() {
    assert!(!JobPhase::Queued.is_terminal());
    assert!(!(JobPhase::Downloading { percent: None }).is_terminal());
    assert!(!JobPhase::Cancelling.is_terminal());
    assert!(JobPhase::Cancelled.is_terminal());
    assert!(JobPhase::Completed.is_terminal());
    assert!(JobPhase::Failed.is_terminal());
}

#[test]
fn progress_cancelling_cannot_regress_to_active_progress() {
    assert!(
        !JobPhase::Cancelling.can_transition_to(&JobPhase::Downloading { percent: Some(50) })
    );
    assert!(!JobPhase::Cancelling.can_transition_to(&JobPhase::Inspecting));
    assert!(
        !JobPhase::Cancelling.can_transition_to(&JobPhase::Transcoding { percent: Some(50) })
    );
    assert!(
        !JobPhase::Cancelling.can_transition_to(&JobPhase::Uploading {
            current: 1,
            total: 2,
            bytes: None,
        })
    );
    assert!(JobPhase::Cancelling.can_transition_to(&JobPhase::Cancelled));
    assert!(JobPhase::Cancelling.can_transition_to(&JobPhase::Completed));
}

#[test]
fn progress_failure_text_truncation_is_unicode_safe() {
    let reason = "🙂".repeat(600);
    let truncated = truncate_failure(reason);
    assert_eq!(truncated.chars().count(), 500);
    assert!(truncated.ends_with("..."));
}

#[test]
fn prefers_a_user_without_an_active_job() {
    assert_eq!(next_pending_position(&[11, 11, 22], &[11]), Some(2));
}

#[test]
fn preserves_fifo_among_users_without_active_jobs() {
    assert_eq!(next_pending_position(&[11, 22, 33], &[11]), Some(1));
}

#[test]
fn keeps_workers_busy_when_every_pending_user_is_active() {
    assert_eq!(next_pending_position(&[11, 22, 11], &[11, 22]), Some(0));
    assert_eq!(next_pending_position(&[11, 11], &[11]), Some(0));
}

#[test]
fn returns_none_for_an_empty_queue() {
    assert_eq!(next_pending_position(&[], &[11]), None);
}

#[test]
fn upload_status_and_units_are_readable() {
    assert_eq!(
        render_uploading(15, 1, 1, Some((800, 2_000))),
        "Job #15 is uploading item 1/1: 40% • 1.17 KiB left."
    );
    assert_eq!(format_bytes(1024), "1.00 KiB");
}

#[test]
fn upload_percentages_have_64_bits() {
    assert_eq!(
        render_uploading(1, 1, 1, Some((3, 1))),
        "Job #1 is uploading item 1/1: 300% • 0 B left."
    );
    assert_eq!(
        render_uploading(1, 1, 1, Some((u64::MAX, 1))),
        "Job #1 is uploading item 1/1: 18446744073709551516% • 0 B left."
    );
}

#[test]
fn outcomes_wait_to_be_recorded() {
    let mut queue = DownloadQueue::new(1, 5, limits());
    for owner in [1, 1, 2] {
        queue.handle().try_enqueue(owner, request("https://a"), at(0));
    }
    assert_eq!(started(queue.advance(0)), (1, 1));
    assert!(!queue.handle().is_waiting(1));
    assert!(queue.handle().is_waiting(2));
    queue.handle().try_cancel(2, 2, at(1));
    assert!(queue.take_outcomes().is_empty());
    queue.handle().try_cancel(1, 1, at(1));
    assert!(queue.take_outcomes().is_empty());
    queue.handle().try_cancel(1, 2, at(1));
    let phase = queue.handle().progress(2).unwrap().phase();
    assert_eq!(counted_phase(&phase), Some(DownloadStatOutcome::Cancelled));
    queue.finish(1, DownloadOutcome::Failed, at(2));
    assert_eq!(
        queue.take_outcomes(),
        [
            (1, DownloadStatOutcome::Cancelled),
            (1, DownloadStatOutcome::Failed)
        ]
    );
    assert_eq!(started(queue.advance(0)), (3, 2));
    queue.finish(3, DownloadOutcome::Completed, at(3));
    queue.finish(3, DownloadOutcome::Completed, at(3));
    assert_eq!(
        queue.take_outcomes(),
        [(2, DownloadStatOutcome::Completed)]
    );
    assert!(queue.take_outcomes().is_empty());
}

#[test]
fn only_ended_jobs_are_counted() {
    assert_eq!(
        counted_phase(&JobPhase::Completed),
        Some(DownloadStatOutcome::Completed)
    );
    assert_eq!(
        counted_phase(&JobPhase::Failed),
        Some(DownloadStatOutcome::Failed)
    );
    for phase in [
        JobPhase::Queued,
        JobPhase::Inspecting,
        JobPhase::Finalizing,
        JobPhase::Cancelling,
    ] {
        assert_eq!(counted_phase(&phase), None);
    }
}

#[test]
fn durations_are_human_readable() {
    assert_eq!(format_duration(Duration::from_secs(125)), "2m 5s");
    assert_eq!(format_duration(Duration::from_secs(7_500)), "2h 5m");
}

#[test]
fn sizes_are_written_as_doubles_are() {
    let names = ["KiB", "MiB", "GiB", "TiB"];
    let mut state: u64 = 0x9e37_79b9_7f4a_7c15;
    let mut values = vec![1023u64, 1024, 10_239, 10_240, 102_399, 102_400, 1_048_575, 1_048_576];
    for _ in 0..20_000 {
        state = state.wrapping_mul(6_364_136_223_846_793_005).wrapping_add(1);
        values.push(state >> (state % 55));
    }
    for bytes in values {
        if bytes < 1024 {
            assert_eq!(format_bytes(bytes), format!("{bytes} B"));
            continue;
        }
        let mut value = bytes as f64;
        let mut unit = 0;
        value /= 1024.0;
        while value >= 1024.0 && unit < 3 {
            value /= 1024.0;
            unit += 1;
        }
        let expected = if value >= 100.0 {
            format!("{value:.0} {}", names[unit])
        } else if value >= 10.0 {
            format!("{value:.1} {}", names[unit])
        } else {
            format!("{value:.2} {}", names[unit])
        };
        assert_eq!(format_bytes(bytes), expected);
    }
}

#[test]
fn failures_are_shown() {
    assert_eq!(
        render(3, &JobPhase::Failed, Some("no space")),
        "Job #3 failed: no space"
    );
    assert_eq!(render(3, &JobPhase::Cancelled, None), "Job #3 was cancelled.");
}

#[test]
fn one_flush_runs_at_a_time() {
    let mut progress = JobProgress::new(1, at(0));
    assert!(!progress.downloading(at(1)));
    assert_eq!(progress.status_wait(), StatusWait::Pending);
    let first = progress.render();
    assert_eq!(progress.attached(77, first), AttachStep::StartFlush);
    assert!(!progress.inspecting(at(2)));
    let FlushStep::Edit { status, text } = progress.flush_locked() else {
        panic!("expected an edit");
    };
    assert_eq!(status, 77);
    assert_eq!(progress.flush_edited(&text, true), FlushEnd::Stop);
    assert!(progress.finalizing(at(3)));
}

#[test]
fn flushes_catch_up_with_the_job() {
    let mut progress = JobProgress::new(1, at(0));
    progress.attached(5, "other".to_string());
    let FlushStep::Edit { text, .. } = progress.flush_locked() else {
        panic!("expected an edit");
    };
    progress.downloading(at(1));
    assert_eq!(progress.flush_edited(&text, true), FlushEnd::Again);
    let FlushStep::Edit { text, .. } = progress.flush_locked() else {
        panic!("expected an edit");
    };
    assert_eq!(progress.flush_edited(&text, false), FlushEnd::RetryLater);
}

#[test]
fn media_is_not_overwritten_by_text() {
    let mut progress = JobProgress::new(1, at(0));
    let first = progress.render();
    progress.attached(5, first);
    assert_eq!(progress.replace_with_media(), StatusWait::Ready(5));
    assert_eq!(progress.flush_locked(), FlushStep::Stop);
    assert!(!progress.finalizing(at(4)));
    assert!(progress.resume_text_status());
}

#[test]
fn refused_deletions_leave_a_completed_status() {
    let mut progress = JobProgress::new(1, at(0));
    let first = progress.render();
    assert_eq!(progress.delete_status(), StatusWait::Pending);
    assert_eq!(progress.attached(5, first), AttachStep::Delete);
    assert!(progress.late_status_deleted(DeletionOutcome::Refused, at(2)));
    assert_eq!(progress.phase(), JobPhase::Completed);
    assert_eq!(progress.render(), "Job #1 completed.");
}

#[test]
fn idle_users_start_before_busy_ones() {
    let mut queue = DownloadQueue::new(2, 10, limits());
    for owner in [11, 11, 22] {
        let reply = queue.handle().try_enqueue(owner, request("https://a"), at(0));
        assert!(reply.is_accepted());
    }
    assert_eq!(started(queue.advance(0)), (1, 11));
    assert_eq!(started(queue.advance(1)), (3, 22));
    assert!(matches!(queue.advance(2), RunnerStep::Wait));
    queue.finish(1, DownloadOutcome::Completed, at(9));
    assert_eq!(started(queue.advance(1)), (2, 11));
}

#[test]
fn full_and_closed_queues_refuse_jobs() {
    let mut queue = DownloadQueue::new(1, 1, limits());
    assert!(
        queue
            .handle()
            .try_enqueue(1, request("https://a"), at(0))
            .is_accepted()
    );
    assert_eq!(
        text(queue.handle().try_enqueue(1, request("https://b"), at(0))),
        "The download queue is full (1 waiting, 0/1 active). Please try again later."
    );
    queue.shutdown();
    assert_eq!(
        text(queue.handle().try_enqueue(1, request("https://b"), at(0))),
        "The downloader is shutting down. Please try again after it restarts."
    );
    assert_eq!(started(queue.advance(0)).0, 1);
    queue.finish(1, DownloadOutcome::Failed, at(1));
    assert!(matches!(queue.advance(0), RunnerStep::Exit));
}

#[test]
fn users_keep_to_their_own_limits() {
    let own = EffectiveUserLimits {
        max_active_jobs: 1,
        max_queued_jobs: 2,
        daily_job_limit: None,
        max_upload_bytes: 500,
    };
    let mut queue = DownloadQueue::new(3, 10, limits());
    for _ in 0..2 {
        assert!(
            queue
                .handle()
                .try_enqueue_within(7, request("https://a"), own, at(0))
                .is_accepted()
        );
    }
    assert!(
        !queue
            .handle()
            .try_enqueue_within(7, request("https://a"), own, at(0))
            .is_accepted()
    );
    let RunnerStep::Start(job) = queue.advance(0) else {
        panic!("expected a start");
    };
    assert_eq!(job.limits.max_upload_bytes, 500);
    assert!(matches!(queue.advance(1), RunnerStep::Wait));
}

#[test]
fn jobs_are_cancelled_by_their_owner_only() {
    let mut queue = DownloadQueue::new(1, 5, limits());
    queue.handle().try_enqueue(1, request("https://a"), at(0));
    queue.handle().try_enqueue(1, request("https://b"), at(0));
    assert_eq!(started(queue.advance(0)).0, 1);
    assert_eq!(
        text(queue.handle().try_cancel(2, 1, at(1)).0),
        "No cancellable job #1 was found for your account."
    );
    assert!(matches!(
        queue.handle().try_cancel(1, 1, at(1)).0,
        QueueReply::Silent
    ));
    assert!(queue.handle().is_cancelled(1));
    assert!(matches!(
        queue.handle().try_cancel(1, 2, at(1)).0,
        QueueReply::Silent
    ));
    queue.finish(1, DownloadOutcome::Cancelled, at(2));
    assert!(matches!(queue.advance(0), RunnerStep::Wait));
}

#[test]
fn status_messages_lead_back_to_their_request() {
    let mut queue = DownloadQueue::new(1, 5, limits());
    queue.handle().try_enqueue(1, request("https://a"), at(0));
    queue
        .handle()
        .register_status(1, 500, 1, request("https://a"));
    assert_eq!(
        queue.handle().retry_request(1, 500).map(|found| found.url),
        Some("https://a".to_string())
    );
    assert!(queue.handle().retry_request(2, 500).is_none());
    assert!(queue.handle().try_retry(1, 500, at(1)).is_accepted());
    let (reply, cancelled) = queue.handle().try_cancel_replied(1, 500, at(1));
    assert!(matches!(reply, QueueReply::Silent));
    assert_eq!(cancelled, None);
    assert_eq!(
        text(queue.handle().try_cancel_replied(2, 500, at(1)).0),
        "The replied message is not a known download status. Reply to a download status with /cancel."
    );
}

#[test]
fn retrying_is_handing_the_request_in_again() {
    let mut queue = DownloadQueue::new(1, 5, limits());
    queue.handle().try_enqueue(1, request("https://a"), at(0));
    queue
        .handle()
        .register_status(1, 500, 1, request("https://a"));
    assert_eq!(started(queue.advance(0)), (1, 1));
    assert!(queue.handle().try_retry(1, 500, at(1)).is_accepted());
    queue.finish(1, DownloadOutcome::Failed, at(2));
    assert!(queue.handle().try_retry(1, 500, at(3)).is_accepted());
    for owner in [2, 3] {
        assert!(!queue.handle().try_retry(owner, 500, at(3)).is_accepted());
    }
    for id in [2, 3] {
        let RunnerStep::Start(job) = queue.advance(0) else {
            panic!("expected a start");
        };
        assert_eq!((job.id, job.owner_id), (id, 1));
        assert_eq!(job.request.url, "https://a");
        queue.finish(id, DownloadOutcome::Completed, at(4));
    }
    queue.shutdown();
    assert_eq!(
        text(queue.handle().try_retry(1, 500, at(5))),
        "The downloader is shutting down. Please try again after it restarts."
    );
}

#[test]
fn every_accepted_job_ends_before_the_runner_does() {
    let mut queue = DownloadQueue::new(2, 10, limits());
    for owner in [11, 11, 22, 33, 11] {
        let reply = queue.handle().try_enqueue(owner, request("https://a"), at(0));
        assert!(reply.is_accepted());
    }
    queue.handle().try_cancel(33, 4, at(1));
    queue.shutdown();
    let mut running = Vec::new();
    let mut ended = Vec::new();
    loop {
        match queue.advance(running.len()) {
            RunnerStep::Start(job) => running.push(job.id),
            RunnerStep::Wait => {
                let id = running.remove(0);
                queue.finish(id, DownloadOutcome::Completed, at(2));
                ended.push(id);
            }
            RunnerStep::Exit => break,
        }
    }
    assert!(running.is_empty());
    assert_eq!(ended, [1, 3, 2, 5]);
    for (id, phase) in [
        (1, JobPhase::Completed),
        (2, JobPhase::Completed),
        (3, JobPhase::Completed),
        (4, JobPhase::Cancelled),
        (5, JobPhase::Completed),
    ] {
        let progress = queue.handle().progress(id).unwrap();
        assert_eq!(progress.phase(), phase);
        assert!(progress.phase().is_terminal());
    }
}

#[test]
fn workers_that_crash_or_stall_fail_their_job() {
    assert_eq!(
        worker_outcome(WorkerEnd::TimedOut, &limits()),
        (
            DownloadOutcome::Failed,
            Some("job timed out after 90 seconds".to_string())
        )
    );
    assert_eq!(
        worker_outcome(
            WorkerEnd::Crashed {
                error: "panic".to_string()
            },
            &limits()
        ),
        (
            DownloadOutcome::Failed,
            Some("job task crashed: panic".to_string())
        )
    );
    assert_eq!(
        worker_outcome(WorkerEnd::Ended(DownloadOutcome::Completed), &limits()),
        (DownloadOutcome::Completed, None)
    );
    assert_eq!(
        outcome_phase(DownloadOutcome::Cancelled),
        JobPhase::Cancelled
    );
    assert_eq!(
        counted_outcome(DownloadOutcome::Cancelled),
        DownloadStatOutcome::Cancelled
    );
}

#[test]
fn reports_list_the_jobs_of_their_reader() {
    let mut queue = DownloadQueue::new(2, 5, limits());
    queue.handle().try_enqueue(1, request("https://a"), at(0));
    queue.handle().try_enqueue(2, request("https://b"), at(0));
    assert_eq!(
        queue.handle().status_report(1, at(65)),
        "Your downloads: 0 active, 1 queued. Capacity: 0/2 active, 2/5 waiting.\n#1 queued"
    );
    assert_eq!(started(queue.advance(0)).0, 1);
    queue
        .handle()
        .report(1, JobPhase::Downloading { percent: None }, at(10));
    assert_eq!(
        queue.handle().status_report(1, at(75)),
        "Your downloads: 1 active, 0 queued. Capacity: 1/2 active, 1/5 waiting.\n#1 downloading for 1m 5s"
    );
}
