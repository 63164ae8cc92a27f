use endgame::download::{
    Cleanup, DownloadMode, DownloadRequest, PathState, build_conversion, check_conversion,
    check_download, directory_failure, download_and_upload, files_of, gather_downloads,
    perform_cleanup, should_use_yt_dlp,
};
use endgame::jobs::progress::{AttachStep, FlushStep, StatusWait, truncate_failure};
use endgame::media::command::CommandOutcome;
use endgame::media::delivery::{FinalReport, in_flight_upload_bytes, media_kind};
use endgame::media::downloader::video_format_selector;
use endgame::media::request::DownloadOutcome;
use endgame::media::transcode::{requires_video_transcode, target_video_bitrate};
use endgame::queue::{Cancellation, DownloadQueue, JobPhase, JobProgress, QueueReply};
use endgame::utils::{
    clean_cookie_file, extract_thumbnail, filename_from, generate_random_filename, probe_arguments,
    probe_video, thumbnail_arguments,
};

fn texts(items: &[&str]) -> Vec<String> {
    items.iter().map(|item| item.to_string()).collect()
}

#[test]
fn download_transcodes_incompatible_or_oversized_video() {
    assert!(!requires_video_transcode(true, "h264", 99, 100));
    assert!(requires_video_transcode(false, "h264", 99, 100));
    assert!(requires_video_transcode(true, "vp9", 99, 100));
    assert!(requires_video_transcode(true, "h264", 101, 100));
}

#[test]
fn download_bitrate_math_keeps_headroom_and_rejects_impossible_limits() {
    let bitrate = target_video_bitrate(100_000_000, 100).unwrap();
    assert_eq!(bitrate, 6_672_000);
    assert!(target_video_bitrate(100_000, 3_600).is_err());
    assert!(target_video_bitrate(100_000_000, 0).is_err());
}

#[test]
fn download_quality_selector_caps_every_fallback() {
    let selector = video_format_selector(720);
    assert_eq!(selector.matches("height<=720").count(), 3);
}

#[test]
fn download_recognizes_audio_downloads() {
    let (_, _, is_audio, mime) = media_kind("track.mp3");
    assert!(is_audio);
    assert_eq!(mime.as_deref(), Some("audio/mpeg"));
}

#[test]
fn download_in_flight_progress_never_claims_completion() {
    assert_eq!(in_flight_upload_bytes(500, 1_000), 500);
    assert_eq!(in_flight_upload_bytes(1_000, 1_000), 999);
    assert_eq!(in_flight_upload_bytes(2_000, 1_000), 999);
}

#[test]
fn queue_only_final_phases_are_terminal() {
    assert!(!JobPhase::Queued.is_terminal());
    assert!(!JobPhase::Downloading.is_terminal());
    assert!(!JobPhase::Cancelling.is_terminal());
    assert!(JobPhase::Cancelled.is_terminal());
    assert!(JobPhase::Completed.is_terminal());
    assert!(JobPhase::Failed.is_terminal());
}

#[test]
fn queue_cancelling_cannot_regress_to_active_progress() {
    assert!(!JobPhase::Cancelling.can_transition_to(&JobPhase::Downloading));
    assert!(!JobPhase::Cancelling.can_transition_to(&JobPhase::Processing));
    assert!(
        !JobPhase::Cancelling.can_transition_to(&JobPhase::Uploading {
            current: 1,
            total: 2,
        })
    );
    assert!(JobPhase::Cancelling.can_transition_to(&JobPhase::Cancelled));
    assert!(JobPhase::Cancelling.can_transition_to(&JobPhase::Completed));
}

#[test]
fn queue_failure_text_truncation_is_unicode_safe() {
    let reason = "🙂".repeat(600);
    let truncated = truncate_failure(reason);
    assert_eq!(truncated.chars().count(), 500);
    assert!(truncated.ends_with("..."));
}

#[test]
fn plain_jobs_run_first_come_first_served() {
    let mut queue = DownloadQueue::new(1, 2, 10);
    let request = DownloadRequest::audio("https://a".to_string());
    assert_eq!(queue.try_enqueue(5, request.clone()), QueueReply::Accepted(1));
    assert!(queue.try_enqueue(5, request.clone()).is_accepted());
    assert_eq!(
        queue.try_enqueue(6, request.clone()),
        QueueReply::Message(
            "The download queue is full (2 waiting, 0/1 active). Please try again later."
                .to_string()
        )
    );
    let first = queue.start_next(0).unwrap();
    assert_eq!(first.id, 1);
    assert_eq!(first.max_upload_bytes, 10 * 1024 * 1024);
    assert!(queue.start_next(1).is_none());
    assert_eq!(queue.status_report(), "Downloads: 1/1 active, 1/2 queued.");
    queue.shutdown();
    assert_eq!(
        queue.try_enqueue(6, request),
        QueueReply::Message(
            "The downloader is shutting down. Please try again after it restarts.".to_string()
        )
    );
    let (job, _) = queue.finish(1, 5, DownloadOutcome::Completed).unwrap();
    assert_eq!(job.progress.render(), "Job #1 completed.");
    assert!(!queue.is_drained());
    assert_eq!(queue.start_next(0).unwrap().id, 2);
    queue.finish(2, 5, DownloadOutcome::Failed);
    assert!(queue.is_drained());
}

#[test]
fn plain_jobs_are_cancelled_by_their_owner() {
    let mut queue = DownloadQueue::new(1, 5, 1);
    for _ in 0..2 {
        queue.try_enqueue(5, DownloadRequest::video("https://a".to_string(), None));
    }
    queue.start_next(0);
    assert!(matches!(
        queue.try_cancel(6, 1),
        Cancellation::Unknown { text } if text == "No cancellable job #1 was found for your account."
    ));
    assert!(matches!(queue.try_cancel(5, 1), Cancellation::Stopping { .. }));
    assert_eq!(
        queue.progress(1, 5).unwrap().render(),
        "Job #1 is cancelling…"
    );
    let Cancellation::Dropped { job, .. } = queue.try_cancel(5, 2) else {
        panic!("expected a dropped job");
    };
    assert!(job.cancelled);
    assert_eq!(job.progress.render(), "Job #2 was cancelled.");
    let mut progress = queue.progress(1, 5).unwrap();
    assert!(!progress.uploading(1, 2));
    progress.fail("late".to_string());
    queue.store_progress(1, 5, progress);
    assert_eq!(queue.progress(1, 5).unwrap().render(), "Job #1 failed: late");
}

#[test]
fn plain_status_messages_follow_the_job() {
    let mut progress = JobProgress::new(4);
    assert_eq!(progress.wait_for_status(), StatusWait::Pending);
    let first = progress.render();
    assert_eq!(first, "Job #4 queued.");
    assert_eq!(progress.attach(9, first), AttachStep::StartFlush);
    progress.downloading();
    let FlushStep::Edit { status, text } = progress.flush() else {
        panic!("expected an edit");
    };
    assert_eq!((status, text.as_str()), (9, "Job #4 is downloading."));
    progress.edited(&text);
    assert!(!progress.settle(&text));
    assert!(progress.processing());
    assert!(progress.settle(&text));
    assert_eq!(progress.delete_status(), StatusWait::Ready(9));
    assert_eq!(progress.flush(), FlushStep::Stop);
    assert!(progress.status_deleted(false));
    assert_eq!(progress.render(), "Job #4 completed.");
    assert!(!progress.status_deleted(true));
    assert_eq!(progress.wait_for_status(), StatusWait::Missing);
}

#[test]
fn plain_downloads_choose_their_program() {
    assert!(should_use_yt_dlp("https://youtu.be/1"));
    assert!(!should_use_yt_dlp("https://www.instagram.com/p/1"));
    let request = DownloadRequest {
        url: "https://www.youtube.com/watch?v=1".to_string(),
        mode: DownloadMode::Video { max_height: None },
    };
    assert!(download_and_upload(&request, true, false, "base").is_none());
    let plan = download_and_upload(&request, false, false, "base").unwrap();
    assert_eq!(plan.program, "yt-dlp");
    assert_eq!(plan.base.as_deref(), Some("base"));
    assert_eq!(
        &plan.arguments[..4],
        ["-o", "base.%(ext)s", "--cookies", "cookies.txt"]
    );
    assert_eq!(
        &plan.arguments[6..],
        ["-t", "mp4", "https://www.youtube.com/watch?v=1"]
    );
    let gallery = DownloadRequest::video("https://www.instagram.com/p/1".to_string(), Some(720));
    let plan = download_and_upload(&gallery, false, true, "base").unwrap();
    assert_eq!(plan.program, "gallery-dl");
    assert!(plan.cleans_cookies);
    assert_eq!(
        plan.directory.as_deref(),
        Some("gallery_dl_downloads/base")
    );
    let audio = DownloadRequest::audio("https://example.com/x".to_string());
    let plan = download_and_upload(&audio, false, false, "base").unwrap();
    assert!(plan.use_yt_dlp);
    assert_eq!(
        plan.arguments[6..],
        [
            "--extract-audio",
            "--audio-format",
            "mp3",
            "--audio-quality",
            "0",
            "--embed-metadata",
            "--embed-thumbnail",
            "https://example.com/x",
        ]
    );
}

#[test]
fn plain_downloads_are_found_by_name() {
    let names = texts(&["other.mp4", "base.mp4", "base.info"]);
    assert_eq!(files_of(&names, "base"), ["base.mp4", "base.info"]);
    let found = gather_downloads(names, &Some("base".to_string()), "yt-dlp").unwrap();
    assert_eq!(found.len(), 2);
    let end = gather_downloads(Vec::new(), &Some("base".to_string()), "yt-dlp").unwrap_err();
    assert_eq!(
        end.report,
        FinalReport::Fail("yt-dlp finished, but its output file was not found".to_string())
    );
    let sorted = gather_downloads(texts(&["b.png", "a.mp4"]), &None, "gallery-dl").unwrap();
    assert_eq!(sorted, ["a.mp4", "b.png"]);
    assert_eq!(
        directory_failure("full").report,
        FinalReport::Fail("could not create the download directory: full".to_string())
    );
}

#[test]
fn plain_downloads_are_cleaned_up() {
    assert_eq!(
        perform_cleanup(PathState::File, true, true),
        Cleanup {
            remove_file: true,
            remove_directory: false,
            sweep: true
        }
    );
    assert_eq!(
        perform_cleanup(PathState::Directory, false, false),
        Cleanup {
            remove_file: false,
            remove_directory: true,
            sweep: false
        }
    );
    assert_eq!(
        perform_cleanup(PathState::Missing, true, true),
        Cleanup {
            remove_file: false,
            remove_directory: false,
            sweep: true
        }
    );
}

#[test]
fn plain_programs_are_checked() {
    let failed = CommandOutcome::Finished {
        success: false,
        stdout: String::new(),
        stderr: String::new(),
    };
    assert_eq!(
        check_download(&failed, "yt-dlp").unwrap().report,
        FinalReport::Fail("yt-dlp download error: Unknown error".to_string())
    );
    assert_eq!(
        check_conversion(&failed),
        Err("ffmpeg could not prepare the video: ".to_string())
    );
    assert_eq!(
        check_conversion(&CommandOutcome::Cancelled),
        Err("cancelled".to_string())
    );
    let arguments = build_conversion("in.mkv", "out.mp4", None);
    assert!(arguments.windows(2).any(|pair| pair == ["-crf", "23"]));
    assert!(!arguments.contains(&"-progress".to_string()));
    assert_eq!(arguments.last().map(String::as_str), Some("out.mp4"));
}

#[test]
fn random_names_keep_their_shape() {
    let name = generate_random_filename(".mp4");
    assert_eq!(name.len(), 18);
    assert!(name.ends_with("frrr.mp4"));
    assert!(name[..10].bytes().all(|byte| byte.is_ascii_alphanumeric()));
    assert_ne!(name, generate_random_filename(".mp4"));
    assert_eq!(filename_from(b"abc", ".x"), "abcfrrr.x");
}

#[test]
fn plain_probes_read_what_is_there() {
    assert_eq!(
        probe_video(true, "width=640\nheight=480\nduration=61.99\n", ""),
        Ok((61, 640, 480))
    );
    assert_eq!(probe_video(true, "duration=N/A\n", ""), Ok((0, 0, 0)));
    assert_eq!(
        probe_video(false, "", "bad"),
        Err("ffprobe could not read video. error: bad".to_string())
    );
    assert_eq!(
        extract_thumbnail(false, "bad", "t.jpg"),
        Err("failed to extract thumbnail. error: bad".to_string())
    );
    assert_eq!(extract_thumbnail(true, "", "t.jpg"), Ok("t.jpg".to_string()));
    assert_eq!(thumbnail_arguments("v.mp4", "t.jpg").len(), 10);
    assert_eq!(
        probe_arguments("v.mp4").last().map(String::as_str),
        Some("v.mp4")
    );
}

#[test]
fn plain_cookies_get_tabs() {
    assert_eq!(
        clean_cookie_file(" # header \n\na b  c d e f\ntoo short\n"),
        "# header\n\na\tb\tc\td\te\tf\n"
    );
}
