use endgame::media::command::{
    BoundedOutput, CommandOutcome, OUTPUT_LIMIT, StopReason, collect_timeout, conclude,
    kill_arguments, not_started, stop_reason,
};
use endgame::media::delivery::{
    AlbumMedia, FinalReport, GalleryRun, GalleryStep, Replacement, UploadMeter, UploadStop,
    fallback_result, in_flight_upload_bytes, media_kind, needs_fallback, prepare_album_media,
    send_timeout_text, upload_stop_text, upload_target, video_attribute,
};
use endgame::media::downloader::{
    DEFAULT_FORMAT, TIKTOK_FORMAT, build, format_clip_timestamp, unrestricted_video_format,
    video_format_selector, youtube_format_selector,
};
use endgame::media::inspect::{
    AudioMetadata, VideoMetadata, extract_thumbnail, parse_audio_probe, parse_video_probe,
    probe_video,
};
use endgame::media::pipeline::{
    Delivery, DeliveryChoice, ItemStep, ItemsRun, MediaKind, check_download, choose_delivery,
    cookie_file, download_and_upload_in_workspace, kinds_of, nothing_downloaded, plan_delivery,
    select_album_files, sort_downloads, user_info,
};
use endgame::media::progress::{ProgressLines, download_percent, transcode_percent};
use endgame::media::request::{
    ClipRange, DownloadLimits, DownloadMode, DownloadOutcome, DownloadRequest,
};
use endgame::media::transcode::{
    BitrateError, VideoPlan, build_transcode, check_output_size, check_transcode, plan_video,
    requires_video_transcode, target_video_bitrate,
};
use endgame::media::workspace::{JobWorkspace, Removal, file_in, random_file_in};
use endgame::time::Duration;

fn limits() -> DownloadLimits {
    DownloadLimits {
        max_upload_bytes: 1_000_000,
        command_timeout: Duration::from_secs(60),
        upload_timeout: Duration::from_secs(60),
        job_timeout: Duration::from_secs(60),
    }
}

fn finished(success: bool, stdout: &str, stderr: &str) -> CommandOutcome {
    CommandOutcome::Finished {
        success,
        stdout: stdout.to_string(),
        stderr: stderr.to_string(),
    }
}

fn texts(items: &[&str]) -> Vec<String> {
    items.iter().map(|item| item.to_string()).collect()
}

#[test]
fn delivery_recognizes_audio_downloads() {
    let (_, _, is_audio, mime) = media_kind("track.mp3");
    assert!(is_audio);
    assert_eq!(mime.as_deref(), Some("audio/mpeg"));
}

#[test]
fn delivery_in_flight_progress_never_claims_completion() {
    assert_eq!(in_flight_upload_bytes(500, 1_000), 500);
    assert_eq!(in_flight_upload_bytes(1_000, 1_000), 999);
    assert_eq!(in_flight_upload_bytes(2_000, 1_000), 999);
}

#[test]
fn downloader_quality_selector_caps_every_fallback() {
    assert_eq!(video_format_selector(720).matches("height<=720").count(), 3);
}

#[test]
fn youtube_selector_prefers_compatible_media_within_budget() {
    let selector = youtube_format_selector(1_000_000, Some(720));
    assert!(selector.contains("[vcodec^=avc1][height<=720][filesize<900000]"));
    assert!(selector.contains("[filesize_approx<900000]"));
    assert!(selector.ends_with(&video_format_selector(720)));
}

#[test]
fn instagram_reel_urls_use_yt_dlp() {
    for url in [
        "https://www.instagram.com/reel/DbAFv_jMyOy/?igsh=Zmk3cGl5eTNmNGk4",
        "https://www.instagram.com/reels/DbAFv_jMyOy/",
    ] {
        let download = build(
            url,
            &DownloadMode::Video { max_height: None },
            "instacookies.txt",
            "/tmp/endgame-test",
            limits(),
        );

        assert_eq!(download.program, "yt-dlp", "unexpected downloader for {url}");
        assert!(download.reports_progress);
    }
}

#[test]
fn clip_forces_yt_dlp_with_an_accurate_time_range() {
    let range = ClipRange::new(
        Duration::from_millis(62_500),
        Duration::from_millis(125_250),
    )
    .unwrap();
    let download = build(
        "https://example.com/video",
        &DownloadMode::Clip(range),
        "cookies.txt",
        "/tmp/endgame-test",
        limits(),
    );
    let args = &download.arguments;

    assert_eq!(download.program, "yt-dlp");
    assert!(download.reports_progress);
    assert!(
        args.windows(2).any(|pair| {
            pair[0] == "--download-sections" && pair[1] == "*1:02.500-2:05.250"
        })
    );
    assert!(
        args.iter()
            .any(|argument| argument == "--force-keyframes-at-cuts")
    );
    assert!(args.iter().any(|argument| argument == "--no-playlist"));
    assert!(!args.iter().any(|argument| argument == "--extract-audio"));
}

#[test]
fn tracks_carry_their_names_and_covers() {
    let download = build(
        "https://example.com/track",
        &DownloadMode::Audio,
        "cookies.txt",
        "/tmp/endgame-test",
        limits(),
    );
    assert_eq!(download.program, "yt-dlp");
    assert_eq!(
        download.arguments[9..],
        [
            "--extract-audio",
            "--audio-format",
            "mp3",
            "--audio-quality",
            "0",
            "--embed-metadata",
            "--embed-thumbnail",
            "--no-playlist",
            "https://example.com/track",
        ]
    );
}

#[test]
fn youtube_clips_do_not_use_full_video_filesize_estimates() {
    let range = ClipRange::new(Duration::from_secs(10), Duration::from_secs(20)).unwrap();
    let clip = build(
        "https://youtube.com/watch?v=example",
        &DownloadMode::Clip(range),
        "cookies.txt",
        "/tmp/endgame-test",
        limits(),
    );
    assert!(
        clip.arguments
            .iter()
            .any(|argument| argument == DEFAULT_FORMAT)
    );
    assert!(
        !clip
            .arguments
            .iter()
            .any(|argument| argument.contains("filesize<"))
    );

    let full_video = build(
        "https://youtube.com/watch?v=example",
        &DownloadMode::Video { max_height: None },
        "cookies.txt",
        "/tmp/endgame-test",
        limits(),
    );
    assert!(
        full_video
            .arguments
            .iter()
            .any(|argument| argument.contains("filesize<"))
    );
}

#[test]
fn parses_audio_duration_and_case_insensitive_tags() {
    let metadata = parse_audio_probe(
        r#"{
            "format": {
                "duration": "187.923000",
                "tags": {
                    "TITLE": "Good Morning",
                    "ARTIST": "Kanye West"
                }
            }
        }"#,
    )
    .unwrap();

    assert_eq!(
        metadata,
        AudioMetadata {
            duration: Duration::from_secs(187),
            title: Some("Good Morning".into()),
            performer: Some("Kanye West".into()),
        }
    );
}

#[test]
fn audio_probe_tolerates_missing_optional_metadata() {
    let metadata = parse_audio_probe(r#"{"format": {}}"#).unwrap();

    assert_eq!(
        metadata,
        AudioMetadata {
            duration: Duration::from_secs(0),
            title: None,
            performer: None,
        }
    );
}

#[test]
fn parses_ffmpeg_progress_safely() {
    assert_eq!(
        transcode_percent(b"out_time_us=25000000\n", 100_000_000),
        Some(25)
    );
    assert_eq!(
        transcode_percent(b"out_time_ms=200000000\n", 100_000_000),
        Some(99)
    );
    assert_eq!(transcode_percent(b"progress=continue\n", 100_000_000), None);
    assert_eq!(transcode_percent(b"out_time_us=1\n", 0), None);
}

#[test]
fn parses_yt_dlp_progress_safely() {
    assert_eq!(download_percent(b"download:  42.7%\n"), Some(42));
    assert_eq!(download_percent(b"download:101.0%\n"), Some(100));
    assert_eq!(download_percent(b"[download] destination\n"), None);
}

#[test]
fn clip_ranges_must_move_forward() {
    let second = Duration::from_secs(1);
    let two_seconds = Duration::from_secs(2);

    let range = ClipRange::new(second, two_seconds).unwrap();
    assert_eq!(range.start(), second);
    assert_eq!(range.end(), two_seconds);
    assert!(ClipRange::new(second, second).is_none());
    assert!(ClipRange::new(two_seconds, second).is_none());
}

#[test]
fn transcode_transcodes_incompatible_or_oversized_video() {
    assert!(!requires_video_transcode(true, "h264", 99, 100));
    assert!(requires_video_transcode(false, "h264", 99, 100));
    assert!(requires_video_transcode(true, "vp9", 99, 100));
    assert!(requires_video_transcode(true, "h264", 101, 100));
}

#[test]
fn transcode_bitrate_math_keeps_headroom_and_rejects_impossible_limits() {
    assert_eq!(target_video_bitrate(100_000_000, 100).unwrap(), 6_672_000);
    assert!(target_video_bitrate(100_000, 3_600).is_err());
    assert!(target_video_bitrate(100_000_000, 0).is_err());
}

#[test]
fn media_kinds_go_by_the_extension() {
    assert!(media_kind("/tmp/a.mp4").0);
    assert!(media_kind("/tmp/a.JPG").1);
    assert_eq!(media_kind("/tmp/noextension"), (false, false, false, None));
    assert_eq!(prepare_album_media("a.png"), Ok(AlbumMedia::Photo));
    assert_eq!(prepare_album_media("a.mp4"), Ok(AlbumMedia::Video));
    assert_eq!(
        prepare_album_media("a.mp3"),
        Err("file is not recognized as an image or video".to_string())
    );
}

#[test]
fn gallery_downloads_name_the_url_last() {
    let gallery = build(
        "https://example.com/album",
        &DownloadMode::Video { max_height: None },
        "cookies.txt",
        "/tmp/ws",
        limits(),
    );
    assert_eq!(gallery.program, "gallery-dl");
    assert!(!gallery.reports_progress);
    assert_eq!(
        gallery.arguments.last().map(String::as_str),
        Some("https://example.com/album")
    );
}

#[test]
fn tiktok_has_its_own_formats() {
    assert_eq!(
        unrestricted_video_format("https://www.tiktok.com/@a/video/1"),
        TIKTOK_FORMAT
    );
    assert_eq!(
        unrestricted_video_format("https://example.com"),
        DEFAULT_FORMAT
    );
}

#[test]
fn clip_timestamps_carry_hours_and_milliseconds() {
    assert_eq!(format_clip_timestamp(Duration::from_secs(5)), "0:05");
    assert_eq!(
        format_clip_timestamp(Duration::from_millis(3_723_004)),
        "1:02:03.004"
    );
}

#[test]
fn output_is_bounded_to_its_end() {
    let mut output = BoundedOutput::new();
    output.extend(b"abc");
    output.extend(b"def");
    assert_eq!(output.finish(), b"abcdef");

    let mut long = BoundedOutput::new();
    let chunk = vec![b'x'; OUTPUT_LIMIT];
    long.extend(b"start");
    long.extend(&chunk);
    assert_eq!(long.finish(), chunk);
}

#[test]
fn cancellation_counts_before_timeouts_and_success() {
    assert_eq!(stop_reason(true, true, true), Some(StopReason::Cancelled));
    assert_eq!(stop_reason(false, true, true), Some(StopReason::TimedOut));
    assert_eq!(stop_reason(false, false, true), Some(StopReason::Finished));
    assert_eq!(stop_reason(false, false, false), None);
    assert_eq!(
        conclude(StopReason::Cancelled, Ok(true), b"out", b""),
        CommandOutcome::Cancelled
    );
    assert_eq!(
        conclude(StopReason::TimedOut, Ok(true), b"out", b""),
        CommandOutcome::TimedOut
    );
    assert_eq!(collect_timeout(StopReason::Finished), Duration::from_secs(5));
    assert_eq!(
        collect_timeout(StopReason::Cancelled),
        Duration::from_secs(2)
    );
}

#[test]
fn broken_output_is_replaced_not_refused() {
    assert_eq!(
        conclude(StopReason::Finished, Ok(true), b"a\xffb", "über".as_bytes()),
        finished(true, "a\u{fffd}b", "über")
    );
    assert_eq!(
        conclude(StopReason::Finished, Err("lost".to_string()), b"o", b"e"),
        finished(false, "o", "lost")
    );
    assert_eq!(not_started("no".to_string()), finished(false, "", "no"));
    assert_eq!(kill_arguments(12), ["-KILL", "--", "-12"]);
}

#[test]
fn downloads_that_fail_say_why() {
    let end = check_download(finished(false, "out", ""), "yt-dlp", Duration::from_secs(9)).unwrap();
    assert_eq!(
        end.report,
        FinalReport::Fail("yt-dlp download error: out".to_string())
    );
    assert_eq!(end.outcome, DownloadOutcome::Failed);
    let end = check_download(CommandOutcome::TimedOut, "yt-dlp", Duration::from_secs(9)).unwrap();
    assert_eq!(
        end.report,
        FinalReport::Fail("yt-dlp timed out after 9 seconds".to_string())
    );
    let end = check_download(CommandOutcome::Cancelled, "yt-dlp", Duration::from_secs(9)).unwrap();
    assert_eq!(end.outcome, DownloadOutcome::Cancelled);
    assert!(check_download(finished(true, "", ""), "yt-dlp", Duration::from_secs(9)).is_none());
    assert_eq!(
        nothing_downloaded("gallery-dl", false).report,
        FinalReport::Fail("gallery-dl finished without producing a media file".to_string())
    );
}

#[test]
fn files_are_put_in_order() {
    let sorted = sort_downloads(texts(&["b.txt", "z.PNG", "a.jpg", "m.mp4", "A.MKV"]));
    assert_eq!(sorted, ["A.MKV", "m.mp4", "a.jpg", "z.PNG", "b.txt"]);
}

#[test]
fn several_pictures_make_albums_and_single_results_replace_the_status() {
    let files = texts(&["a.mp4", "b.png", "c.txt"]);
    let kinds = kinds_of(&files);
    assert_eq!(kinds, [MediaKind::Video, MediaKind::Image, MediaKind::Other]);
    assert_eq!(choose_delivery(&kinds, false), DeliveryChoice::Albums);
    assert_eq!(
        choose_delivery(&kinds, true),
        DeliveryChoice::Items {
            replace_status: false
        }
    );
    assert_eq!(select_album_files(&files, &kinds), ["a.mp4", "b.png"]);
    let single = kinds_of(&texts(&["a.mp3", "a.txt"]));
    assert_eq!(
        choose_delivery(&single, false),
        DeliveryChoice::Items {
            replace_status: true
        }
    );
    assert_eq!(choose_delivery(&Vec::new(), false), DeliveryChoice::Nothing);
}

#[test]
fn items_end_as_they_went() {
    let files = texts(&["a.mp4", "b.txt"]);
    let kinds = kinds_of(&files);
    let mut run = ItemsRun::new("gallery-dl", false, false, files, kinds);
    assert_eq!(
        run.step(false),
        ItemStep::Deliver {
            index: 0,
            kind: MediaKind::Video
        }
    );
    assert_eq!(run.delivery_plan(0).position, (1, 2));
    assert_eq!(run.delivery_plan(1).position, (2, 2));
    assert!(!run.delivery_plan(0).replace_status);
    assert_eq!(run.step(true), ItemStep::Cancelled);
    assert_eq!(
        run.delivered(Ok(()), true).unwrap().outcome,
        DownloadOutcome::Cancelled
    );
    assert!(run.delivered(Ok(()), false).is_none());
    assert!(run.delivered(Ok(()), true).is_none());
    assert_eq!(run.step(false), ItemStep::Finished);
    let end = run.finish();
    assert_eq!(end.outcome, DownloadOutcome::Completed);
    assert_eq!(
        end.report,
        FinalReport::Warn("gallery-dl produced an unsupported file: b.txt".to_string())
    );
}

#[test]
fn deliveries_are_planned_from_the_files() {
    let Delivery::Albums(files) =
        plan_delivery("gallery-dl", false, texts(&["b.png", "x.txt", "a.png"]))
    else {
        panic!("expected albums");
    };
    assert_eq!(files, ["a.png", "b.png"]);
    let Delivery::Items(run) = plan_delivery("yt-dlp", true, texts(&["b.mp4", "a.mp4"])) else {
        panic!("expected items");
    };
    assert_eq!(run.file(0), "b.mp4");
    let Delivery::End(end) = plan_delivery("yt-dlp", true, Vec::new()) else {
        panic!("expected the end");
    };
    assert_eq!(
        end.report,
        FinalReport::Fail("yt-dlp finished, but its output file was not found".to_string())
    );
}

#[test]
fn cancelled_jobs_run_nothing() {
    let request = DownloadRequest::audio("https://www.instagram.com/p/1".to_string());
    assert!(download_and_upload_in_workspace(&request, true, true, "/tmp/ws", limits()).is_none());
    let command =
        download_and_upload_in_workspace(&request, false, true, "/tmp/ws", limits()).unwrap();
    assert_eq!(command.program, "yt-dlp");
    assert!(command.arguments.contains(&"instacookies.txt".to_string()));
}

#[test]
fn missing_items_end_single_downloads_only() {
    let files = texts(&["a.mp4"]);
    let kinds = kinds_of(&files);
    let mut gallery = ItemsRun::new("gallery-dl", false, true, files, kinds);
    assert!(gallery.missing().is_none());
    assert_eq!(
        gallery.finish().report,
        FinalReport::Fail("a downloaded gallery item disappeared before upload".to_string())
    );
    let files = texts(&["a.mp4"]);
    let kinds = kinds_of(&files);
    let mut single = ItemsRun::new("yt-dlp", true, true, files, kinds);
    assert_eq!(
        single.missing().unwrap().report,
        FinalReport::Fail("the downloaded file disappeared before upload".to_string())
    );
}

#[test]
fn galleries_of_eleven_leave_no_single_item() {
    let mut run = GalleryRun::new(11);
    let mut sizes = Vec::new();
    let mut prepared = 0;
    loop {
        match run.step(false) {
            GalleryStep::Prepare { index } => {
                assert_eq!(index, prepared);
                prepared += 1;
                assert!(run.prepared("x.png", Ok(()), false).is_none());
            }
            GalleryStep::Send { count } => {
                sizes.push(count);
                run.sent(Ok(()));
            }
            GalleryStep::Finished => break,
            GalleryStep::Cancelled => panic!("nobody cancelled"),
        }
    }
    assert_eq!(sizes, [9, 2]);
    assert_eq!(run.finish().report, FinalReport::DeleteStatus);
}

#[test]
fn galleries_are_sent_in_few_albums() {
    for (items, expected) in [
        (1, vec![1]),
        (10, vec![10]),
        (12, vec![10, 2]),
        (20, vec![10, 10]),
        (21, vec![10, 9, 2]),
        (25, vec![10, 10, 5]),
    ] {
        let mut run = GalleryRun::new(items);
        let mut sizes = Vec::new();
        loop {
            match run.step(false) {
                GalleryStep::Prepare { .. } => {
                    assert!(run.prepared("x.png", Ok(()), false).is_none());
                }
                GalleryStep::Send { count } => {
                    sizes.push(count);
                    run.sent(Ok(()));
                }
                GalleryStep::Finished => break,
                GalleryStep::Cancelled => panic!("nobody cancelled"),
            }
        }
        assert_eq!(sizes, expected);
        assert_eq!(sizes.len(), (items + 9) / 10);
        assert_eq!(run.finish().report, FinalReport::DeleteStatus);
    }
}

#[test]
fn galleries_remember_their_last_error() {
    let mut run = GalleryRun::new(2);
    assert_eq!(
        run.prepared("/tmp/a.mp4", Ok(()), true).unwrap().outcome,
        DownloadOutcome::Cancelled
    );
    run.prepared("/tmp/a.mp4", Err("broken".to_string()), false);
    run.prepared("/tmp/b.mp4", Ok(()), false);
    assert_eq!(run.step(false), GalleryStep::Send { count: 1 });
    run.sent(Ok(()));
    assert_eq!(
        run.finish().report,
        FinalReport::Warn("could not prepare a.mp4: broken".to_string())
    );
    let nothing = GalleryRun::new(0);
    assert_eq!(
        nothing.finish().report,
        FinalReport::Fail("gallery contained no uploadable media".to_string())
    );
}

#[test]
fn uploads_are_reported_every_five_seconds() {
    let start = Duration::from_secs(100);
    let mut meter = UploadMeter::new(1_000, start);
    assert_eq!(meter.record_read(400, Duration::from_secs(104)), None);
    assert_eq!(meter.record_read(100, Duration::from_secs(105)), Some(500));
    assert_eq!(meter.record_read(900, Duration::from_secs(120)), Some(999));
    assert_eq!(
        upload_stop_text(UploadStop::TimedOut, Duration::from_secs(7)),
        "Telegram upload timed out after 7 seconds"
    );
    assert_eq!(upload_target("/tmp/a.mp4", 5), Ok((5, "a.mp4".to_string())));
    assert_eq!(
        upload_target("/", 5),
        Err("upload path has no file name".to_string())
    );
}

#[test]
fn failed_replacements_fall_back() {
    assert!(!needs_fallback(&Replacement::Replaced));
    assert!(needs_fallback(&Replacement::Unavailable));
    let refused = Replacement::Refused {
        error: "old".to_string(),
    };
    assert_eq!(fallback_result(&refused, Ok(())), Ok(()));
    assert_eq!(
        fallback_result(&refused, Err("gone".to_string())),
        Err("could not edit status (old) or send fallback media (gone)".to_string())
    );
    assert_eq!(
        fallback_result(&Replacement::Unavailable, Err("gone".to_string())),
        Err("status was unavailable and fallback media failed: gone".to_string())
    );
    assert_eq!(
        send_timeout_text("album"),
        "Telegram album send timed out after 120 seconds"
    );
}

#[test]
fn videos_are_described_by_their_last_words() {
    let metadata = parse_video_probe("width=1\nwidth= x\n height=720 \nduration=12.9\ncodec_name=h264\n");
    assert_eq!(
        metadata,
        VideoMetadata {
            duration_secs: 12,
            width: 0,
            height: 720,
            codec: "h264".to_string(),
        }
    );
    assert_eq!(
        probe_video(finished(false, "", "bad"), Duration::from_secs(1)),
        Err("ffprobe could not read video: bad".to_string())
    );
    assert_eq!(
        extract_thumbnail(CommandOutcome::Cancelled, Duration::from_secs(1)),
        Err("cancelled".to_string())
    );
    let attribute = video_attribute(&VideoMetadata {
        duration_secs: -3,
        width: 4,
        height: 5,
        codec: String::new(),
    });
    assert_eq!(attribute.duration_secs, 0);
    assert!(attribute.supports_streaming);
}

#[test]
fn videos_are_kept_converted_or_refused() {
    let metadata = VideoMetadata {
        duration_secs: 100,
        width: 1,
        height: 1,
        codec: "h264".to_string(),
    };
    assert_eq!(
        plan_video("a.MP4", &metadata, 10, 100, false),
        VideoPlan::Keep
    );
    assert_eq!(
        plan_video("a.mkv", &metadata, 10, 100, false),
        VideoPlan::Transcode { bitrate: None }
    );
    assert_eq!(
        plan_video("a.mp4", &metadata, 100_000_001, 100_000_000, false),
        VideoPlan::Transcode {
            bitrate: Some(6_672_000)
        }
    );
    assert_eq!(
        plan_video("a.mp4", &metadata, 101, 100, false),
        VideoPlan::Impossible(BitrateError::LimitTooSmall)
    );
    assert_eq!(
        plan_video("a.mkv", &metadata, 10, 100, true),
        VideoPlan::Cancelled
    );
    let arguments = build_transcode("in.mkv", "out.mp4", Some(300_000));
    assert!(
        arguments
            .windows(2)
            .any(|pair| pair[0] == "-bufsize" && pair[1] == "600000")
    );
    assert_eq!(arguments.last().map(String::as_str), Some("out.mp4"));
    assert!(check_output_size(10, 10).is_ok());
    assert!(check_output_size(11, 10).is_err());
    assert!(check_transcode(finished(true, "", ""), Duration::from_secs(1)).is_ok());
}

#[test]
fn progress_lines_are_told_apart_from_output() {
    let mut lines = ProgressLines::new();
    assert_eq!(lines.take_line(b"download: 10%\n", Some(10)), Some(10));
    assert_eq!(lines.take_line(b"download: 10%\n", Some(10)), None);
    assert_eq!(lines.take_line(b"hello\n", None), None);
}

#[test]
fn workspaces_are_private_to_a_job() {
    let mut one = JobWorkspace::numbered("/tmp", 7, 1);
    let two = JobWorkspace::numbered("/tmp", 8, 1);
    assert_ne!(one.path(), two.path());
    assert!(one.path().starts_with("/tmp/"));
    assert!(!one.is_cleaned());
    one.cleanup(Removal::Removed);
    assert!(one.is_cleaned());
    assert_eq!(file_in("/tmp/ws", ".mp4", 255), "/tmp/ws/media-00000000000000ff.mp4");
    let random = random_file_in("/tmp/ws", ".jpg");
    assert!(random.starts_with("/tmp/ws/media-") && random.ends_with(".jpg"));
    assert_eq!(random.len(), "/tmp/ws/media-0000000000000000.jpg".len());
    assert_ne!(
        JobWorkspace::create("/tmp", 7).path(),
        JobWorkspace::create("/tmp", 7).path()
    );
}

#[test]
fn users_and_cookies_are_chosen_by_name() {
    assert_eq!(user_info(Some(5), Some("ann".to_string())), "User @ann (5)");
    assert_eq!(user_info(Some(5), None), "User 5");
    assert_eq!(user_info(None, None), "User");
    assert_eq!(
        cookie_file("https://www.instagram.com/p/1", true),
        "instacookies.txt"
    );
    assert_eq!(
        cookie_file("https://www.instagram.com/p/1", false),
        "cookies.txt"
    );
    assert_eq!(cookie_file("https://example.com", true), "cookies.txt");
}
