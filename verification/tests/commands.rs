use endgame::cancel::{CancellationToken, Cancellations};
use endgame::commands::{
    CLIP_USAGE, HELP, MessageAction, StatsTarget, classify_message, classify_with_links,
    command_name, parse_seconds, parse_timestamp,
};
use endgame::links::{URL_PATTERN, UrlPattern};
use endgame::media::downloader::format_clip_timestamp;
use endgame::media::request::DownloadMode;
use endgame::policy::{UserLimitName, UserLimitValue};
use endgame::time::Duration;

fn pattern() -> UrlPattern {
    UrlPattern::new(r"https?://\S+").unwrap()
}

#[test]
fn cancel_is_shared_and_idempotent() {
    let mut tokens = Cancellations::new();
    let token = CancellationToken::new(&mut tokens);
    let clone = token.clone();

    assert!(!token.is_cancelled(&tokens));
    assert!(!clone.is_cancelled(&tokens));

    clone.cancel(&mut tokens);
    token.cancel(&mut tokens);

    assert!(token.is_cancelled(&tokens));
    assert!(clone.is_cancelled(&tokens));
    assert!(token.clone().is_cancelled(&tokens));
}

#[test]
fn only_the_first_cancellation_wakes_waiters() {
    let mut tokens = Cancellations::default();
    let token = CancellationToken::new(&mut tokens);
    let other = CancellationToken::new(&mut tokens);
    assert!(token.cancel(&mut tokens));
    assert!(!token.cancel(&mut tokens));
    assert!(!other.is_cancelled(&tokens));
    assert!(other.cancel(&mut tokens));
}

#[test]
fn parses_cancel_command_with_optional_bot_name() {
    assert!(matches!(
        classify_message("/cancel 42", &pattern()),
        MessageAction::Cancel(Some(42))
    ));
    assert!(matches!(
        classify_message("/cancel@endgame 7", &pattern()),
        MessageAction::Cancel(Some(7))
    ));
    assert!(matches!(
        classify_message("/cancel nope", &pattern()),
        MessageAction::Cancel(None)
    ));
}

#[test]
fn parses_reply_commands_without_job_ids() {
    assert!(matches!(
        classify_message("/cancel", &pattern()),
        MessageAction::Cancel(None)
    ));
    assert!(matches!(
        classify_message("/retry", &pattern()),
        MessageAction::Retry
    ));
    assert!(matches!(
        classify_message("/retry@endgame", &pattern()),
        MessageAction::Retry
    ));
}

#[test]
fn parses_users_command() {
    assert!(matches!(
        classify_message("/users", &pattern()),
        MessageAction::ListUsers
    ));
    assert!(matches!(
        classify_message("/users@endgame", &pattern()),
        MessageAction::ListUsers
    ));
}

#[test]
fn parses_user_policy_commands() {
    assert!(matches!(
        classify_message("/package 42 pro_monthly", &pattern()),
        MessageAction::SetUserPackage {
            user_id: Some(42),
            package: Some(ref package),
        } if package.as_str() == "pro_monthly"
    ));
    assert!(matches!(
        classify_message("/tier 42 enterprise", &pattern()),
        MessageAction::SetUserPackage {
            user_id: Some(42),
            package: Some(ref package),
        } if package.as_str() == "enterprise"
    ));
    assert!(matches!(
        classify_message("/packages", &pattern()),
        MessageAction::ListPackages
    ));
    assert!(matches!(
        classify_message("/limits", &pattern()),
        MessageAction::ShowUserLimits(None)
    ));
    assert!(matches!(
        classify_message("/limits 42", &pattern()),
        MessageAction::ShowUserLimits(Some(42))
    ));
    assert!(matches!(
        classify_message("/limit 42 queue 7", &pattern()),
        MessageAction::SetUserLimit {
            user_id: Some(42),
            name: Some(UserLimitName::MaxQueuedJobs),
            value: Some(UserLimitValue::Value(7)),
        }
    ));
    assert!(matches!(
        classify_message("/limit 42 daily default", &pattern()),
        MessageAction::SetUserLimit {
            user_id: Some(42),
            name: Some(UserLimitName::DailyJobLimit),
            value: Some(UserLimitValue::Default),
        }
    ));
}

#[test]
fn parses_statistics_targets() {
    assert!(matches!(
        classify_message("/stats", &pattern()),
        MessageAction::ShowStats(StatsTarget::Own)
    ));
    assert!(matches!(
        classify_message("/stats 42", &pattern()),
        MessageAction::ShowStats(StatsTarget::User(42))
    ));
    assert!(matches!(
        classify_message("/stats all", &pattern()),
        MessageAction::ShowStats(StatsTarget::All)
    ));
}

#[test]
fn parses_add_command_and_rejects_invalid_ids() {
    assert!(matches!(
        classify_message("/add 42", &pattern()),
        MessageAction::AddUser(Some(42))
    ));
    assert!(matches!(
        classify_message("/add@endgame 7", &pattern()),
        MessageAction::AddUser(Some(7))
    ));
    assert!(matches!(
        classify_message("/add nope", &pattern()),
        MessageAction::AddUser(None)
    ));
    assert!(matches!(
        classify_message("/add -1", &pattern()),
        MessageAction::AddUser(None)
    ));
}

#[test]
fn parses_remove_command_and_rejects_invalid_ids() {
    assert!(matches!(
        classify_message("/remove 42", &pattern()),
        MessageAction::RemoveUser(Some(42))
    ));
    assert!(matches!(
        classify_message("/remove@endgame 7", &pattern()),
        MessageAction::RemoveUser(Some(7))
    ));
    assert!(matches!(
        classify_message("/remove nope", &pattern()),
        MessageAction::RemoveUser(None)
    ));
    assert!(matches!(
        classify_message("/remove -1", &pattern()),
        MessageAction::RemoveUser(None)
    ));
}

#[test]
fn extracts_every_url_from_a_message() {
    let MessageAction::Downloads(urls) = classify_message(
        "first https://example.com/a then https://example.org/b",
        &pattern(),
    ) else {
        panic!("expected download action");
    };
    assert_eq!(
        urls.iter()
            .map(|request| request.url.as_str())
            .collect::<Vec<_>>(),
        ["https://example.com/a", "https://example.org/b"]
    );
}

#[test]
fn parses_audio_and_video_format_commands() {
    let MessageAction::Downloads(audio) =
        classify_message("/audio https://example.com/a", &pattern())
    else {
        panic!("expected audio download");
    };
    assert!(matches!(audio[0].mode, DownloadMode::Audio));

    let MessageAction::Downloads(video) =
        classify_message("/video 720p https://example.com/v", &pattern())
    else {
        panic!("expected video download");
    };
    assert!(matches!(
        video[0].mode,
        DownloadMode::Video {
            max_height: Some(720)
        }
    ));
}

#[test]
fn parses_clip_ranges_and_multiple_urls() {
    let MessageAction::Downloads(clips) = classify_message(
        "/clip@endgame 1:02.500 2:03 https://example.com/a https://example.org/b",
        &pattern(),
    ) else {
        panic!("expected clip downloads");
    };
    assert_eq!(clips.len(), 2);
    assert!(clips.iter().all(|request| matches!(
        request.mode,
        DownloadMode::Clip(range)
            if range.start() == Duration::from_millis(62_500)
                && range.end() == Duration::from_secs(123)
    )));
}

#[test]
fn parses_clip_timestamp_formats() {
    assert_eq!(parse_timestamp("90"), Some(Duration::from_secs(90)));
    assert_eq!(parse_timestamp("1:02"), Some(Duration::from_secs(62)));
    assert_eq!(
        parse_timestamp("1:02:03.004"),
        Some(Duration::from_millis(3_723_004))
    );
}

#[test]
fn rejects_invalid_clip_ranges_without_downloading_the_url() {
    for text in [
        "/clip 20 10 https://example.com/v",
        "/clip 10 10 https://example.com/v",
        "/clip 1:60 2:00 https://example.com/v",
        "/clip 1:60:00 2:00:00 https://example.com/v",
        "/clip -1 10 https://example.com/v",
        "/clip 1.0000 10 https://example.com/v",
        "/clip 10 20",
    ] {
        assert!(matches!(
            classify_message(text, &pattern()),
            MessageAction::Reply(CLIP_USAGE)
        ));
    }
}

#[test]
fn help_mentions_clip_command() {
    assert!(matches!(
        classify_message("/help", &pattern()),
        MessageAction::Reply(text) if text.contains("/clip <start> <end> <url>")
    ));
}

#[test]
fn captures_full_url_with_path() {
    let re = UrlPattern::new(URL_PATTERN).unwrap();
    let msg = "https://x.com/musa1907_/status/2067571186532270261";
    let found = re.find_all(msg);
    assert_eq!(found, [msg], "must include the path after the host");
}

#[test]
fn captures_query_chars() {
    let re = UrlPattern::new(URL_PATTERN).unwrap();
    let url = "https://www.youtube.com/watch?v=abc-123_456&t=10s";
    assert_eq!(re.find_all(url), [url]);
}

#[test]
fn patterns_that_do_not_compile_are_refused() {
    assert!(UrlPattern::new("(").is_none());
    assert!(UrlPattern::new("a+").is_some());
    assert_eq!(
        UrlPattern::new("a+").unwrap().find_all("baab a"),
        ["aa", "a"]
    );
}

#[test]
fn links_are_handed_on_as_they_were_found() {
    let action = classify_with_links("look", vec!["https://a.example/1".to_string()]);
    let MessageAction::Downloads(requests) = action else {
        panic!("expected downloads");
    };
    assert_eq!(requests.len(), 1);
    assert_eq!(requests[0].url, "https://a.example/1");
    assert!(matches!(
        requests[0].mode,
        DownloadMode::Video { max_height: None }
    ));
    assert!(matches!(
        classify_with_links("nothing here", Vec::new()),
        MessageAction::Nothing
    ));
}

#[test]
fn command_names_drop_the_bot_and_case() {
    assert_eq!(command_name("/cancel@endgame 7").as_deref(), Some("cancel"));
    assert_eq!(command_name("hello"), None);
    assert!(HELP.contains("/audio <url>"));
}

#[test]
fn timestamps_keep_to_their_grammar() {
    assert_eq!(parse_timestamp(""), None);
    assert_eq!(parse_timestamp("1:2:3:4"), None);
    assert_eq!(parse_timestamp("+1"), None);
    assert_eq!(parse_timestamp("1."), None);
    assert_eq!(parse_timestamp("1.5"), Some(Duration::from_millis(1_500)));
    assert_eq!(parse_timestamp("99999999999999999999"), None);
    assert_eq!(parse_seconds("7.25"), Some((7, 250)));
}

#[test]
fn clip_timestamps_read_back() {
    for (millis, text) in [
        (0, "0:00"),
        (59_999, "0:59.999"),
        (90_000, "1:30"),
        (3_599_050, "59:59.050"),
        (3_600_000, "1:00:00"),
        (360_061_001, "100:01:01.001"),
    ] {
        let position = Duration::from_millis(millis);
        assert_eq!(format_clip_timestamp(position), text);
        assert_eq!(parse_timestamp(text), Some(position));
    }
}

#[test]
fn commands_ignore_case_bots_and_aliases() {
    for rest in [" 5 pro", "\n5\tpro", "  5 pro later"] {
        for name in ["/package", "/PACKAGE", "/Tier", "/tier@some_bot", "/pAckage@Bot"] {
            assert!(matches!(
                classify_with_links(&format!("{name}{rest}"), Vec::new()),
                MessageAction::SetUserPackage {
                    user_id: Some(5),
                    package: Some(ref package),
                } if package.as_str() == "pro"
            ));
        }
    }
    assert!(matches!(
        classify_with_links("/sTatus@b now", Vec::new()),
        MessageAction::QueueStatus
    ));
    assert!(matches!(
        classify_with_links("/statuses", Vec::new()),
        MessageAction::Nothing
    ));
}
