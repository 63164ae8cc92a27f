//! Which program fetches a URL, and with which arguments.

use vstd::prelude::*;

use crate::media::request::{ClipRange, DownloadLimits, DownloadMode};
use crate::number::{decimal, padded_decimal, write_decimal, write_padded, write_u64};
use crate::paths::{join_path, joined_path};
use crate::text::{contains, contains_text, push_text, text_list, texts};
use crate::time::Duration;

verus! {

pub const USER_AGENT: &'static str =
    "Mozilla/5.0 (X11; Linux x86_64; rv:131.0) Gecko/20100101 Firefox/131.0";

pub const DEFAULT_FORMAT: &'static str =
    "bestvideo[vcodec!*=av01][vcodec!*=vp9][ext=mp4]+bestaudio[ext=m4a]/best[ext=mp4]/best";

pub const TIKTOK_FORMAT: &'static str =
    "bestvideo[ext=mp4][vcodec=h264]+bestaudio[ext=m4a]/best[ext=mp4][vcodec=h264]/best";

/// A program to run, and what to hand it.
pub struct DownloadCommand {
    pub program: &'static str,
    pub arguments: Vec<String>,
    pub reports_progress: bool,
}

/// Whether `url` lies on a site whose videos yt-dlp fetches.
pub open spec fn yt_dlp_serves(url: Seq<char>) -> bool {
    ||| contains_text(url, "youtube.com/"@)
    ||| contains_text(url, "youtu.be/"@)
    ||| contains_text(url, "instagram.com/share/"@)
    ||| contains_text(url, "instagram.com/reel/"@)
    ||| contains_text(url, "instagram.com/reels/"@)
    ||| contains_text(url, "instagram.com/tv/"@)
    ||| contains_text(url, "x.com/i/broadcasts/"@)
    ||| contains_text(url, "tiktok.com/"@)
}

pub fn should_use_yt_dlp(url: &str) -> (result: bool)
    ensures
        result == yt_dlp_serves(url@),
{
    contains(url, "youtube.com/") || contains(url, "youtu.be/") || contains(
        url,
        "instagram.com/share/",
    ) || contains(url, "instagram.com/reel/") || contains(url, "instagram.com/reels/") || contains(
        url,
        "instagram.com/tv/",
    ) || contains(url, "x.com/i/broadcasts/") || contains(url, "tiktok.com/")
}

/// Whether yt-dlp fetches `url`; gallery-dl does otherwise.
pub open spec fn takes_yt_dlp(url: Seq<char>, mode: DownloadMode) -> bool {
    !(mode is Video) || yt_dlp_serves(url)
}

// ---------------------------------------------------------------------------
// Format selectors
// ---------------------------------------------------------------------------

/// The formats to prefer when neither height nor size is limited.
pub open spec fn open_format(url: Seq<char>) -> Seq<char> {
    if contains_text(url, "tiktok.com"@) {
        TIKTOK_FORMAT@
    } else {
        DEFAULT_FORMAT@
    }
}

pub fn unrestricted_video_format(url: &str) -> (result: &'static str)
    ensures
        result@ == open_format(url@),
{
    if contains(url, "tiktok.com") {
        TIKTOK_FORMAT
    } else {
        DEFAULT_FORMAT
    }
}

/// The formats to prefer up to a height; each alternative names the height.
pub open spec fn height_format(max_height: u32) -> Seq<char> {
    "bestvideo[height<="@ + decimal(max_height as nat)
        + "][vcodec!*=av01][vcodec!*=vp9][ext=mp4]+bestaudio[ext=m4a]/best[height<="@ + decimal(
        max_height as nat,
    ) + "][ext=mp4]/best[height<="@ + decimal(max_height as nat) + "]"@
}

pub fn video_format_selector(max_height: u32) -> (result: String)
    ensures
        result@ == height_format(max_height),
{
    let height = write_u64(max_height as u64);
    "bestvideo[height<=".to_owned().concat(height.as_str()).concat(
        "][vcodec!*=av01][vcodec!*=vp9][ext=mp4]+bestaudio[ext=m4a]/best[height<=",
    ).concat(height.as_str()).concat("][ext=mp4]/best[height<=").concat(height.as_str()).concat("]")
}

/// How many bytes the picture may take: nine tenths of the upload limit, which
/// is first cut off where its ninetyfold leaves 64 bits.
pub open spec fn video_budget(max_upload_bytes: u64) -> nat {
    if max_upload_bytes * 90 > u64::MAX {
        (u64::MAX / 100) as nat
    } else {
        (max_upload_bytes as nat * 90) / 100
    }
}

/// The filter for a height.
pub open spec fn height_filter(max_height: Option<u32>) -> Seq<char> {
    match max_height {
        Some(height) => "[height<="@ + decimal(height as nat) + "]"@,
        None => Seq::empty(),
    }
}

/// The formats to prefer on YouTube: those that fit the upload limit, then any.
pub open spec fn youtube_format(max_upload_bytes: u64, max_height: Option<u32>) -> Seq<char> {
    let height = height_filter(max_height);
    let budget = decimal(video_budget(max_upload_bytes));
    let limit = decimal(max_upload_bytes as nat);
    let fallback = match max_height {
        Some(height) => height_format(height),
        None => DEFAULT_FORMAT@,
    };
    "bestvideo[ext=mp4][vcodec^=avc1]"@ + height + "[filesize<"@ + budget
        + "]+bestaudio[ext=m4a]/"@ + "bestvideo[ext=mp4][vcodec^=avc1]"@ + height
        + "[filesize_approx<"@ + budget + "]+bestaudio[ext=m4a]/"@
        + "best[ext=mp4][vcodec^=avc1]"@ + height + "[filesize<"@ + limit + "]/"@
        + "best[ext=mp4][vcodec^=avc1]"@ + height + "[filesize_approx<"@ + limit + "]/"@ + fallback
}

pub fn youtube_format_selector(max_upload_bytes: u64, max_height: Option<u32>) -> (result: String)
    ensures
        result@ == youtube_format(max_upload_bytes, max_height),
{
    let scaled: u128 = max_upload_bytes as u128 * 90;
    let budget: u128 = if scaled > u64::MAX as u128 {
        u64::MAX as u128 / 100
    } else {
        scaled / 100
    };
    let budget_text = write_decimal(budget);
    let limit_text = write_u64(max_upload_bytes);
    let height = match max_height {
        Some(height) => "[height<=".to_owned().concat(write_u64(height as u64).as_str()).concat(
            "]",
        ),
        None => String::new(),
    };
    let fallback = match max_height {
        Some(height) => video_format_selector(height),
        None => DEFAULT_FORMAT.to_owned(),
    };
    assert(height@ =~= height_filter(max_height));
    "bestvideo[ext=mp4][vcodec^=avc1]".to_owned().concat(height.as_str()).concat(
        "[filesize<",
    ).concat(budget_text.as_str()).concat("]+bestaudio[ext=m4a]/").concat(
        "bestvideo[ext=mp4][vcodec^=avc1]",
    ).concat(height.as_str()).concat("[filesize_approx<").concat(budget_text.as_str()).concat(
        "]+bestaudio[ext=m4a]/",
    ).concat("best[ext=mp4][vcodec^=avc1]").concat(height.as_str()).concat("[filesize<").concat(
        limit_text.as_str(),
    ).concat("]/").concat("best[ext=mp4][vcodec^=avc1]").concat(height.as_str()).concat(
        "[filesize_approx<",
    ).concat(limit_text.as_str()).concat("]/").concat(fallback.as_str())
}

// ---------------------------------------------------------------------------
// Clip sections
// ---------------------------------------------------------------------------

/// A position in a video as `minutes:seconds` or `hours:minutes:seconds`, with
/// milliseconds where there are any.
pub open spec fn clip_timestamp(millis: nat) -> Seq<char> {
    let seconds = millis / 1_000;
    let minutes = seconds / 60;
    let hours = minutes / 60;
    let whole = if hours == 0 {
        decimal(minutes) + ":"@ + padded_decimal(seconds % 60, 2)
    } else {
        decimal(hours) + ":"@ + padded_decimal(minutes % 60, 2) + ":"@ + padded_decimal(
            seconds % 60,
            2,
        )
    };
    if millis % 1_000 == 0 {
        whole
    } else {
        whole + "."@ + padded_decimal(millis % 1_000, 3)
    }
}

pub fn format_clip_timestamp(timestamp: Duration) -> (result: String)
    ensures
        result@ == clip_timestamp(timestamp.total_millis()),
{
    let total: u128 = timestamp.as_millis();
    let millis: u128 = total % 1_000;
    let total_seconds: u128 = total / 1_000;
    let seconds: u128 = total_seconds % 60;
    let total_minutes: u128 = total_seconds / 60;
    let minutes: u128 = total_minutes % 60;
    let hours: u128 = total_minutes / 60;
    let whole = if hours == 0 {
        write_decimal(total_minutes).concat(":").concat(write_padded(seconds, 2).as_str())
    } else {
        write_decimal(hours).concat(":").concat(write_padded(minutes, 2).as_str()).concat(
            ":",
        ).concat(write_padded(seconds, 2).as_str())
    };
    if millis == 0 {
        whole
    } else {
        whole.concat(".").concat(write_padded(millis, 3).as_str())
    }
}

/// The section of a clip, as yt-dlp reads it.
pub open spec fn clip_section(range: ClipRange) -> Seq<char> {
    "*"@ + clip_timestamp(range.starts().total_millis()) + "-"@ + clip_timestamp(
        range.ends().total_millis(),
    )
}

// ---------------------------------------------------------------------------
// The command line
// ---------------------------------------------------------------------------

/// What yt-dlp is told of the media to keep. A track carries its name, its artist
/// and its cover, where the source has them.
pub open spec fn mode_arguments(url: Seq<char>, mode: DownloadMode, max_upload_bytes: u64) -> Seq<
    Seq<char>,
> {
    match mode {
        DownloadMode::Audio => seq![
            "--extract-audio"@,
            "--audio-format"@,
            "mp3"@,
            "--audio-quality"@,
            "0"@,
            "--embed-metadata"@,
            "--embed-thumbnail"@,
        ],
        DownloadMode::Clip(range) => seq![
            "-f"@,
            open_format(url),
            "--download-sections"@,
            clip_section(range),
            "--force-keyframes-at-cuts"@,
        ],
        DownloadMode::Video { max_height } => if contains_text(url, "youtube.com/"@)
            || contains_text(url, "youtu.be/"@) {
            seq!["-f"@, youtube_format(max_upload_bytes, max_height)]
        } else {
            match max_height {
                Some(height) => seq!["-f"@, height_format(height)],
                None => seq!["-f"@, open_format(url)],
            }
        },
    }
}

/// The arguments of the program that fetches `url` into `workspace`.
pub open spec fn download_arguments(
    url: Seq<char>,
    mode: DownloadMode,
    cookie_file: Seq<char>,
    workspace: Seq<char>,
    max_upload_bytes: u64,
) -> Seq<Seq<char>> {
    if takes_yt_dlp(url, mode) {
        seq![
            "-o"@,
            joined_path(workspace, "media.%(ext)s"@),
            "--cookies"@,
            cookie_file,
            "--user-agent"@,
            USER_AGENT@,
            "--newline"@,
            "--progress-template"@,
            "download:download:%(progress._percent_str)s"@,
        ] + mode_arguments(url, mode, max_upload_bytes) + seq!["--no-playlist"@, url]
    } else {
        seq![
            "--cookies"@,
            cookie_file,
            "--user-agent"@,
            USER_AGENT@,
            "-D"@,
            workspace,
            url,
        ]
    }
}

fn add_mode_arguments(
    arguments: &mut Vec<String>,
    url: &str,
    mode: &DownloadMode,
    max_upload_bytes: u64,
)
    ensures
        texts(final(arguments)@) == texts(old(arguments)@) + mode_arguments(
            url@,
            *mode,
            max_upload_bytes,
        ),
{
    match mode {
        DownloadMode::Audio => {
            push_text(arguments, "--extract-audio");
            push_text(arguments, "--audio-format");
            push_text(arguments, "mp3");
            push_text(arguments, "--audio-quality");
            push_text(arguments, "0");
            push_text(arguments, "--embed-metadata");
            push_text(arguments, "--embed-thumbnail");
        },
        DownloadMode::Clip(range) => {
            push_text(arguments, "-f");
            push_text(arguments, unrestricted_video_format(url));
            push_text(arguments, "--download-sections");
            let section = "*".to_owned().concat(
                format_clip_timestamp(range.start()).as_str(),
            ).concat("-").concat(format_clip_timestamp(range.end()).as_str());
            push_text(arguments, section.as_str());
            push_text(arguments, "--force-keyframes-at-cuts");
        },
        DownloadMode::Video { max_height } => {
            push_text(arguments, "-f");
            if contains(url, "youtube.com/") || contains(url, "youtu.be/") {
                let format = youtube_format_selector(max_upload_bytes, *max_height);
                push_text(arguments, format.as_str());
            } else {
                match max_height {
                    Some(height) => {
                        let format = video_format_selector(*height);
                        push_text(arguments, format.as_str());
                    },
                    None => {
                        push_text(arguments, unrestricted_video_format(url));
                    },
                }
            }
        },
    }
    assert(texts(arguments@) =~= texts(old(arguments)@) + mode_arguments(
        url@,
        *mode,
        max_upload_bytes,
    ));
}

/// The command that fetches `url` into the directory `workspace`.
pub fn build(
    url: &str,
    mode: &DownloadMode,
    cookie_file: &str,
    workspace: &str,
    limits: DownloadLimits,
) -> (result: DownloadCommand)
    ensures
        result.program@ == (if takes_yt_dlp(url@, *mode) {
            "yt-dlp"@
        } else {
            "gallery-dl"@
        }),
        result.reports_progress == takes_yt_dlp(url@, *mode),
        texts(result.arguments@) == download_arguments(
            url@,
            *mode,
            cookie_file@,
            workspace@,
            limits.max_upload_bytes,
        ),
{
    let use_yt_dlp = match mode {
        DownloadMode::Video { .. } => should_use_yt_dlp(url),
        _ => true,
    };
    if use_yt_dlp {
        let output = join_path(workspace, "media.%(ext)s");
        let mut arguments = text_list(
            &[
                "-o",
                output.as_str(),
                "--cookies",
                cookie_file,
                "--user-agent",
                USER_AGENT,
                "--newline",
                "--progress-template",
                "download:download:%(progress._percent_str)s",
            ],
        );
        let ghost opening = texts(arguments@);
        add_mode_arguments(&mut arguments, url, mode, limits.max_upload_bytes);
        push_text(&mut arguments, "--no-playlist");
        push_text(&mut arguments, url);
        proof {
            assert(opening =~= seq![
                "-o"@,
                joined_path(workspace@, "media.%(ext)s"@),
                "--cookies"@,
                cookie_file@,
                "--user-agent"@,
                USER_AGENT@,
                "--newline"@,
                "--progress-template"@,
                "download:download:%(progress._percent_str)s"@,
            ]);
            assert(texts(arguments@) =~= download_arguments(
                url@,
                *mode,
                cookie_file@,
                workspace@,
                limits.max_upload_bytes,
            ));
        }
        DownloadCommand { program: "yt-dlp", arguments, reports_progress: true }
    } else {
        let arguments = text_list(
            &["--cookies", cookie_file, "--user-agent", USER_AGENT, "-D", workspace, url],
        );
        assert(texts(arguments@) =~= download_arguments(
            url@,
            *mode,
            cookie_file@,
            workspace@,
            limits.max_upload_bytes,
        ));
        DownloadCommand { program: "gallery-dl", arguments, reports_progress: false }
    }
}

// ---------------------------------------------------------------------------
// Laws
// ---------------------------------------------------------------------------

/// Whatever is fetched, the URL is the last argument.
pub proof fn law_url_comes_last(
    url: Seq<char>,
    mode: DownloadMode,
    cookie_file: Seq<char>,
    workspace: Seq<char>,
    max_upload_bytes: u64,
)
    ensures
        download_arguments(url, mode, cookie_file, workspace, max_upload_bytes).last() == url,
{
}

/// A clip is chosen by its section alone: the upload limit, which speaks of the
/// whole video, has no part in the command.
pub proof fn law_clips_ignore_the_upload_limit(
    url: Seq<char>,
    range: ClipRange,
    cookie_file: Seq<char>,
    workspace: Seq<char>,
    one_limit: u64,
    other_limit: u64,
)
    ensures
        download_arguments(url, DownloadMode::Clip(range), cookie_file, workspace, one_limit)
            == download_arguments(
            url,
            DownloadMode::Clip(range),
            cookie_file,
            workspace,
            other_limit,
        ),
{
}

/// The picture never takes more than the upload limit allows.
pub proof fn law_video_budget_fits(max_upload_bytes: u64)
    ensures
        video_budget(max_upload_bytes) <= max_upload_bytes,
{
}

} // verus!
