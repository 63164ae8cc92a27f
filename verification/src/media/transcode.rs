//! Which videos have to be converted, and how.

use vstd::prelude::*;

use crate::media::command::{CommandOutcome, OutcomeView};
use crate::media::inspect::VideoMetadata;
use crate::number::{decimal, write_decimal, write_u64};
use crate::paths::{extension, extension_in};
use crate::text::{
    eq_ignore_ascii_case, equal_ignoring_ascii_case, push_text, same_text, text_list, texts,
};
use crate::time::Duration;

verus! {

/// How long a helper program may take.
pub const UTILITY_COMMAND_SECONDS: u64 = 60;

/// A video that is fit for upload.
pub struct PreparedVideo {
    pub path: String,
    pub metadata: VideoMetadata,
}

/// Why no bitrate fits.
#[derive(Clone, Copy, Debug, PartialEq, Eq, Structural)]
pub enum BitrateError {
    UnknownDuration,
    LimitTooSmall,
}

impl BitrateError {
    /// What the error says.
    pub open spec fn says(self) -> Seq<char> {
        match self {
            BitrateError::UnknownDuration => "cannot resize a video with unknown duration"@,
            BitrateError::LimitTooSmall =>
                "the configured upload limit is too small for this video's duration"@,
        }
    }

    pub fn message(&self) -> (result: String)
        ensures
            result@ == self.says(),
    {
        match self {
            BitrateError::UnknownDuration => "cannot resize a video with unknown duration".to_owned(),
            BitrateError::LimitTooSmall =>
                "the configured upload limit is too small for this video's duration".to_owned(),
        }
    }
}

/// Whether a video cannot be uploaded as it is: it is no MP4 with H.264 in it,
/// or too large.
pub open spec fn needs_transcode(
    container_is_mp4: bool,
    codec: Seq<char>,
    file_size: u64,
    max_upload_bytes: u64,
) -> bool {
    !container_is_mp4 || codec != "h264"@ || file_size > max_upload_bytes
}

pub fn requires_video_transcode(
    container_is_mp4: bool,
    codec: &str,
    file_size: u64,
    max_upload_bytes: u64,
) -> (result: bool)
    ensures
        result == needs_transcode(container_is_mp4, codec@, file_size, max_upload_bytes),
{
    !container_is_mp4 || !same_text(codec, "h264") || file_size > max_upload_bytes
}

/// How many bits a second fill 85 percent of the upload limit.
pub open spec fn target_bits(max_upload_bytes: u64, duration_secs: i64) -> nat {
    max_upload_bytes as nat * 8 * 85 / 100 / (duration_secs as nat)
}

/// The bitrate of the picture that keeps a video of that length within the
/// upload limit, with 128 kilobits left for the sound. Below 200 kilobits there
/// is none.
pub open spec fn video_bitrate(max_upload_bytes: u64, duration_secs: i64) -> Result<u64, BitrateError> {
    if duration_secs <= 0 {
        Err(BitrateError::UnknownDuration)
    } else {
        let bits = target_bits(max_upload_bytes, duration_secs);
        if bits < 328_000 {
            Err(BitrateError::LimitTooSmall)
        } else if bits - 128_000 > u64::MAX {
            Ok(u64::MAX)
        } else {
            Ok((bits - 128_000) as u64)
        }
    }
}

pub fn target_video_bitrate(max_upload_bytes: u64, duration_secs: i64) -> (result: Result<
    u64,
    BitrateError,
>)
    ensures
        result == video_bitrate(max_upload_bytes, duration_secs),
{
    if duration_secs <= 0 {
        return Err(BitrateError::UnknownDuration);
    }
    let bits: u128 = max_upload_bytes as u128 * 8 * 85 / 100 / duration_secs as u128;
    if bits < 328_000 {
        Err(BitrateError::LimitTooSmall)
    } else {
        let video: u128 = bits - 128_000;
        if video > u64::MAX as u128 {
            Ok(u64::MAX)
        } else {
            Ok(video as u64)
        }
    }
}

/// Whether a path ends in `.mp4`, upper or lower case.
pub open spec fn names_mp4(path: Seq<char>) -> bool {
    match extension_in(path) {
        Some(extension) => equal_ignoring_ascii_case(extension, "mp4"@),
        None => false,
    }
}

fn is_mp4(path: &str) -> (result: bool)
    ensures
        result == names_mp4(path@),
{
    match extension(path) {
        Some(extension) => eq_ignore_ascii_case(extension.as_str(), "mp4"),
        None => false,
    }
}

/// How ffmpeg is told what size to aim at: at the bitrate, if there is one.
pub open spec fn rate_arguments(bitrate: Option<u64>) -> Seq<Seq<char>> {
    match bitrate {
        Some(bitrate) => seq![
            "-b:v"@,
            decimal(bitrate as nat),
            "-maxrate"@,
            decimal(bitrate as nat),
            "-bufsize"@,
            decimal(if bitrate * 2 > u64::MAX {
                u64::MAX as nat
            } else {
                (bitrate * 2) as nat
            }),
        ],
        None => seq!["-crf"@, "23"@],
    }
}

/// What ffmpeg is told of the picture and the sound.
pub open spec fn media_arguments(input: Seq<char>) -> Seq<Seq<char>> {
    seq![
        "-y"@,
        "-hide_banner"@,
        "-loglevel"@,
        "error"@,
        "-i"@,
        input,
        "-map"@,
        "0:v:0"@,
        "-map"@,
        "0:a:0?"@,
        "-sn"@,
        "-dn"@,
        "-c:v"@,
        "libx264"@,
        "-preset"@,
        "medium"@,
        "-pix_fmt"@,
        "yuv420p"@,
        "-vf"@,
        SCALE_FILTER@,
        "-c:a"@,
        "aac"@,
        "-b:a"@,
        "128k"@,
        "-ac"@,
        "2"@,
    ]
}

/// The arguments with which ffmpeg converts `input` to `output`.
pub open spec fn transcode_arguments(input: Seq<char>, output: Seq<char>, bitrate: Option<u64>) -> Seq<
    Seq<char>,
> {
    media_arguments(input) + rate_arguments(bitrate) + seq![
        "-progress"@,
        "pipe:1"@,
        "-nostats"@,
        "-movflags"@,
        "+faststart"@,
        "-tag:v"@,
        "avc1"@,
        output,
    ]
}

/// At most full high definition, in whole pairs of pixels.
pub const SCALE_FILTER: &'static str =
    "scale=min(1920\\,iw):min(1080\\,ih):force_original_aspect_ratio=decrease:force_divisible_by=2,setsar=1";

/// What ffmpeg is told of the picture, the sound and the bitrate.
pub fn opening_arguments(input: &str, bitrate: Option<u64>) -> (result: Vec<String>)
    ensures
        texts(result@) == media_arguments(input@) + rate_arguments(bitrate),
{
    let mut arguments = text_list(
        &[
            "-y",
            "-hide_banner",
            "-loglevel",
            "error",
            "-i",
            input,
            "-map",
            "0:v:0",
            "-map",
            "0:a:0?",
            "-sn",
            "-dn",
            "-c:v",
            "libx264",
            "-preset",
            "medium",
            "-pix_fmt",
            "yuv420p",
            "-vf",
            SCALE_FILTER,
            "-c:a",
            "aac",
            "-b:a",
            "128k",
            "-ac",
            "2",
        ],
    );
    let ghost opening = texts(arguments@);
    assert(opening =~= media_arguments(input@));
    match bitrate {
        Some(bitrate) => {
            let rate = write_u64(bitrate);
            let twice: u128 = if bitrate > u64::MAX / 2 {
                u64::MAX as u128
            } else {
                bitrate as u128 * 2
            };
            push_text(&mut arguments, "-b:v");
            push_text(&mut arguments, rate.as_str());
            push_text(&mut arguments, "-maxrate");
            push_text(&mut arguments, rate.as_str());
            push_text(&mut arguments, "-bufsize");
            push_text(&mut arguments, write_decimal(twice).as_str());
        },
        None => {
            push_text(&mut arguments, "-crf");
            push_text(&mut arguments, "23");
        },
    }
    assert(texts(arguments@) =~= opening + rate_arguments(bitrate));
    arguments
}

/// The arguments with which ffmpeg converts `input` to `output`.
pub fn build_transcode(input: &str, output: &str, bitrate: Option<u64>) -> (result: Vec<String>)
    ensures
        texts(result@) == transcode_arguments(input@, output@, bitrate),
{
    let mut arguments = opening_arguments(input, bitrate);
    push_text(&mut arguments, "-progress");
    push_text(&mut arguments, "pipe:1");
    push_text(&mut arguments, "-nostats");
    push_text(&mut arguments, "-movflags");
    push_text(&mut arguments, "+faststart");
    push_text(&mut arguments, "-tag:v");
    push_text(&mut arguments, "avc1");
    push_text(&mut arguments, output);
    assert(texts(arguments@) =~= transcode_arguments(input@, output@, bitrate));
    arguments
}

// ---------------------------------------------------------------------------
// Preparing a video
// ---------------------------------------------------------------------------

/// What is to be done with a video.
#[derive(Clone, Copy, Debug, PartialEq, Eq, Structural)]
pub enum VideoPlan {
    /// It is fit for upload.
    Keep,
    /// The job is cancelled.
    Cancelled,
    /// It has to be converted, at that bitrate if there is one.
    Transcode { bitrate: Option<u64> },
    /// It has to be converted, and cannot be.
    Impossible(BitrateError),
}

/// What is to be done with a video that has been inspected.
pub open spec fn video_plan(
    path: Seq<char>,
    codec: Seq<char>,
    duration_secs: i64,
    file_size: u64,
    max_upload_bytes: u64,
    cancelled: bool,
) -> VideoPlan {
    if !needs_transcode(names_mp4(path), codec, file_size, max_upload_bytes) {
        VideoPlan::Keep
    } else if cancelled {
        VideoPlan::Cancelled
    } else if file_size > max_upload_bytes {
        match video_bitrate(max_upload_bytes, duration_secs) {
            Ok(bitrate) => VideoPlan::Transcode { bitrate: Some(bitrate) },
            Err(error) => VideoPlan::Impossible(error),
        }
    } else {
        VideoPlan::Transcode { bitrate: None }
    }
}

/// What is to be done with a video that has been inspected.
pub fn plan_video(
    path: &str,
    metadata: &VideoMetadata,
    file_size: u64,
    max_upload_bytes: u64,
    cancelled: bool,
) -> (result: VideoPlan)
    ensures
        result == video_plan(
            path@,
            metadata.codec@,
            metadata.duration_secs,
            file_size,
            max_upload_bytes,
            cancelled,
        ),
{
    if !requires_video_transcode(
        is_mp4(path),
        metadata.codec.as_str(),
        file_size,
        max_upload_bytes,
    ) {
        return VideoPlan::Keep;
    }
    if cancelled {
        return VideoPlan::Cancelled;
    }
    if file_size > max_upload_bytes {
        match target_video_bitrate(max_upload_bytes, metadata.duration_secs) {
            Ok(bitrate) => VideoPlan::Transcode { bitrate: Some(bitrate) },
            Err(error) => VideoPlan::Impossible(error),
        }
    } else {
        VideoPlan::Transcode { bitrate: None }
    }
}

/// The length of a video in microseconds; an unknown one counts as nothing.
pub fn duration_micros(duration_secs: i64) -> (result: u64)
    requires
        duration_secs * 1_000_000 <= u64::MAX,
    ensures
        result == (if duration_secs > 0 {
            duration_secs * 1_000_000
        } else {
            0
        }),
{
    if duration_secs > 0 {
        duration_secs as u64 * 1_000_000
    } else {
        0
    }
}

/// What came of running ffmpeg: nothing, or why the video is not prepared.
pub open spec fn transcode_failure(outcome: OutcomeView, timeout: Duration) -> Option<Seq<char>> {
    match outcome {
        OutcomeView::Cancelled => Some("cancelled"@),
        OutcomeView::TimedOut => Some(
            "ffmpeg timed out after "@ + decimal(timeout.whole_seconds()) + " seconds"@,
        ),
        OutcomeView::Finished { success, stderr, .. } => if success {
            None
        } else {
            Some("ffmpeg could not prepare the video: "@ + stderr)
        },
    }
}

/// What came of running ffmpeg.
pub fn check_transcode(outcome: CommandOutcome, timeout: Duration) -> (result: Result<(), String>)
    ensures
        match (result, transcode_failure(outcome@, timeout)) {
            (Ok(_), None) => true,
            (Err(message), Some(expected)) => message@ == expected,
            _ => false,
        },
{
    match outcome {
        CommandOutcome::Cancelled => Err("cancelled".to_owned()),
        CommandOutcome::TimedOut => {
            let message = "ffmpeg timed out after ".to_owned().concat(
                write_u64(timeout.as_secs()).as_str(),
            ).concat(" seconds");
            Err(message)
        },
        CommandOutcome::Finished { success, stdout: _, stderr } => if success {
            Ok(())
        } else {
            Err("ffmpeg could not prepare the video: ".to_owned().concat(stderr.as_str()))
        },
    }
}

/// Why a converted video of that size is not fit for upload.
pub open spec fn oversize_text(output_size: u64, max_upload_bytes: u64) -> Seq<char> {
    "prepared video is still too large ("@ + decimal(output_size as nat / 1_048_576)
        + " MiB; limit "@ + decimal(max_upload_bytes as nat / 1_048_576) + " MiB)"@
}

/// Whether a converted video is fit for upload.
pub fn check_output_size(output_size: u64, max_upload_bytes: u64) -> (result: Result<(), String>)
    ensures
        match result {
            Ok(_) => output_size <= max_upload_bytes,
            Err(message) => output_size > max_upload_bytes && message@ == oversize_text(
                output_size,
                max_upload_bytes,
            ),
        },
{
    if output_size > max_upload_bytes {
        let message = "prepared video is still too large (".to_owned().concat(
            write_u64(output_size / 1_048_576).as_str(),
        ).concat(" MiB; limit ").concat(write_u64(max_upload_bytes / 1_048_576).as_str()).concat(
            " MiB)",
        );
        Err(message)
    } else {
        Ok(())
    }
}

// ---------------------------------------------------------------------------
// Laws
// ---------------------------------------------------------------------------

/// At the chosen bitrate a video keeps headroom: picture and sound together
/// take at most 85 percent of the upload limit.
pub proof fn law_bitrate_keeps_headroom(max_upload_bytes: u64, duration_secs: i64)
    ensures
        video_bitrate(max_upload_bytes, duration_secs) matches Ok(bitrate) ==> (bitrate + 128_000)
            * duration_secs * 100 <= max_upload_bytes * 8 * 85,
{
    if let Ok(bitrate) = video_bitrate(max_upload_bytes, duration_secs) {
        let total = max_upload_bytes as int * 8 * 85;
        let hundredth = total / 100;
        let length = duration_secs as int;
        let bits = hundredth / length;
        vstd::arithmetic::div_mod::lemma_fundamental_div_mod(hundredth, length);
        assert(bitrate + 128_000 <= bits);
        assert((bitrate + 128_000) * length <= length * bits) by (nonlinear_arith)
            requires
                bitrate + 128_000 <= bits,
                length > 0,
        ;
        assert(length * bits <= hundredth);
        assert(hundredth * 100 <= total);
    }
}

/// A video that is already an MP4 with H.264 in it and small enough is uploaded
/// as it is, and no other is.
pub proof fn law_only_fit_videos_are_kept(
    path: Seq<char>,
    codec: Seq<char>,
    duration_secs: i64,
    file_size: u64,
    max_upload_bytes: u64,
    cancelled: bool,
)
    ensures
        video_plan(path, codec, duration_secs, file_size, max_upload_bytes, cancelled)
            == VideoPlan::Keep <==> names_mp4(path) && codec == "h264"@ && file_size
            <= max_upload_bytes,
{
}

} // verus!
