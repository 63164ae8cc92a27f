//! What ffprobe and ffmpeg are asked about media, and what is read off their
//! answers.

use vstd::prelude::*;

use crate::json::{
    Json, JsonView, json_in, member, member_any_case, member_ignoring_case, member_in,
    member_views, members_in, parse_json, text_in,
};
use crate::media::command::{CommandOutcome, OutcomeView};
use crate::number::{decimal, i32_in, parse_i32, write_u64};
use crate::numeral::{parse_seconds_of, parse_truncated, quantity_in, seconds_of, truncated};
use crate::text::{
    lines, lines_of, strip_prefix, stripped_prefix, text_list, text_of, texts, trim, trimmed,
};
use crate::time::Duration;

verus! {

#[derive(Debug, PartialEq, Eq)]
pub struct AudioMetadata {
    pub duration: Duration,
    pub title: Option<String>,
    pub performer: Option<String>,
}

#[derive(Debug, PartialEq, Eq)]
pub struct VideoMetadata {
    pub duration_secs: i64,
    pub width: i32,
    pub height: i32,
    pub codec: String,
}

// ---------------------------------------------------------------------------
// Command lines
// ---------------------------------------------------------------------------

/// The arguments with which ffmpeg takes a picture out of a video.
pub fn thumbnail_arguments(video_file: &str, thumbnail: &str) -> (result: Vec<String>)
    ensures
        texts(result@) == seq![
            "-y"@,
            "-i"@,
            video_file@,
            "-ss"@,
            "00:00:01.000"@,
            "-vframes"@,
            "1"@,
            "-vf"@,
            "scale=320:-1"@,
            thumbnail@,
        ],
{
    let result = text_list(
        &[
            "-y",
            "-i",
            video_file,
            "-ss",
            "00:00:01.000",
            "-vframes",
            "1",
            "-vf",
            "scale=320:-1",
            thumbnail,
        ],
    );
    assert(texts(result@) =~= seq![
        "-y"@,
        "-i"@,
        video_file@,
        "-ss"@,
        "00:00:01.000"@,
        "-vframes"@,
        "1"@,
        "-vf"@,
        "scale=320:-1"@,
        thumbnail@,
    ]);
    result
}

/// The arguments with which ffmpeg takes the cover out of an audio file.
pub fn cover_arguments(audio_file: &str, thumbnail: &str) -> (result: Vec<String>)
    ensures
        texts(result@) == seq![
            "-y"@,
            "-hide_banner"@,
            "-loglevel"@,
            "error"@,
            "-i"@,
            audio_file@,
            "-map"@,
            "0:v:0"@,
            "-an"@,
            "-frames:v"@,
            "1"@,
            "-vf"@,
            "scale=320:320:force_original_aspect_ratio=increase,crop=320:320"@,
            "-q:v"@,
            "8"@,
            thumbnail@,
        ],
{
    let result = text_list(
        &[
            "-y",
            "-hide_banner",
            "-loglevel",
            "error",
            "-i",
            audio_file,
            "-map",
            "0:v:0",
            "-an",
            "-frames:v",
            "1",
            "-vf",
            "scale=320:320:force_original_aspect_ratio=increase,crop=320:320",
            "-q:v",
            "8",
            thumbnail,
        ],
    );
    assert(texts(result@) =~= seq![
        "-y"@,
        "-hide_banner"@,
        "-loglevel"@,
        "error"@,
        "-i"@,
        audio_file@,
        "-map"@,
        "0:v:0"@,
        "-an"@,
        "-frames:v"@,
        "1"@,
        "-vf"@,
        "scale=320:320:force_original_aspect_ratio=increase,crop=320:320"@,
        "-q:v"@,
        "8"@,
        thumbnail@,
    ]);
    result
}

/// The arguments with which ffprobe describes an audio file.
pub fn audio_probe_arguments(audio_file: &str) -> (result: Vec<String>)
    ensures
        texts(result@) == seq![
            "-v"@,
            "error"@,
            "-show_entries"@,
            "format=duration:format_tags=title,artist,album_artist,performer"@,
            "-of"@,
            "json"@,
            audio_file@,
        ],
{
    let result = text_list(
        &[
            "-v",
            "error",
            "-show_entries",
            "format=duration:format_tags=title,artist,album_artist,performer",
            "-of",
            "json",
            audio_file,
        ],
    );
    assert(texts(result@) =~= seq![
        "-v"@,
        "error"@,
        "-show_entries"@,
        "format=duration:format_tags=title,artist,album_artist,performer"@,
        "-of"@,
        "json"@,
        audio_file@,
    ]);
    result
}

/// The arguments with which ffprobe describes a video.
pub fn video_probe_arguments(video_file: &str) -> (result: Vec<String>)
    ensures
        texts(result@) == seq![
            "-v"@,
            "error"@,
            "-select_streams"@,
            "v:0"@,
            "-show_entries"@,
            "stream=width,height,codec_name:format=duration"@,
            "-of"@,
            "default=noprint_wrappers=1"@,
            video_file@,
        ],
{
    let result = text_list(
        &[
            "-v",
            "error",
            "-select_streams",
            "v:0",
            "-show_entries",
            "stream=width,height,codec_name:format=duration",
            "-of",
            "default=noprint_wrappers=1",
            video_file,
        ],
    );
    assert(texts(result@) =~= seq![
        "-v"@,
        "error"@,
        "-select_streams"@,
        "v:0"@,
        "-show_entries"@,
        "stream=width,height,codec_name:format=duration"@,
        "-of"@,
        "default=noprint_wrappers=1"@,
        video_file@,
    ]);
    result
}

// ---------------------------------------------------------------------------
// Videos
// ---------------------------------------------------------------------------

/// What is known of a video.
pub ghost struct VideoView {
    pub duration_secs: i64,
    pub width: i32,
    pub height: i32,
    pub codec: Seq<char>,
}

impl View for VideoMetadata {
    type V = VideoView;

    open spec fn view(&self) -> VideoView {
        VideoView {
            duration_secs: self.duration_secs,
            width: self.width,
            height: self.height,
            codec: self.codec@,
        }
    }
}

pub open spec fn i32_or_zero(text: Seq<char>) -> i32 {
    match i32_in(text) {
        Some(value) => value,
        None => 0,
    }
}

pub open spec fn seconds_or_zero(text: Seq<char>) -> i64 {
    match quantity_in(text) {
        Some(quantity) => truncated(quantity),
        None => 0,
    }
}

/// What is known after one more line of ffprobe.
pub open spec fn after_video_line(video: VideoView, line: Seq<char>) -> VideoView {
    let line = trimmed(line);
    match stripped_prefix(line, "width="@) {
        Some(value) => VideoView { width: i32_or_zero(value), ..video },
        None => match stripped_prefix(line, "height="@) {
            Some(value) => VideoView { height: i32_or_zero(value), ..video },
            None => match stripped_prefix(line, "duration="@) {
                Some(value) => VideoView { duration_secs: seconds_or_zero(value), ..video },
                None => match stripped_prefix(line, "codec_name="@) {
                    Some(value) => VideoView { codec: value, ..video },
                    None => video,
                },
            },
        },
    }
}

/// What is known after the first `count` lines.
pub open spec fn video_after(lines: Seq<Seq<char>>, count: nat) -> VideoView
    decreases count,
{
    if count == 0 {
        VideoView { duration_secs: 0, width: 0, height: 0, codec: Seq::empty() }
    } else {
        after_video_line(video_after(lines, (count - 1) as nat), lines[count - 1])
    }
}

/// What the output of ffprobe says of a video. What it does not say, or says
/// wrongly, counts as zero; of what it says twice the last word counts.
pub open spec fn video_in(output: Seq<char>) -> VideoView {
    video_after(lines_of(output), lines_of(output).len())
}

fn read_i32(text: &str) -> (result: i32)
    ensures
        result == i32_or_zero(text@),
{
    match parse_i32(text) {
        Some(value) => value,
        None => 0,
    }
}

/// Reads what ffprobe says of a video.
pub fn parse_video_probe(output: &str) -> (result: VideoMetadata)
    ensures
        result@ == video_in(output@),
{
    let rows = lines(output);
    let ghost views = lines_of(output@);
    let mut metadata = VideoMetadata {
        duration_secs: 0,
        width: 0,
        height: 0,
        codec: String::new(),
    };
    let mut i: usize = 0;
    while i < rows.len()
        invariant
            i <= rows@.len(),
            views == lines_of(output@),
            texts(rows@) == views,
            metadata@ == video_after(views, i as nat),
        decreases rows@.len() - i,
    {
        assert(views[i as int] == rows@[i as int]@);
        let line = trim(rows[i].as_str());
        if let Some(value) = strip_prefix(line.as_str(), "width=") {
            metadata.width = read_i32(value.as_str());
        } else if let Some(value) = strip_prefix(line.as_str(), "height=") {
            metadata.height = read_i32(value.as_str());
        } else if let Some(value) = strip_prefix(line.as_str(), "duration=") {
            metadata.duration_secs = match parse_truncated(value.as_str()) {
                Some(value) => value,
                None => 0,
            };
        } else if let Some(value) = strip_prefix(line.as_str(), "codec_name=") {
            metadata.codec = value;
        }
        i = i + 1;
    }
    metadata
}

// ---------------------------------------------------------------------------
// Audio
// ---------------------------------------------------------------------------

/// What is known of an audio file.
pub ghost struct AudioView {
    pub seconds: u64,
    pub title: Option<Seq<char>>,
    pub performer: Option<Seq<char>>,
}

/// The first tag of that name, upper or lower case, if it is a text that is not
/// blank.
pub open spec fn tag_in(tags: Seq<(Seq<char>, JsonView)>, name: Seq<char>) -> Option<Seq<char>> {
    match member_ignoring_case(tags, name) {
        Some(value) => match text_in(value) {
            Some(text) => if trimmed(text).len() > 0 {
                Some(trimmed(text))
            } else {
                None
            },
            None => None,
        },
        None => None,
    }
}

/// The first of the tags `names` that is there.
pub open spec fn first_tag(tags: Option<Seq<(Seq<char>, JsonView)>>, names: Seq<Seq<char>>) -> Option<
    Seq<char>,
>
    decreases names.len(),
{
    match tags {
        Some(members) => if names.len() == 0 {
            None
        } else {
            match tag_in(members, names[0]) {
                Some(text) => Some(text),
                None => first_tag(tags, names.skip(1)),
            }
        },
        None => None,
    }
}

/// The length that a JSON value gives: a text that writes out a number, or a
/// number.
pub open spec fn length_in(value: JsonView) -> u64 {
    match value {
        JsonView::Text(text) => match quantity_in(text) {
            Some(quantity) => seconds_of(quantity),
            None => 0,
        },
        JsonView::Number(text) => match quantity_in(text) {
            Some(quantity) => seconds_of(quantity),
            None => 0,
        },
        _ => 0,
    }
}

/// What a document of ffprobe says of an audio file, if it describes one.
pub open spec fn audio_in(document: JsonView) -> Option<AudioView> {
    let format = match members_in(document) {
        Some(members) => match member_in(members, "format"@) {
            Some(format) => members_in(format),
            None => None,
        },
        None => None,
    };
    match format {
        Some(format) => {
            let tags = match member_in(format, "tags"@) {
                Some(tags) => members_in(tags),
                None => None,
            };
            Some(
                AudioView {
                    seconds: match member_in(format, "duration"@) {
                        Some(value) => length_in(value),
                        None => 0,
                    },
                    title: first_tag(tags, seq!["title"@]),
                    performer: first_tag(tags, seq!["artist"@, "album_artist"@, "performer"@]),
                },
            )
        },
        None => None,
    }
}

/// Whether metadata says what a document says.
pub open spec fn says(metadata: AudioMetadata, audio: AudioView) -> bool {
    &&& metadata.duration == Duration::of(audio.seconds, 0)
    &&& text_of(metadata.title) == audio.title
    &&& text_of(metadata.performer) == audio.performer
}

/// The first of the tags `names` that is there.
pub fn audio_tag(tags: Option<&Vec<(String, Json)>>, names: &[&str]) -> (result: Option<String>)
    ensures
        text_of(result) == first_tag(
            match tags {
                Some(members) => Some(member_views(members@)),
                None => None,
            },
            names@.map_values(|name: &str| name@),
        ),
{
    let members = match tags {
        Some(members) => members,
        None => {
            return None;
        },
    };
    let ghost views = member_views(members@);
    let ghost wanted = names@.map_values(|name: &str| name@);
    let mut i: usize = 0;
    assert(wanted.skip(0) =~= wanted);
    while i < names.len()
        invariant
            i <= names@.len(),
            tags == Some(members),
            views == member_views(members@),
            wanted == names@.map_values(|name: &str| name@),
            first_tag(Some(views), wanted) == first_tag(Some(views), wanted.skip(i as int)),
        decreases names@.len() - i,
    {
        assert(wanted.skip(i as int)[0] == names@[i as int]@);
        assert(wanted.skip(i as int).skip(1) =~= wanted.skip(i + 1));
        if let Some(value) = member_any_case(members, names[i]) {
            if let Some(text) = value.text() {
                let text = trim(text);
                if !text.as_str().is_empty() {
                    return Some(text);
                }
            }
        }
        i = i + 1;
    }
    None
}

fn read_length(value: &Json) -> (result: u64)
    ensures
        result == length_in(value@),
{
    match value {
        Json::Text(text) | Json::Number(text) => match parse_seconds_of(text.as_str()) {
            Some(seconds) => seconds,
            None => 0,
        },
        _ => 0,
    }
}

/// Reads what a document of ffprobe says of an audio file.
pub fn audio_from_json(document: &Json) -> (result: Option<AudioMetadata>)
    ensures
        match (result, audio_in(document@)) {
            (Some(metadata), Some(audio)) => says(metadata, audio),
            (None, None) => true,
            _ => false,
        },
{
    let format = match document.members() {
        Some(members) => match member(members, "format") {
            Some(format) => match format.members() {
                Some(format) => format,
                None => {
                    return None;
                },
            },
            None => {
                return None;
            },
        },
        None => {
            return None;
        },
    };
    let seconds: u64 = match member(format, "duration") {
        Some(value) => read_length(value),
        None => 0,
    };
    let tags = match member(format, "tags") {
        Some(tags) => tags.members(),
        None => None,
    };
    let title_names = ["title"];
    let performer_names = ["artist", "album_artist", "performer"];
    let title = audio_tag(tags, &title_names);
    let performer = audio_tag(tags, &performer_names);
    proof {
        assert(title_names@.map_values(|name: &str| name@) =~= seq!["title"@]);
        assert(performer_names@.map_values(|name: &str| name@) =~= seq![
            "artist"@,
            "album_artist"@,
            "performer"@,
        ]);
    }
    Some(AudioMetadata { duration: Duration::from_secs(seconds), title, performer })
}

/// Why ffprobe said nothing of an audio file.
pub const NO_AUDIO_FORMAT: &'static str = "ffprobe returned no audio format information";

/// Reads what ffprobe says of an audio file.
pub fn parse_audio_probe(output: &str) -> (result: Result<AudioMetadata, String>)
    ensures
        match json_in(output@) {
            Ok(document) => match (result, audio_in(document)) {
                (Ok(metadata), Some(audio)) => says(metadata, audio),
                (Err(message), None) => message@ == NO_AUDIO_FORMAT@,
                _ => false,
            },
            Err(expected) => match result {
                Err(message) => message@ == expected,
                Ok(_) => false,
            },
        },
{
    match parse_json(output) {
        Ok(document) => match audio_from_json(&document) {
            Some(metadata) => Ok(metadata),
            None => Err(NO_AUDIO_FORMAT.to_owned()),
        },
        Err(message) => Err(message),
    }
}

// ---------------------------------------------------------------------------
// Outcomes
// ---------------------------------------------------------------------------

/// What came of running a helper program: whether it succeeded and what it
/// printed, or why it did not finish.
pub open spec fn helper_result(outcome: OutcomeView, timeout: Duration) -> Result<
    (bool, Seq<char>, Seq<char>),
    Seq<char>,
> {
    match outcome {
        OutcomeView::Finished { success, stdout, stderr } => Ok((success, stdout, stderr)),
        OutcomeView::Cancelled => Err("cancelled"@),
        OutcomeView::TimedOut => Err(
            "command timed out after "@ + decimal(timeout.whole_seconds()) + " seconds"@,
        ),
    }
}

/// What came of running a helper program.
pub fn helper_output(outcome: CommandOutcome, timeout: Duration) -> (result: Result<
    (bool, String, String),
    String,
>)
    ensures
        match (result, helper_result(outcome@, timeout)) {
            (Ok(output), Ok(expected)) => output.0 == expected.0 && output.1@ == expected.1
                && output.2@ == expected.2,
            (Err(message), Err(expected)) => message@ == expected,
            _ => false,
        },
{
    match outcome {
        CommandOutcome::Finished { success, stdout, stderr } => Ok((success, stdout, stderr)),
        CommandOutcome::Cancelled => Err("cancelled".to_owned()),
        CommandOutcome::TimedOut => {
            let message = "command timed out after ".to_owned().concat(
                write_u64(timeout.as_secs()).as_str(),
            ).concat(" seconds");
            Err(message)
        },
    }
}

/// What a program that ended says in case of failure: `problem`, and what it
/// printed.
pub open spec fn helper_failure(problem: Seq<char>, stderr: Seq<char>) -> Seq<char> {
    problem + ": "@ + stderr
}

fn finished_output(outcome: CommandOutcome, timeout: Duration, problem: &str) -> (result: Result<
    String,
    String,
>)
    ensures
        match helper_result(outcome@, timeout) {
            Ok((true, stdout, _)) => match result {
                Ok(output) => output@ == stdout,
                Err(_) => false,
            },
            Ok((false, _, stderr)) => match result {
                Err(message) => message@ == helper_failure(problem@, stderr),
                Ok(_) => false,
            },
            Err(expected) => match result {
                Err(message) => message@ == expected,
                Ok(_) => false,
            },
        },
{
    match helper_output(outcome, timeout) {
        Ok((success, stdout, stderr)) => if success {
            Ok(stdout)
        } else {
            Err(problem.to_owned().concat(": ").concat(stderr.as_str()))
        },
        Err(message) => Err(message),
    }
}

/// What came of probing a video.
pub fn probe_video(outcome: CommandOutcome, timeout: Duration) -> (result: Result<
    VideoMetadata,
    String,
>)
    ensures
        match helper_result(outcome@, timeout) {
            Ok((true, stdout, _)) => match result {
                Ok(metadata) => metadata@ == video_in(stdout),
                Err(_) => false,
            },
            Ok((false, _, stderr)) => match result {
                Err(message) => message@ == helper_failure(
                    "ffprobe could not read video"@,
                    stderr,
                ),
                Ok(_) => false,
            },
            Err(expected) => match result {
                Err(message) => message@ == expected,
                Ok(_) => false,
            },
        },
{
    match finished_output(outcome, timeout, "ffprobe could not read video") {
        Ok(stdout) => Ok(parse_video_probe(stdout.as_str())),
        Err(message) => Err(message),
    }
}

/// What came of probing an audio file.
pub fn probe_audio(outcome: CommandOutcome, timeout: Duration) -> (result: Result<
    AudioMetadata,
    String,
>)
    ensures
        match helper_result(outcome@, timeout) {
            Ok((true, stdout, _)) => match json_in(stdout) {
                Ok(document) => match (result, audio_in(document)) {
                    (Ok(metadata), Some(audio)) => says(metadata, audio),
                    (Err(message), None) => message@ == NO_AUDIO_FORMAT@,
                    _ => false,
                },
                Err(expected) => match result {
                    Err(message) => message@ == expected,
                    Ok(_) => false,
                },
            },
            Ok((false, _, stderr)) => match result {
                Err(message) => message@ == helper_failure(
                    "ffprobe could not read audio"@,
                    stderr,
                ),
                Ok(_) => false,
            },
            Err(expected) => match result {
                Err(message) => message@ == expected,
                Ok(_) => false,
            },
        },
{
    match finished_output(outcome, timeout, "ffprobe could not read audio") {
        Ok(stdout) => parse_audio_probe(stdout.as_str()),
        Err(message) => Err(message),
    }
}

/// What came of taking a picture out of a video. Where it fails, what is left
/// of the picture has to be removed.
pub fn extract_thumbnail(outcome: CommandOutcome, timeout: Duration) -> (result: Result<(), String>)
    ensures
        match helper_result(outcome@, timeout) {
            Ok((true, _, _)) => result is Ok,
            Ok((false, _, stderr)) => match result {
                Err(message) => message@ == helper_failure(
                    "failed to extract thumbnail"@,
                    stderr,
                ),
                Ok(_) => false,
            },
            Err(expected) => match result {
                Err(message) => message@ == expected,
                Ok(_) => false,
            },
        },
{
    match finished_output(outcome, timeout, "failed to extract thumbnail") {
        Ok(_) => Ok(()),
        Err(message) => Err(message),
    }
}

/// Why there is no cover.
pub const NO_COVER: &'static str = "audio does not contain usable cover art";

/// What came of taking the cover out of an audio file, where `size` is the size
/// of the picture, if there is one.
pub fn extract_audio_thumbnail(
    outcome: CommandOutcome,
    timeout: Duration,
    size: Option<u64>,
) -> (result: Result<(), String>)
    ensures
        match helper_result(outcome@, timeout) {
            Ok((true, _, _)) => match result {
                Ok(_) => size is Some && size->0 > 0,
                Err(message) => (size is None || size->0 == 0) && message@ == NO_COVER@,
            },
            Ok((false, _, stderr)) => match result {
                Err(message) => message@ == helper_failure(
                    "failed to extract audio cover"@,
                    stderr,
                ),
                Ok(_) => false,
            },
            Err(expected) => match result {
                Err(message) => message@ == expected,
                Ok(_) => false,
            },
        },
{
    match finished_output(outcome, timeout, "failed to extract audio cover") {
        Ok(_) => match size {
            Some(size) => if size > 0 {
                Ok(())
            } else {
                Err(NO_COVER.to_owned())
            },
            None => Err(NO_COVER.to_owned()),
        },
        Err(message) => Err(message),
    }
}

// ---------------------------------------------------------------------------
// Laws
// ---------------------------------------------------------------------------

/// A file that ffprobe rejects is never described, so nothing is uploaded as a
/// video that is none.
pub proof fn law_rejected_files_are_not_videos(outcome: OutcomeView, timeout: Duration)
    requires
        !(outcome is Finished && outcome->success),
    ensures
        !(helper_result(outcome, timeout) matches Ok((success, _, _)) && success),
{
}

/// A length of time never leaves what the chat service can show.
pub proof fn law_lengths_fit(value: JsonView)
    ensures
        length_in(value) <= i32::MAX,
{
}

} // verus!
