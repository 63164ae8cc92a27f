//! Helpers of plain downloads: random file names, looking into videos, and
//! cookies that were pasted with spaces.

use vstd::prelude::*;

use crate::media::inspect::{VideoView, parse_video_probe, video_in};
use crate::text::{
    chars_of, join, joined, lines, lines_of, text_list, texts, trim, trimmed, words, words_of,
};

verus! {

/// How many characters of a random file name are chosen.
pub const RANDOM_LENGTH: usize = 10;

/// Whether a byte is an ASCII letter or digit.
pub open spec fn is_name_byte(byte: u8) -> bool {
    97 <= byte <= 122 || 65 <= byte <= 90 || 48 <= byte <= 57
}

/// The characters of random file names: the ASCII letters and digits.
fn name_bytes() -> (result: Vec<u8>)
    ensures
        result@.len() == 62,
        forall|i: int| 0 <= i < result@.len() ==> is_name_byte(#[trigger] result@[i]),
        forall|byte: u8| is_name_byte(byte) ==> #[trigger] result@.contains(byte),
{
    let mut bytes: Vec<u8> = Vec::new();
    push_range(&mut bytes, 97, 122);
    push_range(&mut bytes, 65, 90);
    push_range(&mut bytes, 48, 57);
    proof {
        assert forall|byte: u8| is_name_byte(byte) implies #[trigger] bytes@.contains(byte) by {
            if 97 <= byte <= 122 {
                assert(bytes@[byte - 97] == byte);
            } else if 65 <= byte <= 90 {
                assert(bytes@[26 + byte - 65] == byte);
            } else {
                assert(bytes@[52 + byte - 48] == byte);
            }
        }
    }
    bytes
}

/// Adds every byte from `first` to `last`.
fn push_range(bytes: &mut Vec<u8>, first: u8, last: u8)
    requires
        first <= last < 255,
    ensures
        final(bytes)@ == old(bytes)@ + Seq::new((last - first + 1) as nat, |i: int| (first + i) as u8),
{
    let ghost before = bytes@;
    let mut byte: u8 = first;
    assert(bytes@ =~= before + Seq::new(0, |i: int| (first + i) as u8));
    while byte <= last
        invariant
            first <= byte <= last + 1,
            last < 255,
            bytes@ == before + Seq::new((byte - first) as nat, |i: int| (first + i) as u8),
        decreases last + 1 - byte,
    {
        bytes.push(byte);
        byte = byte + 1;
        assert(bytes@ =~= before + Seq::new((byte - first) as nat, |i: int| (first + i) as u8));
    }
}

/// `rand::seq::SliceRandom::choose` with `rand::thread_rng`: picks one element
/// of a slice at random, and none of an empty one. Which it is, is left open.
#[verifier::external_body]
fn choose_byte(bytes: &[u8]) -> (result: Option<u8>)
    ensures
        match result {
            Some(byte) => bytes@.contains(byte),
            None => bytes@.len() == 0,
        },
{
    rand::seq::SliceRandom::choose(bytes, &mut rand::thread_rng()).copied()
}

/// ASCII bytes as characters.
pub open spec fn byte_chars(bytes: Seq<u8>) -> Seq<char> {
    Seq::new(bytes.len(), |i: int| bytes[i] as char)
}

/// The file name that chosen characters make up.
pub fn filename_from(chosen: &[u8], ext: &str) -> (result: String)
    ensures
        result@ == byte_chars(chosen@) + "frrr"@ + ext@,
{
    let mut name = String::new();
    let mut i: usize = 0;
    assert(name@ =~= byte_chars(chosen@).take(0));
    while i < chosen.len()
        invariant
            i <= chosen@.len(),
            name@ == byte_chars(chosen@).take(i as int),
        decreases chosen@.len() - i,
    {
        name.push(chosen[i] as char);
        assert(name@ =~= byte_chars(chosen@).take(i + 1));
        i = i + 1;
    }
    assert(byte_chars(chosen@).take(i as int) =~= byte_chars(chosen@));
    name.concat("frrr").concat(ext)
}

/// Whether `chosen` are as many letters and digits as a random name has.
pub open spec fn is_choice(chosen: Seq<u8>) -> bool {
    chosen.len() == RANDOM_LENGTH && forall|i: int|
        0 <= i < chosen.len() ==> is_name_byte(#[trigger] chosen[i])
}

/// A file name that nobody uses: ten random letters and digits, a mark, and the
/// ending.
pub fn generate_random_filename(ext: &str) -> (result: String)
    ensures
        exists|chosen: Seq<u8>| #[trigger]
            is_choice(chosen) && result@ == byte_chars(chosen) + "frrr"@ + ext@,
{
    let bytes = name_bytes();
    let mut chosen: Vec<u8> = Vec::new();
    while chosen.len() < RANDOM_LENGTH
        invariant
            bytes@.len() == 62,
            forall|i: int| 0 <= i < bytes@.len() ==> is_name_byte(#[trigger] bytes@[i]),
            chosen@.len() <= RANDOM_LENGTH,
            forall|i: int| 0 <= i < chosen@.len() ==> is_name_byte(#[trigger] chosen@[i]),
        decreases RANDOM_LENGTH - chosen@.len(),
    {
        let byte: u8 = choose_byte(&bytes).unwrap();
        assert(is_name_byte(byte)) by {
            let k = choose|k: int| 0 <= k < bytes@.len() && bytes@[k] == byte;
            assert(is_name_byte(bytes@[k]));
        }
        chosen.push(byte);
    }
    assert(is_choice(chosen@));
    filename_from(&chosen, ext)
}

// ---------------------------------------------------------------------------
// Looking into videos
// ---------------------------------------------------------------------------

/// The arguments with which ffmpeg takes a picture out of a video.
pub fn thumbnail_arguments(video_file: &str, thumbnail: &str) -> (result: Vec<String>)
    ensures
        texts(result@) == seq![
            "-y"@,
            "-i"@,
            video_file@,
            "-ss"@,
            "00:00:01.000"@,
            "-vframes"@,
            "1"@,
            "-vf"@,
            "scale=320:-1"@,
            thumbnail@,
        ],
{
    let result = text_list(
        &[
            "-y",
            "-i",
            video_file,
            "-ss",
            "00:00:01.000",
            "-vframes",
            "1",
            "-vf",
            "scale=320:-1",
            thumbnail,
        ],
    );
    assert(texts(result@) =~= seq![
        "-y"@,
        "-i"@,
        video_file@,
        "-ss"@,
        "00:00:01.000"@,
        "-vframes"@,
        "1"@,
        "-vf"@,
        "scale=320:-1"@,
        thumbnail@,
    ]);
    result
}

/// What came of taking a picture out of a video.
pub fn extract_thumbnail(success: bool, stderr: &str, thumbnail: &str) -> (result: Result<
    String,
    String,
>)
    ensures
        match result {
            Ok(path) => success && path@ == thumbnail@,
            Err(message) => !success && message@ == "failed to extract thumbnail. error: "@
                + stderr@,
        },
{
    if success {
        Ok(thumbnail.to_owned())
    } else {
        Err("failed to extract thumbnail. error: ".to_owned().concat(stderr))
    }
}

/// The arguments with which ffprobe describes a video.
pub fn probe_arguments(video_file: &str) -> (result: Vec<String>)
    ensures
        texts(result@) == seq![
            "-v"@,
            "error"@,
            "-select_streams"@,
            "v:0"@,
            "-show_entries"@,
            "stream=width,height:format=duration"@,
            "-of"@,
            "default=noprint_wrappers=1"@,
            video_file@,
        ],
{
    let result = text_list(
        &[
            "-v",
            "error",
            "-select_streams",
            "v:0",
            "-show_entries",
            "stream=width,height:format=duration",
            "-of",
            "default=noprint_wrappers=1",
            video_file,
        ],
    );
    assert(texts(result@) =~= seq![
        "-v"@,
        "error"@,
        "-select_streams"@,
        "v:0"@,
        "-show_entries"@,
        "stream=width,height:format=duration"@,
        "-of"@,
        "default=noprint_wrappers=1"@,
        video_file@,
    ]);
    result
}

/// The length in seconds, the width and the height of a video, as ffprobe
/// printed them. Only a file that ffprobe rejects is no video; what it does not
/// say counts as zero.
pub fn probe_video(success: bool, stdout: &str, stderr: &str) -> (result: Result<
    (i64, i32, i32),
    String,
>)
    ensures
        match result {
            Ok((duration, width, height)) => success && ({
                let video: VideoView = video_in(stdout@);
                duration == video.duration_secs && width == video.width && height == video.height
            }),
            Err(message) => !success && message@ == "ffprobe could not read video. error: "@
                + stderr@,
        },
{
    if !success {
        return Err("ffprobe could not read video. error: ".to_owned().concat(stderr));
    }
    let metadata = parse_video_probe(stdout);
    Ok((metadata.duration_secs, metadata.width, metadata.height))
}

// ---------------------------------------------------------------------------
// Cookies
// ---------------------------------------------------------------------------

/// One line of a cookie file as it should be: remarks and empty lines without
/// white space around them, cookies with tabs between their fields. Anything
/// with fewer than six fields is dropped.
pub open spec fn cleaned_line(line: Seq<char>) -> Option<Seq<char>> {
    let line = trimmed(line);
    if line.len() == 0 || line[0] == '#' {
        Some(line)
    } else if words_of(line).len() >= 6 {
        Some(joined(words_of(line), "\t"@))
    } else {
        None
    }
}

/// The lines of a cookie file as they should be, each with its end.
pub open spec fn cleaned_lines(lines: Seq<Seq<char>>) -> Seq<char>
    decreases lines.len(),
{
    if lines.len() == 0 {
        Seq::empty()
    } else {
        match cleaned_line(lines.last()) {
            Some(line) => cleaned_lines(lines.drop_last()) + line + "\n"@,
            None => cleaned_lines(lines.drop_last()),
        }
    }
}

/// What a cookie file should hold.
pub fn clean_cookie_file(content: &str) -> (result: String)
    ensures
        result@ == cleaned_lines(lines_of(content@)),
{
    let rows = lines(content);
    let ghost all = lines_of(content@);
    let mut reformatted = String::new();
    let mut i: usize = 0;
    assert(all.take(0) =~= Seq::empty());
    while i < rows.len()
        invariant
            i <= rows@.len(),
            all == lines_of(content@),
            texts(rows@) == all,
            reformatted@ == cleaned_lines(all.take(i as int)),
        decreases rows@.len() - i,
    {
        assert(all[i as int] == rows@[i as int]@);
        assert(all.take(i + 1).drop_last() =~= all.take(i as int));
        let line = trim(rows[i].as_str());
        let chars = chars_of(line.as_str());
        if chars.len() == 0 || chars[0] == '#' {
            reformatted = reformatted.concat(line.as_str()).concat("\n");
        } else {
            let fields = words(line.as_str());
            if fields.len() >= 6 {
                reformatted = reformatted.concat(join(&fields, "\t").as_str()).concat("\n");
            }
        }
        i = i + 1;
    }
    assert(all.take(i as int) =~= all);
    reformatted
}

} // verus!
