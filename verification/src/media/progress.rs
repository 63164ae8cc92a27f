//! Reading progress off the output of downloaders and transcoders.

use vstd::prelude::*;

use crate::media::command::{BoundedOutput, OUTPUT_LIMIT, tail};
use crate::number::{parse_u64, u64_in};
use crate::numeral::{parse_percent, percent_of, quantity_in};
use crate::text::{
    decode_lossy, lossy_text, strip_prefix, stripped_prefix, trim, trim_trailing, trimmed,
    without_trailing,
};

verus! {

// ---------------------------------------------------------------------------
// One line
// ---------------------------------------------------------------------------

/// The percentage that a line of yt-dlp reports.
pub open spec fn download_percent_in(line: Seq<char>) -> Option<u8> {
    match stripped_prefix(trimmed(line), "download:"@) {
        Some(rest) => match quantity_in(trimmed(without_trailing(trimmed(rest), "%"@))) {
            Some(quantity) => Some(percent_of(quantity)),
            None => None,
        },
        None => None,
    }
}

/// The percentage that a line of yt-dlp reports, from its text.
pub fn download_percent_of(line: &str) -> (result: Option<u8>)
    ensures
        result == download_percent_in(line@),
{
    match strip_prefix(trim(line).as_str(), "download:") {
        Some(rest) => {
            let number = trim(trim_trailing(trim(rest.as_str()).as_str(), "%").as_str());
            parse_percent(number.as_str())
        },
        None => None,
    }
}

/// The percentage that a line of yt-dlp reports.
pub fn download_percent(line: &[u8]) -> (result: Option<u8>)
    ensures
        result == download_percent_in(lossy_text(line@)),
{
    download_percent_of(decode_lossy(line).as_str())
}

/// The position that a line of ffmpeg reports, in microseconds.
pub open spec fn elapsed_in(line: Seq<char>) -> Option<u64> {
    match stripped_prefix(trimmed(line), "out_time_us="@) {
        Some(rest) => u64_in(rest),
        None => match stripped_prefix(trimmed(line), "out_time_ms="@) {
            Some(rest) => u64_in(rest),
            None => None,
        },
    }
}

/// The percentage that a line of ffmpeg reports of a video of that length. Only
/// the end of ffmpeg is the end of the work: before it, no more than 99 percent
/// is reported.
pub open spec fn transcode_percent_in(line: Seq<char>, duration_micros: u64) -> Option<u8> {
    if duration_micros == 0 {
        None
    } else {
        match elapsed_in(line) {
            Some(elapsed) => if elapsed as nat * 100 / (duration_micros as nat) >= 99 {
                Some(99)
            } else {
                Some((elapsed as nat * 100 / (duration_micros as nat)) as u8)
            },
            None => None,
        }
    }
}

/// The percentage that a line of ffmpeg reports, from its text.
pub fn transcode_percent_of(line: &str, duration_micros: u64) -> (result: Option<u8>)
    ensures
        result == transcode_percent_in(line@, duration_micros),
{
    if duration_micros == 0 {
        return None;
    }
    let line = trim(line);
    let elapsed = match strip_prefix(line.as_str(), "out_time_us=") {
        Some(rest) => parse_u64(rest.as_str()),
        None => match strip_prefix(line.as_str(), "out_time_ms=") {
            Some(rest) => parse_u64(rest.as_str()),
            None => None,
        },
    };
    match elapsed {
        Some(elapsed) => {
            let percent: u128 = elapsed as u128 * 100 / duration_micros as u128;
            if percent >= 99 {
                Some(99)
            } else {
                Some(percent as u8)
            }
        },
        None => None,
    }
}

/// The percentage that a line of ffmpeg reports.
pub fn transcode_percent(line: &[u8], duration_micros: u64) -> (result: Option<u8>)
    ensures
        result == transcode_percent_in(lossy_text(line@), duration_micros),
{
    transcode_percent_of(decode_lossy(line).as_str(), duration_micros)
}

// ---------------------------------------------------------------------------
// All lines
// ---------------------------------------------------------------------------

/// What to report once `percent` is reached and `last` was reported before:
/// only whole steps of five are.
pub open spec fn step_reported(last: u8, percent: u8) -> Option<u8> {
    let step = (percent / 5 * 5) as u8;
    if step >= last + 5 || (step == 255 && last > 250) {
        Some(step)
    } else {
        None
    }
}

/// The output of a program that reports its progress line by line.
pub struct ProgressLines {
    output: BoundedOutput,
    last_bucket: u8,
}

impl ProgressLines {
    /// Everything that has been read.
    pub closed spec fn seen(self) -> Seq<u8> {
        self.output.seen()
    }

    /// The step reported last.
    pub closed spec fn last_step(self) -> u8 {
        self.last_bucket
    }

    pub fn new() -> (result: ProgressLines)
        ensures
            result.seen() == Seq::<u8>::empty(),
            result.last_step() == 0,
    {
        ProgressLines { output: BoundedOutput::new(), last_bucket: 0 }
    }

    /// Takes over a line, of which `percent` was read; what is to be reported.
    pub fn take_line(&mut self, line: &[u8], percent: Option<u8>) -> (result: Option<u8>)
        ensures
            final(self).seen() == old(self).seen() + line@,
            result == (match percent {
                Some(percent) => step_reported(old(self).last_step(), percent),
                None => None::<u8>,
            }),
            final(self).last_step() == (match result {
                Some(step) => step,
                None => old(self).last_step(),
            }),
    {
        self.output.extend(line);
        if let Some(percent) = percent {
            let bucket: u8 = percent / 5 * 5;
            let next: u8 = if self.last_bucket <= 250 {
                self.last_bucket + 5
            } else {
                255
            };
            if bucket >= next {
                self.last_bucket = bucket;
                return Some(bucket);
            }
        }
        None
    }

    /// What is kept of the output.
    pub fn finish(self) -> (result: Vec<u8>)
        ensures
            result@ == tail(self.seen(), OUTPUT_LIMIT as nat),
    {
        self.output.finish()
    }
}

// ---------------------------------------------------------------------------
// Laws
// ---------------------------------------------------------------------------

/// Progress is reported in steps of five percent that only ever grow.
pub proof fn law_progress_grows_in_steps_of_five(last: u8, percent: u8)
    requires
        percent <= 100,
        last <= 100,
    ensures
        step_reported(last, percent) matches Some(step) ==> step % 5 == 0 && step <= percent && last
            + 5 <= step <= 100,
        step_reported(last, percent) is None <==> percent / 5 * 5 < last + 5,
{
}

/// A transcode never claims to be complete while it reports progress.
pub proof fn law_transcodes_do_not_claim_completion(line: Seq<char>, duration_micros: u64)
    ensures
        transcode_percent_in(line, duration_micros) matches Some(percent) ==> percent <= 99,
{
}

/// A download reports at most a hundred percent.
pub proof fn law_download_percentages_are_bounded(line: Seq<char>)
    ensures
        download_percent_in(line) matches Some(percent) ==> percent <= 100,
{
}

} // verus!
