//! What a user asks to download, and how.

use vstd::prelude::*;

use crate::time::Duration;

verus! {

#[derive(Clone, Copy, Debug)]
pub struct DownloadLimits {
    pub max_upload_bytes: u64,
    pub command_timeout: Duration,
    pub upload_timeout: Duration,
    pub job_timeout: Duration,
}

#[derive(Debug, PartialEq, Eq)]
pub struct DownloadRequest {
    pub url: String,
    pub mode: DownloadMode,
}

#[derive(Clone, Copy, Debug, PartialEq, Eq, Structural)]
pub enum DownloadMode {
    Video { max_height: Option<u32> },
    Audio,
    Clip(ClipRange),
}

/// A section of a video. It never ends before it starts, nor at its start.
#[derive(Clone, Copy, Debug, PartialEq, Eq, Structural)]
pub struct ClipRange {
    start: Duration,
    end: Duration,
}

/// A request, its URL taken as text.
pub ghost struct RequestView {
    pub url: Seq<char>,
    pub mode: DownloadMode,
}

impl View for DownloadRequest {
    type V = RequestView;

    open spec fn view(&self) -> RequestView {
        RequestView { url: self.url@, mode: self.mode }
    }
}

impl ClipRange {
    /// The section from `start` to `end`.
    pub closed spec fn between(start: Duration, end: Duration) -> ClipRange {
        ClipRange { start, end }
    }

    pub closed spec fn starts(self) -> Duration {
        self.start
    }

    pub closed spec fn ends(self) -> Duration {
        self.end
    }

    #[verifier::type_invariant]
    spec fn moves_forward(self) -> bool {
        self.start.total_nanos() < self.end.total_nanos()
    }

    /// The section from `start` to `end`, if it moves forward.
    pub fn new(start: Duration, end: Duration) -> (result: Option<ClipRange>)
        ensures
            start.total_nanos() < end.total_nanos() ==> result == Some(
                ClipRange::between(start, end),
            ) && result->0.starts() == start && result->0.ends() == end,
            start.total_nanos() >= end.total_nanos() ==> result is None,
    {
        if start.as_nanos() < end.as_nanos() {
            Some(ClipRange { start, end })
        } else {
            None
        }
    }

    pub fn start(&self) -> (result: Duration)
        ensures
            result == self.starts(),
            result.total_nanos() < self.ends().total_nanos(),
    {
        proof {
            use_type_invariant(self);
        }
        self.start
    }

    pub fn end(&self) -> (result: Duration)
        ensures
            result == self.ends(),
            self.starts().total_nanos() < result.total_nanos(),
    {
        proof {
            use_type_invariant(self);
        }
        self.end
    }
}

impl DownloadRequest {
    /// A video, no higher than `max_height` if that is given.
    pub fn video(url: String, max_height: Option<u32>) -> (result: DownloadRequest)
        ensures
            result@ == (RequestView { url: url@, mode: DownloadMode::Video { max_height } }),
    {
        DownloadRequest { url, mode: DownloadMode::Video { max_height } }
    }

    /// The sound alone.
    pub fn audio(url: String) -> (result: DownloadRequest)
        ensures
            result@ == (RequestView { url: url@, mode: DownloadMode::Audio }),
    {
        DownloadRequest { url, mode: DownloadMode::Audio }
    }

    /// A section of a video.
    pub fn clip(url: String, range: ClipRange) -> (result: DownloadRequest)
        ensures
            result@ == (RequestView { url: url@, mode: DownloadMode::Clip(range) }),
    {
        DownloadRequest { url, mode: DownloadMode::Clip(range) }
    }
}

impl Clone for DownloadRequest {
    fn clone(&self) -> (result: DownloadRequest)
        ensures
            result@ == self@,
    {
        DownloadRequest { url: self.url.clone(), mode: self.mode }
    }
}

/// A section starts and ends where it was asked to.
pub proof fn law_sections_keep_their_bounds(start: Duration, end: Duration)
    ensures
        ClipRange::between(start, end).starts() == start,
        ClipRange::between(start, end).ends() == end,
{
}

/// How a download ended.
#[derive(Clone, Copy, Debug, PartialEq, Eq, Structural)]
pub enum DownloadOutcome {
    Completed,
    Failed,
    Cancelled,
}

} // verus!
