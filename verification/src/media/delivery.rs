//! Handing media over: what kind a file is, how an upload is reported, how a
//! gallery is cut into albums, and what becomes of the status message.

use vstd::prelude::*;

use crate::media::inspect::VideoMetadata;
use crate::media::request::DownloadOutcome;
use crate::number::{decimal, write_u64};
use crate::paths::{extension_in, file_name, file_name_in};
use crate::text::{copied, same_text, text_of};
use crate::time::Duration;

verus! {

/// How often an upload is reported, in seconds.
pub const UPLOAD_PROGRESS_SECONDS: u64 = 5;

/// How long an operation of the chat service may take, in seconds.
pub const TELEGRAM_OPERATION_SECONDS: u64 = 120;

// ---------------------------------------------------------------------------
// Kinds of media
// ---------------------------------------------------------------------------

/// The type and the full name of the MIME type that `mime_guess` finds first
/// for a path.
pub uninterp spec fn guessed_mime(path: Seq<char>) -> Option<(Seq<char>, Seq<char>)>;

/// `mime_guess::from_path`, and `first` of what it finds: the MIME type that
/// the extension of `path` suggests, by its type and its essence. A path
/// without an extension suggests none.
#[verifier::external_body]
fn guess_mime(path: &str) -> (result: Option<(String, String)>)
    ensures
        match (result, guessed_mime(path@)) {
            (Some(mime), Some(expected)) => mime.0@ == expected.0 && mime.1@ == expected.1,
            (None, None) => true,
            _ => false,
        },
        extension_in(path@) is None ==> result is None,
{
    mime_guess::from_path(path).first().map(
        |mime| (mime.type_().as_str().to_string(), mime.essence_str().to_string()),
    )
}

/// What kind of media a MIME type stands for: video, image or audio, and its
/// full name.
pub open spec fn kind_of(mime: Option<(Seq<char>, Seq<char>)>) -> (
    bool,
    bool,
    bool,
    Option<Seq<char>>,
) {
    match mime {
        Some((kind, essence)) => (
            kind == "video"@,
            kind == "image"@,
            kind == "audio"@,
            Some(essence),
        ),
        None => (false, false, false, None),
    }
}

/// Whether the parts of a kind are those of `expected`.
pub open spec fn same_kind(
    kind: (bool, bool, bool, Option<String>),
    expected: (bool, bool, bool, Option<Seq<char>>),
) -> bool {
    kind.0 == expected.0 && kind.1 == expected.1 && kind.2 == expected.2 && text_of(kind.3)
        == expected.3
}

/// What kind of media a MIME type stands for.
pub fn media_kind_from(mime: Option<(String, String)>) -> (result: (
    bool,
    bool,
    bool,
    Option<String>,
))
    ensures
        same_kind(
            result,
            kind_of(
                match mime {
                    Some(mime) => Some((mime.0@, mime.1@)),
                    None => None,
                },
            ),
        ),
{
    match mime {
        Some((kind, essence)) => (
            same_text(kind.as_str(), "video"),
            same_text(kind.as_str(), "image"),
            same_text(kind.as_str(), "audio"),
            Some(essence),
        ),
        None => (false, false, false, None),
    }
}

/// What kind of media a file is, going by its name: video, image or audio, and
/// the full name of its MIME type.
pub fn media_kind(path: &str) -> (result: (bool, bool, bool, Option<String>))
    ensures
        same_kind(result, kind_of(guessed_mime(path@))),
        extension_in(path@) is None ==> !result.0 && !result.1 && !result.2 && result.3 is None,
{
    media_kind_from(guess_mime(path))
}

// ---------------------------------------------------------------------------
// Uploads
// ---------------------------------------------------------------------------

/// How much of an upload to report while it runs: what has been read may not
/// have arrived, so the last byte is held back.
pub open spec fn in_flight(bytes_read: u64, total_bytes: u64) -> u64 {
    if bytes_read < total_bytes {
        bytes_read
    } else if total_bytes > 0 {
        (total_bytes - 1) as u64
    } else {
        0
    }
}

pub fn in_flight_upload_bytes(bytes_read: u64, total_bytes: u64) -> (result: u64)
    ensures
        result == in_flight(bytes_read, total_bytes),
{
    if bytes_read < total_bytes {
        bytes_read
    } else if total_bytes > 0 {
        total_bytes - 1
    } else {
        0
    }
}

/// How far an upload has come.
#[derive(Clone, Copy, Debug)]
pub struct UploadMeter {
    pub bytes_read: u64,
    pub total_bytes: u64,
    pub last_reported_bytes: u64,
    pub last_report: Duration,
}

/// How much has been read after `bytes` more.
pub open spec fn read_after(meter: UploadMeter, bytes: usize) -> u64 {
    if meter.bytes_read + bytes >= meter.total_bytes {
        meter.total_bytes
    } else {
        (meter.bytes_read + bytes) as u64
    }
}

/// Whether progress is worth a report: there is some, and the last report is
/// long enough ago.
pub open spec fn report_due(meter: UploadMeter, bytes: usize, now: Duration) -> bool {
    read_after(meter, bytes) > meter.last_reported_bytes && meter.last_report.total_nanos()
        + UPLOAD_PROGRESS_SECONDS * 1_000_000_000 <= now.total_nanos()
}

impl UploadMeter {
    /// An upload that begins.
    pub fn new(total_bytes: u64, now: Duration) -> (result: UploadMeter)
        ensures
            result == (UploadMeter {
                bytes_read: 0,
                total_bytes,
                last_reported_bytes: 0,
                last_report: now,
            }),
    {
        UploadMeter { bytes_read: 0, total_bytes, last_reported_bytes: 0, last_report: now }
    }

    /// Takes note that `bytes` more have been read; what is to be reported.
    pub fn record_read(&mut self, bytes: usize, now: Duration) -> (result: Option<u64>)
        ensures
            report_due(*old(self), bytes, now) ==> result == Some(
                in_flight(read_after(*old(self), bytes), old(self).total_bytes),
            ) && *final(self) == (UploadMeter {
                bytes_read: read_after(*old(self), bytes),
                last_reported_bytes: read_after(*old(self), bytes),
                last_report: now,
                ..*old(self)
            }),
            !report_due(*old(self), bytes, now) ==> result is None && *final(self) == (
            UploadMeter { bytes_read: read_after(*old(self), bytes), ..*old(self) }),
    {
        let read: u128 = self.bytes_read as u128 + bytes as u128;
        self.bytes_read = if read >= self.total_bytes as u128 {
            self.total_bytes
        } else {
            read as u64
        };
        if self.bytes_read > self.last_reported_bytes && self.last_report.as_nanos() + 5_000_000_000
            <= now.as_nanos() {
            self.last_reported_bytes = self.bytes_read;
            self.last_report = now;
            Some(in_flight_upload_bytes(self.bytes_read, self.total_bytes))
        } else {
            None
        }
    }
}

/// How an upload can end without a result of the chat service.
#[derive(Clone, Copy, Debug, PartialEq, Eq, Structural)]
pub enum UploadStop {
    Cancelled,
    TimedOut,
}

/// Why an upload ended early.
pub fn upload_stop_text(stop: UploadStop, timeout: Duration) -> (result: String)
    ensures
        result@ == (match stop {
            UploadStop::Cancelled => "cancelled"@,
            UploadStop::TimedOut => "Telegram upload timed out after "@ + decimal(
                timeout.whole_seconds(),
            ) + " seconds"@,
        }),
{
    match stop {
        UploadStop::Cancelled => "cancelled".to_owned(),
        UploadStop::TimedOut => "Telegram upload timed out after ".to_owned().concat(
            write_u64(timeout.as_secs()).as_str(),
        ).concat(" seconds"),
    }
}

/// The size and the name under which a file is uploaded.
pub fn upload_target(path: &str, total_bytes: u64) -> (result: Result<(usize, String), String>)
    ensures
        match result {
            Ok((size, name)) => size == total_bytes && file_name_in(path@) == Some(name@),
            Err(message) => if total_bytes > usize::MAX {
                message@ == "file is too large for this platform"@
            } else {
                file_name_in(path@) is None && message@ == "upload path has no file name"@
            },
        },
{
    if total_bytes as u128 > usize::MAX as u128 {
        return Err("file is too large for this platform".to_owned());
    }
    match file_name(path) {
        Some(name) => Ok((total_bytes as usize, name)),
        None => Err("upload path has no file name".to_owned()),
    }
}

// ---------------------------------------------------------------------------
// The end of a job
// ---------------------------------------------------------------------------

/// Where an item stands among its like, and whether it takes the place of the
/// status message.
#[derive(Clone, Copy, Debug)]
pub struct DeliveryPlan {
    pub position: (usize, usize),
    pub replace_status: bool,
}

/// What happens to the status message when a job ends.
#[derive(Debug, PartialEq, Eq)]
pub enum FinalReport {
    Fail(String),
    Warn(String),
    DeleteStatus,
    Rest,
}

/// How a job ends.
#[derive(Debug, PartialEq, Eq)]
pub struct JobEnd {
    pub report: FinalReport,
    pub outcome: DownloadOutcome,
}

/// How a job ends that is cancelled.
pub fn cancelled_end() -> (result: JobEnd)
    ensures
        result.report@ == ReportView::Rest,
        result.outcome == DownloadOutcome::Cancelled,
{
    JobEnd { report: FinalReport::Rest, outcome: DownloadOutcome::Cancelled }
}

pub ghost enum ReportView {
    Fail(Seq<char>),
    Warn(Seq<char>),
    DeleteStatus,
    Rest,
}

impl View for FinalReport {
    type V = ReportView;

    open spec fn view(&self) -> ReportView {
        match self {
            FinalReport::Fail(text) => ReportView::Fail(text@),
            FinalReport::Warn(text) => ReportView::Warn(text@),
            FinalReport::DeleteStatus => ReportView::DeleteStatus,
            FinalReport::Rest => ReportView::Rest,
        }
    }
}

/// The name of a file, or nothing.
pub open spec fn name_or_nothing(path: Seq<char>) -> Seq<char> {
    match file_name_in(path) {
        Some(name) => name,
        None => Seq::empty(),
    }
}

/// The name of a file, or nothing.
pub fn shown_name(path: &str) -> (result: String)
    ensures
        result@ == name_or_nothing(path@),
{
    match file_name(path) {
        Some(name) => name,
        None => String::new(),
    }
}

// ---------------------------------------------------------------------------
// Albums
// ---------------------------------------------------------------------------

/// How many of the remaining items make up the next album: at most ten, and so
/// that no single item is left over.
pub open spec fn album_size(remaining: nat) -> nat {
    if remaining == 11 {
        9
    } else if remaining > 10 {
        10
    } else {
        remaining
    }
}

/// The sizes of the albums that `total` items make up.
pub open spec fn albums(total: nat) -> Seq<nat>
    decreases total,
{
    if total == 0 {
        Seq::empty()
    } else {
        seq![album_size(total)] + albums((total - album_size(total)) as nat)
    }
}

fn next_album(remaining: usize) -> (result: usize)
    ensures
        result == album_size(remaining as nat),
        result <= remaining,
        remaining > 0 ==> result > 0,
{
    if remaining == 11 {
        9
    } else if remaining > 10 {
        10
    } else {
        remaining
    }
}

/// The delivery of a gallery, album by album.
pub struct GalleryRun {
    total: usize,
    cursor: usize,
    size: usize,
    offset: usize,
    ready: usize,
    sent: usize,
    last_error: Option<String>,
}

/// What a `GalleryRun` holds.
#[verifier::ext_equal]
pub ghost struct GalleryView {
    /// How many items there are.
    pub total: nat,
    /// Where the current album starts.
    pub cursor: nat,
    /// How many items the current album is made up of.
    pub size: nat,
    /// How many of them have been dealt with.
    pub offset: nat,
    /// How many of them are ready to be sent.
    pub ready: nat,
    /// How many items have been sent.
    pub sent: nat,
    pub last_error: Option<Seq<char>>,
}

/// What to do next with a gallery.
#[derive(Clone, Copy, Debug, PartialEq, Eq, Structural)]
pub enum GalleryStep {
    /// Prepare the item at `index`.
    Prepare { index: usize },
    /// Send the prepared items, `count` of them.
    Send { count: usize },
    Cancelled,
    Finished,
}

/// A gallery of which nothing has been dealt with.
pub open spec fn new_gallery(total: nat) -> GalleryView {
    GalleryView {
        total,
        cursor: 0,
        size: album_size(total),
        offset: 0,
        ready: 0,
        sent: 0,
        last_error: None,
    }
}

/// A gallery with one item more that is ready.
pub open spec fn with_ready(g: GalleryView) -> GalleryView {
    GalleryView { offset: g.offset + 1, ready: g.ready + 1, ..g }
}

/// A gallery whose ready items have been sent.
pub open spec fn with_sent(g: GalleryView) -> GalleryView {
    GalleryView { ready: 0, sent: g.sent + g.ready, ..g }
}

/// A gallery with its next album begun, if the current one is dealt with.
pub open spec fn turned(g: GalleryView) -> GalleryView {
    if g.offset == g.size && g.ready == 0 && g.cursor + g.size < g.total {
        GalleryView {
            cursor: g.cursor + g.size,
            size: album_size((g.total - g.cursor - g.size) as nat),
            offset: 0,
            ..g
        }
    } else {
        g
    }
}

/// What to do next with a gallery.
pub open spec fn gallery_step(g: GalleryView, cancelled: bool) -> GalleryStep {
    let g = turned(g);
    if g.offset < g.size {
        if cancelled {
            GalleryStep::Cancelled
        } else {
            GalleryStep::Prepare { index: (g.cursor + g.offset) as usize }
        }
    } else if g.ready > 0 {
        GalleryStep::Send { count: g.ready as usize }
    } else {
        GalleryStep::Finished
    }
}

/// How a gallery ends.
pub open spec fn gallery_report(g: GalleryView) -> ReportView {
    if g.sent > 0 {
        match g.last_error {
            Some(error) => ReportView::Warn(error),
            None => ReportView::DeleteStatus,
        }
    } else {
        match g.last_error {
            Some(error) => ReportView::Fail(error),
            None => ReportView::Fail("gallery contained no uploadable media"@),
        }
    }
}

impl View for GalleryRun {
    type V = GalleryView;

    closed spec fn view(&self) -> GalleryView {
        GalleryView {
            total: self.total as nat,
            cursor: self.cursor as nat,
            size: self.size as nat,
            offset: self.offset as nat,
            ready: self.ready as nat,
            sent: self.sent as nat,
            last_error: text_of(self.last_error),
        }
    }
}

/// What holds of a gallery at any time: the albums before the current one have
/// been dealt with, and no more has been sent than has been prepared.
pub open spec fn gallery_sound(g: GalleryView) -> bool {
    &&& g.cursor + g.size <= g.total
    &&& g.size == album_size((g.total - g.cursor) as nat)
    &&& g.offset <= g.size
    &&& g.ready <= g.offset
    &&& g.sent + g.ready <= g.cursor + g.offset
}

impl GalleryRun {
    /// The delivery of `total` items.
    pub fn new(total: usize) -> (result: GalleryRun)
        ensures
            result@ == new_gallery(total as nat),
            gallery_sound(result@),
    {
        GalleryRun {
            total,
            cursor: 0,
            size: next_album(total),
            offset: 0,
            ready: 0,
            sent: 0,
            last_error: None,
        }
    }

    /// What to do next.
    pub fn step(&mut self, cancelled: bool) -> (result: GalleryStep)
        requires
            gallery_sound(old(self)@),
        ensures
            gallery_sound(final(self)@),
            final(self)@ == turned(old(self)@),
            result == gallery_step(old(self)@, cancelled),
    {
        if self.offset == self.size && self.ready == 0 && self.size < self.total - self.cursor {
            self.cursor = self.cursor + self.size;
            self.size = next_album(self.total - self.cursor);
            self.offset = 0;
        }
        if self.offset < self.size {
            if cancelled {
                GalleryStep::Cancelled
            } else {
                GalleryStep::Prepare { index: self.cursor + self.offset }
            }
        } else if self.ready > 0 {
            GalleryStep::Send { count: self.ready }
        } else {
            GalleryStep::Finished
        }
    }

    /// Takes note of how the preparation of the item at `path` went. If the job
    /// has been cancelled meanwhile, it ends.
    pub fn prepared(&mut self, path: &str, result: Result<(), String>, cancelled: bool) -> (end:
        Option<JobEnd>)
        requires
            gallery_sound(old(self)@),
            old(self)@.offset < old(self)@.size,
        ensures
            gallery_sound(final(self)@),
            cancelled ==> final(self)@ == old(self)@ && end is Some && end->0.report@
                == ReportView::Rest && end->0.outcome == DownloadOutcome::Cancelled,
            !cancelled ==> end is None && final(self)@ == (match result {
                Ok(_) => with_ready(old(self)@),
                Err(error) => GalleryView {
                    offset: old(self)@.offset + 1,
                    last_error: Some(
                        "could not prepare "@ + name_or_nothing(path@) + ": "@ + error@,
                    ),
                    ..old(self)@
                },
            }),
    {
        if cancelled {
            return Some(cancelled_end());
        }
        self.offset = self.offset + 1;
        match result {
            Ok(_) => {
                self.ready = self.ready + 1;
            },
            Err(error) => {
                let text = "could not prepare ".to_owned().concat(
                    shown_name(path).as_str(),
                ).concat(": ").concat(error.as_str());
                self.last_error = Some(text);
            },
        }
        None
    }

    /// Takes note of how sending an album went.
    pub fn sent(&mut self, result: Result<(), String>)
        requires
            gallery_sound(old(self)@),
        ensures
            gallery_sound(final(self)@),
            final(self)@ == (match result {
                Ok(_) => with_sent(old(self)@),
                Err(error) => GalleryView {
                    ready: 0,
                    last_error: Some("could not upload a media album: "@ + error@),
                    ..old(self)@
                },
            }),
    {
        match result {
            Ok(_) => {
                self.sent = self.sent + self.ready;
            },
            Err(error) => {
                self.last_error = Some(
                    "could not upload a media album: ".to_owned().concat(error.as_str()),
                );
            },
        }
        self.ready = 0;
    }

    /// How the gallery ends.
    pub fn finish(&self) -> (result: JobEnd)
        ensures
            result.report@ == gallery_report(self@),
            result.outcome == (if self@.sent > 0 {
                DownloadOutcome::Completed
            } else {
                DownloadOutcome::Failed
            }),
    {
        if self.sent > 0 {
            let report = match copied(&self.last_error) {
                Some(error) => FinalReport::Warn(error),
                None => FinalReport::DeleteStatus,
            };
            JobEnd { report, outcome: DownloadOutcome::Completed }
        } else {
            let reason = match copied(&self.last_error) {
                Some(error) => error,
                None => "gallery contained no uploadable media".to_owned(),
            };
            JobEnd { report: FinalReport::Fail(reason), outcome: DownloadOutcome::Failed }
        }
    }
}

/// What an item of an album is sent as.
#[derive(Clone, Copy, Debug, PartialEq, Eq, Structural)]
pub enum AlbumMedia {
    Photo,
    Video,
}

/// What an item of an album is sent as, going by its kind.
pub open spec fn album_media(kind: (bool, bool, bool, Option<Seq<char>>)) -> Option<AlbumMedia> {
    if kind.1 {
        Some(AlbumMedia::Photo)
    } else if kind.0 {
        Some(AlbumMedia::Video)
    } else {
        None
    }
}

/// What the file at `path` is sent as in an album.
pub fn prepare_album_media(path: &str) -> (result: Result<AlbumMedia, String>)
    ensures
        match (result, album_media(kind_of(guessed_mime(path@)))) {
            (Ok(media), Some(expected)) => media == expected,
            (Err(message), None) => message@ == "file is not recognized as an image or video"@,
            _ => false,
        },
{
    let (is_video, is_image, _, _) = media_kind(path);
    if is_image {
        Ok(AlbumMedia::Photo)
    } else if is_video {
        Ok(AlbumMedia::Video)
    } else {
        Err("file is not recognized as an image or video".to_owned())
    }
}

/// What a sent video is said to be.
#[derive(Clone, Copy, Debug, PartialEq, Eq, Structural)]
pub struct VideoAttribute {
    pub round_message: bool,
    pub supports_streaming: bool,
    pub duration_secs: u64,
    pub width: i32,
    pub height: i32,
}

/// What a video is said to be: one that can be watched while it loads, of a
/// length that is never negative.
pub fn video_attribute(metadata: &VideoMetadata) -> (result: VideoAttribute)
    ensures
        result == (VideoAttribute {
            round_message: false,
            supports_streaming: true,
            duration_secs: if metadata.duration_secs > 0 {
                metadata.duration_secs as u64
            } else {
                0
            },
            width: metadata.width,
            height: metadata.height,
        }),
{
    VideoAttribute {
        round_message: false,
        supports_streaming: true,
        duration_secs: if metadata.duration_secs > 0 {
            metadata.duration_secs as u64
        } else {
            0
        },
        width: metadata.width,
        height: metadata.height,
    }
}

/// Why sending took too long: `what` names what was sent.
pub fn send_timeout_text(what: &str) -> (result: String)
    ensures
        result@ == "Telegram "@ + what@ + " send timed out after "@ + decimal(
            TELEGRAM_OPERATION_SECONDS as nat,
        ) + " seconds"@,
{
    "Telegram ".to_owned().concat(what).concat(" send timed out after ").concat(
        write_u64(TELEGRAM_OPERATION_SECONDS).as_str(),
    ).concat(" seconds")
}

// ---------------------------------------------------------------------------
// Replacing the status message
// ---------------------------------------------------------------------------

/// How the attempt to turn the status message into the media went.
pub enum Replacement {
    Replaced,
    /// There is no status message.
    Unavailable,
    Refused { error: String },
}

/// What remains to be done to deliver a single item.
#[derive(Clone, Copy, Debug, PartialEq, Eq, Structural)]
pub enum DeliveryStep {
    /// Send the media as a message of its own.
    Respond,
    /// Turn the status message into the media.
    Replace,
}

/// How a single item is delivered.
pub fn delivery_step(replace_status: bool) -> (result: DeliveryStep)
    ensures
        result == if replace_status {
            DeliveryStep::Replace
        } else {
            DeliveryStep::Respond
        },
{
    if replace_status {
        DeliveryStep::Replace
    } else {
        DeliveryStep::Respond
    }
}

/// Whether the media has to be sent after all.
pub fn needs_fallback(replacement: &Replacement) -> (result: bool)
    ensures
        result == !(replacement is Replaced),
{
    match replacement {
        Replacement::Replaced => false,
        _ => true,
    }
}

/// What a failed delivery says, once sending the media has failed too.
pub open spec fn fallback_failure(replacement: Replacement, error: Seq<char>) -> Seq<char> {
    match replacement {
        Replacement::Refused { error: edit_error } => "could not edit status ("@ + edit_error@
            + ") or send fallback media ("@ + error + ")"@,
        _ => "status was unavailable and fallback media failed: "@ + error,
    }
}

/// What comes of sending the media after all: with success the status message
/// is deleted; otherwise it shows text again, and the delivery has failed.
pub fn fallback_result(replacement: &Replacement, sent: Result<(), String>) -> (result: Result<
    (),
    String,
>)
    ensures
        match (result, sent) {
            (Ok(_), Ok(_)) => true,
            (Err(message), Err(error)) => message@ == fallback_failure(*replacement, error@),
            _ => false,
        },
{
    match sent {
        Ok(_) => Ok(()),
        Err(error) => match replacement {
            Replacement::Refused { error: edit_error } => {
                let message = "could not edit status (".to_owned().concat(
                    edit_error.as_str(),
                ).concat(") or send fallback media (").concat(error.as_str()).concat(")");
                Err(message)
            },
            _ => Err(
                "status was unavailable and fallback media failed: ".to_owned().concat(
                    error.as_str(),
                ),
            ),
        },
    }
}

// ---------------------------------------------------------------------------
// Laws
// ---------------------------------------------------------------------------

/// Progress in flight never claims completion, and never more than was read.
pub proof fn law_in_flight_progress_is_modest(bytes_read: u64, total_bytes: u64)
    ensures
        total_bytes > 0 ==> in_flight(bytes_read, total_bytes) < total_bytes,
        in_flight(bytes_read, total_bytes) <= bytes_read,
{
}

/// Reports of an upload are at least five seconds apart.
pub proof fn law_reports_are_throttled(meter: UploadMeter, bytes: usize, now: Duration)
    requires
        report_due(meter, bytes, now),
    ensures
        now.total_nanos() >= meter.last_report.total_nanos() + 5_000_000_000,
{
}

/// The sum of a list of sizes.
pub open spec fn sum(sizes: Seq<nat>) -> nat
    decreases sizes.len(),
{
    if sizes.len() == 0 {
        0
    } else {
        sizes[0] + sum(sizes.skip(1))
    }
}

/// Albums drop no item, hold at most ten, and never leave a single item over
/// unless it is the only one.
pub proof fn law_albums_hold_everything(total: nat)
    ensures
        sum(albums(total)) == total,
        forall|i: int| 0 <= i < albums(total).len() ==> 1 <= #[trigger] albums(total)[i] <= 10,
        total >= 2 ==> forall|i: int|
            0 <= i < albums(total).len() ==> 2 <= #[trigger] albums(total)[i],
    decreases total,
{
    if total > 0 {
        let rest = (total - album_size(total)) as nat;
        law_albums_hold_everything(rest);
        let all = albums(total);
        assert(all.skip(1) =~= albums(rest));
        assert forall|i: int| 0 <= i < all.len() implies 1 <= #[trigger] all[i] <= 10 && (total >= 2
            ==> 2 <= all[i]) by {
            if i > 0 {
                assert(all[i] == albums(rest)[i - 1]);
            }
        }
    }
}

/// As few albums as their size allows.
pub proof fn law_albums_are_few(total: nat)
    ensures
        albums(total).len() == (total + 9) / 10,
    decreases total,
{
    if total > 0 {
        law_albums_are_few((total - album_size(total)) as nat);
    }
}

/// How many items are sent, time after time, while nothing goes wrong.
pub open spec fn smooth_sends(g: GalleryView) -> Seq<nat>
    decreases g.total - g.cursor, 2 * (g.size - g.offset) + if g.ready > 0 {
            1int
        } else {
            0int
        },
    when gallery_sound(g)
{
    let next = turned(g);
    match gallery_step(g, false) {
        GalleryStep::Prepare { .. } => smooth_sends(with_ready(next)),
        GalleryStep::Send { .. } => seq![next.ready] + smooth_sends(with_sent(next)),
        _ => Seq::empty(),
    }
}

proof fn lemma_smooth_sends(g: GalleryView)
    requires
        gallery_sound(g),
        g.ready == g.offset || (g.offset == g.size && g.ready == 0),
    ensures
        smooth_sends(g) == (if g.offset == g.size && g.ready == 0 {
            albums((g.total - g.cursor - g.size) as nat)
        } else {
            albums((g.total - g.cursor) as nat)
        }),
    decreases g.total - g.cursor, 2 * (g.size - g.offset) + if g.ready > 0 {
            1int
        } else {
            0int
        },
{
    let next = turned(g);
    if next.offset < next.size {
        lemma_smooth_sends(with_ready(next));
    } else if next.ready > 0 {
        lemma_smooth_sends(with_sent(next));
        assert(seq![next.ready] + albums((g.total - g.cursor - g.size) as nat) =~= albums(
            (g.total - g.cursor) as nat,
        ));
    }
}

/// While nothing goes wrong, a gallery is sent album by album, as its items are
/// divided.
pub proof fn law_galleries_are_sent_as_albums(total: nat)
    ensures
        smooth_sends(new_gallery(total)) == albums(total),
        sum(smooth_sends(new_gallery(total))) == total,
        smooth_sends(new_gallery(total)).len() == (total + 9) / 10,
{
    lemma_smooth_sends(new_gallery(total));
    law_albums_hold_everything(total);
    law_albums_are_few(total);
}

/// A gallery of which anything was sent is completed, with a warning if
/// anything went wrong; one of which nothing was sent has failed and says why.
pub proof fn law_galleries_end_as_they_went(g: GalleryView)
    ensures
        g.sent > 0 && g.last_error is None <==> gallery_report(g) is DeleteStatus,
        g.sent > 0 && g.last_error is Some <==> gallery_report(g) is Warn,
        g.sent == 0 <==> gallery_report(g) is Fail,
{
}

} // verus!
