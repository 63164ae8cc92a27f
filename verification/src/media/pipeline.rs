//! The way of a job from its request to its delivered media.

use vstd::prelude::*;

use crate::media::command::{CommandOutcome, OutcomeView};
use crate::media::delivery::{
    DeliveryPlan, FinalReport, JobEnd, ReportView, cancelled_end, guessed_mime, kind_of, media_kind,
    name_or_nothing, shown_name,
};
use crate::media::downloader::{DownloadCommand, build, download_arguments, takes_yt_dlp};
use crate::media::request::{DownloadLimits, DownloadOutcome, DownloadRequest};
use crate::number::{decimal, signed_decimal, write_i64, write_u64};
use crate::text::{
    contains, contains_text, copied, ends_with, lemma_text_less_irreflexive,
    lemma_text_less_total, lemma_text_less_transitive, less, lowercase, lowered, text_less,
    text_of, texts,
};
use crate::time::Duration;

verus! {

// ---------------------------------------------------------------------------
// Before the download
// ---------------------------------------------------------------------------

/// What a user is called in the log.
pub open spec fn user_text(id: Option<i64>, username: Option<Seq<char>>) -> Seq<char> {
    match id {
        Some(id) => match username {
            Some(name) => "User @"@ + name + " ("@ + signed_decimal(id as int) + ")"@,
            None => "User "@ + signed_decimal(id as int),
        },
        None => "User"@,
    }
}

pub fn user_info(id: Option<i64>, username: Option<String>) -> (result: String)
    ensures
        result@ == user_text(id, text_of(username)),
{
    match id {
        Some(id) => match username {
            Some(name) => "User @".to_owned().concat(name.as_str()).concat(" (").concat(
                write_i64(id).as_str(),
            ).concat(")"),
            None => "User ".to_owned().concat(write_i64(id).as_str()),
        },
        None => "User".to_owned(),
    }
}

/// The cookies that go with a URL.
pub open spec fn cookies_for(url: Seq<char>, instagram_cookies_exist: bool) -> Seq<char> {
    if contains_text(url, "instagram.com/"@) && instagram_cookies_exist {
        "instacookies.txt"@
    } else {
        "cookies.txt"@
    }
}

pub fn cookie_file(url: &str, instagram_cookies_exist: bool) -> (result: &'static str)
    ensures
        result@ == cookies_for(url@, instagram_cookies_exist),
{
    if contains(url, "instagram.com/") && instagram_cookies_exist {
        "instacookies.txt"
    } else {
        "cookies.txt"
    }
}

/// Begins a job in its workspace, unless it is cancelled already: what to run.
pub fn download_and_upload_in_workspace(
    request: &DownloadRequest,
    cancelled: bool,
    instagram_cookies_exist: bool,
    workspace: &str,
    limits: DownloadLimits,
) -> (result: Option<DownloadCommand>)
    ensures
        match result {
            None => cancelled,
            Some(command) => {
                let yt_dlp = takes_yt_dlp(request@.url, request@.mode);
                &&& !cancelled
                &&& command.reports_progress == yt_dlp
                &&& command.program@ == (if yt_dlp {
                    "yt-dlp"@
                } else {
                    "gallery-dl"@
                })
                &&& texts(command.arguments@) == download_arguments(
                    request@.url,
                    request@.mode,
                    cookies_for(request@.url, instagram_cookies_exist),
                    workspace@,
                    limits.max_upload_bytes,
                )
            },
        },
{
    if cancelled {
        return None;
    }
    let url = request.url.as_str();
    let cookies = cookie_file(url, instagram_cookies_exist);
    Some(build(url, &request.mode, cookies, workspace, limits))
}

/// Why a job has no place to work in.
pub fn workspace_failure(error: &str) -> (result: String)
    ensures
        result@ == "could not create an isolated job workspace: "@ + error@,
{
    "could not create an isolated job workspace: ".to_owned().concat(error)
}

// ---------------------------------------------------------------------------
// After the download
// ---------------------------------------------------------------------------

/// What a failed downloader has to say: what it printed as an error, or else
/// printed at all.
pub open spec fn printed_error(stdout: Seq<char>, stderr: Seq<char>) -> Seq<char> {
    if stderr.len() > 0 {
        stderr
    } else if stdout.len() > 0 {
        stdout
    } else {
        "Unknown error"@
    }
}

/// How a job ends with its downloader, if it does.
pub open spec fn download_end(outcome: OutcomeView, program: Seq<char>, timeout: Duration) -> Option<
    (ReportView, DownloadOutcome),
> {
    match outcome {
        OutcomeView::Cancelled => Some((ReportView::Rest, DownloadOutcome::Cancelled)),
        OutcomeView::TimedOut => Some(
            (
                ReportView::Fail(
                    program + " timed out after "@ + decimal(timeout.whole_seconds())
                        + " seconds"@,
                ),
                DownloadOutcome::Failed,
            ),
        ),
        OutcomeView::Finished { success, stdout, stderr } => if success {
            None
        } else {
            Some(
                (
                    ReportView::Fail(program + " download error: "@ + printed_error(stdout, stderr)),
                    DownloadOutcome::Failed,
                ),
            )
        },
    }
}

/// Whether a job ends as `expected` says.
pub open spec fn ends_as(end: Option<JobEnd>, expected: Option<(ReportView, DownloadOutcome)>) -> bool {
    match (end, expected) {
        (Some(end), Some((report, outcome))) => end.report@ == report && end.outcome == outcome,
        (None, None) => true,
        _ => false,
    }
}

/// How a job ends with its downloader, if it does.
pub fn check_download(outcome: CommandOutcome, program: &str, timeout: Duration) -> (result: Option<
    JobEnd,
>)
    ensures
        ends_as(result, download_end(outcome@, program@, timeout)),
{
    match outcome {
        CommandOutcome::Cancelled => Some(
            JobEnd { report: FinalReport::Rest, outcome: DownloadOutcome::Cancelled },
        ),
        CommandOutcome::TimedOut => {
            let text = program.to_owned().concat(" timed out after ").concat(
                write_u64(timeout.as_secs()).as_str(),
            ).concat(" seconds");
            Some(JobEnd { report: FinalReport::Fail(text), outcome: DownloadOutcome::Failed })
        },
        CommandOutcome::Finished { success, stdout, stderr } => {
            if success {
                return None;
            }
            let error = if !stderr.as_str().is_empty() {
                stderr
            } else if !stdout.as_str().is_empty() {
                stdout
            } else {
                "Unknown error".to_owned()
            };
            let text = program.to_owned().concat(" download error: ").concat(error.as_str());
            Some(JobEnd { report: FinalReport::Fail(text), outcome: DownloadOutcome::Failed })
        },
    }
}

/// Why a downloader that succeeded has failed all the same.
pub open spec fn nothing_found_text(program: Seq<char>, use_yt_dlp: bool) -> Seq<char> {
    if use_yt_dlp {
        program + " finished, but its output file was not found"@
    } else {
        program + " finished without producing a media file"@
    }
}

// ---------------------------------------------------------------------------
// The order of the files
// ---------------------------------------------------------------------------

/// Whether a name, in lower case, ends like that of a video.
pub open spec fn video_ending(name: Seq<char>) -> bool {
    ||| ".mp4"@.is_suffix_of(name)
    ||| ".mkv"@.is_suffix_of(name)
    ||| ".webm"@.is_suffix_of(name)
    ||| ".mov"@.is_suffix_of(name)
}

/// Whether a name, in lower case, ends like that of an image.
pub open spec fn image_ending(name: Seq<char>) -> bool {
    ||| ".jpg"@.is_suffix_of(name)
    ||| ".jpeg"@.is_suffix_of(name)
    ||| ".png"@.is_suffix_of(name)
    ||| ".gif"@.is_suffix_of(name)
    ||| ".webp"@.is_suffix_of(name)
}

pub fn has_video_ending(name: &str) -> (result: bool)
    ensures
        result == video_ending(name@),
{
    ends_with(name, ".mp4") || ends_with(name, ".mkv") || ends_with(name, ".webm") || ends_with(
        name,
        ".mov",
    )
}

pub fn has_image_ending(name: &str) -> (result: bool)
    ensures
        result == image_ending(name@),
{
    ends_with(name, ".jpg") || ends_with(name, ".jpeg") || ends_with(name, ".png") || ends_with(
        name,
        ".gif",
    ) || ends_with(name, ".webp")
}

pub fn is_video_ext(path: &str) -> (result: bool)
    ensures
        result == video_ending(lowered(path@)),
{
    has_video_ending(lowercase(path).as_str())
}

pub fn is_image_ext(path: &str) -> (result: bool)
    ensures
        result == image_ending(lowered(path@)),
{
    has_image_ending(lowercase(path).as_str())
}

/// Videos rank before images, and those before everything else.
pub open spec fn file_rank(path: Seq<char>) -> nat {
    if video_ending(lowered(path)) {
        0
    } else if image_ending(lowered(path)) {
        1
    } else {
        2
    }
}

/// Whether a file comes before another: by rank, and then by name.
pub open spec fn comes_before(one: Seq<char>, other: Seq<char>) -> bool {
    file_rank(one) < file_rank(other) || (file_rank(one) == file_rank(other) && text_less(
        one,
        other,
    ))
}

/// Whether no file comes before one that stands earlier.
pub open spec fn in_order(files: Seq<Seq<char>>) -> bool {
    forall|i: int, j: int|
        0 <= i < j < files.len() ==> !comes_before(#[trigger] files[j], #[trigger] files[i])
}

fn rank_of(path: &str) -> (result: u8)
    ensures
        result == file_rank(path@),
{
    if is_video_ext(path) {
        0
    } else if is_image_ext(path) {
        1
    } else {
        2
    }
}

fn goes_before(one: &str, other: &str) -> (result: bool)
    ensures
        result == comes_before(one@, other@),
{
    let first: u8 = rank_of(one);
    let second: u8 = rank_of(other);
    first < second || (first == second && less(one, other))
}

proof fn lemma_order(a: Seq<char>, b: Seq<char>, c: Seq<char>)
    ensures
        !comes_before(a, a),
        comes_before(a, b) && comes_before(b, c) ==> comes_before(a, c),
        comes_before(a, b) ==> !comes_before(b, a),
        comes_before(a, b) || comes_before(b, a) || a == b,
{
    lemma_text_less_irreflexive(a);
    lemma_text_less_total(a, b);
    if text_less(a, b) && text_less(b, c) {
        lemma_text_less_transitive(a, b, c);
    }
    if text_less(a, b) && text_less(b, a) {
        lemma_text_less_transitive(a, b, a);
    }
}

/// Puts the files of a gallery in order: videos first, then images, then the
/// rest, each by name.
pub fn sort_downloads(files: Vec<String>) -> (result: Vec<String>)
    ensures
        in_order(texts(result@)),
        texts(result@).to_multiset() == texts(files@).to_multiset(),
        result@.len() == files@.len(),
{
    broadcast use vstd::seq_lib::group_to_multiset_ensures;

    let mut sorted: Vec<String> = Vec::new();
    let mut i: usize = 0;
    assert(texts(sorted@) =~= texts(files@).take(0));
    while i < files.len()
        invariant
            i <= files@.len(),
            sorted@.len() == i,
            in_order(texts(sorted@)),
            texts(sorted@).to_multiset() == texts(files@).take(i as int).to_multiset(),
        decreases files@.len() - i,
    {
        let file = files[i].clone();
        let ghost name = file@;
        let ghost before = texts(sorted@);
        let mut at: usize = 0;
        while at < sorted.len() && !goes_before(file.as_str(), sorted[at].as_str())
            invariant
                at <= sorted@.len(),
                before == texts(sorted@),
                name == file@,
                forall|k: int| 0 <= k < at ==> !comes_before(name, #[trigger] before[k]),
            decreases sorted@.len() - at,
        {
            at = at + 1;
        }
        sorted.insert(at, file);
        proof {
            let after = texts(sorted@);
            assert(after =~= before.insert(at as int, name));
            assert(texts(files@)[i as int] == name);
            assert(texts(files@).take(i + 1) =~= texts(files@).take(i as int).push(name));
            vstd::seq_lib::to_multiset_insert(before, at as int, name);
            vstd::seq_lib::to_multiset_build(texts(files@).take(i as int), name);
            assert forall|p: int, q: int| 0 <= p < q < after.len() implies !comes_before(
                #[trigger] after[q],
                #[trigger] after[p],
            ) by {
                if q < at {
                    assert(after[p] == before[p] && after[q] == before[q]);
                } else if q == at {
                    assert(after[p] == before[p]);
                    assert(!comes_before(name, before[p]));
                } else if p == at {
                    assert(after[q] == before[q - 1]);
                    lemma_order(name, before[at as int], before[q - 1]);
                    lemma_order(before[q - 1], name, before[at as int]);
                    lemma_order(name, before[q - 1], name);
                    if q - 1 > at {
                        assert(!comes_before(before[q - 1], before[at as int]));
                    }
                } else {
                    assert(after[q] == before[q - 1]);
                    if p < at {
                        assert(after[p] == before[p]);
                    } else {
                        assert(after[p] == before[p - 1]);
                    }
                }
            }
        }
        i = i + 1;
    }
    assert(texts(files@).take(i as int) =~= texts(files@));
    sorted
}

// ---------------------------------------------------------------------------
// What to deliver
// ---------------------------------------------------------------------------

/// What a file is delivered as.
#[derive(Clone, Copy, Debug, PartialEq, Eq, Structural)]
pub enum MediaKind {
    Video,
    Image,
    Audio,
    Other,
}

/// What a file is delivered as, going by the MIME type that was found for it.
pub open spec fn delivered_as(mime: Option<(Seq<char>, Seq<char>)>) -> MediaKind {
    let kind = kind_of(mime);
    if kind.0 {
        MediaKind::Video
    } else if kind.1 {
        MediaKind::Image
    } else if kind.2 {
        MediaKind::Audio
    } else {
        MediaKind::Other
    }
}

/// What each of the files is delivered as.
pub fn kinds_of(files: &Vec<String>) -> (result: Vec<MediaKind>)
    ensures
        result@.len() == files@.len(),
        forall|i: int|
            0 <= i < files@.len() ==> #[trigger] result@[i] == delivered_as(
                guessed_mime(files@[i]@),
            ),
{
    let mut kinds: Vec<MediaKind> = Vec::new();
    let mut i: usize = 0;
    while i < files.len()
        invariant
            i <= files@.len(),
            kinds@.len() == i,
            forall|k: int|
                0 <= k < i ==> #[trigger] kinds@[k] == delivered_as(guessed_mime(files@[k]@)),
        decreases files@.len() - i,
    {
        let (is_video, is_image, is_audio, _) = media_kind(files[i].as_str());
        kinds.push(
            if is_video {
                MediaKind::Video
            } else if is_image {
                MediaKind::Image
            } else if is_audio {
                MediaKind::Audio
            } else {
                MediaKind::Other
            },
        );
        i = i + 1;
    }
    kinds
}

/// Whether a file can be part of an album.
pub open spec fn fits_album(kind: MediaKind) -> bool {
    kind == MediaKind::Video || kind == MediaKind::Image
}

/// How many files can be part of an album.
pub open spec fn album_count(kinds: Seq<MediaKind>) -> nat
    decreases kinds.len(),
{
    if kinds.len() == 0 {
        0
    } else {
        album_count(kinds.drop_last()) + if fits_album(kinds.last()) {
            1nat
        } else {
            0nat
        }
    }
}

/// How many files can be delivered at all.
pub open spec fn media_count(kinds: Seq<MediaKind>) -> nat
    decreases kinds.len(),
{
    if kinds.len() == 0 {
        0
    } else {
        media_count(kinds.drop_last()) + if kinds.last() != MediaKind::Other {
            1nat
        } else {
            0nat
        }
    }
}

/// The files that can be part of an album, in order.
pub open spec fn album_files(files: Seq<Seq<char>>, kinds: Seq<MediaKind>) -> Seq<Seq<char>>
    decreases kinds.len(),
{
    if kinds.len() == 0 {
        Seq::empty()
    } else {
        let before = album_files(files, kinds.drop_last());
        if fits_album(kinds.last()) {
            before.push(files[kinds.len() - 1])
        } else {
            before
        }
    }
}

/// How what was downloaded is delivered.
#[derive(Clone, Copy, Debug, PartialEq, Eq, Structural)]
pub enum DeliveryChoice {
    /// There is nothing.
    Nothing,
    /// As albums.
    Albums,
    /// Item by item; a single one takes the place of the status message.
    Items { replace_status: bool },
}

/// How files of these kinds are delivered: several pictures or videos of a
/// gallery as albums, everything else item by item.
pub open spec fn delivery_choice(kinds: Seq<MediaKind>, use_yt_dlp: bool) -> DeliveryChoice {
    if kinds.len() == 0 {
        DeliveryChoice::Nothing
    } else if !use_yt_dlp && album_count(kinds) > 1 {
        DeliveryChoice::Albums
    } else {
        DeliveryChoice::Items { replace_status: media_count(kinds) == 1 }
    }
}

/// How files of these kinds are delivered.
pub fn choose_delivery(kinds: &Vec<MediaKind>, use_yt_dlp: bool) -> (result: DeliveryChoice)
    ensures
        result == delivery_choice(kinds@, use_yt_dlp),
{
    let mut album: usize = 0;
    let mut media: usize = 0;
    let mut i: usize = 0;
    assert(kinds@.take(0) =~= Seq::empty());
    while i < kinds.len()
        invariant
            i <= kinds@.len(),
            album <= i,
            media <= i,
            album == album_count(kinds@.take(i as int)),
            media == media_count(kinds@.take(i as int)),
        decreases kinds@.len() - i,
    {
        assert(kinds@.take(i + 1).drop_last() =~= kinds@.take(i as int));
        if kinds[i] == MediaKind::Video || kinds[i] == MediaKind::Image {
            album = album + 1;
        }
        if kinds[i] != MediaKind::Other {
            media = media + 1;
        }
        i = i + 1;
    }
    assert(kinds@.take(i as int) =~= kinds@);
    if kinds.len() == 0 {
        DeliveryChoice::Nothing
    } else if !use_yt_dlp && album > 1 {
        DeliveryChoice::Albums
    } else {
        DeliveryChoice::Items { replace_status: media == 1 }
    }
}

/// The files that can be part of an album, in order.
pub fn select_album_files(files: &Vec<String>, kinds: &Vec<MediaKind>) -> (result: Vec<String>)
    requires
        files@.len() == kinds@.len(),
    ensures
        texts(result@) == album_files(texts(files@), kinds@),
{
    let mut selected: Vec<String> = Vec::new();
    let mut i: usize = 0;
    assert(kinds@.take(0) =~= Seq::empty());
    assert(texts(selected@) =~= album_files(texts(files@), kinds@.take(0)));
    while i < kinds.len()
        invariant
            i <= kinds@.len(),
            files@.len() == kinds@.len(),
            texts(selected@) == album_files(texts(files@), kinds@.take(i as int)),
        decreases kinds@.len() - i,
    {
        assert(kinds@.take(i + 1).drop_last() =~= kinds@.take(i as int));
        if kinds[i] == MediaKind::Video || kinds[i] == MediaKind::Image {
            crate::text::push_text(&mut selected, files[i].as_str());
            assert(texts(files@)[i as int] == files@[i as int]@);
        }
        i = i + 1;
    }
    assert(kinds@.take(i as int) =~= kinds@);
    selected
}

/// How a job ends whose downloader produced nothing.
pub fn nothing_downloaded(program: &str, use_yt_dlp: bool) -> (result: JobEnd)
    ensures
        result.report@ == ReportView::Fail(nothing_found_text(program@, use_yt_dlp)),
        result.outcome == DownloadOutcome::Failed,
{
    let text = if use_yt_dlp {
        program.to_owned().concat(" finished, but its output file was not found")
    } else {
        program.to_owned().concat(" finished without producing a media file")
    };
    JobEnd { report: FinalReport::Fail(text), outcome: DownloadOutcome::Failed }
}

// ---------------------------------------------------------------------------
// Item by item
// ---------------------------------------------------------------------------

/// The delivery of files, one after the other.
pub struct ItemsRun {
    program: String,
    use_yt_dlp: bool,
    replace_status: bool,
    files: Vec<String>,
    kinds: Vec<MediaKind>,
    index: usize,
    sent: usize,
    last_error: Option<String>,
}

/// What an `ItemsRun` holds.
#[verifier::ext_equal]
pub ghost struct ItemsView {
    pub program: Seq<char>,
    pub use_yt_dlp: bool,
    pub replace_status: bool,
    pub files: Seq<Seq<char>>,
    pub kinds: Seq<MediaKind>,
    /// How many files have been dealt with.
    pub index: nat,
    /// How many files have been sent.
    pub sent: nat,
    pub last_error: Option<Seq<char>>,
}

/// What to do next.
#[derive(Clone, Copy, Debug, PartialEq, Eq, Structural)]
pub enum ItemStep {
    /// Deliver the file at `index` as that kind of media.
    Deliver { index: usize, kind: MediaKind },
    Cancelled,
    Finished,
}

/// What holds of a delivery at any time.
pub open spec fn items_sound(run: ItemsView) -> bool {
    &&& run.files.len() == run.kinds.len()
    &&& run.index <= run.files.len()
    &&& run.files.len() <= usize::MAX
    &&& run.sent <= run.index
}

/// What to do next.
pub open spec fn item_step(run: ItemsView, cancelled: bool) -> ItemStep {
    if run.index >= run.files.len() {
        ItemStep::Finished
    } else if cancelled {
        ItemStep::Cancelled
    } else {
        ItemStep::Deliver { index: run.index as usize, kind: run.kinds[run.index as int] }
    }
}

/// What is said of a file that could not be delivered.
pub open spec fn item_failure(
    program: Seq<char>,
    path: Seq<char>,
    kind: MediaKind,
    error: Seq<char>,
) -> Seq<char> {
    let name = name_or_nothing(path);
    match kind {
        MediaKind::Video => "could not process video "@ + name + ": "@ + error,
        MediaKind::Image => "could not upload image "@ + name + ": "@ + error,
        MediaKind::Audio => "could not upload audio "@ + name + ": "@ + error,
        MediaKind::Other => program + " produced an unsupported file: "@ + name,
    }
}

/// The delivery after a file could not be delivered.
pub open spec fn item_failed(run: ItemsView, text: Seq<char>) -> ItemsView {
    ItemsView { index: run.index + 1, last_error: Some(text), ..run }
}

/// How the job ends when every file has been dealt with.
pub open spec fn items_report(run: ItemsView) -> ReportView {
    if run.sent == 0 {
        if run.files.len() == 0 {
            ReportView::Rest
        } else {
            match run.last_error {
                Some(error) => ReportView::Fail(error),
                None => ReportView::Fail(run.program + " produced no supported media to upload"@),
            }
        }
    } else if run.replace_status {
        ReportView::Rest
    } else {
        match run.last_error {
            Some(error) => ReportView::Warn(error),
            None => ReportView::DeleteStatus,
        }
    }
}

impl View for ItemsRun {
    type V = ItemsView;

    closed spec fn view(&self) -> ItemsView {
        ItemsView {
            program: self.program@,
            use_yt_dlp: self.use_yt_dlp,
            replace_status: self.replace_status,
            files: texts(self.files@),
            kinds: self.kinds@,
            index: self.index as nat,
            sent: self.sent as nat,
            last_error: text_of(self.last_error),
        }
    }
}

impl ItemsRun {
    pub fn new(
        program: &str,
        use_yt_dlp: bool,
        replace_status: bool,
        files: Vec<String>,
        kinds: Vec<MediaKind>,
    ) -> (result: ItemsRun)
        requires
            files@.len() == kinds@.len(),
        ensures
            items_sound(result@),
            result@ == (ItemsView {
                program: program@,
                use_yt_dlp,
                replace_status,
                files: texts(files@),
                kinds: kinds@,
                index: 0,
                sent: 0,
                last_error: None,
            }),
    {
        assert(files.len() == files@.len());
        ItemsRun {
            program: program.to_owned(),
            use_yt_dlp,
            replace_status,
            files,
            kinds,
            index: 0,
            sent: 0,
            last_error: None,
        }
    }

    /// What to do next.
    pub fn step(&self, cancelled: bool) -> (result: ItemStep)
        requires
            items_sound(self@),
        ensures
            result == item_step(self@, cancelled),
    {
        if self.index >= self.files.len() {
            ItemStep::Finished
        } else if cancelled {
            ItemStep::Cancelled
        } else {
            ItemStep::Deliver { index: self.index, kind: self.kinds[self.index] }
        }
    }

    /// The file at `index`.
    pub fn file(&self, index: usize) -> (result: &str)
        requires
            index < self@.files.len(),
        ensures
            result@ == self@.files[index as int],
    {
        self.files[index].as_str()
    }

    /// Where the file at `index` stands among all files, and how it is
    /// delivered.
    pub fn delivery_plan(&self, index: usize) -> (result: DeliveryPlan)
        requires
            index < self@.files.len(),
        ensures
            result.position.0 == index + 1,
            result.position.1 == self@.files.len(),
            result.replace_status == self@.replace_status,
    {
        assert(self.files.len() == self.files@.len());
        DeliveryPlan {
            position: (index + 1, self.files.len()),
            replace_status: self.replace_status,
        }
    }

    /// Takes note that the next file has disappeared. A gallery goes on without
    /// it; otherwise the job ends.
    pub fn missing(&mut self) -> (result: Option<JobEnd>)
        requires
            items_sound(old(self)@),
            old(self)@.index < old(self)@.files.len(),
        ensures
            items_sound(final(self)@),
            ends_as(
                result,
                if old(self)@.use_yt_dlp {
                    Some(
                        (
                            ReportView::Fail("the downloaded file disappeared before upload"@),
                            DownloadOutcome::Failed,
                        ),
                    )
                } else {
                    None
                },
            ),
            final(self)@ == (if old(self)@.use_yt_dlp {
                old(self)@
            } else {
                item_failed(
                    old(self)@,
                    "a downloaded gallery item disappeared before upload"@,
                )
            }),
    {
        if self.use_yt_dlp {
            let text = "the downloaded file disappeared before upload".to_owned();
            Some(JobEnd { report: FinalReport::Fail(text), outcome: DownloadOutcome::Failed })
        } else {
            self.last_error = Some(
                "a downloaded gallery item disappeared before upload".to_owned(),
            );
            self.index = self.index + 1;
            None
        }
    }

    /// Takes note of how the delivery of the next file went. A file that is no
    /// media is passed over. If the job has been cancelled while media was
    /// delivered, it ends.
    pub fn delivered(&mut self, result: Result<(), String>, cancelled: bool) -> (end: Option<JobEnd>)
        requires
            items_sound(old(self)@),
            old(self)@.index < old(self)@.files.len(),
        ensures
            items_sound(final(self)@),
            ({
                let run = old(self)@;
                let kind = run.kinds[run.index as int];
                let path = run.files[run.index as int];
                if cancelled && kind != MediaKind::Other {
                    final(self)@ == run && ends_as(
                        end,
                        Some((ReportView::Rest, DownloadOutcome::Cancelled)),
                    )
                } else {
                    end is None && final(self)@ == (match result {
                        Ok(_) => if kind == MediaKind::Other {
                            item_failed(run, item_failure(run.program, path, kind, Seq::empty()))
                        } else {
                            ItemsView { index: run.index + 1, sent: run.sent + 1, ..run }
                        },
                        Err(error) => item_failed(
                            run,
                            item_failure(run.program, path, kind, error@),
                        ),
                    })
                }
            }),
    {
        let name = shown_name(self.files[self.index].as_str());
        let kind = self.kinds[self.index];
        if cancelled && kind != MediaKind::Other {
            return Some(cancelled_end());
        }
        let opening = match kind {
            MediaKind::Video => "could not process video ",
            MediaKind::Image => "could not upload image ",
            MediaKind::Audio => "could not upload audio ",
            MediaKind::Other => {
                self.last_error = Some(
                    self.program.clone().concat(" produced an unsupported file: ").concat(
                        name.as_str(),
                    ),
                );
                self.index = self.index + 1;
                return None;
            },
        };
        match result {
            Ok(_) => {
                self.sent = self.sent + 1;
            },
            Err(error) => {
                let text = opening.to_owned().concat(name.as_str()).concat(": ").concat(
                    error.as_str(),
                );
                self.last_error = Some(text);
            },
        }
        self.index = self.index + 1;
        None
    }

    /// How the job ends when every file has been dealt with.
    pub fn finish(&self) -> (result: JobEnd)
        ensures
            result.report@ == items_report(self@),
            result.outcome == (if self@.sent > 0 {
                DownloadOutcome::Completed
            } else {
                DownloadOutcome::Failed
            }),
    {
        if self.sent == 0 {
            let report = if self.files.len() == 0 {
                FinalReport::Rest
            } else {
                match copied(&self.last_error) {
                    Some(error) => FinalReport::Fail(error),
                    None => FinalReport::Fail(
                        self.program.clone().concat(" produced no supported media to upload"),
                    ),
                }
            };
            return JobEnd { report, outcome: DownloadOutcome::Failed };
        }
        let report = if self.replace_status {
            FinalReport::Rest
        } else {
            match copied(&self.last_error) {
                Some(error) => FinalReport::Warn(error),
                None => FinalReport::DeleteStatus,
            }
        };
        JobEnd { report, outcome: DownloadOutcome::Completed }
    }
}

// ---------------------------------------------------------------------------
// From files to their delivery
// ---------------------------------------------------------------------------

/// How what a downloader left behind is delivered.
pub enum Delivery {
    /// Not at all: the job ends.
    End(JobEnd),
    /// These files as albums.
    Albums(Vec<String>),
    /// Item by item.
    Items(ItemsRun),
}

/// Whether `files` are those that were `found`: as they came from yt-dlp, in
/// order from gallery-dl.
pub open spec fn gathered(found: Seq<Seq<char>>, files: Seq<Seq<char>>, use_yt_dlp: bool) -> bool {
    if use_yt_dlp {
        files == found
    } else {
        in_order(files) && files.to_multiset() == found.to_multiset()
    }
}

/// What each of the files is delivered as.
pub open spec fn file_kinds(files: Seq<Seq<char>>) -> Seq<MediaKind> {
    Seq::new(files.len(), |i: int| delivered_as(guessed_mime(files[i])))
}

/// Whether a delivery is the one for `files`.
pub open spec fn delivers(
    delivery: Delivery,
    program: Seq<char>,
    use_yt_dlp: bool,
    files: Seq<Seq<char>>,
) -> bool {
    let kinds = file_kinds(files);
    match (delivery, delivery_choice(kinds, use_yt_dlp)) {
        (Delivery::End(end), DeliveryChoice::Nothing) => end.report@ == ReportView::Fail(
            nothing_found_text(program, use_yt_dlp),
        ) && end.outcome == DownloadOutcome::Failed,
        (Delivery::Albums(chosen), DeliveryChoice::Albums) => texts(chosen@) == album_files(
            files,
            kinds,
        ),
        (Delivery::Items(run), DeliveryChoice::Items { replace_status }) => items_sound(run@)
            && run@ == (ItemsView {
            program,
            use_yt_dlp,
            replace_status,
            files,
            kinds,
            index: 0,
            sent: 0,
            last_error: None,
        }),
        _ => false,
    }
}

/// Decides how what a downloader left behind is delivered.
pub fn plan_delivery(program: &str, use_yt_dlp: bool, found: Vec<String>) -> (result: Delivery)
    ensures
        exists|files: Seq<Seq<char>>| #[trigger]
            gathered(texts(found@), files, use_yt_dlp) && delivers(
                result,
                program@,
                use_yt_dlp,
                files,
            ),
{
    let ghost before = texts(found@);
    let files = if use_yt_dlp {
        found
    } else {
        sort_downloads(found)
    };
    let ghost after = texts(files@);
    assert(gathered(before, after, use_yt_dlp));
    let kinds = kinds_of(&files);
    assert(kinds@ =~= file_kinds(after)) by {
        assert forall|i: int| 0 <= i < kinds@.len() implies #[trigger] kinds@[i] == delivered_as(
            guessed_mime(after[i]),
        ) by {
            assert(after[i] == files@[i]@);
        }
    }
    match choose_delivery(&kinds, use_yt_dlp) {
        DeliveryChoice::Nothing => Delivery::End(nothing_downloaded(program, use_yt_dlp)),
        DeliveryChoice::Albums => Delivery::Albums(select_album_files(&files, &kinds)),
        DeliveryChoice::Items { replace_status } => Delivery::Items(
            ItemsRun::new(program, use_yt_dlp, replace_status, files, kinds),
        ),
    }
}

// ---------------------------------------------------------------------------
// Laws
// ---------------------------------------------------------------------------

/// Order is a question of rank and name alone: a list has one order.
pub proof fn law_files_have_one_order(one: Seq<Seq<char>>, other: Seq<Seq<char>>)
    requires
        in_order(one),
        in_order(other),
        one.to_multiset() == other.to_multiset(),
    ensures
        one == other,
    decreases one.len(),
{
    broadcast use vstd::seq_lib::group_to_multiset_ensures;

    vstd::seq_lib::to_multiset_len(one);
    vstd::seq_lib::to_multiset_len(other);
    assert(one.len() == other.len());
    if one.len() > 0 {
        let first = one[0];
        let second = other[0];
        assert(one.to_multiset().contains(first)) by {
            assert(one.contains(first));
        }
        assert(other.contains(first));
        assert(other.to_multiset().contains(second)) by {
            assert(other.contains(second));
        }
        assert(one.contains(second));
        let i = choose|i: int| 0 <= i < other.len() && other[i] == first;
        let j = choose|j: int| 0 <= j < one.len() && one[j] == second;
        lemma_order(first, second, first);
        lemma_order(second, first, second);
        assert(!comes_before(first, second)) by {
            if i > 0 {
                assert(!comes_before(other[i], other[0]));
            }
        }
        assert(!comes_before(second, first)) by {
            if j > 0 {
                assert(!comes_before(one[j], one[0]));
            }
        }
        assert(first == second);
        let one_rest = one.remove(0);
        let other_rest = other.remove(0);
        vstd::seq_lib::to_multiset_remove(one, 0);
        vstd::seq_lib::to_multiset_remove(other, 0);
        assert(in_order(one_rest)) by {
            assert forall|p: int, q: int| 0 <= p < q < one_rest.len() implies !comes_before(
                #[trigger] one_rest[q],
                #[trigger] one_rest[p],
            ) by {
                assert(one_rest[p] == one[p + 1] && one_rest[q] == one[q + 1]);
            }
        }
        assert(in_order(other_rest)) by {
            assert forall|p: int, q: int| 0 <= p < q < other_rest.len() implies !comes_before(
                #[trigger] other_rest[q],
                #[trigger] other_rest[p],
            ) by {
                assert(other_rest[p] == other[p + 1] && other_rest[q] == other[q + 1]);
            }
        }
        law_files_have_one_order(one_rest, other_rest);
        assert(one =~= seq![first] + one_rest);
        assert(other =~= seq![first] + other_rest);
    } else {
        assert(one =~= other);
    }
}

/// A single result takes the place of the status message, whatever else was
/// downloaded; then the status message needs no further care once it is sent.
pub proof fn law_single_results_replace_the_status(kinds: Seq<MediaKind>, use_yt_dlp: bool)
    requires
        media_count(kinds) == 1,
    ensures
        delivery_choice(kinds, use_yt_dlp) == (DeliveryChoice::Items { replace_status: true }),
{
    lemma_album_count(kinds);
}

proof fn lemma_album_count(kinds: Seq<MediaKind>)
    ensures
        album_count(kinds) <= media_count(kinds) <= kinds.len(),
    decreases kinds.len(),
{
    if kinds.len() > 0 {
        lemma_album_count(kinds.drop_last());
    }
}

/// Nothing but pictures and videos gets into an album, and every one of them
/// does.
pub proof fn law_albums_take_pictures_and_videos(files: Seq<Seq<char>>, kinds: Seq<MediaKind>)
    ensures
        album_files(files, kinds).len() == album_count(kinds),
    decreases kinds.len(),
{
    if kinds.len() > 0 {
        law_albums_take_pictures_and_videos(files, kinds.drop_last());
    }
}

/// A job of which anything was delivered is completed; one of which nothing was
/// has failed and says why.
pub proof fn law_items_end_as_they_went(run: ItemsView)
    requires
        run.files.len() > 0,
    ensures
        run.sent == 0 <==> items_report(run) is Fail,
        run.sent > 0 && run.last_error is Some && !run.replace_status ==> items_report(run)
            == ReportView::Warn(run.last_error->0),
{
}

} // verus!
