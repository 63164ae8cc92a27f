//! Plain downloads: media lands in the working directory, under a random name
//! by which it is found again and cleaned up.

use vstd::prelude::*;

use crate::media::command::{CommandOutcome, OutcomeView};
use crate::media::delivery::{FinalReport, JobEnd, ReportView};
use crate::media::downloader::{
    USER_AGENT, height_format, open_format, unrestricted_video_format, video_format_selector,
};
use crate::media::pipeline::{
    cookie_file, cookies_for, ends_as, in_order, nothing_found_text, printed_error, sort_downloads,
};
use crate::media::request::DownloadOutcome;
use crate::media::transcode::{media_arguments, opening_arguments, rate_arguments};
use crate::paths::{join_path, joined_path};
use crate::text::{contains, contains_text, push_text, starts_with, text_list, texts};

verus! {

/// Where galleries are downloaded to, each in a directory of its own.
pub const GALLERY_DL_DOWNLOAD_PATH: &'static str = "gallery_dl_downloads";

#[derive(Debug, PartialEq, Eq)]
pub struct DownloadRequest {
    pub url: String,
    pub mode: DownloadMode,
}

#[derive(Clone, Copy, Debug, PartialEq, Eq, Structural)]
pub enum DownloadMode {
    Video { max_height: Option<u32> },
    Audio,
}

/// A request, its URL taken as text.
pub ghost struct RequestView {
    pub url: Seq<char>,
    pub mode: DownloadMode,
}

impl View for DownloadRequest {
    type V = RequestView;

    open spec fn view(&self) -> RequestView {
        RequestView { url: self.url@, mode: self.mode }
    }
}

impl Clone for DownloadRequest {
    fn clone(&self) -> (result: DownloadRequest)
        ensures
            result@ == self@,
    {
        DownloadRequest { url: self.url.clone(), mode: self.mode }
    }
}

impl DownloadRequest {
    /// A video, no higher than `max_height` if that is given.
    pub fn video(url: String, max_height: Option<u32>) -> (result: DownloadRequest)
        ensures
            result@ == (RequestView { url: url@, mode: DownloadMode::Video { max_height } }),
    {
        DownloadRequest { url, mode: DownloadMode::Video { max_height } }
    }

    /// The sound alone.
    pub fn audio(url: String) -> (result: DownloadRequest)
        ensures
            result@ == (RequestView { url: url@, mode: DownloadMode::Audio }),
    {
        DownloadRequest { url, mode: DownloadMode::Audio }
    }
}

// ---------------------------------------------------------------------------
// The downloader
// ---------------------------------------------------------------------------

/// Whether `url` lies on a site whose videos yt-dlp fetches.
pub open spec fn yt_dlp_serves(url: Seq<char>) -> bool {
    ||| contains_text(url, "youtube.com/"@)
    ||| contains_text(url, "youtu.be/"@)
    ||| contains_text(url, "instagram.com/share/"@)
    ||| contains_text(url, "instagram.com/reels/"@)
    ||| contains_text(url, "instagram.com/tv/"@)
    ||| contains_text(url, "x.com/i/broadcasts/"@)
    ||| contains_text(url, "tiktok.com/"@)
}

pub fn should_use_yt_dlp(url: &str) -> (result: bool)
    ensures
        result == yt_dlp_serves(url@),
{
    contains(url, "youtube.com/") || contains(url, "youtu.be/") || contains(
        url,
        "instagram.com/share/",
    ) || contains(url, "instagram.com/reels/") || contains(url, "instagram.com/tv/") || contains(
        url,
        "x.com/i/broadcasts/",
    ) || contains(url, "tiktok.com/")
}

/// What to run for a request, and where its files will be.
pub struct DownloadPlan {
    pub program: &'static str,
    pub arguments: Vec<String>,
    pub use_yt_dlp: bool,
    pub cookies: &'static str,
    /// Whether the cookies have to be put in order first.
    pub cleans_cookies: bool,
    /// With what the names of the files of yt-dlp begin.
    pub base: Option<String>,
    /// The directory of gallery-dl, which has to be made first.
    pub directory: Option<String>,
}

/// What yt-dlp is told of the media to keep. A track carries its name, its artist
/// and its cover, where the source has them.
pub open spec fn mode_arguments(request: RequestView) -> Seq<Seq<char>> {
    match request.mode {
        DownloadMode::Audio => seq![
            "--extract-audio"@,
            "--audio-format"@,
            "mp3"@,
            "--audio-quality"@,
            "0"@,
            "--embed-metadata"@,
            "--embed-thumbnail"@,
        ],
        DownloadMode::Video { max_height: Some(height) } => seq!["-f"@, height_format(height)],
        DownloadMode::Video { max_height: None } => if contains_text(request.url, "youtube.com/"@)
            || contains_text(request.url, "youtu.be/"@) {
            seq!["-t"@, "mp4"@]
        } else {
            seq!["-f"@, open_format(request.url)]
        },
    }
}

/// The arguments of yt-dlp.
pub open spec fn yt_dlp_arguments(request: RequestView, cookies: Seq<char>, base: Seq<char>) -> Seq<
    Seq<char>,
> {
    seq![
        "-o"@,
        base + ".%(ext)s"@,
        "--cookies"@,
        cookies,
        "--user-agent"@,
        USER_AGENT@,
    ] + mode_arguments(request) + seq![request.url]
}

/// The arguments of gallery-dl.
pub open spec fn gallery_dl_arguments(
    url: Seq<char>,
    cookies: Seq<char>,
    directory: Seq<char>,
) -> Seq<Seq<char>> {
    seq!["--cookies"@, cookies, "--user-agent"@, USER_AGENT@, "-D"@, directory, url]
}

/// Whether yt-dlp fetches what is asked for; gallery-dl does otherwise.
pub open spec fn takes_yt_dlp(request: RequestView) -> bool {
    request.mode is Audio || yt_dlp_serves(request.url)
}

/// Whether a plan is the one for a request.
pub open spec fn plans(
    plan: DownloadPlan,
    request: RequestView,
    instagram_cookies_exist: bool,
    name: Seq<char>,
) -> bool {
    let cookies = cookies_for(request.url, instagram_cookies_exist);
    &&& plan.cookies@ == cookies
    &&& plan.cleans_cookies == (contains_text(request.url, "instagram.com/"@)
        && instagram_cookies_exist)
    &&& plan.use_yt_dlp == takes_yt_dlp(request)
    &&& plan.use_yt_dlp ==> {
        &&& plan.program@ == "yt-dlp"@
        &&& plan.base is Some
        &&& plan.base->0@ == name
        &&& plan.directory is None
        &&& texts(plan.arguments@) == yt_dlp_arguments(request, cookies, name)
    }
    &&& !plan.use_yt_dlp ==> {
        &&& plan.program@ == "gallery-dl"@
        &&& plan.base is None
        &&& plan.directory is Some
        &&& plan.directory->0@ == joined_path(GALLERY_DL_DOWNLOAD_PATH@, name)
        &&& texts(plan.arguments@) == gallery_dl_arguments(
            request.url,
            cookies,
            plan.directory->0@,
        )
    }
}

/// Begins a download under a random name, unless it is cancelled already.
pub fn download_and_upload(
    request: &DownloadRequest,
    cancelled: bool,
    instagram_cookies_exist: bool,
    name: &str,
) -> (result: Option<DownloadPlan>)
    ensures
        match result {
            None => cancelled,
            Some(plan) => !cancelled && plans(plan, request@, instagram_cookies_exist, name@),
        },
{
    if cancelled {
        return None;
    }
    let url = request.url.as_str();
    let use_yt_dlp = match request.mode {
        DownloadMode::Audio => true,
        _ => should_use_yt_dlp(url),
    };
    let cookies = cookie_file(url, instagram_cookies_exist);
    let cleans_cookies = contains(url, "instagram.com/") && instagram_cookies_exist;
    if !use_yt_dlp {
        let directory = join_path(GALLERY_DL_DOWNLOAD_PATH, name);
        let arguments = text_list(
            &["--cookies", cookies, "--user-agent", USER_AGENT, "-D", directory.as_str(), url],
        );
        assert(texts(arguments@) =~= gallery_dl_arguments(url@, cookies@, directory@));
        return Some(
            DownloadPlan {
                program: "gallery-dl",
                arguments,
                use_yt_dlp,
                cookies,
                cleans_cookies,
                base: None,
                directory: Some(directory),
            },
        );
    }
    let template = name.to_owned().concat(".%(ext)s");
    let mut arguments = text_list(
        &["-o", template.as_str(), "--cookies", cookies, "--user-agent", USER_AGENT],
    );
    let ghost opening = texts(arguments@);
    assert(opening =~= seq![
        "-o"@,
        name@ + ".%(ext)s"@,
        "--cookies"@,
        cookies@,
        "--user-agent"@,
        USER_AGENT@,
    ]);
    match request.mode {
        DownloadMode::Audio => {
            push_text(&mut arguments, "--extract-audio");
            push_text(&mut arguments, "--audio-format");
            push_text(&mut arguments, "mp3");
            push_text(&mut arguments, "--audio-quality");
            push_text(&mut arguments, "0");
            push_text(&mut arguments, "--embed-metadata");
            push_text(&mut arguments, "--embed-thumbnail");
        },
        DownloadMode::Video { max_height } => match max_height {
            Some(height) => {
                push_text(&mut arguments, "-f");
                push_text(&mut arguments, video_format_selector(height).as_str());
            },
            None => {
                if contains(url, "youtube.com/") || contains(url, "youtu.be/") {
                    push_text(&mut arguments, "-t");
                    push_text(&mut arguments, "mp4");
                } else {
                    push_text(&mut arguments, "-f");
                    push_text(&mut arguments, unrestricted_video_format(url));
                }
            },
        },
    }
    assert(texts(arguments@) =~= opening + mode_arguments(request@));
    push_text(&mut arguments, url);
    assert(texts(arguments@) =~= yt_dlp_arguments(request@, cookies@, name@));
    Some(
        DownloadPlan {
            program: "yt-dlp",
            arguments,
            use_yt_dlp,
            cookies,
            cleans_cookies,
            base: Some(name.to_owned()),
            directory: None,
        },
    )
}

/// How a job ends whose directory cannot be made.
pub fn directory_failure(error: &str) -> (result: JobEnd)
    ensures
        result.report@ == ReportView::Fail("could not create the download directory: "@ + error@),
        result.outcome == DownloadOutcome::Failed,
{
    JobEnd {
        report: FinalReport::Fail(
            "could not create the download directory: ".to_owned().concat(error),
        ),
        outcome: DownloadOutcome::Failed,
    }
}

/// How a job ends with its downloader, if it does. Only a cancellation stops a
/// downloader early.
pub open spec fn download_end(outcome: OutcomeView, program: Seq<char>) -> Option<
    (ReportView, DownloadOutcome),
> {
    match outcome {
        OutcomeView::Finished { success, stdout, stderr } => if success {
            None
        } else {
            Some(
                (
                    ReportView::Fail(program + " download error: "@ + printed_error(stdout, stderr)),
                    DownloadOutcome::Failed,
                ),
            )
        },
        _ => Some((ReportView::Rest, DownloadOutcome::Cancelled)),
    }
}

pub fn check_download(outcome: &CommandOutcome, program: &str) -> (result: Option<JobEnd>)
    ensures
        ends_as(result, download_end(outcome@, program@)),
{
    match outcome {
        CommandOutcome::Finished { success, stdout, stderr } => {
            if *success {
                return None;
            }
            let error = if !stderr.as_str().is_empty() {
                stderr.as_str()
            } else if !stdout.as_str().is_empty() {
                stdout.as_str()
            } else {
                "Unknown error"
            };
            let text = program.to_owned().concat(" download error: ").concat(error);
            Some(JobEnd { report: FinalReport::Fail(text), outcome: DownloadOutcome::Failed })
        },
        _ => Some(JobEnd { report: FinalReport::Rest, outcome: DownloadOutcome::Cancelled }),
    }
}

// ---------------------------------------------------------------------------
// The files
// ---------------------------------------------------------------------------

/// The names that begin with `base`, in order.
pub open spec fn named_after(names: Seq<Seq<char>>, base: Seq<char>) -> Seq<Seq<char>> {
    names.filter(|name: Seq<char>| base.is_prefix_of(name))
}

pub fn files_of(names: &[String], base: &str) -> (result: Vec<String>)
    ensures
        texts(result@) == named_after(texts(names@), base@),
{
    let ghost all = texts(names@);
    let ghost belongs = |name: Seq<char>| base@.is_prefix_of(name);
    let mut found: Vec<String> = Vec::new();
    let mut i: usize = 0;
    proof {
        reveal(Seq::filter);
    }
    assert(texts(found@) =~= all.take(0).filter(belongs));
    while i < names.len()
        invariant
            i <= names@.len(),
            all == texts(names@),
            belongs == (|name: Seq<char>| base@.is_prefix_of(name)),
            texts(found@) == all.take(i as int).filter(belongs),
        decreases names@.len() - i,
    {
        proof {
            reveal(Seq::filter);
            assert(all.take(i + 1).drop_last() =~= all.take(i as int));
            assert(all.take(i + 1).last() == names@[i as int]@);
        }
        if starts_with(names[i].as_str(), base) {
            push_text(&mut found, names[i].as_str());
        }
        i = i + 1;
    }
    assert(all.take(i as int) =~= all);
    found
}

/// Gathers what was downloaded: of the working directory the files named after
/// `base`, as they come; of a gallery every file, in order. With nothing there
/// the job ends.
pub fn gather_downloads(entries: Vec<String>, base: &Option<String>, program: &str) -> (result:
    Result<Vec<String>, JobEnd>)
    ensures
        match result {
            Ok(files) => files@.len() > 0 && match *base {
                Some(base) => texts(files@) == named_after(texts(entries@), base@),
                None => in_order(texts(files@)) && texts(files@).to_multiset() == texts(
                    entries@,
                ).to_multiset(),
            },
            Err(end) => {
                &&& end.report@ == ReportView::Fail(nothing_found_text(program@, *base is Some))
                &&& end.outcome == DownloadOutcome::Failed
                &&& match *base {
                    Some(base) => named_after(texts(entries@), base@).len() == 0,
                    None => entries@.len() == 0,
                }
            },
        },
{
    match base {
        Some(base) => {
            let files = files_of(&entries, base.as_str());
            if files.len() == 0 {
                assert(texts(files@).len() == 0);
                return Err(
                    JobEnd {
                        report: FinalReport::Fail(
                            program.to_owned().concat(
                                " finished, but its output file was not found",
                            ),
                        ),
                        outcome: DownloadOutcome::Failed,
                    },
                );
            }
            Ok(files)
        },
        None => {
            if entries.len() == 0 {
                return Err(
                    JobEnd {
                        report: FinalReport::Fail(
                            program.to_owned().concat(
                                " finished without producing a media file",
                            ),
                        ),
                        outcome: DownloadOutcome::Failed,
                    },
                );
            }
            Ok(sort_downloads(entries))
        },
    }
}

/// What lies at a path.
#[derive(Clone, Copy, Debug, PartialEq, Eq, Structural)]
pub enum PathState {
    Missing,
    File,
    Directory,
}

/// What is left to clean up after a download.
#[derive(Clone, Copy, Debug, PartialEq, Eq, Structural)]
pub struct Cleanup {
    pub remove_file: bool,
    pub remove_directory: bool,
    /// Whether the working directory is searched for files named after the
    /// download.
    pub sweep: bool,
}

/// What to clean up: of yt-dlp the file, and whatever else bears its name; of
/// gallery-dl the directory.
pub fn perform_cleanup(path: PathState, named: bool, is_yt_dlp: bool) -> (result: Cleanup)
    ensures
        result == (Cleanup {
            remove_file: is_yt_dlp && path == PathState::File,
            remove_directory: !is_yt_dlp && path == PathState::Directory,
            sweep: is_yt_dlp && named,
        }),
{
    Cleanup {
        remove_file: is_yt_dlp && path == PathState::File,
        remove_directory: !is_yt_dlp && path == PathState::Directory,
        sweep: is_yt_dlp && named,
    }
}

// ---------------------------------------------------------------------------
// Videos
// ---------------------------------------------------------------------------

/// The arguments with which ffmpeg converts `input` to `output`.
pub open spec fn conversion_arguments(input: Seq<char>, output: Seq<char>, bitrate: Option<u64>) -> Seq<
    Seq<char>,
> {
    media_arguments(input) + rate_arguments(bitrate) + seq![
        "-movflags"@,
        "+faststart"@,
        "-tag:v"@,
        "avc1"@,
        output,
    ]
}

pub fn build_conversion(input: &str, output: &str, bitrate: Option<u64>) -> (result: Vec<String>)
    ensures
        texts(result@) == conversion_arguments(input@, output@, bitrate),
{
    let mut arguments = opening_arguments(input, bitrate);
    push_text(&mut arguments, "-movflags");
    push_text(&mut arguments, "+faststart");
    push_text(&mut arguments, "-tag:v");
    push_text(&mut arguments, "avc1");
    push_text(&mut arguments, output);
    assert(texts(arguments@) =~= conversion_arguments(input@, output@, bitrate));
    arguments
}

/// What came of a conversion.
pub fn check_conversion(outcome: &CommandOutcome) -> (result: Result<(), String>)
    ensures
        match (result, outcome@) {
            (Ok(_), OutcomeView::Finished { success, .. }) => success,
            (Err(message), OutcomeView::Finished { success, stderr, .. }) => !success && message@
                == "ffmpeg could not prepare the video: "@ + stderr,
            (Err(message), _) => message@ == "cancelled"@,
            _ => false,
        },
{
    match outcome {
        CommandOutcome::Finished { success, stdout: _, stderr } => if *success {
            Ok(())
        } else {
            Err("ffmpeg could not prepare the video: ".to_owned().concat(stderr.as_str()))
        },
        _ => Err("cancelled".to_owned()),
    }
}

// ---------------------------------------------------------------------------
// Laws
// ---------------------------------------------------------------------------

/// Every file that yt-dlp leaves behind under its name is found, and nothing
/// else is.
pub proof fn law_downloads_are_found_by_name(names: Seq<Seq<char>>, base: Seq<char>, name: Seq<char>)
    ensures
        named_after(names, base).contains(name) <==> names.contains(name) && base.is_prefix_of(name),
{
    broadcast use vstd::seq_lib::group_filter_ensures;

    let belongs = |name: Seq<char>| base.is_prefix_of(name);
    let found = named_after(names, base);
    assert(found == names.filter(belongs));
    if found.contains(name) {
        let i = choose|i: int| 0 <= i < found.len() && found[i] == name;
        assert(belongs(found[i]));
        lemma_found_names_are_there(names, base, i);
    }
    if names.contains(name) && base.is_prefix_of(name) {
        assert(belongs(name));
        let i = choose|i: int| 0 <= i < names.len() && names[i] == name;
        assert(found.contains(names[i]));
    }
}

proof fn lemma_found_names_are_there(names: Seq<Seq<char>>, base: Seq<char>, i: int)
    requires
        0 <= i < named_after(names, base).len(),
    ensures
        names.contains(named_after(names, base)[i]),
    decreases names.len(),
{
    reveal(Seq::filter);
    let found = named_after(names, base);
    let fewer = names.drop_last();
    let earlier = named_after(fewer, base);
    if i < earlier.len() {
        lemma_found_names_are_there(fewer, base, i);
        assert(found[i] == earlier[i]);
        let k = choose|k: int| 0 <= k < fewer.len() && fewer[k] == earlier[i];
        assert(names[k] == found[i]);
    } else {
        assert(found[i] == names.last());
        assert(names[names.len() - 1] == found[i]);
    }
}

/// The URL is the last argument of either program.
pub proof fn law_url_comes_last(request: RequestView, cookies: Seq<char>, place: Seq<char>)
    ensures
        yt_dlp_arguments(request, cookies, place).last() == request.url,
        gallery_dl_arguments(request.url, cookies, place).last() == request.url,
{
}

} // verus!
