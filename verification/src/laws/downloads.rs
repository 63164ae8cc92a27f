//! Which program fetches a link, and what it is told.

use vstd::prelude::*;

use crate::download;
use crate::media::downloader::{
    USER_AGENT, clip_timestamp, download_arguments, takes_yt_dlp, video_budget,
};
use crate::media::request::{ClipRange, DownloadMode};
use crate::number::decimal;
use crate::paths::joined_path;
use crate::text::{contains_text, occurs_at};

verus! {

/// Whether `part` stands somewhere in `text`.
pub open spec fn mentions(text: Seq<char>, part: Seq<char>) -> bool {
    exists|before: Seq<char>, after: Seq<char>| text == #[trigger] (before + part + after)
}

/// Whether an option is passed with a value.
pub open spec fn passes(arguments: Seq<Seq<char>>, option: Seq<char>, value: Seq<char>) -> bool {
    exists|k: int|
        0 <= k < arguments.len() - 1 && #[trigger] arguments[k] == option && arguments[k + 1]
            == value
}

/// Searching a text finds exactly what stands in it.
pub proof fn law_searching_finds_what_is_there(text: Seq<char>, part: Seq<char>)
    ensures
        contains_text(text, part) <==> mentions(text, part),
{
    if contains_text(text, part) {
        let at = choose|at: int| occurs_at(text, part, at);
        let before = text.take(at);
        let after = text.skip(at + part.len());
        assert(text =~= before + part + after);
    }
    if mentions(text, part) {
        let (before, after) = choose|before: Seq<char>, after: Seq<char>|
            text == #[trigger] (before + part + after);
        assert(text.subrange(before.len() as int, (before.len() + part.len()) as int) =~= part);
        assert(occurs_at(text, part, before.len() as int));
    }
}

/// Whether a link leads to a site whose videos yt-dlp knows.
pub open spec fn on_video_site(url: Seq<char>) -> bool {
    ||| mentions(url, "youtube.com/"@)
    ||| mentions(url, "youtu.be/"@)
    ||| mentions(url, "instagram.com/share/"@)
    ||| mentions(url, "instagram.com/reel/"@)
    ||| mentions(url, "instagram.com/reels/"@)
    ||| mentions(url, "instagram.com/tv/"@)
    ||| mentions(url, "x.com/i/broadcasts/"@)
    ||| mentions(url, "tiktok.com/"@)
}

/// Whether a link leads to YouTube.
pub open spec fn on_youtube(url: Seq<char>) -> bool {
    mentions(url, "youtube.com/"@) || mentions(url, "youtu.be/"@)
}

proof fn lemma_sites(url: Seq<char>)
    ensures
        contains_text(url, "youtube.com/"@) == mentions(url, "youtube.com/"@),
        contains_text(url, "youtu.be/"@) == mentions(url, "youtu.be/"@),
        contains_text(url, "instagram.com/share/"@) == mentions(url, "instagram.com/share/"@),
        contains_text(url, "instagram.com/reel/"@) == mentions(url, "instagram.com/reel/"@),
        contains_text(url, "instagram.com/reels/"@) == mentions(url, "instagram.com/reels/"@),
        contains_text(url, "instagram.com/tv/"@) == mentions(url, "instagram.com/tv/"@),
        contains_text(url, "x.com/i/broadcasts/"@) == mentions(url, "x.com/i/broadcasts/"@),
        contains_text(url, "tiktok.com/"@) == mentions(url, "tiktok.com/"@),
        contains_text(url, "tiktok.com"@) == mentions(url, "tiktok.com"@),
{
    law_searching_finds_what_is_there(url, "youtube.com/"@);
    law_searching_finds_what_is_there(url, "youtu.be/"@);
    law_searching_finds_what_is_there(url, "instagram.com/share/"@);
    law_searching_finds_what_is_there(url, "instagram.com/reel/"@);
    law_searching_finds_what_is_there(url, "instagram.com/reels/"@);
    law_searching_finds_what_is_there(url, "instagram.com/tv/"@);
    law_searching_finds_what_is_there(url, "x.com/i/broadcasts/"@);
    law_searching_finds_what_is_there(url, "tiktok.com/"@);
    law_searching_finds_what_is_there(url, "tiktok.com"@);
}

// ---------------------------------------------------------------------------
// Which program
// ---------------------------------------------------------------------------

/// Sound and clips are fetched by yt-dlp from wherever they are; videos are if
/// they lie on a site that it knows, and by gallery-dl otherwise.
pub proof fn law_video_sites_are_fetched_by_yt_dlp(url: Seq<char>, mode: DownloadMode)
    ensures
        mode is Audio || mode is Clip ==> takes_yt_dlp(url, mode),
        mode is Video ==> (takes_yt_dlp(url, mode) <==> on_video_site(url)),
        on_youtube(url) ==> takes_yt_dlp(url, mode),
{
    lemma_sites(url);
}

/// Whatever stands before and after the name of such a site, the link is fetched
/// by yt-dlp.
pub proof fn law_links_to_video_sites_are_recognised(
    before: Seq<char>,
    after: Seq<char>,
    mode: DownloadMode,
)
    ensures
        takes_yt_dlp(before + "youtube.com/"@ + after, mode),
        takes_yt_dlp(before + "youtu.be/"@ + after, mode),
        takes_yt_dlp(before + "instagram.com/share/"@ + after, mode),
        takes_yt_dlp(before + "instagram.com/reel/"@ + after, mode),
        takes_yt_dlp(before + "instagram.com/reels/"@ + after, mode),
        takes_yt_dlp(before + "instagram.com/tv/"@ + after, mode),
        takes_yt_dlp(before + "x.com/i/broadcasts/"@ + after, mode),
        takes_yt_dlp(before + "tiktok.com/"@ + after, mode),
{
    law_video_sites_are_fetched_by_yt_dlp(before + "youtube.com/"@ + after, mode);
    law_video_sites_are_fetched_by_yt_dlp(before + "youtu.be/"@ + after, mode);
    law_video_sites_are_fetched_by_yt_dlp(before + "instagram.com/share/"@ + after, mode);
    law_video_sites_are_fetched_by_yt_dlp(before + "instagram.com/reel/"@ + after, mode);
    law_video_sites_are_fetched_by_yt_dlp(before + "instagram.com/reels/"@ + after, mode);
    law_video_sites_are_fetched_by_yt_dlp(before + "instagram.com/tv/"@ + after, mode);
    law_video_sites_are_fetched_by_yt_dlp(before + "x.com/i/broadcasts/"@ + after, mode);
    law_video_sites_are_fetched_by_yt_dlp(before + "tiktok.com/"@ + after, mode);
}

// ---------------------------------------------------------------------------
// What the program is told
// ---------------------------------------------------------------------------

proof fn lemma_passes(arguments: Seq<Seq<char>>, k: int)
    requires
        0 <= k < arguments.len() - 1,
    ensures
        passes(arguments, arguments[k], arguments[k + 1]),
{
}

/// The browser that the downloaders claim to be.
pub proof fn law_downloaders_claim_to_be_a_browser()
    ensures
        USER_AGENT@
            == "Mozilla/5.0 (X11; Linux x86_64; rv:131.0) Gecko/20100101 Firefox/131.0"@,
{
}

/// Whatever yt-dlp fetches, it puts the file into the workspace, reads the
/// cookies, reports its progress line by line, and fetches that one link and no
/// playlist.
pub proof fn law_yt_dlp_fetches_one_link_into_the_workspace(
    url: Seq<char>,
    mode: DownloadMode,
    cookie_file: Seq<char>,
    workspace: Seq<char>,
    max_upload_bytes: u64,
)
    requires
        takes_yt_dlp(url, mode),
        workspace.len() > 0,
        workspace.last() != '/',
    ensures
        ({
            let arguments = download_arguments(
                url,
                mode,
                cookie_file,
                workspace,
                max_upload_bytes,
            );
            &&& passes(arguments, "-o"@, workspace + "/media.%(ext)s"@)
            &&& passes(arguments, "--cookies"@, cookie_file)
            &&& passes(arguments, "--user-agent"@, USER_AGENT@)
            &&& arguments.contains("--newline"@)
            &&& passes(
                arguments,
                "--progress-template"@,
                "download:download:%(progress._percent_str)s"@,
            )
            &&& passes(arguments, "--no-playlist"@, url)
            &&& arguments.last() == url
        }),
{
    let arguments = download_arguments(url, mode, cookie_file, workspace, max_upload_bytes);
    reveal_strlit("media.%(ext)s");
    reveal_strlit("/media.%(ext)s");
    reveal_strlit("/");
    assert(joined_path(workspace, "media.%(ext)s"@) =~= workspace + "/media.%(ext)s"@);
    lemma_passes(arguments, 0);
    lemma_passes(arguments, 2);
    lemma_passes(arguments, 4);
    assert(arguments[6] == "--newline"@);
    lemma_passes(arguments, 7);
    lemma_passes(arguments, arguments.len() - 2);
}

/// What gallery-dl fetches goes into the workspace, with the cookies.
pub proof fn law_gallery_dl_fetches_into_the_workspace(
    url: Seq<char>,
    mode: DownloadMode,
    cookie_file: Seq<char>,
    workspace: Seq<char>,
    max_upload_bytes: u64,
)
    requires
        !takes_yt_dlp(url, mode),
    ensures
        download_arguments(url, mode, cookie_file, workspace, max_upload_bytes) == seq![
            "--cookies"@,
            cookie_file,
            "--user-agent"@,
            USER_AGENT@,
            "-D"@,
            workspace,
            url,
        ],
{
}

/// Sound is extracted as an MP3 of the best quality, with its tags and its cover.
pub proof fn law_sound_is_extracted(
    url: Seq<char>,
    cookie_file: Seq<char>,
    workspace: Seq<char>,
    max_upload_bytes: u64,
)
    ensures
        ({
            let arguments = download_arguments(
                url,
                DownloadMode::Audio,
                cookie_file,
                workspace,
                max_upload_bytes,
            );
            &&& arguments.contains("--extract-audio"@)
            &&& passes(arguments, "--audio-format"@, "mp3"@)
            &&& passes(arguments, "--audio-quality"@, "0"@)
            &&& arguments.contains("--embed-metadata"@)
            &&& arguments.contains("--embed-thumbnail"@)
            &&& arguments.len() == 18
        }),
{
    let arguments = download_arguments(
        url,
        DownloadMode::Audio,
        cookie_file,
        workspace,
        max_upload_bytes,
    );
    assert(arguments[9] == "--extract-audio"@);
    lemma_passes(arguments, 10);
    lemma_passes(arguments, 12);
    assert(arguments[14] == "--embed-metadata"@);
    assert(arguments[15] == "--embed-thumbnail"@);
}

/// The formats of videos that are neither limited in height nor in size: on
/// TikTok those that it offers, elsewhere MP4 without the newest codecs.
pub open spec fn unlimited_format(url: Seq<char>) -> Seq<char> {
    if mentions(url, "tiktok.com"@) {
        "bestvideo[ext=mp4][vcodec=h264]+bestaudio[ext=m4a]/best[ext=mp4][vcodec=h264]/best"@
    } else {
        "bestvideo[vcodec!*=av01][vcodec!*=vp9][ext=mp4]+bestaudio[ext=m4a]/best[ext=mp4]/best"@
    }
}

/// A clip is cut where it was asked for, exactly, out of whatever format is best.
pub proof fn law_clips_are_cut_where_they_were_asked_for(
    url: Seq<char>,
    range: ClipRange,
    cookie_file: Seq<char>,
    workspace: Seq<char>,
    max_upload_bytes: u64,
)
    ensures
        ({
            let arguments = download_arguments(
                url,
                DownloadMode::Clip(range),
                cookie_file,
                workspace,
                max_upload_bytes,
            );
            &&& passes(
                arguments,
                "--download-sections"@,
                "*"@ + clip_timestamp(range.starts().total_millis()) + "-"@ + clip_timestamp(
                    range.ends().total_millis(),
                ),
            )
            &&& arguments.contains("--force-keyframes-at-cuts"@)
            &&& passes(arguments, "-f"@, unlimited_format(url))
            &&& arguments.len() == 16
        }),
{
    let arguments = download_arguments(
        url,
        DownloadMode::Clip(range),
        cookie_file,
        workspace,
        max_upload_bytes,
    );
    lemma_sites(url);
    lemma_passes(arguments, 9);
    lemma_passes(arguments, 11);
    assert(arguments[13] == "--force-keyframes-at-cuts"@);
}

/// The formats up to a height, none of which goes beyond it.
pub open spec fn format_up_to(height: nat) -> Seq<char> {
    "bestvideo[height<="@ + decimal(height)
        + "][vcodec!*=av01][vcodec!*=vp9][ext=mp4]+bestaudio[ext=m4a]/best[height<="@ + decimal(
        height,
    ) + "][ext=mp4]/best[height<="@ + decimal(height) + "]"@
}

/// Away from YouTube a video is chosen up to the height that was asked for, or
/// without regard to it if none was. The upload limit plays no part.
pub proof fn law_heights_are_heeded(
    url: Seq<char>,
    max_height: Option<u32>,
    cookie_file: Seq<char>,
    workspace: Seq<char>,
    max_upload_bytes: u64,
)
    requires
        on_video_site(url),
        !on_youtube(url),
    ensures
        ({
            let arguments = download_arguments(
                url,
                DownloadMode::Video { max_height },
                cookie_file,
                workspace,
                max_upload_bytes,
            );
            &&& max_height matches Some(height) ==> passes(
                arguments,
                "-f"@,
                format_up_to(height as nat),
            )
            &&& max_height is None ==> passes(arguments, "-f"@, unlimited_format(url))
            &&& arguments.len() == 13
        }),
{
    let arguments = download_arguments(
        url,
        DownloadMode::Video { max_height },
        cookie_file,
        workspace,
        max_upload_bytes,
    );
    lemma_sites(url);
    lemma_passes(arguments, 9);
}

/// The formats on YouTube: MP4 with H.264 up to the height, first those whose
/// picture keeps to `picture` bytes, then those that keep to `whole` bytes, then
/// any up to the height.
pub open spec fn youtube_formats(
    picture: nat,
    whole: nat,
    height: Seq<char>,
    otherwise: Seq<char>,
) -> Seq<char> {
    "bestvideo[ext=mp4][vcodec^=avc1]"@ + height + "[filesize<"@ + decimal(picture)
        + "]+bestaudio[ext=m4a]/"@ + "bestvideo[ext=mp4][vcodec^=avc1]"@ + height
        + "[filesize_approx<"@ + decimal(picture) + "]+bestaudio[ext=m4a]/"@
        + "best[ext=mp4][vcodec^=avc1]"@ + height + "[filesize<"@ + decimal(whole) + "]/"@
        + "best[ext=mp4][vcodec^=avc1]"@ + height + "[filesize_approx<"@ + decimal(whole) + "]/"@
        + otherwise
}

/// On YouTube formats are preferred that fit the upload limit, of which the
/// picture may take nine tenths, up to the height that was asked for.
pub proof fn law_youtube_formats_fit_the_upload_limit(
    url: Seq<char>,
    max_height: Option<u32>,
    cookie_file: Seq<char>,
    workspace: Seq<char>,
    max_upload_bytes: u64,
)
    requires
        on_youtube(url),
        max_upload_bytes * 90 <= u64::MAX,
    ensures
        ({
            let arguments = download_arguments(
                url,
                DownloadMode::Video { max_height },
                cookie_file,
                workspace,
                max_upload_bytes,
            );
            let picture = max_upload_bytes as nat * 9 / 10;
            &&& max_height matches Some(height) ==> passes(
                arguments,
                "-f"@,
                youtube_formats(
                    picture,
                    max_upload_bytes as nat,
                    "[height<="@ + decimal(height as nat) + "]"@,
                    format_up_to(height as nat),
                ),
            )
            &&& max_height is None ==> passes(
                arguments,
                "-f"@,
                youtube_formats(
                    picture,
                    max_upload_bytes as nat,
                    Seq::empty(),
                    "bestvideo[vcodec!*=av01][vcodec!*=vp9][ext=mp4]+bestaudio[ext=m4a]/best[ext=mp4]/best"@,
                ),
            )
            &&& arguments.len() == 13
        }),
{
    let arguments = download_arguments(
        url,
        DownloadMode::Video { max_height },
        cookie_file,
        workspace,
        max_upload_bytes,
    );
    lemma_sites(url);
    law_the_picture_takes_nine_tenths(max_upload_bytes);
    lemma_passes(arguments, 9);
}

/// The picture may take nine tenths of the upload limit, as far as 64 bits can
/// tell.
pub proof fn law_the_picture_takes_nine_tenths(max_upload_bytes: u64)
    ensures
        max_upload_bytes * 90 <= u64::MAX ==> video_budget(max_upload_bytes)
            == max_upload_bytes as nat * 9 / 10,
        10 * video_budget(max_upload_bytes) <= 9 * max_upload_bytes,
        max_upload_bytes * 90 > u64::MAX ==> video_budget(max_upload_bytes) == (u64::MAX / 100),
{
}

// ---------------------------------------------------------------------------
// Plain downloads
// ---------------------------------------------------------------------------

/// A plain download is fetched by yt-dlp if it is sound, or lies on a site that
/// yt-dlp knows.
pub proof fn law_plain_downloads_choose_by_site(request: download::RequestView)
    ensures
        request.mode is Audio ==> download::takes_yt_dlp(request),
        request.mode is Video ==> (download::takes_yt_dlp(request) <==> (mentions(
            request.url,
            "youtube.com/"@,
        ) || mentions(request.url, "youtu.be/"@) || mentions(request.url, "instagram.com/share/"@)
            || mentions(request.url, "instagram.com/reels/"@) || mentions(
            request.url,
            "instagram.com/tv/"@,
        ) || mentions(request.url, "x.com/i/broadcasts/"@) || mentions(
            request.url,
            "tiktok.com/"@,
        ))),
{
    lemma_sites(request.url);
}

/// What yt-dlp is told in a plain download: where the file goes, which cookies to
/// read, what to keep, and the link.
pub proof fn law_plain_downloads_say_what_to_keep(
    request: download::RequestView,
    cookies: Seq<char>,
    base: Seq<char>,
)
    ensures
        ({
            let arguments = download::yt_dlp_arguments(request, cookies, base);
            &&& passes(arguments, "-o"@, base + ".%(ext)s"@)
            &&& passes(arguments, "--cookies"@, cookies)
            &&& passes(arguments, "--user-agent"@, USER_AGENT@)
            &&& arguments.last() == request.url
            &&& match request.mode {
                download::DownloadMode::Audio => {
                    &&& arguments.contains("--extract-audio"@)
                    &&& passes(arguments, "--audio-format"@, "mp3"@)
                    &&& passes(arguments, "--audio-quality"@, "0"@)
                    &&& arguments.contains("--embed-metadata"@)
                    &&& arguments.contains("--embed-thumbnail"@)
                    &&& arguments.len() == 14
                },
                download::DownloadMode::Video { max_height: Some(height) } => {
                    &&& passes(arguments, "-f"@, format_up_to(height as nat))
                    &&& arguments.len() == 9
                },
                download::DownloadMode::Video { max_height: None } => {
                    &&& on_youtube(request.url) ==> passes(arguments, "-t"@, "mp4"@)
                    &&& !on_youtube(request.url) ==> passes(
                        arguments,
                        "-f"@,
                        unlimited_format(request.url),
                    )
                    &&& arguments.len() == 9
                },
            }
        }),
{
    let arguments = download::yt_dlp_arguments(request, cookies, base);
    lemma_sites(request.url);
    lemma_passes(arguments, 0);
    lemma_passes(arguments, 2);
    lemma_passes(arguments, 4);
    lemma_passes(arguments, 6);
    if request.mode is Audio {
        assert(arguments[6] == "--extract-audio"@);
        lemma_passes(arguments, 7);
        lemma_passes(arguments, 9);
        assert(arguments[11] == "--embed-metadata"@);
        assert(arguments[12] == "--embed-thumbnail"@);
    }
}

/// What gallery-dl is told in a plain download.
pub proof fn law_plain_galleries_go_into_their_directory(
    url: Seq<char>,
    cookies: Seq<char>,
    directory: Seq<char>,
)
    ensures
        ({
            let arguments = download::gallery_dl_arguments(url, cookies, directory);
            &&& passes(arguments, "--cookies"@, cookies)
            &&& passes(arguments, "--user-agent"@, USER_AGENT@)
            &&& passes(arguments, "-D"@, directory)
            &&& arguments.last() == url
            &&& arguments.len() == 7
        }),
{
    let arguments = download::gallery_dl_arguments(url, cookies, directory);
    lemma_passes(arguments, 0);
    lemma_passes(arguments, 2);
    lemma_passes(arguments, 4);
}

} // verus!
