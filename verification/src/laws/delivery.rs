//! How what was downloaded is made fit for upload, and how it is sent.

use vstd::prelude::*;

use crate::laws::downloads::{law_searching_finds_what_is_there, mentions, passes};
use crate::laws::files::law_extensions_end_names;
use crate::media::command::OutcomeView;
use crate::media::delivery::{
    AlbumMedia, GalleryStep, GalleryView, Replacement, ReportView, UploadMeter, album_media,
    album_size, albums, fallback_failure, gallery_report, gallery_sound, gallery_step, in_flight,
    kind_of, name_or_nothing, read_after, report_due, turned,
};
use crate::media::pipeline::{
    DeliveryChoice, ItemStep, ItemsView, MediaKind, album_count, album_files, comes_before,
    cookies_for, delivered_as, delivery_choice, download_end, file_rank, item_failure, item_step,
    items_report, media_count, nothing_found_text,
};
use crate::media::request::DownloadOutcome;
use crate::media::transcode::{
    BitrateError, VideoPlan, names_mp4, oversize_text, transcode_arguments, transcode_failure,
    video_bitrate, video_plan,
};
use crate::number::decimal;
use crate::paths::file_name_in;
use crate::text::{ascii_lowered, equal_ignoring_ascii_case, lowered, text_less};
use crate::time::Duration;

verus! {

// ---------------------------------------------------------------------------
// Bitrates
// ---------------------------------------------------------------------------

/// The bitrate is the largest at which picture and sound together take at most
/// 85 percent of the upload limit. There is none if and only if that leaves less
/// than 200 kilobits for the picture, or the length is not known.
pub proof fn law_bitrates_use_the_upload_limit(max_upload_bytes: u64, duration_secs: i64)
    ensures
        duration_secs <= 0 ==> video_bitrate(max_upload_bytes, duration_secs) == Err::<u64, _>(
            BitrateError::UnknownDuration,
        ),
        duration_secs > 0 ==> (video_bitrate(max_upload_bytes, duration_secs) is Err
            <==> max_upload_bytes * 8 * 85 < 328_000 * 100 * duration_secs),
        duration_secs > 0 && video_bitrate(max_upload_bytes, duration_secs) is Err ==> video_bitrate(
            max_upload_bytes,
            duration_secs,
        ) == Err::<u64, _>(BitrateError::LimitTooSmall),
        video_bitrate(max_upload_bytes, duration_secs) matches Ok(bitrate) ==> bitrate >= 200_000
            && (bitrate + 128_000) * duration_secs * 100 <= max_upload_bytes * 8 * 85 && (bitrate
            == u64::MAX || (bitrate + 1 + 128_000) * duration_secs * 100 > max_upload_bytes * 8 * 85),
{
    if duration_secs > 0 {
        let total = max_upload_bytes as int * 8 * 85;
        let hundredth = total / 100;
        let length = duration_secs as int;
        let bits = hundredth / length;
        vstd::arithmetic::div_mod::lemma_fundamental_div_mod(hundredth, length);
        let rest = hundredth % length;
        assert(0 <= rest < length) by {
            vstd::arithmetic::div_mod::lemma_mod_bound(hundredth, length);
        }
        assert(hundredth == length * bits + rest);
        assert(hundredth * 100 <= total < hundredth * 100 + 100);
        assert(bits < 328_000 <==> hundredth < 328_000 * length) by (nonlinear_arith)
            requires
                hundredth == length * bits + rest,
                0 <= rest < length,
        ;
        assert(hundredth < 328_000 * length <==> total < 328_000 * length * 100);
        assert(328_000 * length * 100 == 328_000 * 100 * duration_secs) by (nonlinear_arith)
            requires
                length == duration_secs,
        ;
        if let Ok(bitrate) = video_bitrate(max_upload_bytes, duration_secs) {
            let rate = bitrate as int + 128_000;
            assert(rate <= bits);
            assert(rate * length <= length * bits) by (nonlinear_arith)
                requires
                    rate <= bits,
                    length > 0,
            ;
            assert(rate * length * 100 <= total);
            if bitrate < u64::MAX {
                assert(rate == bits);
                assert((rate + 1) * length > hundredth) by (nonlinear_arith)
                    requires
                        rate == bits,
                        hundredth == length * bits + rest,
                        rest < length,
                ;
                assert((rate + 1) * length * 100 > total);
                assert((bitrate + 1 + 128_000) == rate + 1);
            }
        }
    }
}

/// A larger upload limit never means a smaller bitrate, nor a refusal where there
/// was none.
pub proof fn law_larger_limits_allow_more(one: u64, other: u64, duration_secs: i64)
    requires
        one <= other,
        video_bitrate(one, duration_secs) is Ok,
    ensures
        video_bitrate(other, duration_secs) is Ok,
        video_bitrate(one, duration_secs)->Ok_0 <= video_bitrate(other, duration_secs)->Ok_0,
{
    law_bitrates_use_the_upload_limit(one, duration_secs);
    law_bitrates_use_the_upload_limit(other, duration_secs);
    let smaller = video_bitrate(one, duration_secs)->Ok_0 as int;
    let larger = video_bitrate(other, duration_secs)->Ok_0 as int;
    if smaller > larger {
        let length = duration_secs as int;
        assert((larger + 1 + 128_000) * length <= (smaller + 128_000) * length) by (nonlinear_arith)
            requires
                larger + 1 <= smaller,
                length > 0,
        ;
    }
}

// ---------------------------------------------------------------------------
// What is converted
// ---------------------------------------------------------------------------

/// Whatever its directory and its name are, a file whose extension is `mp4`, in
/// any letter case, is one, and a file with another extension is not.
pub proof fn law_mp4_files_are_known_by_their_extension(
    base: Seq<char>,
    stem: Seq<char>,
    extension: Seq<char>,
)
    requires
        stem.len() > 0,
        !stem.contains('/'),
        !extension.contains('/'),
        !extension.contains('.'),
        extension.len() > 0,
    ensures
        names_mp4(base + "/"@ + stem + "."@ + extension) <==> equal_ignoring_ascii_case(
            extension,
            "mp4"@,
        ),
{
    law_extensions_end_names(base, stem, extension);
}

/// A video is sent as it is if it is an MP4 with H.264 that fits; otherwise it is
/// converted, unless the job is cancelled. One that is too large is converted at
/// the bitrate that fits, or not at all if there is none; one that fits is
/// converted at a constant quality.
pub proof fn law_videos_are_made_fit(
    path: Seq<char>,
    codec: Seq<char>,
    duration_secs: i64,
    file_size: u64,
    max_upload_bytes: u64,
    cancelled: bool,
)
    ensures
        ({
            let plan = video_plan(
                path,
                codec,
                duration_secs,
                file_size,
                max_upload_bytes,
                cancelled,
            );
            let fits = file_size <= max_upload_bytes;
            let fit = names_mp4(path) && codec == "h264"@ && fits;
            &&& fit ==> plan == VideoPlan::Keep
            &&& !fit && cancelled ==> plan == VideoPlan::Cancelled
            &&& !fit && !cancelled && fits ==> plan == (VideoPlan::Transcode { bitrate: None })
            &&& !fits && !cancelled ==> match video_bitrate(max_upload_bytes, duration_secs) {
                Ok(bitrate) => plan == (VideoPlan::Transcode { bitrate: Some(bitrate) }),
                Err(error) => plan == VideoPlan::Impossible(error),
            }
        }),
{
}

/// A too large video of known length is converted whenever 328 kilobits a second
/// fit into 85 percent of the limit, and then to something that fits.
pub proof fn law_large_videos_are_converted_to_fit(
    path: Seq<char>,
    codec: Seq<char>,
    duration_secs: i64,
    file_size: u64,
    max_upload_bytes: u64,
)
    requires
        file_size > max_upload_bytes,
        duration_secs > 0,
        max_upload_bytes * 8 * 85 >= 328_000 * 100 * duration_secs,
    ensures
        video_plan(path, codec, duration_secs, file_size, max_upload_bytes, false) matches VideoPlan::Transcode {
            bitrate: Some(bitrate),
        } && (bitrate + 128_000) * duration_secs <= max_upload_bytes * 8,
{
    law_bitrates_use_the_upload_limit(max_upload_bytes, duration_secs);
    let bitrate = video_bitrate(max_upload_bytes, duration_secs)->Ok_0;
    assert((bitrate + 128_000) * duration_secs * 100 <= max_upload_bytes * 8 * 85);
}

pub proof fn lemma_passes(arguments: Seq<Seq<char>>, k: int)
    requires
        0 <= k < arguments.len() - 1,
    ensures
        passes(arguments, arguments[k], arguments[k + 1]),
{
}

/// A video is converted from its file into another: to H.264 and AAC, at most in
/// full high definition, with its first picture and sound, so that it can be
/// watched while it loads.
pub proof fn law_conversions_say_what_comes_out(
    input: Seq<char>,
    output: Seq<char>,
    bitrate: Option<u64>,
)
    ensures
        ({
            let arguments = transcode_arguments(input, output, bitrate);
            &&& arguments[0] == "-y"@
            &&& passes(arguments, "-loglevel"@, "error"@)
            &&& passes(arguments, "-i"@, input)
            &&& passes(arguments, "-map"@, "0:v:0"@)
            &&& passes(arguments, "-map"@, "0:a:0?"@)
            &&& arguments.contains("-sn"@)
            &&& arguments.contains("-dn"@)
            &&& passes(arguments, "-c:v"@, "libx264"@)
            &&& passes(arguments, "-preset"@, "medium"@)
            &&& passes(arguments, "-pix_fmt"@, "yuv420p"@)
            &&& passes(
                arguments,
                "-vf"@,
                "scale=min(1920\\,iw):min(1080\\,ih):force_original_aspect_ratio=decrease:force_divisible_by=2,setsar=1"@,
            )
            &&& passes(arguments, "-c:a"@, "aac"@)
            &&& passes(arguments, "-b:a"@, "128k"@)
            &&& passes(arguments, "-ac"@, "2"@)
            &&& passes(arguments, "-progress"@, "pipe:1"@)
            &&& arguments.contains("-nostats"@)
            &&& passes(arguments, "-movflags"@, "+faststart"@)
            &&& passes(arguments, "-tag:v"@, "avc1"@)
            &&& arguments.last() == output
        }),
{
    let arguments = transcode_arguments(input, output, bitrate);
    lemma_passes(arguments, 2);
    lemma_passes(arguments, 4);
    lemma_passes(arguments, 6);
    lemma_passes(arguments, 8);
    assert(arguments[10] == "-sn"@);
    assert(arguments[11] == "-dn"@);
    lemma_passes(arguments, 12);
    lemma_passes(arguments, 14);
    lemma_passes(arguments, 16);
    lemma_passes(arguments, 18);
    lemma_passes(arguments, 20);
    lemma_passes(arguments, 22);
    lemma_passes(arguments, 24);
    lemma_passes(arguments, arguments.len() - 8);
    assert(arguments[arguments.len() - 6] == "-nostats"@);
    lemma_passes(arguments, arguments.len() - 5);
    lemma_passes(arguments, arguments.len() - 3);
}

/// A conversion keeps to the bitrate that it is given, with a buffer of two
/// seconds, and to a constant quality without one.
pub proof fn law_conversions_keep_to_the_bitrate(input: Seq<char>, output: Seq<char>, bitrate: u64)
    ensures
        ({
            let arguments = transcode_arguments(input, output, Some(bitrate));
            &&& passes(arguments, "-b:v"@, decimal(bitrate as nat))
            &&& passes(arguments, "-maxrate"@, decimal(bitrate as nat))
            &&& bitrate * 2 <= u64::MAX ==> passes(
                arguments,
                "-bufsize"@,
                decimal((bitrate * 2) as nat),
            )
            &&& arguments.len() == 40
        }),
        ({
            let arguments = transcode_arguments(input, output, None);
            &&& passes(arguments, "-crf"@, "23"@)
            &&& arguments.len() == 36
        }),
{
    let fixed = transcode_arguments(input, output, Some(bitrate));
    lemma_passes(fixed, 26);
    lemma_passes(fixed, 28);
    lemma_passes(fixed, 30);
    let open = transcode_arguments(input, output, None);
    lemma_passes(open, 26);
}

/// Why a video cannot be made fit is told in words.
pub proof fn law_bitrate_errors_are_told(error: BitrateError)
    ensures
        error is UnknownDuration ==> error.says() == "cannot resize a video with unknown duration"@,
        error is LimitTooSmall ==> error.says()
            == "the configured upload limit is too small for this video's duration"@,
{
}

/// A conversion has failed unless ffmpeg ended well; it says why.
pub proof fn law_failed_conversions_say_why(
    success: bool,
    stdout: Seq<char>,
    stderr: Seq<char>,
    timeout: Duration,
)
    ensures
        transcode_failure(OutcomeView::Finished { success: true, stdout, stderr }, timeout) is None,
        transcode_failure(OutcomeView::Finished { success: false, stdout, stderr }, timeout) == Some(
            "ffmpeg could not prepare the video: "@ + stderr,
        ),
        transcode_failure(OutcomeView::Cancelled, timeout) == Some("cancelled"@),
        transcode_failure(OutcomeView::TimedOut, timeout) == Some(
            "ffmpeg timed out after "@ + decimal(timeout.whole_seconds()) + " seconds"@,
        ),
{
}

/// What is said of a converted video that is still too large: both sizes, in
/// mebibytes.
pub proof fn law_oversize_is_told_in_mebibytes(size: u64, limit: u64)
    ensures
        oversize_text((size / 1_048_576 * 1_048_576) as u64, limit) == oversize_text(size, limit),
        oversize_text(size, limit) == "prepared video is still too large ("@ + decimal(
            size as nat / 1_048_576,
        ) + " MiB; limit "@ + decimal(limit as nat / 1_048_576) + " MiB)"@,
{
    assert(size / 1_048_576 * 1_048_576 <= size);
}

// ---------------------------------------------------------------------------
// After the download
// ---------------------------------------------------------------------------

/// The cookies of Instagram go with its links, if there are any, and with no
/// others.
pub proof fn law_cookies_go_with_their_site(url: Seq<char>, instagram_cookies_exist: bool)
    ensures
        mentions(url, "instagram.com/"@) && instagram_cookies_exist ==> cookies_for(
            url,
            instagram_cookies_exist,
        ) == "instacookies.txt"@,
        !mentions(url, "instagram.com/"@) || !instagram_cookies_exist ==> cookies_for(
            url,
            instagram_cookies_exist,
        ) == "cookies.txt"@,
{
    law_searching_finds_what_is_there(url, "instagram.com/"@);
}

/// A job goes on after a download that ended well, and after no other: it is then
/// cancelled, or has failed and says why.
pub proof fn law_jobs_go_on_after_good_downloads(
    stdout: Seq<char>,
    stderr: Seq<char>,
    program: Seq<char>,
    timeout: Duration,
)
    ensures
        download_end(
            OutcomeView::Finished { success: true, stdout, stderr },
            program,
            timeout,
        ) is None,
        download_end(OutcomeView::Cancelled, program, timeout) == Some(
            (ReportView::Rest, DownloadOutcome::Cancelled),
        ),
        download_end(OutcomeView::TimedOut, program, timeout) == Some(
            (
                ReportView::Fail(
                    program + " timed out after "@ + decimal(timeout.whole_seconds())
                        + " seconds"@,
                ),
                DownloadOutcome::Failed,
            ),
        ),
        ({
            let end = download_end(
                OutcomeView::Finished { success: false, stdout, stderr },
                program,
                timeout,
            );
            &&& stderr.len() > 0 ==> end == Some(
                (
                    ReportView::Fail(program + " download error: "@ + stderr),
                    DownloadOutcome::Failed,
                ),
            )
            &&& stderr.len() == 0 && stdout.len() > 0 ==> end == Some(
                (
                    ReportView::Fail(program + " download error: "@ + stdout),
                    DownloadOutcome::Failed,
                ),
            )
            &&& stderr.len() == 0 && stdout.len() == 0 ==> end == Some(
                (
                    ReportView::Fail(program + " download error: "@ + "Unknown error"@),
                    DownloadOutcome::Failed,
                ),
            )
        }),
        nothing_found_text(program, true) == program
            + " finished, but its output file was not found"@,
        nothing_found_text(program, false) == program
            + " finished without producing a media file"@,
{
}

/// A plain download goes on after a good end; one that was stopped rests, and one
/// that failed says why.
pub proof fn law_plain_downloads_go_on_after_a_good_end(
    stdout: Seq<char>,
    stderr: Seq<char>,
    program: Seq<char>,
)
    ensures
        crate::download::download_end(
            OutcomeView::Finished { success: true, stdout, stderr },
            program,
        ) is None,
        crate::download::download_end(OutcomeView::Cancelled, program) == Some(
            (ReportView::Rest, DownloadOutcome::Cancelled),
        ),
        crate::download::download_end(OutcomeView::TimedOut, program) == Some(
            (ReportView::Rest, DownloadOutcome::Cancelled),
        ),
        ({
            let end = crate::download::download_end(
                OutcomeView::Finished { success: false, stdout, stderr },
                program,
            );
            &&& stderr.len() > 0 ==> end == Some(
                (
                    ReportView::Fail(program + " download error: "@ + stderr),
                    DownloadOutcome::Failed,
                ),
            )
            &&& stderr.len() == 0 && stdout.len() > 0 ==> end == Some(
                (
                    ReportView::Fail(program + " download error: "@ + stdout),
                    DownloadOutcome::Failed,
                ),
            )
            &&& stderr.len() == 0 && stdout.len() == 0 ==> end == Some(
                (
                    ReportView::Fail(program + " download error: "@ + "Unknown error"@),
                    DownloadOutcome::Failed,
                ),
            )
        }),
{
}

// ---------------------------------------------------------------------------
// What files are, and their order
// ---------------------------------------------------------------------------

/// A file is sent as what its MIME type says: a video, a picture or a track; and
/// an album takes pictures and videos alone.
pub proof fn law_files_are_sent_as_what_they_are(kind: Seq<char>, essence: Seq<char>)
    ensures
        delivered_as(Some(("video"@, essence))) == MediaKind::Video,
        delivered_as(Some(("image"@, essence))) == MediaKind::Image,
        delivered_as(Some(("audio"@, essence))) == MediaKind::Audio,
        kind != "video"@ && kind != "image"@ && kind != "audio"@ ==> delivered_as(
            Some((kind, essence)),
        ) == MediaKind::Other,
        delivered_as(None) == MediaKind::Other,
        kind_of(Some((kind, essence))).3 == Some(essence),
        album_media(kind_of(Some(("video"@, essence)))) == Some(AlbumMedia::Video),
        album_media(kind_of(Some(("image"@, essence)))) == Some(AlbumMedia::Photo),
        kind != "video"@ && kind != "image"@ ==> album_media(kind_of(Some((kind, essence)))) is None,
        album_media(kind_of(None)) is None,
{
    reveal_strlit("video");
    reveal_strlit("image");
    reveal_strlit("audio");
    assert("video"@[0] != "image"@[0]);
    assert("audio"@[0] != "image"@[0]);
    assert("audio"@[0] != "video"@[0]);
}

proof fn lemma_ending(stem: Seq<char>, ending: Seq<char>, small: Seq<char>)
    requires
        vstd::utf8::is_ascii_chars(stem + ending),
        ascii_lowered(ending) == small,
    ensures
        small.is_suffix_of(lowered(stem + ending)),
{
    let whole = ascii_lowered(stem + ending);
    assert(whole =~= ascii_lowered(stem) + ascii_lowered(ending));
    assert(whole.subrange(whole.len() - small.len(), whole.len() as int) =~= small);
}

/// Files that end like videos rank first, whatever the case of their endings.
pub proof fn law_videos_rank_first(stem: Seq<char>, ending: Seq<char>)
    requires
        vstd::utf8::is_ascii_chars(stem + ending),
        ascii_lowered(ending) == ".mp4"@ || ascii_lowered(ending) == ".mkv"@ || ascii_lowered(ending)
            == ".webm"@ || ascii_lowered(ending) == ".mov"@,
    ensures
        file_rank(stem + ending) == 0,
{
    lemma_ending(stem, ending, ascii_lowered(ending));
}

/// Files that end like pictures come no later than second.
pub proof fn law_pictures_rank_second(stem: Seq<char>, ending: Seq<char>)
    requires
        vstd::utf8::is_ascii_chars(stem + ending),
        ascii_lowered(ending) == ".jpg"@ || ascii_lowered(ending) == ".jpeg"@ || ascii_lowered(
            ending,
        ) == ".png"@ || ascii_lowered(ending) == ".gif"@ || ascii_lowered(ending) == ".webp"@,
    ensures
        file_rank(stem + ending) == 1,
{
    lemma_ending(stem, ending, ascii_lowered(ending));
    let path = lowered(stem + ending);
    let last = path.last();
    reveal_strlit(".mp4");
    reveal_strlit(".mkv");
    reveal_strlit(".webm");
    reveal_strlit(".mov");
    reveal_strlit(".jpg");
    reveal_strlit(".jpeg");
    reveal_strlit(".png");
    reveal_strlit(".gif");
    reveal_strlit(".webp");
    assert(last == ascii_lowered(ending).last()) by {
        let small = ascii_lowered(ending);
        assert(path.subrange(path.len() - small.len(), path.len() as int).last() == small.last());
    }
    if ".mp4"@.is_suffix_of(path) {
        assert(path.subrange(path.len() - 4, path.len() as int).last() == ".mp4"@.last());
    }
    if ".mkv"@.is_suffix_of(path) {
        assert(path.subrange(path.len() - 4, path.len() as int).last() == ".mkv"@.last());
    }
    if ".webm"@.is_suffix_of(path) {
        assert(path.subrange(path.len() - 5, path.len() as int).last() == ".webm"@.last());
    }
    if ".mov"@.is_suffix_of(path) {
        assert(path.subrange(path.len() - 4, path.len() as int).last() == ".mov"@.last());
    }
}

/// Files come by rank, and within a rank by name.
pub proof fn law_files_come_by_rank_and_name(one: Seq<char>, other: Seq<char>)
    ensures
        file_rank(one) < file_rank(other) ==> comes_before(one, other),
        file_rank(one) > file_rank(other) ==> !comes_before(one, other),
        file_rank(one) == file_rank(other) ==> (comes_before(one, other) <==> text_less(one, other)),
{
}

// ---------------------------------------------------------------------------
// Albums and items
// ---------------------------------------------------------------------------

/// Whether a file can be part of an album.
pub open spec fn is_picture_or_video(kind: MediaKind) -> bool {
    kind == MediaKind::Video || kind == MediaKind::Image
}

proof fn lemma_counts(kinds: Seq<MediaKind>)
    ensures
        album_count(kinds) == kinds.filter(|kind: MediaKind| is_picture_or_video(kind)).len(),
        media_count(kinds) == kinds.filter(|kind: MediaKind| kind != MediaKind::Other).len(),
    decreases kinds.len(),
{
    reveal(Seq::filter);
    if kinds.len() > 0 {
        lemma_counts(kinds.drop_last());
    }
}

/// Several pictures or videos of a gallery are sent as albums; everything else is
/// sent item by item, and a single result takes the place of the status message.
pub proof fn law_deliveries_suit_the_files(kinds: Seq<MediaKind>, use_yt_dlp: bool)
    ensures
        ({
            let pictures = kinds.filter(|kind: MediaKind| is_picture_or_video(kind)).len();
            let media = kinds.filter(|kind: MediaKind| kind != MediaKind::Other).len();
            let choice = delivery_choice(kinds, use_yt_dlp);
            &&& choice == DeliveryChoice::Nothing <==> kinds.len() == 0
            &&& choice == DeliveryChoice::Albums <==> !use_yt_dlp && pictures >= 2
            &&& kinds.len() > 0 && (use_yt_dlp || pictures < 2) ==> choice == (
            DeliveryChoice::Items { replace_status: media == 1 })
        }),
{
    lemma_counts(kinds);
    if kinds.len() == 0 {
        reveal(Seq::filter);
    }
}

/// Albums take the pictures and videos among the files, in their order.
pub proof fn law_albums_keep_the_order(files: Seq<Seq<char>>, kinds: Seq<MediaKind>)
    requires
        files.len() == kinds.len(),
    ensures
        album_files(files, kinds) == Seq::new(kinds.len(), |i: int| (files[i], kinds[i])).filter(
            |file: (Seq<char>, MediaKind)| is_picture_or_video(file.1),
        ).map_values(|file: (Seq<char>, MediaKind)| file.0),
    decreases kinds.len(),
{
    lemma_album_files(files, kinds);
}

proof fn lemma_album_files(files: Seq<Seq<char>>, kinds: Seq<MediaKind>)
    requires
        kinds.len() <= files.len(),
    ensures
        album_files(files, kinds) == Seq::new(kinds.len(), |i: int| (files[i], kinds[i])).filter(
            |file: (Seq<char>, MediaKind)| is_picture_or_video(file.1),
        ).map_values(|file: (Seq<char>, MediaKind)| file.0),
    decreases kinds.len(),
{
    reveal(Seq::filter);
    let wanted = |file: (Seq<char>, MediaKind)| is_picture_or_video(file.1);
    let name = |file: (Seq<char>, MediaKind)| file.0;
    let pairs = Seq::new(kinds.len(), |i: int| (files[i], kinds[i]));
    if kinds.len() > 0 {
        let fewer = kinds.drop_last();
        lemma_album_files(files, fewer);
        assert(pairs.drop_last() =~= Seq::new(fewer.len(), |i: int| (files[i], fewer[i])));
        assert(pairs.last() == (files[kinds.len() - 1], kinds.last()));
        if wanted(pairs.last()) {
            assert(pairs.filter(wanted) == pairs.drop_last().filter(wanted).push(pairs.last()));
            assert(pairs.filter(wanted).map_values(name) =~= pairs.drop_last().filter(
                wanted,
            ).map_values(name).push(files[kinds.len() - 1]));
        } else {
            assert(pairs.filter(wanted) == pairs.drop_last().filter(wanted));
        }
    } else {
        assert(pairs.filter(wanted).map_values(name) =~= Seq::empty());
    }
}

/// An album is full while ten items are left and more than one remains behind
/// them; eleven are divided into nine and two, and ten or fewer are one album.
pub proof fn law_albums_are_full(remaining: nat)
    ensures
        remaining >= 12 ==> album_size(remaining) == 10,
        remaining == 11 ==> albums(remaining) == seq![9nat, 2nat],
        1 <= remaining <= 10 ==> albums(remaining) == seq![remaining],
        remaining >= 12 ==> albums(remaining) == seq![10nat] + albums((remaining - 10) as nat),
        albums(0) == Seq::<nat>::empty(),
{
    reveal_with_fuel(albums, 3);
    if remaining == 11 {
        assert(albums(11) =~= seq![9nat, 2nat]);
    }
    if 1 <= remaining <= 10 {
        assert(albums(remaining) =~= seq![remaining]);
    }
}

/// Item by item every file has its turn, in order, until all have had it or the
/// job is cancelled.
pub proof fn law_every_file_has_its_turn(run: ItemsView, cancelled: bool)
    requires
        run.files.len() == run.kinds.len() <= usize::MAX,
    ensures
        item_step(run, cancelled) is Finished <==> run.index >= run.files.len(),
        run.index < run.files.len() && cancelled ==> item_step(run, cancelled)
            == ItemStep::Cancelled,
        run.index < run.files.len() && !cancelled ==> (item_step(run, cancelled) matches ItemStep::Deliver {
            index,
            kind,
        } && index == run.index && kind == run.kinds[run.index as int]),
{
}

/// What is said of a file that could not be sent, by its kind and name.
pub proof fn law_failed_files_are_named(
    program: Seq<char>,
    path: Seq<char>,
    error: Seq<char>,
)
    ensures
        ({
            let name = name_or_nothing(path);
            &&& item_failure(program, path, MediaKind::Video, error)
                == "could not process video "@ + name + ": "@ + error
            &&& item_failure(program, path, MediaKind::Image, error)
                == "could not upload image "@ + name + ": "@ + error
            &&& item_failure(program, path, MediaKind::Audio, error)
                == "could not upload audio "@ + name + ": "@ + error
            &&& item_failure(program, path, MediaKind::Other, error) == program
                + " produced an unsupported file: "@ + name
            &&& file_name_in(path) matches Some(found) ==> name == found
            &&& file_name_in(path) is None ==> name.len() == 0
        }),
{
}

/// How a job ends that sent its files item by item: with a failure if nothing was
/// sent; with its media in place of the status message if that was replaced; and
/// otherwise with a warning if anything went wrong, or without the status.
pub proof fn law_items_are_reported(run: ItemsView)
    ensures
        run.sent == 0 && run.files.len() > 0 && run.last_error is Some ==> items_report(run)
            == ReportView::Fail(run.last_error->0),
        run.sent == 0 && run.files.len() > 0 && run.last_error is None ==> items_report(run)
            == ReportView::Fail(run.program + " produced no supported media to upload"@),
        run.sent == 0 && run.files.len() == 0 ==> items_report(run) == ReportView::Rest,
        run.sent > 0 && run.replace_status ==> items_report(run) == ReportView::Rest,
        run.sent > 0 && !run.replace_status && run.last_error is Some ==> items_report(run)
            == ReportView::Warn(run.last_error->0),
        run.sent > 0 && !run.replace_status && run.last_error is None ==> items_report(run)
            == ReportView::DeleteStatus,
{
}

/// A gallery is finished only when every item has been dealt with and none waits
/// to be sent; items are prepared in order, and only an unfinished album can be
/// cancelled.
pub proof fn law_galleries_are_finished(g: GalleryView, cancelled: bool)
    requires
        gallery_sound(g),
        g.total <= usize::MAX,
        g.size > 0 || g.total == 0,
    ensures
        gallery_step(g, cancelled) is Finished ==> g.cursor + g.offset == g.total && g.ready == 0,
        g.cursor + g.offset == g.total && g.ready == 0 ==> gallery_step(g, cancelled) is Finished,
        gallery_step(g, cancelled) is Cancelled ==> cancelled && g.cursor + g.offset < g.total,
        gallery_step(g, cancelled) matches GalleryStep::Prepare { index } ==> !cancelled && index
            == g.cursor + g.offset && index < g.total,
        gallery_step(g, cancelled) matches GalleryStep::Send { count } ==> count == g.ready && count
            > 0 && count <= 10,
{
    let next = turned(g);
    if g.offset == g.size && g.ready == 0 && g.cursor + g.size < g.total {
        assert(next.cursor + next.offset == g.cursor + g.offset);
    }
}

/// What is said of a gallery at its end: what went wrong last, if anything did.
pub proof fn law_galleries_are_reported(g: GalleryView)
    ensures
        g.last_error matches Some(error) ==> (g.sent > 0 ==> gallery_report(g) == ReportView::Warn(
            error,
        )) && (g.sent == 0 ==> gallery_report(g) == ReportView::Fail(error)),
        g.last_error is None && g.sent > 0 ==> gallery_report(g) == ReportView::DeleteStatus,
        g.last_error is None && g.sent == 0 ==> gallery_report(g) == ReportView::Fail(
            "gallery contained no uploadable media"@,
        ),
{
}

/// A delivery that failed both ways says both reasons, as far as there are two.
pub proof fn law_failed_fallbacks_say_why(replacement: Replacement, error: Seq<char>)
    ensures
        replacement matches Replacement::Refused { error: refusal } ==> fallback_failure(
            replacement,
            error,
        ) == "could not edit status ("@ + refusal@ + ") or send fallback media ("@ + error + ")"@,
        !(replacement is Refused) ==> fallback_failure(replacement, error)
            == "status was unavailable and fallback media failed: "@ + error,
{
}

// ---------------------------------------------------------------------------
// Uploads
// ---------------------------------------------------------------------------

/// An upload is reported as far as it was read, but for the last byte.
pub proof fn law_uploads_are_reported_as_read(bytes_read: u64, total_bytes: u64)
    ensures
        bytes_read < total_bytes ==> in_flight(bytes_read, total_bytes) == bytes_read,
        bytes_read >= total_bytes && total_bytes > 0 ==> in_flight(bytes_read, total_bytes)
            == total_bytes - 1,
        total_bytes == 0 ==> in_flight(bytes_read, total_bytes) == 0,
{
}

/// What is read adds up, but to no more than there is. It is reported if and only
/// if something is new and five seconds have passed.
pub proof fn law_uploads_add_up(meter: UploadMeter, bytes: usize, now: Duration)
    ensures
        meter.bytes_read + bytes <= meter.total_bytes ==> read_after(meter, bytes)
            == meter.bytes_read + bytes,
        meter.bytes_read + bytes > meter.total_bytes ==> read_after(meter, bytes)
            == meter.total_bytes,
        report_due(meter, bytes, now) <==> read_after(meter, bytes) > meter.last_reported_bytes
            && now.total_nanos() >= meter.last_report.total_nanos() + 5_000_000_000,
{
}

} // verus!
