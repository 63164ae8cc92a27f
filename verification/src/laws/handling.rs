//! What is done around downloads: how they are planned, where files go, and who
//! is named.

use vstd::prelude::*;

use crate::cookies::temporary_beside;
use crate::download::{self, DownloadPlan, conversion_arguments, named_after, plans, takes_yt_dlp};
use crate::json::{
    JsonView, has_set_member, json_in, json_numbers, json_written, member_ignoring_case, member_in,
    members_in,
};
use crate::laws::delivery::lemma_passes;
use crate::laws::downloads::{law_searching_finds_what_is_there, mentions, passes};
use crate::laws::files::law_extensions_are_replaced;
use crate::media::delivery::ReportView;
use crate::media::inspect::{after_video_line, video_after, video_in};
use crate::media::pipeline::{Delivery, delivers, file_kinds, gathered, in_order, user_text};
use crate::media::request::DownloadOutcome;
use crate::media::workspace::{numbered_file, workspace_path};
use crate::number::{decimal, padded_hex, signed_decimal};
use crate::paths::joined_path;
use crate::store::UserRecord;
use crate::telegram::allowed_users::{persisted, temporary_place};
use crate::text::{equal_ignoring_ascii_case, lines_of, texts};
use crate::users::{is_stored, lists_everyone};
use crate::utils::{byte_chars, is_choice};

verus! {

// ---------------------------------------------------------------------------
// Plans
// ---------------------------------------------------------------------------

/// A plan runs the program that fetches the link, hands it the link and the
/// cookies, and puts the cookies of Instagram in order first.
pub proof fn law_plans_fetch_what_was_asked_for(
    plan: DownloadPlan,
    request: download::RequestView,
    instagram_cookies_exist: bool,
    name: Seq<char>,
)
    requires
        plans(plan, request, instagram_cookies_exist, name),
    ensures
        plan.program@ == "yt-dlp"@ || plan.program@ == "gallery-dl"@,
        takes_yt_dlp(request) ==> {
            &&& plan.program@ == "yt-dlp"@
            &&& plan.use_yt_dlp
            &&& plan.base matches Some(base) && base@ == name
            &&& plan.directory is None
            &&& passes(texts(plan.arguments@), "-o"@, name + ".%(ext)s"@)
        },
        !takes_yt_dlp(request) ==> {
            &&& plan.program@ == "gallery-dl"@
            &&& !plan.use_yt_dlp
            &&& plan.base is None
            &&& plan.directory matches Some(directory) && directory@ == joined_path(
                "gallery_dl_downloads"@,
                name,
            )
            &&& passes(
                texts(plan.arguments@),
                "-D"@,
                joined_path("gallery_dl_downloads"@, name),
            )
        },
        texts(plan.arguments@).last() == request.url,
        passes(texts(plan.arguments@), "--cookies"@, plan.cookies@),
        plan.cleans_cookies <==> mentions(request.url, "instagram.com/"@)
            && instagram_cookies_exist,
        plan.cleans_cookies ==> plan.cookies@ == "instacookies.txt"@,
        !plan.cleans_cookies ==> plan.cookies@ == "cookies.txt"@,
{
    law_searching_finds_what_is_there(request.url, "instagram.com/"@);
    let arguments = texts(plan.arguments@);
    if takes_yt_dlp(request) {
        lemma_passes(arguments, 0);
        lemma_passes(arguments, 2);
    } else {
        lemma_passes(arguments, 0);
        lemma_passes(arguments, 4);
    }
}

/// A plain conversion writes H.264 and AAC in full high definition at most, keeps
/// to its bitrate, and can be watched while it loads.
pub proof fn law_plain_conversions_say_what_comes_out(
    input: Seq<char>,
    output: Seq<char>,
    bitrate: u64,
)
    ensures
        ({
            let arguments = conversion_arguments(input, output, Some(bitrate));
            &&& arguments[0] == "-y"@
            &&& passes(arguments, "-i"@, input)
            &&& passes(arguments, "-map"@, "0:v:0"@)
            &&& passes(arguments, "-map"@, "0:a:0?"@)
            &&& passes(arguments, "-c:v"@, "libx264"@)
            &&& passes(arguments, "-preset"@, "medium"@)
            &&& passes(arguments, "-pix_fmt"@, "yuv420p"@)
            &&& passes(arguments, "-c:a"@, "aac"@)
            &&& passes(arguments, "-b:a"@, "128k"@)
            &&& passes(arguments, "-b:v"@, decimal(bitrate as nat))
            &&& passes(arguments, "-maxrate"@, decimal(bitrate as nat))
            &&& bitrate * 2 <= u64::MAX ==> passes(
                arguments,
                "-bufsize"@,
                decimal((bitrate * 2) as nat),
            )
            &&& passes(arguments, "-movflags"@, "+faststart"@)
            &&& passes(arguments, "-tag:v"@, "avc1"@)
            &&& arguments.last() == output
            &&& arguments.len() == 37
        }),
        ({
            let arguments = conversion_arguments(input, output, None);
            &&& passes(arguments, "-i"@, input)
            &&& passes(arguments, "-crf"@, "23"@)
            &&& passes(arguments, "-movflags"@, "+faststart"@)
            &&& passes(arguments, "-tag:v"@, "avc1"@)
            &&& arguments.last() == output
            &&& arguments.len() == 33
        }),
{
    let fixed = conversion_arguments(input, output, Some(bitrate));
    lemma_passes(fixed, 4);
    lemma_passes(fixed, 6);
    lemma_passes(fixed, 8);
    lemma_passes(fixed, 12);
    lemma_passes(fixed, 14);
    lemma_passes(fixed, 16);
    lemma_passes(fixed, 20);
    lemma_passes(fixed, 22);
    lemma_passes(fixed, 26);
    lemma_passes(fixed, 28);
    lemma_passes(fixed, 30);
    lemma_passes(fixed, 32);
    lemma_passes(fixed, 34);
    let open = conversion_arguments(input, output, None);
    lemma_passes(open, 4);
    lemma_passes(open, 26);
    lemma_passes(open, 28);
    lemma_passes(open, 30);
}

// ---------------------------------------------------------------------------
// Files
// ---------------------------------------------------------------------------

/// A download of yt-dlp is found by how its files are named: all of them, in the
/// order in which they stand in the directory, and nothing else.
pub proof fn law_files_are_found_by_their_names(
    names: Seq<Seq<char>>,
    name: Seq<char>,
    base: Seq<char>,
)
    ensures
        base.is_prefix_of(name) ==> named_after(names.push(name), base) == named_after(
            names,
            base,
        ).push(name),
        !base.is_prefix_of(name) ==> named_after(names.push(name), base) == named_after(
            names,
            base,
        ),
        named_after(Seq::empty(), base) == Seq::<Seq<char>>::empty(),
        base.is_prefix_of(base + name),
{
    reveal(Seq::filter);
    assert(names.push(name).drop_last() =~= names);
    assert((base + name).subrange(0, base.len() as int) =~= base);
}

/// Every file that was found is delivered, once; those of yt-dlp in the order in
/// which they were found, others by rank and name.
pub proof fn law_every_file_is_delivered(
    found: Seq<Seq<char>>,
    files: Seq<Seq<char>>,
    use_yt_dlp: bool,
)
    requires
        gathered(found, files, use_yt_dlp),
    ensures
        files.to_multiset() == found.to_multiset(),
        files.len() == found.len(),
        use_yt_dlp ==> files == found,
        !use_yt_dlp ==> in_order(files),
{
    files.to_multiset_ensures();
    found.to_multiset_ensures();
}

/// Where nothing was found the job fails; otherwise something is sent: every
/// file of its own, from the first on, or albums.
pub proof fn law_what_is_found_is_sent(
    delivery: Delivery,
    program: Seq<char>,
    use_yt_dlp: bool,
    files: Seq<Seq<char>>,
)
    requires
        delivers(delivery, program, use_yt_dlp, files),
    ensures
        delivery is End <==> files.len() == 0,
        delivery matches Delivery::End(end) ==> end.outcome == DownloadOutcome::Failed
            && end.report@ == ReportView::Fail(
            if use_yt_dlp {
                program + " finished, but its output file was not found"@
            } else {
                program + " finished without producing a media file"@
            },
        ),
        delivery matches Delivery::Items(run) ==> {
            &&& run@.files == files
            &&& run@.kinds == file_kinds(files)
            &&& run@.index == 0
            &&& run@.sent == 0
            &&& run@.last_error is None
            &&& run@.program == program
            &&& run@.use_yt_dlp == use_yt_dlp
        },
        use_yt_dlp ==> !(delivery is Albums),
        file_kinds(files).len() == files.len(),
{
}

/// A file of a job carries a number in its name, lies in the directory of the
/// job, and has the extension that it is given.
pub proof fn law_files_lie_in_their_workspace(
    directory: Seq<char>,
    extension: Seq<char>,
    number: u64,
    temporary: Seq<char>,
    id: u64,
)
    requires
        directory.len() > 0,
        directory.last() != '/',
        temporary.len() > 0,
        temporary.last() != '/',
    ensures
        numbered_file(directory, extension, number) == directory + "/"@ + ("media-"@ + padded_hex(
            number as nat,
            16,
        ) + extension),
        workspace_path(temporary, id, number) == temporary + "/"@ + "endgame"@ + "/"@ + ("job-"@
            + decimal(id as nat) + "-"@ + padded_hex(number as nat, 16)),
{
    reveal_strlit("media-");
    reveal_strlit("endgame");
    reveal_strlit("job-");
    let place = temporary + "/"@ + "endgame"@;
    assert(place.last() == 'e');
}

/// A file is written beside the one whose place it takes, under a name with
/// another extension.
pub proof fn law_files_are_replaced_from_beside(
    base: Seq<char>,
    stem: Seq<char>,
    extension: Seq<char>,
    number: u64,
)
    requires
        stem.len() > 0,
        !stem.contains('/'),
        !extension.contains('/'),
        !extension.contains('.'),
        extension.len() > 0,
    ensures
        ({
            let path = base + "/"@ + stem + "."@ + extension;
            let beside = base + "/"@ + stem + "."@ + ("tmp-"@ + padded_hex(number as nat, 16));
            &&& temporary_beside(path, number) == beside
            &&& temporary_place(path, number) == beside
        }),
{
    law_extensions_are_replaced(
        base,
        stem,
        extension,
        "tmp-"@ + padded_hex(number as nat, 16),
    );
}

/// A name by chance is ten ASCII letters and digits.
pub proof fn law_chosen_names_are_letters_and_digits(chosen: Seq<u8>, i: int)
    requires
        is_choice(chosen),
        0 <= i < 10,
    ensures
        byte_chars(chosen).len() == 10,
        byte_chars(chosen)[i] as u32 == chosen[i] as u32,
        ({
            let c = byte_chars(chosen)[i];
            'a' <= c <= 'z' || 'A' <= c <= 'Z' || '0' <= c <= '9'
        }),
{
}

// ---------------------------------------------------------------------------
// Users
// ---------------------------------------------------------------------------

/// Whoever asks is named by number, and by name if there is one.
pub proof fn law_senders_are_named(id: i64, name: Seq<char>)
    ensures
        user_text(Some(id), Some(name)) == "User @"@ + name + " ("@ + signed_decimal(id as int)
            + ")"@,
        user_text(Some(id), None) == "User "@ + signed_decimal(id as int),
        user_text(None, Some(name)) == "User"@,
        user_text(None, None) == "User"@,
{
}

/// Everyone who is stored and every superuser is listed, once, by growing
/// number; nobody else is.
pub proof fn law_everyone_is_listed_once(
    ids: Seq<i64>,
    stored: Seq<UserRecord>,
    super_users: Seq<i64>,
    id: i64,
    i: int,
    j: int,
)
    requires
        lists_everyone(ids, stored, super_users),
        0 <= i < j < ids.len(),
    ensures
        ids[i] < ids[j],
        is_stored(stored, id) ==> ids.contains(id),
        super_users.contains(id) ==> ids.contains(id),
        !is_stored(stored, id) && !super_users.contains(id) ==> !ids.contains(id),
{
}

/// A configuration is rewritten with the users that are allowed now, and with
/// everything else that it held; where it cannot be read, the error says which
/// file it is and why.
pub proof fn law_configurations_keep_everything_else(
    path: Seq<char>,
    ids: Seq<i64>,
    content: Result<Seq<char>, Seq<char>>,
    result: Result<Seq<char>, Seq<char>>,
    other: Seq<char>,
)
    requires
        persisted(path, ids, content, result),
        other != "allowed_users"@,
    ensures
        content matches Err(error) ==> result == Err::<Seq<char>, Seq<char>>(
            "could not read "@ + path + ": "@ + error,
        ),
        content matches Ok(text) ==> {
            &&& json_in(text) matches Err(error) ==> result == Err::<Seq<char>, Seq<char>>(
                "invalid "@ + path + ": "@ + error,
            )
            &&& json_in(text) matches Ok(value) ==> {
                &&& members_in(value) is None ==> result == Err::<Seq<char>, Seq<char>>(
                    path + " must contain a JSON object"@,
                )
                &&& members_in(value) is Some && result is Ok ==> exists|after: JsonView|
                    {
                        &&& members_in(after) is Some
                        &&& member_in(members_in(after)->0, "allowed_users"@) == Some(
                            json_numbers(ids),
                        )
                        &&& member_in(members_in(after)->0, other) == member_in(
                            members_in(value)->0,
                            other,
                        )
                        &&& #[trigger] json_written(after) is Ok
                        &&& result == Ok::<Seq<char>, Seq<char>>(json_written(after)->Ok_0 + "\n"@)
                    }
            }
        },
{
    if let Ok(text) = content {
        if let Ok(value) = json_in(text) {
            if members_in(value) is Some && result is Ok {
                let after = choose|after: JsonView| #[trigger]
                    has_set_member(value, after, "allowed_users"@, json_numbers(ids)) && result
                        == (match json_written(after) {
                        Ok(written) => Ok::<Seq<char>, Seq<char>>(written + "\n"@),
                        Err(error) => Err::<Seq<char>, Seq<char>>(error),
                    });
                assert(json_written(after) is Ok);
            }
        }
    }
}

/// A member of a JSON object is found by its name, the first one if there are
/// several; tags are found whatever their letter case.
pub proof fn law_members_are_found_by_name(
    members: Seq<(Seq<char>, JsonView)>,
    name: Seq<char>,
    i: int,
)
    ensures
        0 <= i < members.len() && members[i].0 == name && (forall|k: int|
            0 <= k < i ==> (#[trigger] members[k]).0 != name) ==> member_in(members, name) == Some(
            members[i].1,
        ),
        (forall|k: int| 0 <= k < members.len() ==> (#[trigger] members[k]).0 != name) ==> member_in(
            members,
            name,
        ) is None,
        0 <= i < members.len() && equal_ignoring_ascii_case(members[i].0, name) && (forall|k: int|
            0 <= k < i ==> !equal_ignoring_ascii_case((#[trigger] members[k]).0, name))
            ==> member_ignoring_case(members, name) == Some(members[i].1),
        (forall|k: int|
            0 <= k < members.len() ==> !equal_ignoring_ascii_case(
                (#[trigger] members[k]).0,
                name,
            )) ==> member_ignoring_case(members, name) is None,
    decreases members.len(),
{
    if members.len() > 0 {
        let rest = members.skip(1);
        law_members_are_found_by_name(rest, name, i - 1);
        assert forall|k: int| 0 <= k < rest.len() implies (#[trigger] rest[k]) == members[k + 1] by {
        }
        if i == 0 {
            assert(members[0] == members[i]);
        }
        if forall|k: int| 0 <= k < i ==> (#[trigger] members[k]).0 != name {
            assert forall|k: int| 0 <= k < i - 1 && k < rest.len() implies (#[trigger] rest[k]).0
                != name by {
                assert(members[k + 1].0 != name);
            }
        }
        if forall|k: int| 0 <= k < members.len() ==> (#[trigger] members[k]).0 != name {
            assert forall|k: int| 0 <= k < rest.len() implies (#[trigger] rest[k]).0 != name by {
                assert(members[k + 1].0 != name);
            }
            assert(members[0].0 != name);
        }
        if forall|k: int|
            0 <= k < i ==> !equal_ignoring_ascii_case((#[trigger] members[k]).0, name) {
            assert forall|k: int|
                0 <= k < i - 1 && k < rest.len() implies !equal_ignoring_ascii_case(
                (#[trigger] rest[k]).0,
                name,
            ) by {
                assert(!equal_ignoring_ascii_case(members[k + 1].0, name));
            }
        }
        if forall|k: int|
            0 <= k < members.len() ==> !equal_ignoring_ascii_case((#[trigger] members[k]).0, name) {
            assert forall|k: int| 0 <= k < rest.len() implies !equal_ignoring_ascii_case(
                (#[trigger] rest[k]).0,
                name,
            ) by {
                assert(!equal_ignoring_ascii_case(members[k + 1].0, name));
            }
            assert(!equal_ignoring_ascii_case(members[0].0, name));
        }
    }
}

// ---------------------------------------------------------------------------
// Probes
// ---------------------------------------------------------------------------

/// The whole output of ffprobe is read, line by line.
pub proof fn law_whole_outputs_are_read(output: Seq<char>, lines: Seq<Seq<char>>, line: Seq<char>)
    requires
        lines_of(output) == lines.push(line),
    ensures
        video_in(output) == after_video_line(video_after(lines, lines.len()), line),
{
    lemma_prefix(lines, lines.push(line), lines.len());
}

proof fn lemma_prefix(lines: Seq<Seq<char>>, longer: Seq<Seq<char>>, count: nat)
    requires
        count <= lines.len() <= longer.len(),
        forall|i: int| 0 <= i < lines.len() ==> #[trigger] longer[i] == lines[i],
    ensures
        video_after(longer, count) == video_after(lines, count),
    decreases count,
{
    if count > 0 {
        lemma_prefix(lines, longer, (count - 1) as nat);
        assert(longer[count - 1] == lines[count - 1]);
    }
}

} // verus!
