//! What is shown of jobs while they wait, work and end.

use vstd::prelude::*;

use crate::double::{DOUBLE_LIMIT, as_double, double_step, half_even};
use crate::jobs::progress::{
    JobPhase, ProgressView, StatusWait, after_edit, at_most_hundred, moved, needs_flush, rendered,
    scheduled, settled, shortened, summary_text, transcoding_at, uploading_at, waiting,
};
use crate::jobs::queue::{ActiveView, JobView, QueueView, active_lines, queued_lines, report_text};
use crate::jobs::status::{
    duration_text, phase_text, rounded_text, size_text, upload_percent, uploading_text,
};
use crate::number::{decimal, padded_decimal};
use crate::text::joined;
use crate::time::Duration;

verus! {

// ---------------------------------------------------------------------------
// Phases
// ---------------------------------------------------------------------------

/// A job has ended when it is cancelled, completed or failed, and in no other
/// phase.
pub proof fn law_three_phases_are_final(
    percent: Option<u8>,
    current: usize,
    total: usize,
    bytes: Option<(u64, u64)>,
)
    ensures
        JobPhase::Cancelled.is_final(),
        JobPhase::Completed.is_final(),
        JobPhase::Failed.is_final(),
        !JobPhase::Queued.is_final(),
        !(JobPhase::Downloading { percent }).is_final(),
        !JobPhase::Inspecting.is_final(),
        !(JobPhase::Transcoding { percent }).is_final(),
        !JobPhase::Thumbnailing.is_final(),
        !(JobPhase::Uploading { current, total, bytes }).is_final(),
        !JobPhase::Finalizing.is_final(),
        !JobPhase::Cancelling.is_final(),
{
}

/// A job that works takes every phase that is reported of it, and one that is
/// being cancelled takes every phase in which it ends; nothing else of it
/// changes but the time of the phase, the count of failed edits and that a flush
/// runs.
pub proof fn law_reported_phases_are_taken(p: ProgressView, phase: JobPhase, now: Duration)
    ensures
        !p.phase.is_final() && !(p.phase is Cancelling) ==> moved(p, phase, now).phase == phase,
        p.phase is Cancelling && phase.is_final() ==> moved(p, phase, now).phase == phase,
        p.phase.is_final() ==> moved(p, phase, now) == p,
        p.phase is Cancelling && !phase.is_final() ==> moved(p, phase, now) == p,
        moved(p, phase, now).id == p.id,
        moved(p, phase, now).status == p.status,
        moved(p, phase, now).last_render == p.last_render,
        moved(p, phase, now).failure == p.failure,
        moved(p, phase, now).final_media == p.final_media,
        moved(p, phase, now).attachment_done == p.attachment_done,
        moved(p, phase, now).delete_when_attached == p.delete_when_attached,
        p.phase == phase ==> moved(p, phase, now) == p,
{
}

/// The time of a phase is that of its first report: progress within the phase
/// does not restart it.
pub proof fn law_phases_begin_once(p: ProgressView, phase: JobPhase, now: Duration)
    requires
        !p.phase.is_final(),
        p.phase is Cancelling ==> phase.is_final(),
        p.phase != phase,
    ensures
        p.phase.called() != phase.called() ==> moved(p, phase, now).phase_since == now && moved(
            p,
            phase,
            now,
        ).edit_failures == 0,
        p.phase.called() == phase.called() ==> moved(p, phase, now).phase_since == p.phase_since
            && moved(p, phase, now).edit_failures == p.edit_failures,
{
}

/// A change is shown at once, if there is a status message that shows text and
/// nothing brings it up to date already.
pub proof fn law_changes_are_shown(p: ProgressView, phase: JobPhase, now: Duration)
    requires
        !p.phase.is_final(),
        p.phase is Cancelling ==> phase.is_final(),
        p.phase != phase,
    ensures
        p.status is Some && !p.final_media ==> moved(p, phase, now).flushing,
        p.status is None || p.final_media ==> moved(p, phase, now).flushing == p.flushing,
        needs_flush(p) <==> p.status is Some && !p.final_media && !p.flushing,
        scheduled(p).flushing == (p.flushing || needs_flush(p)),
{
}

/// After an edit the message says what it was told to, and failures count anew;
/// a failed edit leaves the message as it was and counts.
pub proof fn law_edits_are_remembered(p: ProgressView, text: Seq<char>)
    ensures
        after_edit(p, text, true).last_render == Some(text),
        after_edit(p, text, true).edit_failures == 0,
        after_edit(p, text, false).last_render == p.last_render,
        p.edit_failures < 255 ==> after_edit(p, text, false).edit_failures == p.edit_failures + 1,
        p.edit_failures == 255 ==> after_edit(p, text, false).edit_failures == 0,
        after_edit(p, text, true).phase == p.phase,
        after_edit(p, text, false).phase == p.phase,
        settled(p, text).flushing <==> rendered(p) != text,
{
}

/// Who waits for the status message gets it once it is sent, and is told if it
/// never will be.
pub proof fn law_status_messages_are_waited_for(p: ProgressView)
    ensures
        p.status matches Some(status) ==> waiting(p) == StatusWait::Ready(status),
        p.status is None && p.attachment_done ==> waiting(p) == StatusWait::Missing,
        p.status is None && !p.attachment_done ==> waiting(p) == StatusWait::Pending,
{
}

/// Percentages above a hundred count as a hundred, and no more bytes are sent
/// than there are.
pub proof fn law_progress_is_cut_off(
    percent: u8,
    current: usize,
    total: usize,
    sent: u64,
    size: u64,
)
    ensures
        percent <= 100 ==> at_most_hundred(percent) == percent,
        percent > 100 ==> at_most_hundred(percent) == 100,
        transcoding_at(Some(percent)) == (JobPhase::Transcoding {
            percent: Some(at_most_hundred(percent)),
        }),
        transcoding_at(None) == (JobPhase::Transcoding { percent: None }),
        sent <= size ==> uploading_at(current, total, sent, size) == (JobPhase::Uploading {
            current,
            total,
            bytes: Some((sent, size)),
        }),
        sent > size ==> uploading_at(current, total, sent, size) == (JobPhase::Uploading {
            current,
            total,
            bytes: Some((size, size)),
        }),
{
}

/// A failure that is too long is cut to 500 characters, of which the first 497
/// are its own.
pub proof fn law_long_failures_are_cut(reason: Seq<char>)
    requires
        reason.len() > 500,
    ensures
        shortened(reason).len() == 500,
        shortened(reason).take(497) == reason.take(497),
        shortened(reason).skip(497) == "..."@,
{
    reveal_strlit("...");
    assert(shortened(reason).take(497) =~= reason.take(497));
    assert(shortened(reason).skip(497) =~= "..."@);
}

// ---------------------------------------------------------------------------
// Texts
// ---------------------------------------------------------------------------

/// What the status message says in each phase.
pub proof fn law_status_messages_tell_the_phase(id: nat, percent: u8, failure: Option<Seq<char>>)
    ensures
        ({
            let job = "Job #"@ + decimal(id);
            &&& phase_text(id, JobPhase::Queued, failure) == job + " queued."@
            &&& phase_text(id, JobPhase::Downloading { percent: None }, failure) == job
                + " is downloading."@
            &&& phase_text(id, JobPhase::Downloading { percent: Some(percent) }, failure) == job
                + " is downloading: "@ + decimal(percent as nat) + "%."@
            &&& phase_text(id, JobPhase::Inspecting, failure) == job + " is inspecting media."@
            &&& phase_text(id, JobPhase::Transcoding { percent: None }, failure) == job
                + " is transcoding compatible media."@
            &&& phase_text(id, JobPhase::Transcoding { percent: Some(percent) }, failure) == job
                + " is transcoding compatible media: "@ + decimal(percent as nat) + "%."@
            &&& phase_text(id, JobPhase::Thumbnailing, failure) == job
                + " is preparing a thumbnail."@
            &&& phase_text(id, JobPhase::Finalizing, failure) == job + " is finalizing delivery."@
            &&& phase_text(id, JobPhase::Cancelling, failure) == job + " is cancelling…"@
            &&& phase_text(id, JobPhase::Cancelled, failure) == job + " was cancelled."@
        }),
{
}

/// How a job ended is told with its reason, if there is one.
pub proof fn law_ends_are_told_with_their_reason(id: nat, reason: Seq<char>)
    ensures
        ({
            let job = "Job #"@ + decimal(id);
            &&& phase_text(id, JobPhase::Completed, None) == job + " completed."@
            &&& phase_text(id, JobPhase::Completed, Some(reason)) == job
                + " completed with warnings: "@ + reason
            &&& phase_text(id, JobPhase::Failed, None) == job + " failed."@
            &&& phase_text(id, JobPhase::Failed, Some(reason)) == job + " failed: "@ + reason
        }),
{
}

/// An upload is told by its item, and once bytes are known by its percentage and
/// by what is left.
pub proof fn law_uploads_are_told(
    id: nat,
    current: nat,
    total: nat,
    sent: u64,
    size: u64,
    failure: Option<Seq<char>>,
)
    requires
        sent <= size,
        current <= usize::MAX,
        total <= usize::MAX,
    ensures
        ({
            let item = "Job #"@ + decimal(id) + " is uploading item "@ + decimal(current) + "/"@
                + decimal(total);
            &&& uploading_text(id, current, total, None) == item + "."@
            &&& uploading_text(id, current, total, Some((sent, size))) == item + ": "@ + decimal(
                upload_percent(sent as nat, size as nat),
            ) + "% • "@ + size_text((size - sent) as nat) + " left."@
            &&& phase_text(
                id,
                JobPhase::Uploading {
                    current: current as usize,
                    total: total as usize,
                    bytes: Some((sent, size)),
                },
                failure,
            ) == uploading_text(id, current, total, Some((sent, size)))
        }),
{
}

/// The percentage of an upload is that of the bytes, rounded down: nothing at the
/// start, a hundred at the end and not before.
pub proof fn law_upload_percentages_are_right(sent: u64, size: u64)
    requires
        sent <= size,
        size > 0,
    ensures
        upload_percent(sent as nat, size as nat) * size <= sent * 100,
        sent * 100 < (upload_percent(sent as nat, size as nat) + 1) * size,
        upload_percent(0, size as nat) == 0,
        upload_percent(size as nat, size as nat) == 100,
        sent < size ==> upload_percent(sent as nat, size as nat) < 100,
        upload_percent(0, 0) == 100,
{
    let over = sent as int * 100;
    let under = size as int;
    vstd::arithmetic::div_mod::lemma_fundamental_div_mod(over, under);
    vstd::arithmetic::div_mod::lemma_mod_bound(over, under);
    let percent = over / under;
    assert(percent <= 100) by (nonlinear_arith)
        requires
            over == under * percent + over % under,
            0 <= over % under,
            over <= under * 100,
            under > 0,
    ;
    assert(percent >= 0) by (nonlinear_arith)
        requires
            over == under * percent + over % under,
            over % under < under,
            over >= 0,
            under > 0,
    ;
    assert(percent % 0x1_0000_0000_0000_0000 == percent);
    assert(percent * under <= over < (percent + 1) * under) by (nonlinear_arith)
        requires
            over == under * percent + over % under,
            0 <= over % under < under,
    ;
    if sent < size {
        assert(percent < 100) by (nonlinear_arith)
            requires
                over == under * percent + over % under,
                0 <= over % under,
                over < under * 100,
                under > 0,
        ;
    }
    assert((0int) / under == 0) by (nonlinear_arith)
        requires
            under > 0,
    ;
    assert((under * 100) / under == 100) by (nonlinear_arith)
        requires
            under > 0,
    ;
}

/// A span is told in seconds, in minutes and seconds, or in hours and minutes.
pub proof fn law_spans_are_told_in_two_units(hours: nat, minutes: nat, seconds: nat)
    requires
        minutes < 60,
        seconds < 60,
    ensures
        duration_text(seconds) == decimal(seconds) + "s"@,
        minutes > 0 ==> duration_text(minutes * 60 + seconds) == decimal(minutes) + "m "@ + decimal(
            seconds,
        ) + "s"@,
        hours > 0 ==> duration_text(hours * 3_600 + minutes * 60 + seconds) == decimal(hours)
            + "h "@ + decimal(minutes) + "m"@,
{
    let total = hours * 3_600 + minutes * 60 + seconds;
    assert(total / 3_600 == hours && total % 3_600 == minutes * 60 + seconds) by {
        vstd::arithmetic::div_mod::lemma_fundamental_div_mod_converse(
            total as int,
            3_600,
            hours as int,
            (minutes * 60 + seconds) as int,
        );
    }
}

/// Rounding finds the nearest whole number; halfway between two, the even one.
pub proof fn law_rounding_finds_the_nearest(over: nat, under: nat)
    requires
        under > 0,
    ensures
        2 * half_even(over, under) * under <= 2 * over + under,
        2 * over <= 2 * half_even(over, under) * under + under,
        2 * half_even(over, under) * under == 2 * over + under || 2 * over == 2 * half_even(
            over,
            under,
        ) * under + under ==> half_even(over, under) % 2 == 0,
{
    let quotient = over / under;
    let rest = over % under;
    vstd::arithmetic::div_mod::lemma_fundamental_div_mod(over as int, under as int);
    vstd::arithmetic::div_mod::lemma_mod_bound(over as int, under as int);
    let nearest = half_even(over, under);
    assert(2 * quotient * under == 2 * over - 2 * rest) by (nonlinear_arith)
        requires
            over == under * quotient + rest,
    ;
    assert(2 * (quotient + 1) * under == 2 * over - 2 * rest + 2 * under) by (nonlinear_arith)
        requires
            over == under * quotient + rest,
    ;
}

/// Sizes are told in the largest unit of which there is one, up to tebibytes, and
/// whole units to three digits.
pub proof fn law_sizes_are_told_in_their_unit(count: nat, bytes: nat)
    requires
        1 <= count < 1_024,
        bytes < 1_024,
    ensures
        size_text(bytes) == decimal(bytes) + " B"@,
        size_text(count * 1_024) == whole_units(count) + " KiB"@,
        size_text(count * 1_048_576) == whole_units(count) + " MiB"@,
        size_text(count * 1_073_741_824) == whole_units(count) + " GiB"@,
        size_text(count * 1_099_511_627_776) == whole_units(count) + " TiB"@,
{
    lemma_whole_units(count, 1_024);
    lemma_whole_units(count, 1_048_576);
    lemma_whole_units(count, 1_073_741_824);
    lemma_whole_units(count, 1_099_511_627_776);
    lemma_small_doubles(count * 1_024);
    lemma_small_doubles(count * 1_048_576);
    lemma_small_doubles(count * 1_073_741_824);
    lemma_small_doubles(count * 1_099_511_627_776);
}

/// Sizes between whole units are rounded to three digits: two decimals below ten
/// units, one below a hundred, and none above.
pub proof fn law_sizes_have_three_digits(bytes: nat, unit: nat)
    requires
        1_024 <= bytes < DOUBLE_LIMIT,
        unit == 1_024 || unit == 1_048_576 || unit == 1_073_741_824 || unit == 1_099_511_627_776,
        unit <= bytes,
        bytes < unit * 1_024 || unit == 1_099_511_627_776,
    ensures
        ({
            let name = if unit == 1_024 {
                " KiB"@
            } else if unit == 1_048_576 {
                " MiB"@
            } else if unit == 1_073_741_824 {
                " GiB"@
            } else {
                " TiB"@
            };
            &&& bytes < 10 * unit ==> size_text(bytes) == ({
                let hundredths = half_even(bytes * 100, unit);
                decimal(hundredths / 100) + "."@ + padded_decimal(hundredths % 100, 2) + name
            })
            &&& 10 * unit <= bytes < 100 * unit ==> size_text(bytes) == ({
                let tenths = half_even(bytes * 10, unit);
                decimal(tenths / 10) + "."@ + padded_decimal(tenths % 10, 1) + name
            })
            &&& 100 * unit <= bytes ==> size_text(bytes) == decimal(half_even(bytes, unit)) + name
        }),
{
    lemma_small_doubles(bytes);
}

/// So many whole units to three digits.
pub open spec fn whole_units(count: nat) -> Seq<char> {
    if count < 10 {
        decimal(count) + "."@ + padded_decimal(0, 2)
    } else if count < 100 {
        decimal(count) + "."@ + padded_decimal(0, 1)
    } else {
        decimal(count)
    }
}

pub proof fn lemma_small_doubles(value: nat)
    requires
        value < DOUBLE_LIMIT,
    ensures
        as_double(value) == value,
{
    assert(double_step(value) == 1);
    assert(half_even(value, 1) == value);
}

proof fn lemma_exact(count: nat, unit: nat)
    requires
        unit > 0,
    ensures
        half_even(count * unit, unit) == count,
{
    vstd::arithmetic::div_mod::lemma_fundamental_div_mod_converse(
        (count * unit) as int,
        unit as int,
        count as int,
        0,
    );
}

proof fn lemma_whole_units(count: nat, unit: nat)
    requires
        unit > 0,
    ensures
        rounded_text(count * unit, unit, 0) == decimal(count),
        rounded_text(count * unit, unit, 1) == decimal(count) + "."@ + padded_decimal(0, 1),
        rounded_text(count * unit, unit, 2) == decimal(count) + "."@ + padded_decimal(0, 2),
{
    lemma_exact(count, unit);
    lemma_exact(count * 10, unit);
    lemma_exact(count * 100, unit);
    assert(count * unit * 10 == count * 10 * unit) by (nonlinear_arith);
    assert(count * unit * 100 == count * 100 * unit) by (nonlinear_arith);
}

/// What a job is called in a report on several.
pub proof fn law_reports_tell_phases_and_times(p: ProgressView, since: nat, now: Duration)
    requires
        now.total_nanos() == p.phase_since.total_nanos() + since * 1_000_000_000,
    ensures
        summary_text(p, now) == "#"@ + decimal(p.id as nat) + " "@ + p.phase.called() + " for "@
            + duration_text(since),
{
}

/// The names of the phases.
pub proof fn law_phases_have_names(
    percent: Option<u8>,
    current: usize,
    total: usize,
    bytes: Option<(u64, u64)>,
)
    ensures
        JobPhase::Queued.called() == "queued"@,
        (JobPhase::Downloading { percent }).called() == "downloading"@,
        JobPhase::Inspecting.called() == "inspecting media"@,
        (JobPhase::Transcoding { percent }).called() == "transcoding"@,
        JobPhase::Thumbnailing.called() == "preparing thumbnail"@,
        (JobPhase::Uploading { current, total, bytes }).called() == "uploading"@,
        JobPhase::Finalizing.called() == "finalizing"@,
        JobPhase::Cancelling.called() == "cancelling"@,
        JobPhase::Cancelled.called() == "cancelled"@,
        JobPhase::Completed.called() == "completed"@,
        JobPhase::Failed.called() == "failed"@,
{
}

/// A report on the queue tells how many jobs its reader has, how full the queue
/// is, and then each of those jobs on a line of its own.
pub proof fn law_reports_tell_how_full_the_queue_is(q: QueueView, owner: i64, now: Duration)
    ensures
        ({
            let active = active_lines(q.active, q.progress, owner, now);
            let queued = queued_lines(q.pending, owner);
            report_text(q, owner, now) == joined(
                seq![
                    "Your downloads: "@ + decimal(active.len()) + " active, "@ + decimal(
                        queued.len(),
                    ) + " queued. Capacity: "@ + decimal(q.active.len()) + "/"@ + decimal(
                        q.concurrency as nat,
                    ) + " active, "@ + decimal(q.pending.len()) + "/"@ + decimal(
                        q.capacity as nat,
                    ) + " waiting."@,
                ] + active + queued,
                "\n"@,
            )
        }),
{
}

/// A report has a line for each job of its reader, in order, which says what the
/// job does and for how long, or that it waits; it has none for the jobs of
/// others.
pub proof fn law_reports_have_a_line_for_each_own_job(
    active: Seq<ActiveView>,
    running: ActiveView,
    pending: Seq<JobView>,
    waiting: JobView,
    progress: Map<u64, ProgressView>,
    owner: i64,
    now: Duration,
)
    ensures
        active_lines(Seq::empty(), progress, owner, now) == Seq::<Seq<char>>::empty(),
        running.owner == owner ==> active_lines(active.push(running), progress, owner, now)
            == active_lines(active, progress, owner, now).push(
            summary_text(progress[running.id], now),
        ),
        running.owner != owner ==> active_lines(active.push(running), progress, owner, now)
            == active_lines(active, progress, owner, now),
        queued_lines(Seq::empty(), owner) == Seq::<Seq<char>>::empty(),
        waiting.owner == owner ==> queued_lines(pending.push(waiting), owner) == queued_lines(
            pending,
            owner,
        ).push("#"@ + decimal(waiting.id as nat) + " queued"@),
        waiting.owner != owner ==> queued_lines(pending.push(waiting), owner) == queued_lines(
            pending,
            owner,
        ),
{
    assert(active.push(running).drop_last() =~= active);
    assert(pending.push(waiting).drop_last() =~= pending);
}

} // verus!
