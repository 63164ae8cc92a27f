//! What a queue without accounts does: which jobs it accepts, in which phases
//! they are, and what is shown of them.

use vstd::prelude::*;

use crate::cancel::{CancellationToken, with_stopped};
use crate::download::RequestView;
use crate::jobs::progress::StatusWait;
use crate::jobs::queue::counted;
use crate::media::request::DownloadOutcome;
use crate::number::decimal;
use crate::queue::{
    JobPhase, JobView, ProgressView, QueueView, final_phase, move_flushes, moved, needs_flush,
    new_job, position, refusal, rendered, stopped, text_again, told_to_stop, waiting,
};

verus! {

/// A job is accepted as long as the queue is open and has room; otherwise the
/// answer says why not.
pub proof fn law_open_queues_with_room_accept(q: QueueView)
    ensures
        refusal(q) is None <==> q.accepting && q.pending.len() < q.capacity,
        !q.accepting ==> refusal(q) == Some(
            "The downloader is shutting down. Please try again after it restarts."@,
        ),
        q.accepting && q.pending.len() >= q.capacity ==> refusal(q) == Some(
            "The download queue is full ("@ + decimal(q.pending.len()) + " waiting, "@ + decimal(
                q.active.len(),
            ) + "/"@ + decimal(q.concurrency as nat) + " active). Please try again later."@,
        ),
{
}

/// A new job waits, is not cancelled, and has no status message yet.
pub proof fn law_new_jobs_wait(id: u64, owner: i64, request: RequestView)
    ensures
        ({
            let job = new_job(id, owner, request);
            &&& job.id == id
            &&& job.owner == owner
            &&& job.request == request
            &&& !job.cancelled
            &&& job.progress.id == id
            &&& job.progress.phase is Queued
            &&& job.progress.status is None
            &&& job.progress.failure is None
            &&& job.progress.last_render is None
            &&& !job.progress.flushing
            &&& !job.progress.attachment_done
            &&& !job.progress.final_media
            &&& !job.progress.delete_when_attached
            &&& waiting(job.progress) is Pending
        }),
{
}

/// A job goes from any phase to any other until it has ended; one that is being
/// cancelled only ends.
pub proof fn law_jobs_go_from_phase_to_phase(p: ProgressView, phase: JobPhase)
    ensures
        p.phase is Completed || p.phase is Failed || p.phase is Cancelled ==> moved(p, phase) == p,
        !p.phase.is_final() && !(p.phase is Cancelling) ==> moved(p, phase).phase == phase,
        p.phase is Cancelling && phase.is_final() ==> moved(p, phase).phase == phase,
        p.phase is Cancelling && !phase.is_final() ==> moved(p, phase) == p,
        phase.is_final() <==> phase is Completed || phase is Failed || phase is Cancelled,
        moved(p, phase).id == p.id,
        moved(p, phase).status == p.status,
        moved(p, phase).failure == p.failure,
        moved(p, phase).final_media == p.final_media,
{
}

/// A change is shown as soon as there is a message to show it in, unless that
/// gives way to media; one flush at a time is enough.
pub proof fn law_changes_are_shown(p: ProgressView, phase: JobPhase)
    requires
        !p.phase.is_final(),
        p.phase != phase,
        p.phase is Cancelling ==> phase.is_final(),
    ensures
        move_flushes(p, phase) <==> p.status is Some && !p.final_media && !p.flushing,
        move_flushes(p, phase) ==> moved(p, phase).flushing,
        needs_flush(p) <==> p.status is Some && !p.final_media && !p.flushing,
        !move_flushes(p, phase) ==> moved(p, phase).flushing == p.flushing,
{
}

/// What is shown of a job says its number and what it does.
pub proof fn law_jobs_are_shown(p: ProgressView, current: usize, total: usize, reason: Seq<char>)
    ensures
        ({
            let job = "Job #"@ + decimal(p.id as nat);
            let shown = |phase: JobPhase, failure: Option<Seq<char>>|
                rendered(ProgressView { phase, failure, ..p });
            &&& shown(JobPhase::Queued, p.failure) == job + " queued."@
            &&& shown(JobPhase::Downloading, p.failure) == job + " is downloading."@
            &&& shown(JobPhase::Processing, p.failure) == job
                + " is preparing compatible media."@
            &&& shown(JobPhase::Uploading { current, total }, p.failure) == job
                + " is uploading item "@ + decimal(current as nat) + "/"@ + decimal(total as nat)
                + "."@
            &&& shown(JobPhase::Cancelling, p.failure) == job + " is cancelling…"@
            &&& shown(JobPhase::Cancelled, p.failure) == job + " was cancelled."@
            &&& shown(JobPhase::Completed, None) == job + " completed."@
            &&& shown(JobPhase::Completed, Some(reason)) == job + " completed with warnings: "@
                + reason
            &&& shown(JobPhase::Failed, None) == job + " failed."@
            &&& shown(JobPhase::Failed, Some(reason)) == job + " failed: "@ + reason
        }),
{
}

/// Whoever waits for the status message has it once it is sent, and learns if it
/// never will be.
pub proof fn law_status_messages_are_waited_for(p: ProgressView, status: i32)
    ensures
        p.status == Some(status) ==> waiting(p) == StatusWait::Ready(status),
        p.status is None && p.attachment_done ==> waiting(p) is Missing,
        p.status is None && !p.attachment_done ==> waiting(p) is Pending,
        text_again(p) == (ProgressView { final_media: false, delete_when_attached: false, ..p }),
{
}

/// A job is found by its number and its owner.
pub proof fn law_jobs_are_found(jobs: Seq<JobView>, i: int)
    requires
        0 <= i < jobs.len(),
    ensures
        position(jobs, jobs[i].id, jobs[i].owner) matches Some(at) && at <= i,
    decreases jobs.len(),
{
    let fewer = jobs.drop_last();
    if i < fewer.len() {
        law_jobs_are_found(fewer, i);
        assert(fewer[i] == jobs[i]);
    } else {
        assert(jobs.last() == jobs[i]);
        lemma_found_inside(fewer, jobs[i].id, jobs[i].owner);
    }
}

proof fn lemma_found_inside(jobs: Seq<JobView>, id: u64, owner: i64)
    ensures
        position(jobs, id, owner) matches Some(at) ==> at < jobs.len(),
    decreases jobs.len(),
{
    if jobs.len() > 0 {
        lemma_found_inside(jobs.drop_last(), id, owner);
    }
}

/// A job that is told to stop is marked, and stops working; no other job is
/// touched.
pub proof fn law_jobs_are_told_to_stop(jobs: Seq<JobView>, at: int, other: int)
    requires
        0 <= at < jobs.len(),
        0 <= other < jobs.len(),
        other != at,
        !jobs[at].progress.phase.is_final(),
    ensures
        told_to_stop(jobs, at)[at].cancelled,
        told_to_stop(jobs, at)[at].progress.phase is Cancelling,
        told_to_stop(jobs, at)[at].id == jobs[at].id,
        told_to_stop(jobs, at)[at].owner == jobs[at].owner,
        told_to_stop(jobs, at)[at].request == jobs[at].request,
        told_to_stop(jobs, at)[other] == jobs[other],
        told_to_stop(jobs, at).len() == jobs.len(),
        stopped(jobs[at], JobPhase::Cancelled).cancelled,
        stopped(jobs[at], JobPhase::Cancelled).progress.phase is Cancelled,
{
}

/// A token stops what holds it once it is cancelled, and nothing else: not what
/// holds another token, and not what holds none that was handed out.
pub proof fn law_tokens_stop_their_own(
    tokens: Seq<bool>,
    token: CancellationToken,
    other: CancellationToken,
)
    requires
        0 <= token@ < tokens.len(),
        other@ != token@,
    ensures
        crate::cancel::stopped(with_stopped(tokens, token), token),
        crate::cancel::stopped(with_stopped(tokens, token), other) == crate::cancel::stopped(
            tokens,
            other,
        ),
        other@ >= tokens.len() ==> !crate::cancel::stopped(tokens, other) && with_stopped(
            tokens,
            other,
        ) == tokens,
        with_stopped(tokens, token).len() == tokens.len(),
{
}

/// A job ends in the phase that is named like its outcome, and is counted under
/// that name.
pub proof fn law_jobs_end_in_the_phase_of_their_outcome(outcome: DownloadOutcome)
    ensures
        outcome is Completed <==> final_phase(outcome) is Completed,
        outcome is Failed <==> final_phase(outcome) is Failed,
        outcome is Cancelled <==> final_phase(outcome) is Cancelled,
        outcome is Completed <==> crate::jobs::queue::final_phase(outcome) is Completed,
        outcome is Failed <==> crate::jobs::queue::final_phase(outcome) is Failed,
        outcome is Cancelled <==> crate::jobs::queue::final_phase(outcome) is Cancelled,
        outcome is Completed <==> counted(outcome) is Completed,
        outcome is Failed <==> counted(outcome) is Failed,
        outcome is Cancelled <==> counted(outcome) is Cancelled,
{
}

} // verus!
