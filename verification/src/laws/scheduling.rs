//! What the queue promises to those who hand in jobs, and to its workers.

use vstd::prelude::*;

use crate::jobs::progress::JobPhase;
use crate::jobs::queue::{
    ActiveView, JobView, QueueView, ReplyView, StatusView, active_owners, count_of, first_set,
    hand_in_reply, handed_in, idle_flags, idle_start_flags, in_queue, job_limits, lemma_count_of,
    lemma_first_set, next_position, next_start, remembered, sound, start_flags, started,
    status_flags,
};
use crate::media::request::{DownloadLimits, RequestView};
use crate::number::decimal;
use crate::policy::EffectiveUserLimits;
use crate::time::Duration;

verus! {

/// How many jobs of a user run.
pub open spec fn running_jobs(q: QueueView, owner: i64) -> nat {
    q.active.filter(|job: ActiveView| job.owner == owner).len()
}

/// How many jobs of a user wait.
pub open spec fn waiting_jobs(q: QueueView, owner: i64) -> nat {
    q.pending.filter(|job: JobView| job.owner == owner).len()
}

/// Whether the waiting job at `i` keeps its owner within their own limit on
/// running jobs, if there is one.
pub open spec fn within_own_limit(q: QueueView, i: int) -> bool {
    q.pending[i].limits matches Some(limits) ==> running_jobs(q, q.pending[i].owner)
        < limits.max_active_jobs
}

proof fn lemma_running_jobs(active: Seq<ActiveView>, owner: i64)
    ensures
        active.filter(|job: ActiveView| job.owner == owner).len() == count_of(
            active.map_values(|job: ActiveView| job.owner),
            owner,
        ),
    decreases active.len(),
{
    reveal(Seq::filter);
    if active.len() > 0 {
        lemma_running_jobs(active.drop_last(), owner);
        let owners = active.map_values(|job: ActiveView| job.owner);
        assert(owners.drop_last() =~= active.drop_last().map_values(|job: ActiveView| job.owner));
    }
}

proof fn lemma_waiting_jobs(pending: Seq<JobView>, owner: i64)
    ensures
        pending.filter(|job: JobView| job.owner == owner).len() == count_of(
            pending.map_values(|job: JobView| job.owner),
            owner,
        ),
    decreases pending.len(),
{
    reveal(Seq::filter);
    if pending.len() > 0 {
        lemma_waiting_jobs(pending.drop_last(), owner);
        let owners = pending.map_values(|job: JobView| job.owner);
        assert(owners.drop_last() =~= pending.drop_last().map_values(|job: JobView| job.owner));
    }
}

// ---------------------------------------------------------------------------
// Starting jobs
// ---------------------------------------------------------------------------

/// No worker idles while a job waits whose owner is under their own limit, and
/// only such jobs are started.
pub proof fn law_no_worker_idles(q: QueueView)
    ensures
        next_start(q) is Some <==> q.active.len() < q.concurrency && exists|i: int|
            0 <= i < q.pending.len() && #[trigger] within_own_limit(q, i),
        next_start(q) matches Some(at) ==> 0 <= at < q.pending.len() && within_own_limit(q, at),
{
    let idle = idle_start_flags(q);
    let all = start_flags(q);
    lemma_first_set(idle, 0);
    lemma_first_set(all, 0);
    assert forall|i: int| 0 <= i < q.pending.len() implies all[i] == #[trigger] within_own_limit(
        q,
        i,
    ) by {
        lemma_running_jobs(q.active, q.pending[i].owner);
    }
    if let Some(at) = next_start(q) {
        assert(all[at]);
        assert(within_own_limit(q, at));
    }
    if q.active.len() < q.concurrency && exists|i: int|
        0 <= i < q.pending.len() && #[trigger] within_own_limit(q, i) {
        let i = choose|i: int| 0 <= i < q.pending.len() && #[trigger] within_own_limit(q, i);
        assert(all[i]);
    }
}

/// Jobs start fairly: a job is passed over for a later one only if its owner has
/// a running job and the owner of the later one has none, or if its owner's own
/// limit holds it back. No owner without a running job waits for one who has.
pub proof fn law_jobs_start_fairly(q: QueueView, at: int, i: int)
    requires
        next_start(q) == Some(at),
        0 <= i < q.pending.len(),
        within_own_limit(q, i),
    ensures
        i < at ==> running_jobs(q, q.pending[i].owner) > 0 && running_jobs(q, q.pending[at].owner)
            == 0,
        running_jobs(q, q.pending[i].owner) == 0 ==> running_jobs(q, q.pending[at].owner) == 0
            && at <= i,
{
    let idle = idle_start_flags(q);
    let all = start_flags(q);
    lemma_first_set(idle, 0);
    lemma_first_set(all, 0);
    lemma_running_jobs(q.active, q.pending[i].owner);
    lemma_count_of(active_owners(q), q.pending[i].owner);
    assert(all[i]);
    assert(0 <= at < q.pending.len());
    lemma_running_jobs(q.active, q.pending[at].owner);
    lemma_count_of(active_owners(q), q.pending[at].owner);
    if running_jobs(q, q.pending[i].owner) == 0 {
        assert(idle[i]);
    }
    if first_set(idle, 0) is Some {
        assert(idle[at]);
    }
}

/// Where limits play no part, the next job is the first of a user without a
/// running job, and the very first if every waiting user has one.
pub proof fn law_next_position_is_fair(pending: Seq<i64>, active: Seq<i64>)
    ensures
        next_position(pending, active) is Some <==> pending.len() > 0,
        next_position(pending, active) matches Some(at) ==> 0 <= at < pending.len() && (forall|i: int|
            0 <= i < at ==> active.contains(#[trigger] pending[i])) && (active.contains(pending[at])
            ==> at == 0 && forall|i: int|
            0 <= i < pending.len() ==> active.contains(#[trigger] pending[i])),
{
    let flags = idle_flags(pending, active);
    lemma_first_set(flags, 0);
    assert forall|i: int| 0 <= i < pending.len() implies flags[i] == !active.contains(
        #[trigger] pending[i],
    ) by {}
}

/// A job that starts leaves the waiting ones in their order, is the last of the
/// running ones, and is not told to stop.
pub proof fn law_started_jobs_run(q: QueueView, at: int)
    requires
        next_start(q) == Some(at),
    ensures
        started(q, at).pending == q.pending.take(at) + q.pending.skip(at + 1),
        started(q, at).active == q.active.push(
            ActiveView { id: q.pending[at].id, owner: q.pending[at].owner, cancelled: false },
        ),
        started(q, at).active.len() <= q.concurrency,
        started(q, at).progress == q.progress,
        started(q, at).statuses == q.statuses,
        started(q, at).next_id == q.next_id,
        started(q, at).accepting == q.accepting,
{
    law_no_worker_idles(q);
    assert(q.pending.remove(at) =~= q.pending.take(at) + q.pending.skip(at + 1));
}

/// A job is held to the smaller of the two upload limits, that of the queue and
/// that of its owner, and to the deadlines of the queue.
pub proof fn law_jobs_are_held_to_the_smaller_limit(
    limits: DownloadLimits,
    user: Option<EffectiveUserLimits>,
)
    ensures
        job_limits(limits, user).max_upload_bytes <= limits.max_upload_bytes,
        user matches Some(own) ==> job_limits(limits, user).max_upload_bytes
            <= own.max_upload_bytes && (job_limits(limits, user).max_upload_bytes
            == own.max_upload_bytes || job_limits(limits, user).max_upload_bytes
            == limits.max_upload_bytes),
        user is None ==> job_limits(limits, user).max_upload_bytes == limits.max_upload_bytes,
        job_limits(limits, user).command_timeout == limits.command_timeout,
        job_limits(limits, user).upload_timeout == limits.upload_timeout,
        job_limits(limits, user).job_timeout == limits.job_timeout,
{
}

// ---------------------------------------------------------------------------
// Handing in jobs
// ---------------------------------------------------------------------------

/// Whether there is room for a job: the queue is open and not full, and its
/// owner is under their own limit on waiting jobs, if there is one.
pub open spec fn has_room(q: QueueView, owner: i64, limits: Option<EffectiveUserLimits>) -> bool {
    &&& q.accepting
    &&& q.pending.len() < q.capacity
    &&& limits matches Some(own) ==> waiting_jobs(q, owner) < own.max_queued_jobs
}

/// A job is accepted if and only if there is room for it. It then waits behind
/// all others, under the next number, with its request and limits as they were
/// handed in, and is shown as queued; the jobs that are there are not touched.
pub proof fn law_jobs_are_accepted_while_there_is_room(
    q: QueueView,
    owner: i64,
    request: RequestView,
    limits: Option<EffectiveUserLimits>,
    now: Duration,
)
    requires
        q.next_id < u64::MAX,
    ensures
        hand_in_reply(q, owner, request, limits) is Accepted <==> has_room(q, owner, limits),
        has_room(q, owner, limits) ==> {
            let after = handed_in(q, owner, request, limits, now);
            &&& hand_in_reply(q, owner, request, limits) == (ReplyView::Accepted {
                id: q.next_id,
                owner,
                request,
            })
            &&& after.next_id == q.next_id + 1
            &&& after.pending == q.pending.push(
                JobView { id: q.next_id, owner, request, limits },
            )
            &&& after.progress.contains_key(q.next_id)
            &&& after.progress[q.next_id].phase == JobPhase::Queued
            &&& after.progress[q.next_id].phase_since == now
            &&& after.progress.remove(q.next_id) == q.progress.remove(q.next_id)
            &&& after.active == q.active
            &&& after.statuses == q.statuses
            &&& after.outcomes == q.outcomes
        },
        !has_room(q, owner, limits) ==> handed_in(q, owner, request, limits, now) == q,
{
    lemma_waiting_jobs(q.pending, owner);
    assert(q.progress.insert(q.next_id, handed_in(q, owner, request, limits, now).progress[q.next_id]).remove(
        q.next_id,
    ) =~= q.progress.remove(q.next_id));
}

/// Who is refused is told why: that the downloader shuts down, that the queue is
/// full and how full, or what the own limit is.
pub proof fn law_refusals_say_why(
    q: QueueView,
    owner: i64,
    request: RequestView,
    limits: Option<EffectiveUserLimits>,
)
    ensures
        !q.accepting ==> hand_in_reply(q, owner, request, limits) == ReplyView::Message(
            "The downloader is shutting down. Please try again after it restarts."@,
        ),
        q.accepting && q.pending.len() >= q.capacity ==> hand_in_reply(q, owner, request, limits)
            == ReplyView::Message(
            "The download queue is full ("@ + decimal(q.pending.len()) + " waiting, "@ + decimal(
                q.active.len(),
            ) + "/"@ + decimal(q.concurrency as nat) + " active). Please try again later."@,
        ),
        q.accepting && q.pending.len() < q.capacity && !has_room(q, owner, limits)
            ==> hand_in_reply(q, owner, request, limits) == ReplyView::Message(
            "You have reached your limit of "@ + decimal(limits->0.max_queued_jobs as nat)
                + " queued downloads. Please wait until one of them starts."@,
        ),
{
    lemma_waiting_jobs(q.pending, owner);
}

/// Two accepted jobs never have the same number, and later ones have the larger.
pub proof fn law_numbers_grow(
    q: QueueView,
    owner: i64,
    request: RequestView,
    limits: Option<EffectiveUserLimits>,
    now: Duration,
)
    requires
        sound(q),
        q.next_id < u64::MAX,
    ensures
        hand_in_reply(q, owner, request, limits) matches ReplyView::Accepted { id, .. } ==> {
            let after = handed_in(q, owner, request, limits, now);
            &&& !in_queue(q, id)
            &&& in_queue(after, id)
            &&& forall|i: int| 0 <= i < q.pending.len() ==> #[trigger] q.pending[i].id < id
            &&& forall|i: int| 0 <= i < q.active.len() ==> #[trigger] q.active[i].id < id
            &&& id < after.next_id
        },
{
    if let ReplyView::Accepted { id, .. } = hand_in_reply(q, owner, request, limits) {
        let after = handed_in(q, owner, request, limits, now);
        assert(after.pending[q.pending.len() as int].id == id);
    }
}

// ---------------------------------------------------------------------------
// Status messages
// ---------------------------------------------------------------------------

/// The latest 4096 status messages are remembered: a new one is added at the
/// end, and the oldest is given up only if there are as many already.
pub proof fn law_recent_statuses_are_remembered(statuses: Seq<StatusView>, entry: StatusView)
    requires
        statuses.len() <= 4_096,
        forall|i: int|
            0 <= i < statuses.len() ==> !((#[trigger] statuses[i]).owner == entry.owner
                && statuses[i].message == entry.message),
    ensures
        statuses.len() < 4_096 ==> remembered(statuses, entry) == statuses.push(entry),
        statuses.len() == 4_096 ==> remembered(statuses, entry) == statuses.skip(1).push(entry),
{
    let flags = status_flags(statuses, entry.owner, entry.message);
    lemma_first_set(flags, 0);
    if let Some(at) = first_set(flags, 0) {
        assert(flags[at]);
    }
}

/// A status message that is known already is remembered for what it stands for
/// now, in its place; the others stay.
pub proof fn law_known_statuses_are_renewed(
    statuses: Seq<StatusView>,
    entry: StatusView,
    at: int,
    i: int,
)
    requires
        0 <= at < statuses.len(),
        statuses[at].owner == entry.owner,
        statuses[at].message == entry.message,
        forall|k: int|
            0 <= k < at ==> !((#[trigger] statuses[k]).owner == entry.owner && statuses[k].message
                == entry.message),
        0 <= i < statuses.len(),
        i != at,
    ensures
        remembered(statuses, entry).len() == statuses.len(),
        remembered(statuses, entry)[at] == entry,
        remembered(statuses, entry)[i] == statuses[i],
{
    let flags = status_flags(statuses, entry.owner, entry.message);
    lemma_first_set(flags, 0);
    assert(flags[at]);
    if let Some(found) = first_set(flags, 0) {
        assert(flags[found]);
        if found < at {
            assert(statuses[found].owner == entry.owner);
        }
    }
}

} // verus!
