//! What can happen to the queue, and what holds of everything that happens.

use vstd::prelude::*;

use crate::jobs::progress::{JobPhase, ProgressView, follows};
use crate::jobs::queue::{
    QueueView, ReplyView, StatusView, active_flags, can_be_in, cancelled, counted, counted_in,
    drained, finished, first_set, hand_in_refusal, hand_in_reply, handed_in, idle_start_flags,
    in_queue, known, law_starting_loses_no_job, lemma_first_set, lemma_reported, lemma_updated,
    next_start, pending_flags, refusal, remembered, reported, retried, running_flags,
    same_status, sound, start_flags, started, status_flags, status_of, waits,
};
use crate::media::request::{DownloadOutcome, RequestView};
use crate::policy::EffectiveUserLimits;
use crate::store::DownloadStatOutcome;
use crate::time::Duration;

verus! {

/// One thing that happens to the queue: a call of one of its functions.
pub ghost enum QueueEvent {
    HandIn {
        owner: i64,
        request: RequestView,
        limits: Option<EffectiveUserLimits>,
        now: Duration,
    },
    Retry { owner: i64, message: i32, now: Duration },
    Cancel { owner: i64, id: u64, now: Duration },
    CancelReplied { owner: i64, message: i32, now: Duration },
    Register(StatusView),
    Report { id: u64, phase: JobPhase, now: Duration },
    Update(ProgressView),
    Start,
    Finish { id: u64, outcome: DownloadOutcome, now: Duration },
    Forget(u64),
    TakeOutcomes,
    Shutdown,
}

/// The queue after an event.
pub open spec fn after(q: QueueView, event: QueueEvent) -> QueueView {
    match event {
        QueueEvent::HandIn { owner, request, limits, now } => handed_in(
            q,
            owner,
            request,
            limits,
            now,
        ),
        QueueEvent::Retry { owner, message, now } => retried(q, owner, message, now),
        QueueEvent::Cancel { owner, id, now } => cancelled(q, owner, id, now),
        QueueEvent::CancelReplied { owner, message, now } => match status_of(q, owner, message) {
            Some(entry) => cancelled(q, owner, entry.id, now),
            None => q,
        },
        QueueEvent::Register(entry) => QueueView {
            statuses: remembered(q.statuses, entry),
            ..q
        },
        QueueEvent::Report { id, phase, now } => QueueView {
            progress: reported(q.progress, id, phase, now),
            ..q
        },
        QueueEvent::Update(progress) => QueueView {
            progress: q.progress.insert(progress.id, progress),
            ..q
        },
        QueueEvent::Start => match next_start(q) {
            Some(at) => started(q, at),
            None => q,
        },
        QueueEvent::Finish { id, outcome, now } => finished(q, id, outcome, now),
        QueueEvent::Forget(id) => if in_queue(q, id) {
            q
        } else {
            QueueView { progress: q.progress.remove(id), ..q }
        },
        QueueEvent::TakeOutcomes => QueueView { outcomes: Seq::empty(), ..q },
        QueueEvent::Shutdown => QueueView { accepting: false, ..q },
    }
}

/// What an event takes: a number for a job that is accepted, for a job's progress that it
/// follows what was known of the job, and for the end of a job that it does not
/// wait.
pub open spec fn can_happen(q: QueueView, event: QueueEvent) -> bool {
    match event {
        QueueEvent::HandIn { owner, limits, .. } => hand_in_refusal(q, owner, limits) is None
            ==> q.next_id < u64::MAX,
        QueueEvent::Retry { owner, message, .. } => status_of(q, owner, message) is Some && refusal(
            q,
        ) is None ==> q.next_id < u64::MAX,
        QueueEvent::Update(progress) => q.progress.contains_key(progress.id) && follows(
            q.progress[progress.id],
            progress,
        ) && can_be_in(q, progress.id, progress.phase),
        QueueEvent::Report { id, phase, .. } => can_be_in(q, id, phase),
        QueueEvent::Finish { id, .. } => !waits(q, id),
        _ => true,
    }
}

/// The queue after events, one after the other.
pub open spec fn run(q: QueueView, events: Seq<QueueEvent>) -> QueueView
    decreases events.len(),
{
    if events.len() == 0 {
        q
    } else {
        after(run(q, events.drop_last()), events.last())
    }
}

/// Whether events can happen one after the other.
pub open spec fn can_run(q: QueueView, events: Seq<QueueEvent>) -> bool
    decreases events.len(),
{
    events.len() == 0 || (can_run(q, events.drop_last()) && can_happen(
        run(q, events.drop_last()),
        events.last(),
    ))
}

/// Whether it is known of a job that it has ended.
pub open spec fn has_ended(q: QueueView, id: u64) -> bool {
    q.progress.contains_key(id) && q.progress[id].phase.is_final()
}

/// Whether the event at `k` takes the job `id` out of the queue, in a final
/// phase.
pub open spec fn ends_at(q: QueueView, events: Seq<QueueEvent>, id: u64, k: int) -> bool {
    &&& 0 <= k < events.len()
    &&& in_queue(run(q, events.take(k)), id)
    &&& !in_queue(run(q, events.take(k + 1)), id)
    &&& has_ended(run(q, events.take(k + 1)), id)
}

// ---------------------------------------------------------------------------
// Single events
// ---------------------------------------------------------------------------

proof fn lemma_cancelled(q: QueueView, owner: i64, id: u64, now: Duration, job: u64)
    requires
        sound(q),
    ensures
        sound(cancelled(q, owner, id, now)),
        in_queue(q, job) && !in_queue(cancelled(q, owner, id, now), job) ==> has_ended(
            cancelled(q, owner, id, now),
            job,
        ),
{
    let next = cancelled(q, owner, id, now);
    lemma_first_set(pending_flags(q, owner, id), 0);
    lemma_first_set(active_flags(q, owner, id), 0);
    match (
        first_set(pending_flags(q, owner, id), 0),
        first_set(active_flags(q, owner, id), 0),
    ) {
        (Some(at), _) => {
            assert(pending_flags(q, owner, id)[at]);
            assert(known(q, q.pending[at].id));
            assert(sound(next));
            if in_queue(q, job) && job != id {
                if exists|i: int| 0 <= i < q.pending.len() && #[trigger] q.pending[i].id == job {
                    let i = choose|i: int|
                        0 <= i < q.pending.len() && #[trigger] q.pending[i].id == job;
                    if i < at {
                        assert(next.pending[i].id == job);
                    } else {
                        assert(next.pending[i - 1].id == job);
                    }
                } else {
                    let i = choose|i: int|
                        0 <= i < q.active.len() && #[trigger] q.active[i].id == job;
                    assert(next.active[i].id == job);
                }
            }
        },
        (None, Some(at)) => {
            assert(active_flags(q, owner, id)[at]);
            assert(sound(next));
            lemma_same_jobs(q, next, job);
        },
        (None, None) => {},
    }
}

/// A queue that holds the jobs of another at the same places holds the same
/// jobs.
proof fn lemma_same_jobs(q: QueueView, next: QueueView, job: u64)
    requires
        next.pending == q.pending,
        next.active.len() == q.active.len(),
        forall|i: int|
            0 <= i < q.active.len() ==> (#[trigger] next.active[i]).id == q.active[i].id,
    ensures
        in_queue(next, job) == in_queue(q, job),
{
    if in_queue(q, job) && !(exists|i: int|
        0 <= i < q.pending.len() && #[trigger] q.pending[i].id == job) {
        let i = choose|i: int| 0 <= i < q.active.len() && #[trigger] q.active[i].id == job;
        assert(next.active[i].id == job);
    }
    if in_queue(next, job) && !(exists|i: int|
        0 <= i < next.pending.len() && #[trigger] next.pending[i].id == job) {
        let i = choose|i: int| 0 <= i < next.active.len() && #[trigger] next.active[i].id == job;
        assert(q.active[i].id == job);
    }
}

proof fn lemma_handed_in(
    q: QueueView,
    owner: i64,
    request: RequestView,
    limits: Option<EffectiveUserLimits>,
    now: Duration,
    job: u64,
)
    requires
        sound(q),
        hand_in_refusal(q, owner, limits) is None ==> q.next_id < u64::MAX,
    ensures
        sound(handed_in(q, owner, request, limits, now)),
        in_queue(q, job) ==> in_queue(handed_in(q, owner, request, limits, now), job),
{
    let next = handed_in(q, owner, request, limits, now);
    if in_queue(q, job) {
        if exists|i: int| 0 <= i < q.pending.len() && #[trigger] q.pending[i].id == job {
            let i = choose|i: int| 0 <= i < q.pending.len() && #[trigger] q.pending[i].id == job;
            assert(next.pending[i].id == job);
        } else {
            let i = choose|i: int| 0 <= i < q.active.len() && #[trigger] q.active[i].id == job;
            assert(next.active[i].id == job);
        }
    }
}

proof fn lemma_started(q: QueueView, job: u64)
    requires
        sound(q),
    ensures
        sound(after(q, QueueEvent::Start)),
        in_queue(q, job) == in_queue(after(q, QueueEvent::Start), job),
{
    lemma_first_set(idle_start_flags(q), 0);
    lemma_first_set(start_flags(q), 0);
    if let Some(at) = next_start(q) {
        assert(0 <= at < q.pending.len());
        law_starting_loses_no_job(q, at, job);
        assert(known(q, q.pending[at].id));
        assert(sound(started(q, at)));
    }
}

proof fn lemma_finished(q: QueueView, id: u64, outcome: DownloadOutcome, now: Duration, job: u64)
    requires
        sound(q),
        !waits(q, id),
    ensures
        sound(finished(q, id, outcome, now)),
        in_queue(q, job) && !in_queue(finished(q, id, outcome, now), job) ==> has_ended(
            finished(q, id, outcome, now),
            job,
        ),
{
    let next = finished(q, id, outcome, now);
    lemma_first_set(running_flags(q, id), 0);
    match first_set(running_flags(q, id), 0) {
        Some(at) => {
            assert(running_flags(q, id)[at]);
            assert(known(q, q.active[at].id));
            assert(sound(next));
            if in_queue(q, job) && job != id {
                if exists|i: int| 0 <= i < q.pending.len() && #[trigger] q.pending[i].id == job {
                    let i = choose|i: int|
                        0 <= i < q.pending.len() && #[trigger] q.pending[i].id == job;
                    assert(next.pending[i].id == job);
                } else {
                    let i = choose|i: int|
                        0 <= i < q.active.len() && #[trigger] q.active[i].id == job;
                    if i < at {
                        assert(next.active[i].id == job);
                    } else {
                        assert(next.active[i - 1].id == job);
                    }
                }
            }
        },
        None => {
            assert(sound(next));
            lemma_same_jobs(q, next, job);
        },
    }
}

proof fn lemma_registered(q: QueueView, entry: StatusView)
    requires
        sound(q),
    ensures
        sound(QueueView { statuses: remembered(q.statuses, entry), ..q }),
{
    let flags = status_flags(q.statuses, entry.owner, entry.message);
    lemma_first_set(flags, 0);
    let statuses = remembered(q.statuses, entry);
    if first_set(flags, 0) is Some {
        assert(flags[first_set(flags, 0)->0]);
    } else {
        assert forall|i: int| 0 <= i < q.statuses.len() implies !same_status(
            #[trigger] q.statuses[i],
            entry,
        ) by {
            assert(!flags[i]);
        }
    }
}

// ---------------------------------------------------------------------------
// Laws
// ---------------------------------------------------------------------------

/// Whatever happens to the queue, it stays sound.
pub proof fn law_every_event_keeps_the_queue_sound(q: QueueView, event: QueueEvent)
    requires
        sound(q),
        can_happen(q, event),
    ensures
        sound(after(q, event)),
{
    match event {
        QueueEvent::HandIn { owner, request, limits, now } => {
            lemma_handed_in(q, owner, request, limits, now, 0);
        },
        QueueEvent::Retry { owner, message, now } => {
            if let Some(entry) = status_of(q, owner, message) {
                lemma_handed_in(q, owner, entry.request, None, now, 0);
            }
        },
        QueueEvent::Cancel { owner, id, now } => {
            lemma_cancelled(q, owner, id, now, 0);
        },
        QueueEvent::CancelReplied { owner, message, now } => {
            if let Some(entry) = status_of(q, owner, message) {
                lemma_cancelled(q, owner, entry.id, now, 0);
            }
        },
        QueueEvent::Register(entry) => {
            lemma_registered(q, entry);
        },
        QueueEvent::Report { id, phase, now } => {
            lemma_reported(q, id, phase, now);
        },
        QueueEvent::Update(progress) => {
            lemma_updated(q, progress);
        },
        QueueEvent::Start => {
            lemma_started(q, 0);
        },
        QueueEvent::Finish { id, outcome, now } => {
            lemma_finished(q, id, outcome, now, 0);
        },
        QueueEvent::Forget(id) => {
            if !in_queue(q, id) {
                let next = after(q, event);
                assert forall|i: int| 0 <= i < next.pending.len() implies known(
                    next,
                    #[trigger] next.pending[i].id,
                ) by {
                    assert(q.pending[i].id != id);
                    assert(known(q, q.pending[i].id));
                }
                assert forall|i: int| 0 <= i < next.active.len() implies known(
                    next,
                    #[trigger] next.active[i].id,
                ) by {
                    assert(q.active[i].id != id);
                    assert(known(q, q.active[i].id));
                }
            }
        },
        _ => {},
    }
}

/// A job leaves the queue in a final phase, and in no other way.
pub proof fn law_jobs_leave_when_they_have_ended(q: QueueView, event: QueueEvent, job: u64)
    requires
        sound(q),
        can_happen(q, event),
        in_queue(q, job),
        !in_queue(after(q, event), job),
    ensures
        has_ended(after(q, event), job),
{
    match event {
        QueueEvent::HandIn { owner, request, limits, now } => {
            lemma_handed_in(q, owner, request, limits, now, job);
        },
        QueueEvent::Retry { owner, message, now } => {
            if let Some(entry) = status_of(q, owner, message) {
                lemma_handed_in(q, owner, entry.request, None, now, job);
            }
        },
        QueueEvent::Cancel { owner, id, now } => {
            lemma_cancelled(q, owner, id, now, job);
        },
        QueueEvent::CancelReplied { owner, message, now } => {
            if let Some(entry) = status_of(q, owner, message) {
                lemma_cancelled(q, owner, entry.id, now, job);
            }
        },
        QueueEvent::Start => {
            lemma_started(q, job);
        },
        QueueEvent::Finish { id, outcome, now } => {
            lemma_finished(q, id, outcome, now, job);
        },
        _ => {
            lemma_same_jobs(q, after(q, event), job);
        },
    }
}

/// A job that has ended never goes back to work: it stays ended until it is
/// forgotten, and its number is not given to another job.
pub proof fn law_ended_jobs_stay_ended(q: QueueView, event: QueueEvent, job: u64)
    requires
        sound(q),
        can_happen(q, event),
        has_ended(q, job),
        job < q.next_id,
    ensures
        job < after(q, event).next_id,
        after(q, event).progress.contains_key(job) ==> has_ended(after(q, event), job),
        event != QueueEvent::Forget(job) ==> has_ended(after(q, event), job),
{
}

/// The laws of single events hold of runs: the queue stays sound, and numbers
/// are not taken back.
pub proof fn law_runs_keep_the_queue_sound(q: QueueView, events: Seq<QueueEvent>)
    requires
        sound(q),
        can_run(q, events),
    ensures
        sound(run(q, events)),
        q.next_id <= run(q, events).next_id,
        !q.accepting ==> !run(q, events).accepting && run(q, events).next_id == q.next_id,
    decreases events.len(),
{
    if events.len() > 0 {
        let before = run(q, events.drop_last());
        law_runs_keep_the_queue_sound(q, events.drop_last());
        law_every_event_keeps_the_queue_sound(before, events.last());
    }
}

/// A job that is in the queue at one time and not at a later one has ended in
/// between, and what is known of it still says so.
pub proof fn law_accepted_jobs_end(q: QueueView, events: Seq<QueueEvent>, job: u64)
    requires
        sound(q),
        can_run(q, events),
        in_queue(q, job),
        !in_queue(run(q, events), job),
    ensures
        exists|k: int| ends_at(q, events, job, k),
        run(q, events).progress.contains_key(job) ==> has_ended(run(q, events), job),
    decreases events.len(),
{
    if events.len() > 0 {
        let fewer = events.drop_last();
        let before = run(q, fewer);
        let last = (events.len() - 1) as int;
        law_runs_keep_the_queue_sound(q, fewer);
        assert(events.take(last) =~= fewer);
        assert(events.take(last + 1) =~= events);
        if in_queue(before, job) {
            law_jobs_leave_when_they_have_ended(before, events.last(), job);
            assert(ends_at(q, events, job, last));
        } else {
            law_accepted_jobs_end(q, fewer, job);
            let k = choose|k: int| ends_at(q, fewer, job, k);
            assert(fewer.take(k) =~= events.take(k));
            assert(fewer.take(k + 1) =~= events.take(k + 1));
            assert(ends_at(q, events, job, k));
            lemma_numbered(q, job);
            if run(q, events).progress.contains_key(job) {
                if before.progress.contains_key(job) {
                    law_ended_jobs_stay_ended(before, events.last(), job);
                }
            }
        }
    }
}

/// The number of a job in the queue has been given out.
proof fn lemma_numbered(q: QueueView, job: u64)
    requires
        sound(q),
        in_queue(q, job),
    ensures
        job < q.next_id,
{
    if exists|i: int| 0 <= i < q.pending.len() && #[trigger] q.pending[i].id == job {
        let i = choose|i: int| 0 <= i < q.pending.len() && #[trigger] q.pending[i].id == job;
        assert(q.pending[i].id < q.next_id);
    } else {
        let i = choose|i: int| 0 <= i < q.active.len() && #[trigger] q.active[i].id == job;
        assert(q.active[i].id < q.next_id);
    }
}

/// From the moment on at which the queue is shut down, nothing is accepted any
/// more. Once it is drained, every job that had been accepted before has ended.
pub proof fn law_shutdown_ends_every_job(q: QueueView, events: Seq<QueueEvent>, job: u64)
    requires
        sound(q),
        can_run(after(q, QueueEvent::Shutdown), events),
    ensures
        ({
            let closed_queue = after(q, QueueEvent::Shutdown);
            let end = run(closed_queue, events);
            &&& refusal(end) == Some(
                "The downloader is shutting down. Please try again after it restarts."@,
            )
            &&& forall|owner: i64, request: RequestView, limits: Option<EffectiveUserLimits>| #[trigger]
                hand_in_reply(end, owner, request, limits) == ReplyView::Message(refusal(end)->0)
            &&& end.next_id == q.next_id
            &&& drained(end) ==> !in_queue(end, job)
            &&& drained(end) && in_queue(q, job) ==> {
                &&& exists|k: int| ends_at(closed_queue, events, job, k)
                &&& end.progress.contains_key(job) ==> has_ended(end, job)
            }
        }),
{
    let closed_queue = after(q, QueueEvent::Shutdown);
    law_every_event_keeps_the_queue_sound(q, QueueEvent::Shutdown);
    law_runs_keep_the_queue_sound(closed_queue, events);
    if drained(run(closed_queue, events)) && in_queue(q, job) {
        lemma_same_jobs(q, closed_queue, job);
        law_accepted_jobs_end(closed_queue, events, job);
    }
}

/// Whether the job `id` is in the queue and belongs to `owner`.
pub open spec fn owned(q: QueueView, id: u64, owner: i64) -> bool {
    ||| exists|i: int|
        0 <= i < q.pending.len() && #[trigger] q.pending[i].id == id && q.pending[i].owner == owner
    ||| exists|i: int|
        0 <= i < q.active.len() && #[trigger] q.active[i].id == id && q.active[i].owner == owner
}

/// With the event by which a job leaves the queue its outcome waits to be
/// recorded for its owner, and no other outcome does.
pub proof fn law_jobs_that_leave_are_counted(q: QueueView, event: QueueEvent, job: u64)
    requires
        sound(q),
        can_happen(q, event),
        in_queue(q, job),
        !in_queue(after(q, event), job),
    ensures
        counted_in(after(q, event).progress[job].phase) is Some,
        after(q, event).outcomes.len() == q.outcomes.len() + 1,
        after(q, event).outcomes.drop_last() == q.outcomes,
        owned(q, job, after(q, event).outcomes.last().0),
        event is Cancel || event is CancelReplied ==> after(q, event).outcomes.last().1
            == DownloadStatOutcome::Cancelled,
        event matches QueueEvent::Finish { outcome, .. } ==> after(q, event).outcomes.last().1
            == counted(outcome),
        event is Cancel || event is CancelReplied || event is Finish,
{
    let next = after(q, event);
    law_jobs_leave_when_they_have_ended(q, event, job);
    match event {
        QueueEvent::HandIn { owner, request, limits, now } => {
            lemma_handed_in(q, owner, request, limits, now, job);
        },
        QueueEvent::Retry { owner, message, now } => {
            if let Some(entry) = status_of(q, owner, message) {
                lemma_handed_in(q, owner, entry.request, None, now, job);
            }
        },
        QueueEvent::Cancel { owner, id, now } => {
            lemma_cancelled_is_counted(q, owner, id, now, job);
        },
        QueueEvent::CancelReplied { owner, message, now } => {
            if let Some(entry) = status_of(q, owner, message) {
                lemma_cancelled_is_counted(q, owner, entry.id, now, job);
            }
        },
        QueueEvent::Start => {
            lemma_started(q, job);
        },
        QueueEvent::Finish { id, outcome, now } => {
            lemma_first_set(running_flags(q, id), 0);
            match first_set(running_flags(q, id), 0) {
                Some(at) => {
                    assert(running_flags(q, id)[at]);
                    if job != id {
                        lemma_others_stay(q, next, at, job);
                    }
                    assert(next.outcomes.drop_last() =~= q.outcomes);
                },
                None => {
                    lemma_same_jobs(q, next, job);
                },
            }
        },
        _ => {
            lemma_same_jobs(q, next, job);
        },
    }
}

/// Where one running job is taken out, the other jobs stay.
proof fn lemma_others_stay(q: QueueView, next: QueueView, at: int, job: u64)
    requires
        0 <= at < q.active.len(),
        next.pending == q.pending,
        next.active == q.active.remove(at),
        job != q.active[at].id,
        in_queue(q, job),
    ensures
        in_queue(next, job),
{
    if exists|i: int| 0 <= i < q.pending.len() && #[trigger] q.pending[i].id == job {
        let i = choose|i: int| 0 <= i < q.pending.len() && #[trigger] q.pending[i].id == job;
        assert(next.pending[i].id == job);
    } else {
        let i = choose|i: int| 0 <= i < q.active.len() && #[trigger] q.active[i].id == job;
        if i < at {
            assert(next.active[i].id == job);
        } else {
            assert(next.active[i - 1].id == job);
        }
    }
}

proof fn lemma_cancelled_is_counted(q: QueueView, owner: i64, id: u64, now: Duration, job: u64)
    requires
        sound(q),
        in_queue(q, job),
        !in_queue(cancelled(q, owner, id, now), job),
    ensures
        cancelled(q, owner, id, now).outcomes == q.outcomes.push(
            (owner, DownloadStatOutcome::Cancelled),
        ),
        cancelled(q, owner, id, now).outcomes.drop_last() == q.outcomes,
        owned(q, job, owner),
{
    let next = cancelled(q, owner, id, now);
    lemma_first_set(pending_flags(q, owner, id), 0);
    lemma_first_set(active_flags(q, owner, id), 0);
    match first_set(pending_flags(q, owner, id), 0) {
        Some(at) => {
            assert(pending_flags(q, owner, id)[at]);
            assert(next.outcomes.drop_last() =~= q.outcomes);
            if job == id {
                assert(q.pending[at].id == job && q.pending[at].owner == owner);
            } else {
                lemma_waiting_others_stay(q, next, at, job);
            }
        },
        None => {
            if let Some(at) = first_set(active_flags(q, owner, id), 0) {
                assert(active_flags(q, owner, id)[at]);
            }
            lemma_same_jobs(q, next, job);
        },
    }
}

/// Where one waiting job is taken out, the other jobs stay.
proof fn lemma_waiting_others_stay(q: QueueView, next: QueueView, at: int, job: u64)
    requires
        0 <= at < q.pending.len(),
        next.pending == q.pending.remove(at),
        next.active == q.active,
        job != q.pending[at].id,
        in_queue(q, job),
    ensures
        in_queue(next, job),
{
    if exists|i: int| 0 <= i < q.pending.len() && #[trigger] q.pending[i].id == job {
        let i = choose|i: int| 0 <= i < q.pending.len() && #[trigger] q.pending[i].id == job;
        if i < at {
            assert(next.pending[i].id == job);
        } else {
            assert(next.pending[i - 1].id == job);
        }
    } else {
        let i = choose|i: int| 0 <= i < q.active.len() && #[trigger] q.active[i].id == job;
        assert(next.active[i].id == job);
    }
}

/// A job that has left the queue does not come back.
pub proof fn law_jobs_do_not_come_back(q: QueueView, event: QueueEvent, job: u64)
    requires
        sound(q),
        can_happen(q, event),
        job < q.next_id,
        !in_queue(q, job),
    ensures
        job < after(q, event).next_id,
        !in_queue(after(q, event), job),
{
    let next = after(q, event);
    lemma_first_set(idle_start_flags(q), 0);
    lemma_first_set(start_flags(q), 0);
    match event {
        QueueEvent::Start => {
            lemma_started(q, job);
        },
        QueueEvent::Cancel { owner, id, now } => {
            lemma_cancelled_adds_no_job(q, owner, id, now, job);
        },
        QueueEvent::CancelReplied { owner, message, now } => {
            if let Some(entry) = status_of(q, owner, message) {
                lemma_cancelled_adds_no_job(q, owner, entry.id, now, job);
            }
        },
        QueueEvent::HandIn { .. } | QueueEvent::Retry { .. } => {
            assert forall|i: int| 0 <= i < next.pending.len() implies #[trigger] next.pending[i].id
                != job by {
                if i < q.pending.len() {
                    assert(next.pending[i] == q.pending[i]);
                    assert(q.pending[i].id != job);
                }
            }
            assert forall|i: int| 0 <= i < next.active.len() implies #[trigger] next.active[i].id
                != job by {
                assert(q.active[i].id != job);
            }
        },
        QueueEvent::Finish { id, .. } => {
            lemma_first_set(running_flags(q, id), 0);
            assert forall|i: int| 0 <= i < next.active.len() implies #[trigger] next.active[i].id
                != job by {
                match first_set(running_flags(q, id), 0) {
                    Some(at) => {
                        let from = if i < at {
                            i
                        } else {
                            i + 1
                        };
                        assert(next.active[i] == q.active[from]);
                        assert(q.active[from].id != job);
                    },
                    None => {
                        assert(q.active[i].id != job);
                    },
                }
            }
            assert forall|i: int| 0 <= i < next.pending.len() implies #[trigger] next.pending[i].id
                != job by {
                assert(q.pending[i].id != job);
            }
        },
        _ => {
            lemma_same_jobs(q, next, job);
        },
    }
}

/// Events up to a point can happen if all of them can.
proof fn lemma_can_begin(q: QueueView, events: Seq<QueueEvent>, upto: int)
    requires
        can_run(q, events),
        0 <= upto <= events.len(),
    ensures
        can_run(q, events.take(upto)),
    decreases events.len(),
{
    if upto == events.len() {
        assert(events.take(upto) =~= events);
    } else {
        let fewer = events.drop_last();
        lemma_can_begin(q, fewer, upto);
        assert(fewer.take(upto) =~= events.take(upto));
    }
}

proof fn lemma_stays_out(q: QueueView, events: Seq<QueueEvent>, job: u64, from: int, to: int)
    requires
        sound(q),
        can_run(q, events),
        job < q.next_id,
        0 <= from <= to <= events.len(),
        !in_queue(run(q, events.take(from)), job),
    ensures
        !in_queue(run(q, events.take(to)), job),
    decreases to - from,
{
    if from < to {
        let earlier = events.take(to - 1);
        lemma_stays_out(q, events, job, from, to - 1);
        lemma_can_begin(q, events, to);
        assert(events.take(to).drop_last() =~= earlier);
        law_runs_keep_the_queue_sound(q, earlier);
        law_jobs_do_not_come_back(run(q, earlier), events.take(to).last(), job);
    }
}

/// However much happens, a job leaves the queue once.
pub proof fn law_jobs_end_once(q: QueueView, events: Seq<QueueEvent>, job: u64, k: int, l: int)
    requires
        sound(q),
        can_run(q, events),
        job < q.next_id,
        ends_at(q, events, job, k),
        ends_at(q, events, job, l),
    ensures
        k == l,
{
    if k < l {
        lemma_stays_out(q, events, job, k + 1, l);
    }
    if l < k {
        lemma_stays_out(q, events, job, l + 1, k);
    }
}

proof fn lemma_cancelled_adds_no_job(q: QueueView, owner: i64, id: u64, now: Duration, job: u64)
    requires
        sound(q),
        !in_queue(q, job),
    ensures
        !in_queue(cancelled(q, owner, id, now), job),
{
    let next = cancelled(q, owner, id, now);
    lemma_first_set(pending_flags(q, owner, id), 0);
    lemma_first_set(active_flags(q, owner, id), 0);
    match first_set(pending_flags(q, owner, id), 0) {
        Some(at) => {
            assert forall|i: int| 0 <= i < next.pending.len() implies #[trigger] next.pending[i].id
                != job by {
                let from = if i < at {
                    i
                } else {
                    i + 1
                };
                assert(next.pending[i] == q.pending[from]);
                assert(q.pending[from].id != job);
            }
            assert forall|i: int| 0 <= i < next.active.len() implies #[trigger] next.active[i].id
                != job by {
                assert(q.active[i].id != job);
            }
        },
        None => {
            if let Some(at) = first_set(active_flags(q, owner, id), 0) {
                assert(active_flags(q, owner, id)[at]);
            }
            lemma_same_jobs(q, next, job);
        },
    }
}

/// How many jobs wait, run, or have an outcome that waits to be recorded.
pub open spec fn accounted(q: QueueView) -> nat {
    q.pending.len() + q.active.len() + q.outcomes.len()
}

/// The outcomes that are handed out to be recorded while events happen.
pub open spec fn taken(q: QueueView, events: Seq<QueueEvent>) -> Seq<(i64, DownloadStatOutcome)>
    decreases events.len(),
{
    if events.len() == 0 {
        Seq::empty()
    } else {
        let before = taken(q, events.drop_last());
        if events.last() is TakeOutcomes {
            before + run(q, events.drop_last()).outcomes
        } else {
            before
        }
    }
}

/// No outcome is lost and none is made up: until it is handed out to be
/// recorded, every accepted job waits, runs, or has its outcome.
pub proof fn law_events_keep_the_account(q: QueueView, event: QueueEvent)
    requires
        sound(q),
        can_happen(q, event),
    ensures
        event !is TakeOutcomes ==> accounted(after(q, event)) - accounted(q) == after(
            q,
            event,
        ).next_id - q.next_id,
        event is TakeOutcomes ==> accounted(after(q, event)) == accounted(q) - q.outcomes.len()
            && after(q, event).next_id == q.next_id,
{
    lemma_first_set(idle_start_flags(q), 0);
    lemma_first_set(start_flags(q), 0);
    match event {
        QueueEvent::Cancel { owner, id, .. } => {
            lemma_first_set(pending_flags(q, owner, id), 0);
            lemma_first_set(active_flags(q, owner, id), 0);
        },
        QueueEvent::CancelReplied { owner, message, .. } => {
            if let Some(entry) = status_of(q, owner, message) {
                lemma_first_set(pending_flags(q, owner, entry.id), 0);
                lemma_first_set(active_flags(q, owner, entry.id), 0);
            }
        },
        QueueEvent::Finish { id, .. } => {
            lemma_first_set(running_flags(q, id), 0);
        },
        _ => {},
    }
}

/// Every job that is accepted is counted exactly once: as many outcomes are
/// handed out to be recorded as jobs have left the queue. After a shutdown, once
/// the queue is drained and its outcomes are taken, those are all that had been
/// accepted.
pub proof fn law_every_accepted_job_is_counted_once(q: QueueView, events: Seq<QueueEvent>)
    requires
        sound(q),
        can_run(q, events),
    ensures
        taken(q, events).len() + accounted(run(q, events)) == accounted(q) + run(q, events).next_id
            - q.next_id,
        drained(run(q, events)) && run(q, events).outcomes.len() == 0 ==> taken(q, events).len()
            == accounted(q) + run(q, events).next_id - q.next_id,
    decreases events.len(),
{
    if events.len() > 0 {
        let fewer = events.drop_last();
        law_every_accepted_job_is_counted_once(q, fewer);
        law_runs_keep_the_queue_sound(q, fewer);
        law_events_keep_the_account(run(q, fewer), events.last());
    }
}

} // verus!
