//! The download queue: what it accepts, in which order it starts jobs, and what
//! it answers.

use std::collections::HashMap;

use vstd::prelude::*;

use crate::jobs::progress::{JobPhase, JobProgress, ProgressView, move_flushes, moved, summary_text};
use crate::media::request::{DownloadLimits, DownloadOutcome, DownloadRequest, RequestView};
use crate::number::{decimal, write_u64, write_usize};
use crate::policy::EffectiveUserLimits;
use crate::store::DownloadStatOutcome;
use crate::text::{join, joined, push_text, text_of, texts};
use crate::time::Duration;

verus! {

broadcast use vstd::std_specs::hash::group_hash_axioms;

/// How many status messages the queue remembers.
pub const STATUS_HISTORY_LIMIT: usize = 4_096;

// ---------------------------------------------------------------------------
// Whose turn it is
// ---------------------------------------------------------------------------

/// Where the first flag from `from` on is set.
pub open spec fn first_set(flags: Seq<bool>, from: int) -> Option<int>
    decreases flags.len() - from,
{
    if from < 0 || from >= flags.len() {
        None
    } else if flags[from] {
        Some(from)
    } else {
        first_set(flags, from + 1)
    }
}

/// `first_set` finds the first flag that is set, and nothing only if none is.
pub proof fn lemma_first_set(flags: Seq<bool>, from: int)
    requires
        0 <= from <= flags.len(),
    ensures
        match first_set(flags, from) {
            Some(at) => from <= at < flags.len() && flags[at] && forall|i: int|
                from <= i < at ==> !flags[i],
            None => forall|i: int| from <= i < flags.len() ==> !flags[i],
        },
    decreases flags.len() - from,
{
    if from < flags.len() && !flags[from] {
        lemma_first_set(flags, from + 1);
    }
}

fn find_first(flags: &Vec<bool>) -> (result: Option<usize>)
    ensures
        match (result, first_set(flags@, 0)) {
            (Some(at), Some(expected)) => at == expected,
            (None, None) => true,
            _ => false,
        },
{
    let mut i: usize = 0;
    while i < flags.len()
        invariant
            i <= flags@.len(),
            first_set(flags@, 0) == first_set(flags@, i as int),
        decreases flags@.len() - i,
    {
        if flags[i] {
            return Some(i);
        }
        i = i + 1;
    }
    None
}

/// How often `owner` occurs.
pub open spec fn count_of(owners: Seq<i64>, owner: i64) -> nat
    decreases owners.len(),
{
    if owners.len() == 0 {
        0
    } else {
        count_of(owners.drop_last(), owner) + if owners.last() == owner {
            1nat
        } else {
            0nat
        }
    }
}

/// `count_of` counts: it is zero only where nothing occurs, and never more than
/// there is.
pub proof fn lemma_count_of(owners: Seq<i64>, owner: i64)
    ensures
        count_of(owners, owner) <= owners.len(),
        count_of(owners, owner) == 0 <==> !owners.contains(owner),
    decreases owners.len(),
{
    if owners.len() > 0 {
        lemma_count_of(owners.drop_last(), owner);
        if owners.drop_last().contains(owner) {
            let i = choose|i: int| 0 <= i < owners.len() - 1 && owners.drop_last()[i] == owner;
            assert(owners[i] == owner);
        }
        if owners.contains(owner) && owners.last() != owner {
            let i = choose|i: int| 0 <= i < owners.len() && owners[i] == owner;
            assert(owners.drop_last()[i] == owner);
        }
    }
}

fn count_owner(owners: &[i64], owner: i64) -> (result: usize)
    ensures
        result == count_of(owners@, owner),
        result <= owners@.len(),
{
    let mut count: usize = 0;
    let mut i: usize = 0;
    let total: usize = owners.len();
    assert(owners@.take(0) =~= Seq::empty());
    while i < total
        invariant
            i <= total,
            total == owners@.len(),
            count <= i,
            count == count_of(owners@.take(i as int), owner),
        decreases total - i,
    {
        assert(owners@.take(i + 1).drop_last() =~= owners@.take(i as int));
        if owners[i] == owner {
            count = count + 1;
        }
        i = i + 1;
    }
    assert(owners@.take(total as int) =~= owners@);
    count
}

/// Which of the waiting users have no active job.
pub open spec fn idle_flags(pending_owners: Seq<i64>, active_owners: Seq<i64>) -> Seq<bool> {
    Seq::new(pending_owners.len(), |i: int| !active_owners.contains(pending_owners[i]))
}

/// Which of the waiting jobs is next: the first of a user without an active
/// job, or else the first.
pub open spec fn next_position(pending_owners: Seq<i64>, active_owners: Seq<i64>) -> Option<int> {
    match first_set(idle_flags(pending_owners, active_owners), 0) {
        Some(at) => Some(at),
        None => if pending_owners.len() == 0 {
            None
        } else {
            Some(0)
        },
    }
}

/// Which of the waiting jobs is next.
pub fn next_pending_position(pending_owners: &[i64], active_owners: &[i64]) -> (result: Option<
    usize,
>)
    ensures
        match (result, next_position(pending_owners@, active_owners@)) {
            (Some(at), Some(expected)) => at == expected,
            (None, None) => true,
            _ => false,
        },
{
    let mut flags: Vec<bool> = Vec::new();
    let mut i: usize = 0;
    while i < pending_owners.len()
        invariant
            i <= pending_owners@.len(),
            flags@ == idle_flags(pending_owners@, active_owners@).take(i as int),
        decreases pending_owners@.len() - i,
    {
        let count: usize = count_owner(active_owners, pending_owners[i]);
        proof {
            lemma_count_of(active_owners@, pending_owners@[i as int]);
        }
        flags.push(count == 0);
        assert(flags@ =~= idle_flags(pending_owners@, active_owners@).take(i + 1));
        i = i + 1;
    }
    assert(flags@ =~= idle_flags(pending_owners@, active_owners@));
    match find_first(&flags) {
        Some(at) => Some(at),
        None => if pending_owners.len() == 0 {
            None
        } else {
            Some(0)
        },
    }
}

// ---------------------------------------------------------------------------
// The state of the queue
// ---------------------------------------------------------------------------

struct DownloadJob {
    id: u64,
    owner_id: i64,
    request: DownloadRequest,
    limits: Option<EffectiveUserLimits>,
}

struct ActiveJob {
    id: u64,
    owner_id: i64,
    cancelled: bool,
}

struct StatusJob {
    owner_id: i64,
    message_id: i32,
    id: u64,
    request: DownloadRequest,
}

/// The state of the queue, as those see it who hand in requests.
pub struct DownloadQueueHandle {
    accepting: bool,
    pending: Vec<DownloadJob>,
    active: Vec<ActiveJob>,
    statuses: Vec<StatusJob>,
    progress: HashMap<u64, JobProgress>,
    concurrency: usize,
    capacity: usize,
    limits: DownloadLimits,
    next_id: u64,
    outcomes: Vec<(i64, DownloadStatOutcome)>,
}

/// The queue, as it runs.
pub struct DownloadQueue {
    handle: DownloadQueueHandle,
}

/// A waiting job. `limits` holds the limits of its owner, if it has any.
pub ghost struct JobView {
    pub id: u64,
    pub owner: i64,
    pub request: RequestView,
    pub limits: Option<EffectiveUserLimits>,
}

/// A running job.
pub ghost struct ActiveView {
    pub id: u64,
    pub owner: i64,
    pub cancelled: bool,
}

/// A status message, and what it stands for.
pub ghost struct StatusView {
    pub owner: i64,
    pub message: i32,
    pub id: u64,
    pub request: RequestView,
}

#[verifier::ext_equal]
pub ghost struct QueueView {
    pub accepting: bool,
    /// The waiting jobs, in the order in which they came.
    pub pending: Seq<JobView>,
    /// The running jobs, in the order in which they were started.
    pub active: Seq<ActiveView>,
    /// The status messages that are remembered, in the order in which they were
    /// first sent.
    pub statuses: Seq<StatusView>,
    /// Where the jobs stand, by their numbers.
    pub progress: Map<u64, ProgressView>,
    /// How many jobs run at most.
    pub concurrency: usize,
    /// How many jobs wait at most.
    pub capacity: usize,
    pub limits: DownloadLimits,
    /// The number of the next job.
    pub next_id: u64,
    /// The outcomes of the jobs that have left the queue, each with the owner of
    /// the job, in the order in which they left. They wait to be recorded.
    pub outcomes: Seq<(i64, DownloadStatOutcome)>,
}

impl DownloadJob {
    spec fn seen(self) -> JobView {
        JobView {
            id: self.id,
            owner: self.owner_id,
            request: self.request@,
            limits: self.limits,
        }
    }
}

impl ActiveJob {
    spec fn seen(self) -> ActiveView {
        ActiveView {
            id: self.id,
            owner: self.owner_id,
            cancelled: self.cancelled,
        }
    }
}

impl StatusJob {
    spec fn seen(self) -> StatusView {
        StatusView {
            owner: self.owner_id,
            message: self.message_id,
            id: self.id,
            request: self.request@,
        }
    }
}

impl View for DownloadQueueHandle {
    type V = QueueView;

    closed spec fn view(&self) -> QueueView {
        QueueView {
            accepting: self.accepting,
            pending: self.pending@.map_values(|job: DownloadJob| job.seen()),
            active: self.active@.map_values(|job: ActiveJob| job.seen()),
            statuses: self.statuses@.map_values(|job: StatusJob| job.seen()),
            progress: self.progress@.map_values(|progress: JobProgress| progress@),
            concurrency: self.concurrency,
            capacity: self.capacity,
            limits: self.limits,
            next_id: self.next_id,
            outcomes: self.outcomes@,
        }
    }
}

impl View for DownloadQueue {
    type V = QueueView;

    closed spec fn view(&self) -> QueueView {
        self.handle@
    }
}

/// The owners of the waiting jobs.
pub open spec fn pending_owners(q: QueueView) -> Seq<i64> {
    q.pending.map_values(|job: JobView| job.owner)
}

/// The owners of the running jobs.
pub open spec fn active_owners(q: QueueView) -> Seq<i64> {
    q.active.map_values(|job: ActiveView| job.owner)
}

/// What holds of the queue at any time: it keeps to its bounds, no number is
/// given twice, every waiting or running job has its progress, no waiting job
/// has ended, and every status message is remembered once.
pub open spec fn sound(q: QueueView) -> bool {
    &&& 0 < q.concurrency
    &&& 0 < q.capacity
    &&& q.pending.len() <= q.capacity
    &&& q.active.len() <= q.concurrency
    &&& q.statuses.len() <= STATUS_HISTORY_LIMIT
    &&& forall|i: int|
        0 <= i < q.pending.len() ==> #[trigger] q.pending[i].id < q.next_id && known(
            q,
            q.pending[i].id,
        )
    &&& forall|i: int|
        0 <= i < q.pending.len() ==> !q.progress[#[trigger] q.pending[i].id].phase.is_final()
    &&& forall|i: int|
        0 <= i < q.active.len() ==> #[trigger] q.active[i].id < q.next_id && known(
            q,
            q.active[i].id,
        )
    &&& forall|i: int, j: int|
        0 <= i < j < q.pending.len() ==> #[trigger] q.pending[i].id != #[trigger] q.pending[j].id
    &&& forall|i: int, j: int|
        0 <= i < j < q.active.len() ==> #[trigger] q.active[i].id != #[trigger] q.active[j].id
    &&& forall|i: int, j: int|
        0 <= i < q.pending.len() && 0 <= j < q.active.len() ==> #[trigger] q.pending[i].id
            != #[trigger] q.active[j].id
    &&& forall|i: int, j: int|
        0 <= i < j < q.statuses.len() ==> !same_status(
            #[trigger] q.statuses[i],
            #[trigger] q.statuses[j],
        )
}

/// Whether the progress of a job is known.
pub open spec fn known(q: QueueView, id: u64) -> bool {
    q.progress.contains_key(id) && q.progress[id].id == id
}

/// Whether the job `id` waits.
pub open spec fn waits(q: QueueView, id: u64) -> bool {
    exists|i: int| 0 <= i < q.pending.len() && #[trigger] q.pending[i].id == id
}

/// Whether the job `id` can be in `phase`: a job that waits has not ended.
pub open spec fn can_be_in(q: QueueView, id: u64, phase: JobPhase) -> bool {
    waits(q, id) ==> !phase.is_final()
}

/// Whether two entries speak of the same status message.
pub open spec fn same_status(one: StatusView, other: StatusView) -> bool {
    one.owner == other.owner && one.message == other.message
}

// ---------------------------------------------------------------------------
// Replies
// ---------------------------------------------------------------------------

/// What a request is answered.
pub enum QueueReply {
    Accepted(AcceptedReply),
    Silent,
    Message { text: String },
}

/// A job that has been accepted. Once its status message is sent, that is
/// registered with the queue.
pub struct AcceptedReply {
    pub id: u64,
    pub owner_id: i64,
    pub request: DownloadRequest,
}

pub ghost enum ReplyView {
    Accepted { id: u64, owner: i64, request: RequestView },
    Silent,
    Message(Seq<char>),
}

impl View for QueueReply {
    type V = ReplyView;

    open spec fn view(&self) -> ReplyView {
        match self {
            QueueReply::Accepted(reply) => ReplyView::Accepted {
                id: reply.id,
                owner: reply.owner_id,
                request: reply.request@,
            },
            QueueReply::Silent => ReplyView::Silent,
            QueueReply::Message { text } => ReplyView::Message(text@),
        }
    }
}

impl QueueReply {
    pub fn is_accepted(&self) -> (result: bool)
        ensures
            result == (self@ is Accepted),
    {
        match self {
            QueueReply::Accepted(_) => true,
            _ => false,
        }
    }

    pub fn message(text: &str) -> (result: QueueReply)
        ensures
            result@ == ReplyView::Message(text@),
    {
        QueueReply::Message { text: text.to_owned() }
    }
}

// ---------------------------------------------------------------------------
// Handing in, cancelling, retrying
// ---------------------------------------------------------------------------

pub open spec fn queue_full_text(q: QueueView) -> Seq<char> {
    "The download queue is full ("@ + decimal(q.pending.len()) + " waiting, "@ + decimal(
        q.active.len(),
    ) + "/"@ + decimal(q.concurrency as nat) + " active). Please try again later."@
}

/// Why the queue takes no further job, if it takes none.
pub open spec fn refusal(q: QueueView) -> Option<Seq<char>> {
    if !q.accepting {
        Some("The downloader is shutting down. Please try again after it restarts."@)
    } else if q.pending.len() >= q.capacity {
        Some(queue_full_text(q))
    } else {
        None
    }
}

/// Why the queue takes no further job of `owner`, if it takes none.
pub open spec fn owner_refusal(q: QueueView, owner: i64, limits: EffectiveUserLimits) -> Option<
    Seq<char>,
> {
    match refusal(q) {
        Some(text) => Some(text),
        None => if count_of(pending_owners(q), owner) >= limits.max_queued_jobs {
            Some(
                "You have reached your limit of "@ + decimal(limits.max_queued_jobs as nat)
                    + " queued downloads. Please wait until one of them starts."@,
            )
        } else {
            None
        },
    }
}

/// A job that has just been queued.
pub open spec fn fresh(id: u64, now: Duration) -> ProgressView {
    ProgressView {
        id,
        status: None,
        phase: JobPhase::Queued,
        last_render: None,
        flushing: false,
        attachment_done: false,
        final_media: false,
        delete_when_attached: false,
        failure: None,
        phase_since: now,
        edit_failures: 0,
    }
}

/// The queue with one job more.
pub open spec fn enqueued(
    q: QueueView,
    owner: i64,
    request: RequestView,
    limits: Option<EffectiveUserLimits>,
    now: Duration,
) -> QueueView {
    QueueView {
        pending: q.pending.push(JobView { id: q.next_id, owner, request, limits }),
        progress: q.progress.insert(q.next_id, fresh(q.next_id, now)),
        next_id: (q.next_id + 1) as u64,
        ..q
    }
}

/// Why a job is not accepted, if it is not. `limits` holds the limits of its
/// owner, if it has any.
pub open spec fn hand_in_refusal(
    q: QueueView,
    owner: i64,
    limits: Option<EffectiveUserLimits>,
) -> Option<Seq<char>> {
    match limits {
        Some(limits) => owner_refusal(q, owner, limits),
        None => refusal(q),
    }
}

/// The queue after a request is handed in.
pub open spec fn handed_in(
    q: QueueView,
    owner: i64,
    request: RequestView,
    limits: Option<EffectiveUserLimits>,
    now: Duration,
) -> QueueView {
    match hand_in_refusal(q, owner, limits) {
        Some(_) => q,
        None => enqueued(q, owner, request, limits, now),
    }
}

/// What handing in a request is answered.
pub open spec fn hand_in_reply(
    q: QueueView,
    owner: i64,
    request: RequestView,
    limits: Option<EffectiveUserLimits>,
) -> ReplyView {
    match hand_in_refusal(q, owner, limits) {
        Some(text) => ReplyView::Message(text),
        None => ReplyView::Accepted { id: q.next_id, owner, request },
    }
}

/// Which waiting jobs are the job `id` of `owner`.
pub open spec fn pending_flags(q: QueueView, owner: i64, id: u64) -> Seq<bool> {
    Seq::new(q.pending.len(), |i: int| q.pending[i].id == id && q.pending[i].owner == owner)
}

/// Which running jobs are the job `id` of `owner`.
pub open spec fn active_flags(q: QueueView, owner: i64, id: u64) -> Seq<bool> {
    Seq::new(q.active.len(), |i: int| q.active[i].id == id && q.active[i].owner == owner)
}

/// The progress of the jobs after `phase` is reported of the job `id`.
pub open spec fn reported(
    progress: Map<u64, ProgressView>,
    id: u64,
    phase: JobPhase,
    now: Duration,
) -> Map<u64, ProgressView> {
    if progress.contains_key(id) {
        progress.insert(id, moved(progress[id], phase, now))
    } else {
        progress
    }
}

/// Whether reporting `phase` of the job `id` starts a flush.
pub open spec fn report_flushes(progress: Map<u64, ProgressView>, id: u64, phase: JobPhase) -> bool {
    progress.contains_key(id) && move_flushes(progress[id], phase)
}

/// The queue after `owner` has asked to cancel the job `id`: a waiting job is
/// taken out and has its outcome, a running one is told to stop.
pub open spec fn cancelled(q: QueueView, owner: i64, id: u64, now: Duration) -> QueueView {
    match first_set(pending_flags(q, owner, id), 0) {
        Some(at) => QueueView {
            pending: q.pending.remove(at),
            progress: reported(q.progress, id, JobPhase::Cancelled, now),
            outcomes: q.outcomes.push((owner, DownloadStatOutcome::Cancelled)),
            ..q
        },
        None => match first_set(active_flags(q, owner, id), 0) {
            Some(at) => QueueView {
                active: q.active.update(at, ActiveView { cancelled: true, ..q.active[at] }),
                progress: reported(q.progress, id, JobPhase::Cancelling, now),
                ..q
            },
            None => q,
        },
    }
}

/// Whether `owner` has a job `id` to cancel.
pub open spec fn cancellable(q: QueueView, owner: i64, id: u64) -> bool {
    first_set(pending_flags(q, owner, id), 0) is Some || first_set(active_flags(q, owner, id), 0)
        is Some
}

/// What a request to cancel is answered.
pub open spec fn cancel_reply(q: QueueView, owner: i64, id: u64) -> ReplyView {
    if cancellable(q, owner, id) {
        ReplyView::Silent
    } else {
        ReplyView::Message(
            "No cancellable job #"@ + decimal(id as nat) + " was found for your account."@,
        )
    }
}

/// Whether cancelling starts a flush of the job's status message.
pub open spec fn cancel_flushes(q: QueueView, owner: i64, id: u64) -> bool {
    match first_set(pending_flags(q, owner, id), 0) {
        Some(_) => report_flushes(q.progress, id, JobPhase::Cancelled),
        None => first_set(active_flags(q, owner, id), 0) is Some && report_flushes(
            q.progress,
            id,
            JobPhase::Cancelling,
        ),
    }
}

/// Which remembered status messages are the message `message` of `owner`.
pub open spec fn status_flags(statuses: Seq<StatusView>, owner: i64, message: i32) -> Seq<bool> {
    Seq::new(statuses.len(), |i: int| statuses[i].owner == owner && statuses[i].message == message)
}

/// What the status message `message` of `owner` stands for.
pub open spec fn status_of(q: QueueView, owner: i64, message: i32) -> Option<StatusView> {
    match first_set(status_flags(q.statuses, owner, message), 0) {
        Some(at) => Some(q.statuses[at]),
        None => None,
    }
}

pub open spec fn unknown_status_text(command: Seq<char>) -> Seq<char> {
    "The replied message is not a known download status. Reply to a download status with "@
        + command + "."@
}

/// The queue after what a status message stands for is handed in again.
pub open spec fn retried(q: QueueView, owner: i64, message: i32, now: Duration) -> QueueView {
    match status_of(q, owner, message) {
        Some(entry) => handed_in(q, owner, entry.request, None, now),
        None => q,
    }
}

/// What a request to retry is answered.
pub open spec fn retry_reply(q: QueueView, owner: i64, message: i32) -> ReplyView {
    match status_of(q, owner, message) {
        Some(entry) => hand_in_reply(q, owner, entry.request, None),
        None => ReplyView::Message(unknown_status_text("/retry"@)),
    }
}

/// The remembered status messages after one more is sent: it takes the place of
/// one with the same key, and the oldest are forgotten.
pub open spec fn remembered(statuses: Seq<StatusView>, entry: StatusView) -> Seq<StatusView> {
    match first_set(status_flags(statuses, entry.owner, entry.message), 0) {
        Some(at) => statuses.update(at, entry),
        None => if statuses.len() < STATUS_HISTORY_LIMIT {
            statuses.push(entry)
        } else {
            statuses.skip(statuses.len() - STATUS_HISTORY_LIMIT + 1).push(entry)
        },
    }
}

/// A report that can be true of its job keeps the queue sound.
pub proof fn lemma_reported(q: QueueView, id: u64, phase: JobPhase, now: Duration)
    requires
        sound(q),
        can_be_in(q, id, phase),
    ensures
        sound(QueueView { progress: reported(q.progress, id, phase, now), ..q }),
{
    let next = QueueView { progress: reported(q.progress, id, phase, now), ..q };
    assert forall|i: int| 0 <= i < next.pending.len() implies {
        !next.progress[#[trigger] next.pending[i].id].phase.is_final()
    } by {
        assert(!q.progress[q.pending[i].id].phase.is_final());
        assert(known(q, q.pending[i].id));
    }
}

/// Progress that can be true of its job keeps the queue sound.
pub proof fn lemma_updated(q: QueueView, progress: ProgressView)
    requires
        sound(q),
        can_be_in(q, progress.id, progress.phase),
    ensures
        sound(QueueView { progress: q.progress.insert(progress.id, progress), ..q }),
{
    let next = QueueView { progress: q.progress.insert(progress.id, progress), ..q };
    assert forall|i: int| 0 <= i < next.pending.len() implies {
        !next.progress[#[trigger] next.pending[i].id].phase.is_final()
    } by {
        assert(!q.progress[q.pending[i].id].phase.is_final());
    }
}

/// A job that is taken out does not wait any more.
proof fn lemma_taken_out(q: QueueView, at: int)
    requires
        sound(q),
        0 <= at < q.pending.len(),
    ensures
        forall|i: int|
            0 <= i < q.pending.remove(at).len() ==> #[trigger] q.pending.remove(at)[i].id
                != q.pending[at].id,
{
    let rest = q.pending.remove(at);
    assert forall|i: int| 0 <= i < rest.len() implies #[trigger] rest[i].id
        != q.pending[at].id by {
        if i < at {
            assert(rest[i] == q.pending[i]);
        } else {
            assert(rest[i] == q.pending[i + 1]);
        }
    }
}

impl DownloadQueueHandle {
    /// Whether the queue can number another job.
    pub fn has_numbers(&self) -> (result: bool)
        ensures
            result == (self@.next_id < u64::MAX),
    {
        self.next_id < u64::MAX
    }

    fn owners_waiting(&self) -> (result: Vec<i64>)
        ensures
            result@ == pending_owners(self@),
    {
        let mut owners: Vec<i64> = Vec::new();
        let mut i: usize = 0;
        while i < self.pending.len()
            invariant
                i <= self.pending@.len(),
                owners@ == pending_owners(self@).take(i as int),
            decreases self.pending@.len() - i,
        {
            owners.push(self.pending[i].owner_id);
            assert(owners@ =~= pending_owners(self@).take(i + 1));
            i = i + 1;
        }
        assert(owners@ =~= pending_owners(self@));
        owners
    }

    fn owners_running(&self) -> (result: Vec<i64>)
        ensures
            result@ == active_owners(self@),
    {
        let mut owners: Vec<i64> = Vec::new();
        let mut i: usize = 0;
        while i < self.active.len()
            invariant
                i <= self.active@.len(),
                owners@ == active_owners(self@).take(i as int),
            decreases self.active@.len() - i,
        {
            owners.push(self.active[i].owner_id);
            assert(owners@ =~= active_owners(self@).take(i + 1));
            i = i + 1;
        }
        assert(owners@ =~= active_owners(self@));
        owners
    }

    fn refused(&self) -> (result: Option<String>)
        ensures
            match (result, refusal(self@)) {
                (Some(text), Some(expected)) => text@ == expected,
                (None, None) => true,
                _ => false,
            },
    {
        if !self.accepting {
            return Some(
                "The downloader is shutting down. Please try again after it restarts.".to_owned(),
            );
        }
        if self.pending.len() >= self.capacity {
            let text = "The download queue is full (".to_owned().concat(
                write_usize(self.pending.len()).as_str(),
            ).concat(" waiting, ").concat(write_usize(self.active.len()).as_str()).concat(
                "/",
            ).concat(write_usize(self.concurrency).as_str()).concat(
                " active). Please try again later.",
            );
            return Some(text);
        }
        None
    }

    fn accept(
        &mut self,
        owner_id: i64,
        request: DownloadRequest,
        limits: Option<EffectiveUserLimits>,
        now: Duration,
    ) -> (reply: QueueReply)
        requires
            sound(old(self)@),
            old(self)@.next_id < u64::MAX,
            refusal(old(self)@) is None,
        ensures
            sound(final(self)@),
            final(self)@ == enqueued(old(self)@, owner_id, request@, limits, now),
            reply@ == (ReplyView::Accepted {
                id: old(self)@.next_id,
                owner: owner_id,
                request: request@,
            }),
    {
        let id: u64 = self.next_id;
        let copy = request.clone();
        self.next_id = id + 1;
        self.progress.insert(id, JobProgress::new(id, now));
        self.pending.push(DownloadJob { id, owner_id, request: copy, limits });
        proof {
            let before = old(self)@;
            assert(self@.pending =~= before.pending.push(
                JobView { id, owner: owner_id, request: request@, limits },
            ));
            assert(self@.progress =~= before.progress.insert(id, fresh(id, now)));
            assert(self@ =~= enqueued(before, owner_id, request@, limits, now));
            assert(sound(self@));
        }
        QueueReply::Accepted(AcceptedReply { id, owner_id, request })
    }

    /// Hands in a request.
    pub fn try_enqueue(&mut self, owner_id: i64, request: DownloadRequest, now: Duration) -> (reply:
        QueueReply)
        requires
            sound(old(self)@),
            refusal(old(self)@) is None ==> old(self)@.next_id < u64::MAX,
        ensures
            sound(final(self)@),
            final(self)@ == handed_in(old(self)@, owner_id, request@, None, now),
            reply@ == hand_in_reply(old(self)@, owner_id, request@, None),
    {
        match self.refused() {
            Some(text) => QueueReply::Message { text },
            None => self.accept(owner_id, request, None, now),
        }
    }

    /// Hands in a request of a user with limits.
    pub fn try_enqueue_within(
        &mut self,
        owner_id: i64,
        request: DownloadRequest,
        limits: EffectiveUserLimits,
        now: Duration,
    ) -> (reply: QueueReply)
        requires
            sound(old(self)@),
            owner_refusal(old(self)@, owner_id, limits) is None ==> old(self)@.next_id < u64::MAX,
        ensures
            sound(final(self)@),
            final(self)@ == handed_in(old(self)@, owner_id, request@, Some(limits), now),
            reply@ == hand_in_reply(old(self)@, owner_id, request@, Some(limits)),
    {
        match self.refused() {
            Some(text) => QueueReply::Message { text },
            None => {
                let owners = self.owners_waiting();
                let queued: usize = count_owner(owners.as_slice(), owner_id);
                if queued >= limits.max_queued_jobs {
                    let text = "You have reached your limit of ".to_owned().concat(
                        write_usize(limits.max_queued_jobs).as_str(),
                    ).concat(" queued downloads. Please wait until one of them starts.");
                    QueueReply::Message { text }
                } else {
                    self.accept(owner_id, request, Some(limits), now)
                }
            },
        }
    }

    fn find_pending(&self, owner_id: i64, id: u64) -> (result: Option<usize>)
        ensures
            match (result, first_set(pending_flags(self@, owner_id, id), 0)) {
                (Some(at), Some(expected)) => at == expected && at < self@.pending.len(),
                (None, None) => true,
                _ => false,
            },
    {
        let ghost flags = pending_flags(self@, owner_id, id);
        let mut i: usize = 0;
        while i < self.pending.len()
            invariant
                i <= self.pending@.len(),
                flags == pending_flags(self@, owner_id, id),
                flags.len() == self.pending@.len(),
                first_set(flags, 0) == first_set(flags, i as int),
            decreases self.pending@.len() - i,
        {
            assert(flags[i as int] == (self.pending@[i as int].id == id
                && self.pending@[i as int].owner_id == owner_id));
            if self.pending[i].id == id && self.pending[i].owner_id == owner_id {
                return Some(i);
            }
            i = i + 1;
        }
        None
    }

    fn find_active(&self, owner_id: i64, id: u64) -> (result: Option<usize>)
        ensures
            match (result, first_set(active_flags(self@, owner_id, id), 0)) {
                (Some(at), Some(expected)) => at == expected && at < self@.active.len(),
                (None, None) => true,
                _ => false,
            },
    {
        let ghost flags = active_flags(self@, owner_id, id);
        let mut i: usize = 0;
        while i < self.active.len()
            invariant
                i <= self.active@.len(),
                flags == active_flags(self@, owner_id, id),
                flags.len() == self.active@.len(),
                first_set(flags, 0) == first_set(flags, i as int),
            decreases self.active@.len() - i,
        {
            assert(flags[i as int] == (self.active@[i as int].id == id
                && self.active@[i as int].owner_id == owner_id));
            if self.active[i].id == id && self.active[i].owner_id == owner_id {
                return Some(i);
            }
            i = i + 1;
        }
        None
    }

    /// Whether the job `id` waits.
    pub fn is_waiting(&self, id: u64) -> (result: bool)
        ensures
            result == waits(self@, id),
    {
        let mut i: usize = 0;
        while i < self.pending.len()
            invariant
                i <= self.pending@.len(),
                forall|j: int| 0 <= j < i ==> #[trigger] self@.pending[j].id != id,
            decreases self.pending@.len() - i,
        {
            assert(self@.pending[i as int] == self.pending@[i as int].seen());
            if self.pending[i].id == id {
                assert(self@.pending[i as int].id == id);
                return true;
            }
            i = i + 1;
        }
        false
    }

    /// Reports a phase of the job `id`; whether a flush has to be started.
    pub fn report(&mut self, id: u64, phase: JobPhase, now: Duration) -> (start: bool)
        requires
            can_be_in(old(self)@, id, phase),
        ensures
            final(self)@ == (QueueView {
                progress: reported(old(self)@.progress, id, phase, now),
                ..old(self)@
            }),
            start == report_flushes(old(self)@.progress, id, phase),
            sound(old(self)@) ==> sound(final(self)@),
    {
        let ghost before = self@;
        match self.progress.remove(&id) {
            Some(mut progress) => {
                let start = progress.set_phase(phase, now);
                self.progress.insert(id, progress);
                proof {
                    assert(before.progress.contains_key(id));
                    assert(self@.progress =~= reported(before.progress, id, phase, now));
                    assert(self@ =~= QueueView {
                        progress: reported(before.progress, id, phase, now),
                        ..before
                    });
                    if sound(before) {
                        lemma_reported(before, id, phase, now);
                    }
                }
                start
            },
            None => {
                assert(self@.progress =~= before.progress);
                assert(self@ =~= before);
                false
            },
        }
    }

    /// Cancels the job `id` of `owner_id`; the answer, and whether a flush of
    /// the job has to be started.
    pub fn try_cancel(&mut self, owner_id: i64, id: u64, now: Duration) -> (result: (
        QueueReply,
        bool,
    ))
        requires
            sound(old(self)@),
        ensures
            sound(final(self)@),
            final(self)@ == cancelled(old(self)@, owner_id, id, now),
            result.0@ == cancel_reply(old(self)@, owner_id, id),
            result.1 == cancel_flushes(old(self)@, owner_id, id),
    {
        let ghost before = self@;
        match self.find_pending(owner_id, id) {
            Some(at) => {
                self.pending.remove(at);
                self.outcomes.push((owner_id, DownloadStatOutcome::Cancelled));
                proof {
                    lemma_first_set(pending_flags(before, owner_id, id), 0);
                    assert(self@.pending =~= before.pending.remove(at as int));
                    assert(self@ =~= QueueView {
                        pending: before.pending.remove(at as int),
                        outcomes: before.outcomes.push((owner_id, DownloadStatOutcome::Cancelled)),
                        ..before
                    });
                    assert(sound(self@));
                    lemma_taken_out(before, at as int);
                }
                let start = self.report(id, JobPhase::Cancelled, now);
                (QueueReply::Silent, start)
            },
            None => match self.find_active(owner_id, id) {
                Some(at) => {
                    let job = ActiveJob { id, owner_id, cancelled: true };
                    proof {
                        lemma_first_set(active_flags(before, owner_id, id), 0);
                    }
                    self.active.set(at, job);
                    proof {
                        assert(self@.active =~= before.active.update(
                            at as int,
                            ActiveView { cancelled: true, ..before.active[at as int] },
                        ));
                        assert(self@ =~= QueueView {
                            active: before.active.update(
                                at as int,
                                ActiveView { cancelled: true, ..before.active[at as int] },
                            ),
                            ..before
                        });
                        assert(sound(self@));
                    }
                    let start = self.report(id, JobPhase::Cancelling, now);
                    (QueueReply::Silent, start)
                },
                None => {
                    let text = "No cancellable job #".to_owned().concat(
                        write_u64(id).as_str(),
                    ).concat(" was found for your account.");
                    (QueueReply::Message { text }, false)
                },
            },
        }
    }

    fn find_status(&self, owner_id: i64, message_id: i32) -> (result: Option<usize>)
        ensures
            match (result, first_set(status_flags(self@.statuses, owner_id, message_id), 0)) {
                (Some(at), Some(expected)) => at == expected && at < self@.statuses.len(),
                (None, None) => true,
                _ => false,
            },
    {
        let ghost flags = status_flags(self@.statuses, owner_id, message_id);
        let mut i: usize = 0;
        while i < self.statuses.len()
            invariant
                i <= self.statuses@.len(),
                flags == status_flags(self@.statuses, owner_id, message_id),
                flags.len() == self.statuses@.len(),
                first_set(flags, 0) == first_set(flags, i as int),
            decreases self.statuses@.len() - i,
        {
            assert(flags[i as int] == (self.statuses@[i as int].owner_id == owner_id
                && self.statuses@[i as int].message_id == message_id));
            if self.statuses[i].owner_id == owner_id && self.statuses[i].message_id == message_id {
                return Some(i);
            }
            i = i + 1;
        }
        None
    }

    /// Cancels the job that a status message stands for.
    pub fn try_cancel_replied(
        &mut self,
        owner_id: i64,
        status_message_id: i32,
        now: Duration,
    ) -> (result: (QueueReply, Option<u64>))
        requires
            sound(old(self)@),
        ensures
            sound(final(self)@),
            match status_of(old(self)@, owner_id, status_message_id) {
                Some(entry) => final(self)@ == cancelled(old(self)@, owner_id, entry.id, now)
                    && result.0@ == cancel_reply(old(self)@, owner_id, entry.id) && result.1 == (
                if cancel_flushes(old(self)@, owner_id, entry.id) {
                    Some(entry.id)
                } else {
                    None::<u64>
                }),
                None => final(self)@ == old(self)@ && result.0@ == ReplyView::Message(
                    unknown_status_text("/cancel"@),
                ) && result.1 == None::<u64>,
            },
    {
        match self.find_status(owner_id, status_message_id) {
            Some(at) => {
                let id: u64 = self.statuses[at].id;
                let (reply, start) = self.try_cancel(owner_id, id, now);
                (
                    reply,
                    if start {
                        Some(id)
                    } else {
                        None
                    },
                )
            },
            None => {
                let text =
                    "The replied message is not a known download status. Reply to a download status with "
                    .to_owned().concat("/cancel").concat(".");
                (QueueReply::Message { text }, None)
            },
        }
    }

    /// The request that a status message stands for.
    pub fn retry_request(&self, owner_id: i64, status_message_id: i32) -> (result: Option<
        DownloadRequest,
    >)
        ensures
            match (result, status_of(self@, owner_id, status_message_id)) {
                (Some(request), Some(entry)) => request@ == entry.request,
                (None, None) => true,
                _ => false,
            },
    {
        match self.find_status(owner_id, status_message_id) {
            Some(at) => Some(self.statuses[at].request.clone()),
            None => None,
        }
    }

    /// Hands in again what a status message stands for.
    pub fn try_retry(&mut self, owner_id: i64, status_message_id: i32, now: Duration) -> (reply:
        QueueReply)
        requires
            sound(old(self)@),
            status_of(old(self)@, owner_id, status_message_id) is Some && refusal(old(self)@) is None
                ==> old(self)@.next_id < u64::MAX,
        ensures
            sound(final(self)@),
            final(self)@ == retried(old(self)@, owner_id, status_message_id, now),
            reply@ == retry_reply(old(self)@, owner_id, status_message_id),
    {
        match self.retry_request(owner_id, status_message_id) {
            Some(request) => self.try_enqueue(owner_id, request, now),
            None => {
                let text =
                    "The replied message is not a known download status. Reply to a download status with "
                    .to_owned().concat("/retry").concat(".");
                QueueReply::Message { text }
            },
        }
    }

    /// Remembers what a status message stands for.
    pub fn register_status(
        &mut self,
        owner_id: i64,
        status_message_id: i32,
        id: u64,
        request: DownloadRequest,
    )
        requires
            sound(old(self)@),
        ensures
            sound(final(self)@),
            final(self)@ == (QueueView {
                statuses: remembered(
                    old(self)@.statuses,
                    (StatusView {
                        owner: owner_id,
                        message: status_message_id,
                        id,
                        request: request@,
                    }),
                ),
                ..old(self)@
            }),
    {
        let ghost before = self@;
        let ghost entry = StatusView {
            owner: owner_id,
            message: status_message_id,
            id,
            request: request@,
        };
        let job = StatusJob { owner_id, message_id: status_message_id, id, request };
        proof {
            lemma_first_set(status_flags(before.statuses, owner_id, status_message_id), 0);
        }
        match self.find_status(owner_id, status_message_id) {
            Some(at) => {
                self.statuses.set(at, job);
                assert(self@.statuses =~= before.statuses.update(at as int, entry));
            },
            None => {
                let ghost flags = status_flags(before.statuses, owner_id, status_message_id);
                assert forall|i: int| 0 <= i < before.statuses.len() implies !same_status(
                    #[trigger] before.statuses[i],
                    entry,
                ) by {
                    assert(!flags[i]);
                }
                if self.statuses.len() >= STATUS_HISTORY_LIMIT {
                    self.statuses.remove(0);
                    assert(self@.statuses =~= before.statuses.skip(1));
                }
                self.statuses.push(job);
                assert(self@.statuses =~= remembered(before.statuses, entry));
            },
        }
        proof {
            assert(self@ =~= QueueView {
                statuses: remembered(before.statuses, entry),
                ..before
            });
            assert(sound(self@));
        }
    }
}

// ---------------------------------------------------------------------------
// Reports
// ---------------------------------------------------------------------------

/// A line for each running job of `owner`.
pub open spec fn active_lines(
    active: Seq<ActiveView>,
    progress: Map<u64, ProgressView>,
    owner: i64,
    now: Duration,
) -> Seq<Seq<char>>
    decreases active.len(),
{
    if active.len() == 0 {
        Seq::empty()
    } else {
        let lines = active_lines(active.drop_last(), progress, owner, now);
        if active.last().owner == owner {
            lines.push(summary_text(progress[active.last().id], now))
        } else {
            lines
        }
    }
}

/// A line for each waiting job of `owner`.
pub open spec fn queued_lines(pending: Seq<JobView>, owner: i64) -> Seq<Seq<char>>
    decreases pending.len(),
{
    if pending.len() == 0 {
        Seq::empty()
    } else {
        let lines = queued_lines(pending.drop_last(), owner);
        if pending.last().owner == owner {
            lines.push("#"@ + decimal(pending.last().id as nat) + " queued"@)
        } else {
            lines
        }
    }
}

pub open spec fn report_header(q: QueueView, active: nat, queued: nat) -> Seq<char> {
    "Your downloads: "@ + decimal(active) + " active, "@ + decimal(queued)
        + " queued. Capacity: "@ + decimal(q.active.len()) + "/"@ + decimal(q.concurrency as nat)
        + " active, "@ + decimal(q.pending.len()) + "/"@ + decimal(q.capacity as nat)
        + " waiting."@
}

/// What `owner` reads about the queue: its use, and the jobs of `owner`.
pub open spec fn report_text(q: QueueView, owner: i64, now: Duration) -> Seq<char> {
    let active = active_lines(q.active, q.progress, owner, now);
    let queued = queued_lines(q.pending, owner);
    joined(seq![report_header(q, active.len(), queued.len())] + active + queued, "\n"@)
}

/// Puts one list of strings behind another.
fn append_texts(list: &mut Vec<String>, more: &Vec<String>)
    ensures
        texts(final(list)@) == texts(old(list)@) + texts(more@),
{
    let mut i: usize = 0;
    assert(texts(list@) =~= texts(list@) + texts(more@).take(0));
    while i < more.len()
        invariant
            i <= more@.len(),
            texts(list@) == texts(old(list)@) + texts(more@).take(i as int),
        decreases more@.len() - i,
    {
        push_text(list, more[i].as_str());
        assert(texts(list@) =~= texts(old(list)@) + texts(more@).take(i + 1));
        i = i + 1;
    }
    assert(texts(more@).take(more@.len() as int) =~= texts(more@));
}

impl DownloadQueueHandle {
    fn running_lines(&self, owner_id: i64, now: Duration) -> (result: Vec<String>)
        requires
            sound(self@),
        ensures
            texts(result@) == active_lines(self@.active, self@.progress, owner_id, now),
    {
        let mut lines: Vec<String> = Vec::new();
        let mut i: usize = 0;
        assert(texts(lines@) =~= active_lines(self@.active.take(0), self@.progress, owner_id, now));
        while i < self.active.len()
            invariant
                sound(self@),
                i <= self.active@.len(),
                texts(lines@) == active_lines(
                    self@.active.take(i as int),
                    self@.progress,
                    owner_id,
                    now,
                ),
            decreases self.active@.len() - i,
        {
            assert(self@.active.take(i + 1).drop_last() =~= self@.active.take(i as int));
            assert(self@.active[i as int] == self.active@[i as int].seen());
            if self.active[i].owner_id == owner_id {
                let id: u64 = self.active[i].id;
                assert(known(self@, id)) by {
                    assert(self@.active[i as int].id == id);
                }
                if let Some(progress) = self.progress.get(&id) {
                    let line = progress.summary(now);
                    push_text(&mut lines, line.as_str());
                }
            }
            i = i + 1;
        }
        assert(self@.active.take(self@.active.len() as int) =~= self@.active);
        lines
    }

    fn waiting_lines(&self, owner_id: i64) -> (result: Vec<String>)
        ensures
            texts(result@) == queued_lines(self@.pending, owner_id),
    {
        let mut lines: Vec<String> = Vec::new();
        let mut i: usize = 0;
        assert(texts(lines@) =~= queued_lines(self@.pending.take(0), owner_id));
        while i < self.pending.len()
            invariant
                i <= self.pending@.len(),
                texts(lines@) == queued_lines(self@.pending.take(i as int), owner_id),
            decreases self.pending@.len() - i,
        {
            assert(self@.pending.take(i + 1).drop_last() =~= self@.pending.take(i as int));
            assert(self@.pending[i as int] == self.pending@[i as int].seen());
            if self.pending[i].owner_id == owner_id {
                let line = "#".to_owned().concat(write_u64(self.pending[i].id).as_str()).concat(
                    " queued",
                );
                push_text(&mut lines, line.as_str());
            }
            i = i + 1;
        }
        assert(self@.pending.take(self@.pending.len() as int) =~= self@.pending);
        lines
    }

    /// What `owner_id` reads about the queue.
    pub fn status_report(&self, owner_id: i64, now: Duration) -> (result: String)
        requires
            sound(self@),
        ensures
            result@ == report_text(self@, owner_id, now),
    {
        let active = self.running_lines(owner_id, now);
        let queued = self.waiting_lines(owner_id);
        let header = "Your downloads: ".to_owned().concat(
            write_usize(active.len()).as_str(),
        ).concat(" active, ").concat(write_usize(queued.len()).as_str()).concat(
            " queued. Capacity: ",
        ).concat(write_usize(self.active.len()).as_str()).concat("/").concat(
            write_usize(self.concurrency).as_str(),
        ).concat(" active, ").concat(write_usize(self.pending.len()).as_str()).concat("/").concat(
            write_usize(self.capacity).as_str(),
        ).concat(" waiting.");
        let mut lines: Vec<String> = Vec::new();
        push_text(&mut lines, header.as_str());
        assert(texts(lines@) =~= seq![header@]);
        append_texts(&mut lines, &active);
        append_texts(&mut lines, &queued);
        assert(active@.len() == texts(active@).len());
        assert(queued@.len() == texts(queued@).len());
        join(lines.as_slice(), "\n")
    }

    /// The progress of the job `id`.
    pub fn progress(&self, id: u64) -> (result: Option<JobProgress>)
        ensures
            match result {
                Some(progress) => self@.progress.contains_key(id) && progress@
                    == self@.progress[id],
                None => !self@.progress.contains_key(id),
            },
    {
        match self.progress.get(&id) {
            Some(progress) => Some(progress.snapshot()),
            None => None,
        }
    }

    /// Takes over the progress of a job.
    pub fn store_progress(&mut self, progress: JobProgress)
        requires
            can_be_in(old(self)@, progress@.id, progress@.phase),
        ensures
            final(self)@ == (QueueView {
                progress: old(self)@.progress.insert(progress@.id, progress@),
                ..old(self)@
            }),
            sound(old(self)@) ==> sound(final(self)@),
    {
        let ghost before = self@;
        let ghost entry = progress@;
        let id: u64 = progress.id();
        self.progress.insert(id, progress);
        proof {
            assert(self@.progress =~= before.progress.insert(id, entry));
            assert(self@ =~= QueueView { progress: before.progress.insert(id, entry), ..before });
            if sound(before) {
                lemma_updated(before, entry);
            }
        }
    }

    /// Whether the running job `id` is to stop.
    pub fn is_cancelled(&self, id: u64) -> (result: bool)
        ensures
            result == exists|i: int|
                0 <= i < self@.active.len() && #[trigger] self@.active[i].id == id
                    && self@.active[i].cancelled,
    {
        let mut i: usize = 0;
        while i < self.active.len()
            invariant
                i <= self.active@.len(),
                forall|j: int|
                    0 <= j < i ==> !(#[trigger] self@.active[j].id == id
                        && self@.active[j].cancelled),
            decreases self.active@.len() - i,
        {
            assert(self@.active[i as int] == self.active@[i as int].seen());
            if self.active[i].id == id && self.active[i].cancelled {
                assert(self@.active[i as int].id == id);
                return true;
            }
            i = i + 1;
        }
        false
    }
}

// ---------------------------------------------------------------------------
// Running
// ---------------------------------------------------------------------------

/// A job to run.
pub struct StartedJob {
    pub id: u64,
    pub owner_id: i64,
    pub request: DownloadRequest,
    pub limits: DownloadLimits,
}

/// Whether the limits of its owner let the waiting job at `i` start.
pub open spec fn may_start(q: QueueView, i: int) -> bool {
    match q.pending[i].limits {
        Some(limits) => count_of(active_owners(q), q.pending[i].owner) < limits.max_active_jobs,
        None => true,
    }
}

/// Which waiting jobs may start.
pub open spec fn start_flags(q: QueueView) -> Seq<bool> {
    Seq::new(q.pending.len(), |i: int| may_start(q, i))
}

/// Which waiting jobs may start and belong to a user without an active job.
pub open spec fn idle_start_flags(q: QueueView) -> Seq<bool> {
    Seq::new(
        q.pending.len(),
        |i: int| may_start(q, i) && !active_owners(q).contains(q.pending[i].owner),
    )
}

/// Which waiting job starts next: among those that their owners' limits let
/// start, the first of a user without an active job, or else the first.
pub open spec fn next_start(q: QueueView) -> Option<int> {
    if q.active.len() >= q.concurrency {
        None
    } else {
        match first_set(idle_start_flags(q), 0) {
            Some(at) => Some(at),
            None => first_set(start_flags(q), 0),
        }
    }
}

/// The limits of a job: those of the queue, and the upload limit of its owner
/// where that is tighter.
pub open spec fn job_limits(limits: DownloadLimits, user: Option<EffectiveUserLimits>) -> DownloadLimits {
    match user {
        Some(user) => if user.max_upload_bytes < limits.max_upload_bytes {
            DownloadLimits { max_upload_bytes: user.max_upload_bytes, ..limits }
        } else {
            limits
        },
        None => limits,
    }
}

/// The queue after the waiting job at `at` is started.
pub open spec fn started(q: QueueView, at: int) -> QueueView {
    QueueView {
        pending: q.pending.remove(at),
        active: q.active.push(
            ActiveView { id: q.pending[at].id, owner: q.pending[at].owner, cancelled: false },
        ),
        ..q
    }
}

/// The phase in which a job ends.
pub open spec fn final_phase(outcome: DownloadOutcome) -> JobPhase {
    match outcome {
        DownloadOutcome::Completed => JobPhase::Completed,
        DownloadOutcome::Failed => JobPhase::Failed,
        DownloadOutcome::Cancelled => JobPhase::Cancelled,
    }
}

pub fn outcome_phase(outcome: DownloadOutcome) -> (result: JobPhase)
    ensures
        result == final_phase(outcome),
{
    match outcome {
        DownloadOutcome::Completed => JobPhase::Completed,
        DownloadOutcome::Failed => JobPhase::Failed,
        DownloadOutcome::Cancelled => JobPhase::Cancelled,
    }
}

/// How a job that ended with `outcome` is counted.
pub open spec fn counted(outcome: DownloadOutcome) -> DownloadStatOutcome {
    match outcome {
        DownloadOutcome::Completed => DownloadStatOutcome::Completed,
        DownloadOutcome::Failed => DownloadStatOutcome::Failed,
        DownloadOutcome::Cancelled => DownloadStatOutcome::Cancelled,
    }
}

/// How a job that is in `phase` is counted, if it has ended.
pub open spec fn counted_in(phase: JobPhase) -> Option<DownloadStatOutcome> {
    match phase {
        JobPhase::Completed => Some(DownloadStatOutcome::Completed),
        JobPhase::Failed => Some(DownloadStatOutcome::Failed),
        JobPhase::Cancelled => Some(DownloadStatOutcome::Cancelled),
        _ => None,
    }
}

/// How a job that is in `phase` is counted: under its outcome if it has ended,
/// and not at all otherwise.
pub fn counted_phase(phase: &JobPhase) -> (result: Option<DownloadStatOutcome>)
    ensures
        result == counted_in(*phase),
{
    match phase {
        JobPhase::Completed => Some(DownloadStatOutcome::Completed),
        JobPhase::Failed => Some(DownloadStatOutcome::Failed),
        JobPhase::Cancelled => Some(DownloadStatOutcome::Cancelled),
        _ => None,
    }
}

/// How a job that ended with `outcome` is counted.
pub fn counted_outcome(outcome: DownloadOutcome) -> (result: DownloadStatOutcome)
    ensures
        result == counted(outcome),
{
    match outcome {
        DownloadOutcome::Completed => DownloadStatOutcome::Completed,
        DownloadOutcome::Failed => DownloadStatOutcome::Failed,
        DownloadOutcome::Cancelled => DownloadStatOutcome::Cancelled,
    }
}

/// Which running jobs have the number `id`.
pub open spec fn running_flags(q: QueueView, id: u64) -> Seq<bool> {
    Seq::new(q.active.len(), |i: int| q.active[i].id == id)
}

/// The running jobs without the job `id`.
pub open spec fn released(q: QueueView, id: u64) -> Seq<ActiveView> {
    match first_set(running_flags(q, id), 0) {
        Some(at) => q.active.remove(at),
        None => q.active,
    }
}

/// The outcomes that wait to be recorded, after the job `id` has ended.
pub open spec fn settled(q: QueueView, id: u64, outcome: DownloadOutcome) -> Seq<
    (i64, DownloadStatOutcome),
> {
    match first_set(running_flags(q, id), 0) {
        Some(at) => q.outcomes.push((q.active[at].owner, counted(outcome))),
        None => q.outcomes,
    }
}

/// The queue after the job `id` has ended.
pub open spec fn finished(q: QueueView, id: u64, outcome: DownloadOutcome, now: Duration) -> QueueView {
    QueueView {
        active: released(q, id),
        progress: reported(q.progress, id, final_phase(outcome), now),
        outcomes: settled(q, id, outcome),
        ..q
    }
}

/// Whether nothing is left to do and nothing can come.
pub open spec fn drained(q: QueueView) -> bool {
    !q.accepting && q.pending.len() == 0 && q.active.len() == 0
}

/// Whether the job `id` waits or runs.
pub open spec fn in_queue(q: QueueView, id: u64) -> bool {
    ||| exists|i: int| 0 <= i < q.pending.len() && #[trigger] q.pending[i].id == id
    ||| exists|i: int| 0 <= i < q.active.len() && #[trigger] q.active[i].id == id
}

/// Why a job that took too long has failed.
pub fn timeout_reason(limits: &DownloadLimits) -> (result: String)
    ensures
        result@ == "job timed out after "@ + decimal(limits.job_timeout.whole_seconds())
            + " seconds"@,
{
    "job timed out after ".to_owned().concat(
        write_u64(limits.job_timeout.as_secs()).as_str(),
    ).concat(" seconds")
}

/// Why a job whose task broke down has failed.
pub fn crash_reason(error: &str) -> (result: String)
    ensures
        result@ == "job task crashed: "@ + error@,
{
    "job task crashed: ".to_owned().concat(error)
}

impl DownloadQueue {
    /// An empty queue.
    pub fn new(concurrency: usize, capacity: usize, limits: DownloadLimits) -> (result:
        DownloadQueue)
        requires
            0 < concurrency,
            0 < capacity,
        ensures
            sound(result@),
            result@ == (QueueView {
                accepting: true,
                pending: Seq::empty(),
                active: Seq::empty(),
                statuses: Seq::empty(),
                progress: Map::empty(),
                concurrency,
                capacity,
                limits,
                next_id: 1,
                outcomes: Seq::empty(),
            }),
    {
        let handle = DownloadQueueHandle {
            accepting: true,
            pending: Vec::new(),
            active: Vec::new(),
            statuses: Vec::new(),
            progress: HashMap::new(),
            concurrency,
            capacity,
            limits,
            next_id: 1,
            outcomes: Vec::new(),
        };
        proof {
            assert(handle@.pending =~= Seq::empty());
            assert(handle@.active =~= Seq::empty());
            assert(handle@.statuses =~= Seq::empty());
            assert(handle@.progress =~= Map::empty());
        }
        DownloadQueue { handle }
    }

    /// The queue, as those see it who hand in requests.
    pub fn handle(&mut self) -> (result: &mut DownloadQueueHandle)
        ensures
            result@ == old(self)@,
            final(self)@ == final(result)@,
    {
        &mut self.handle
    }

    /// Takes no further jobs. Those that wait or run are left to end.
    pub fn shutdown(&mut self)
        ensures
            final(self)@ == (QueueView { accepting: false, ..old(self)@ }),
            sound(old(self)@) ==> sound(final(self)@),
    {
        let ghost before = self@;
        self.handle.accepting = false;
        proof {
            assert(self@ =~= QueueView { accepting: false, ..before });
            assert(sound(before) ==> sound(self@));
        }
    }

    fn find_start(&self) -> (result: Option<usize>)
        ensures
            match (result, next_start(self@)) {
                (Some(at), Some(expected)) => at == expected && at < self@.pending.len(),
                (None, None) => true,
                _ => false,
            },
    {
        if self.handle.active.len() >= self.handle.concurrency {
            return None;
        }
        let owners = self.handle.owners_running();
        let mut allowed: Vec<bool> = Vec::new();
        let mut idle: Vec<bool> = Vec::new();
        let mut i: usize = 0;
        while i < self.handle.pending.len()
            invariant
                i <= self.handle.pending@.len(),
                owners@ == active_owners(self@),
                allowed@ == start_flags(self@).take(i as int),
                idle@ == idle_start_flags(self@).take(i as int),
            decreases self.handle.pending@.len() - i,
        {
            assert(self@.pending[i as int] == self.handle.pending@[i as int].seen());
            let count: usize = count_owner(owners.as_slice(), self.handle.pending[i].owner_id);
            let may = match self.handle.pending[i].limits {
                Some(limits) => count < limits.max_active_jobs,
                None => true,
            };
            proof {
                lemma_count_of(owners@, self.handle.pending@[i as int].owner_id);
            }
            allowed.push(may);
            idle.push(may && count == 0);
            assert(allowed@ =~= start_flags(self@).take(i + 1));
            assert(idle@ =~= idle_start_flags(self@).take(i + 1));
            i = i + 1;
        }
        assert(allowed@ =~= start_flags(self@));
        assert(idle@ =~= idle_start_flags(self@));
        proof {
            lemma_first_set(allowed@, 0);
            lemma_first_set(idle@, 0);
        }
        match find_first(&idle) {
            Some(at) => Some(at),
            None => find_first(&allowed),
        }
    }

    /// Starts the job whose turn it is, if one may start.
    pub fn start_next(&mut self) -> (result: Option<StartedJob>)
        requires
            sound(old(self)@),
        ensures
            sound(final(self)@),
            match (result, next_start(old(self)@)) {
                (Some(job), Some(at)) => final(self)@ == started(old(self)@, at) && job.id == old(
                    self,
                )@.pending[at].id && job.owner_id == old(self)@.pending[at].owner && job.request@
                    == old(self)@.pending[at].request && job.limits == job_limits(
                    old(self)@.limits,
                    old(self)@.pending[at].limits,
                ),
                (None, None) => final(self)@ == old(self)@,
                _ => false,
            },
    {
        let ghost before = self@;
        match self.find_start() {
            Some(at) => {
                let job = self.handle.pending.remove(at);
                assert(job.seen() == before.pending[at as int]);
                self.handle.active.push(
                    ActiveJob { id: job.id, owner_id: job.owner_id, cancelled: false },
                );
                let mut limits = self.handle.limits;
                if let Some(user) = job.limits {
                    if user.max_upload_bytes < limits.max_upload_bytes {
                        limits.max_upload_bytes = user.max_upload_bytes;
                    }
                }
                proof {
                    assert(self@.pending =~= before.pending.remove(at as int));
                    assert(self@.active =~= started(before, at as int).active);
                    assert(self@ =~= started(before, at as int));
                    assert(sound(self@));
                }
                Some(
                    StartedJob {
                        id: job.id,
                        owner_id: job.owner_id,
                        request: job.request,
                        limits,
                    },
                )
            },
            None => None,
        }
    }

    fn find_running(&self, id: u64) -> (result: Option<usize>)
        ensures
            match (result, first_set(running_flags(self@, id), 0)) {
                (Some(at), Some(expected)) => at == expected && at < self@.active.len(),
                (None, None) => true,
                _ => false,
            },
    {
        let ghost flags = running_flags(self@, id);
        let mut i: usize = 0;
        while i < self.handle.active.len()
            invariant
                i <= self.handle.active@.len(),
                flags == running_flags(self@, id),
                flags.len() == self.handle.active@.len(),
                first_set(flags, 0) == first_set(flags, i as int),
            decreases self.handle.active@.len() - i,
        {
            assert(flags[i as int] == (self.handle.active@[i as int].id == id));
            if self.handle.active[i].id == id {
                return Some(i);
            }
            i = i + 1;
        }
        None
    }

    /// Takes note that the job `id`, which does not wait any more, has ended;
    /// whether a flush of it has to be started.
    pub fn finish(&mut self, id: u64, outcome: DownloadOutcome, now: Duration) -> (start: bool)
        requires
            sound(old(self)@),
            !waits(old(self)@, id),
        ensures
            sound(final(self)@),
            final(self)@ == finished(old(self)@, id, outcome, now),
            start == report_flushes(old(self)@.progress, id, final_phase(outcome)),
    {
        let ghost before = self@;
        if let Some(at) = self.find_running(id) {
            let job = self.handle.active.remove(at);
            assert(job.seen() == before.active[at as int]);
            self.handle.outcomes.push((job.owner_id, counted_outcome(outcome)));
            assert(self@.active =~= before.active.remove(at as int));
        }
        proof {
            assert(self@ =~= QueueView {
                active: released(before, id),
                outcomes: settled(before, id, outcome),
                ..before
            });
            assert(sound(self@));
        }
        self.handle.report(id, outcome_phase(outcome), now)
    }

    /// Hands out the outcomes that wait to be recorded, each with the owner of the
    /// job.
    pub fn take_outcomes(&mut self) -> (result: Vec<(i64, DownloadStatOutcome)>)
        ensures
            result@ == old(self)@.outcomes,
            final(self)@ == (QueueView { outcomes: Seq::empty(), ..old(self)@ }),
            sound(old(self)@) ==> sound(final(self)@),
    {
        let ghost before = self@;
        let mut taken: Vec<(i64, DownloadStatOutcome)> = Vec::new();
        std::mem::swap(&mut taken, &mut self.handle.outcomes);
        proof {
            assert(self@ =~= QueueView { outcomes: Seq::empty(), ..before });
            assert(sound(before) ==> sound(self@));
        }
        taken
    }

    /// Whether nothing is left to do and nothing can come.
    pub fn is_drained(&self) -> (result: bool)
        ensures
            result == drained(self@),
    {
        !self.handle.accepting && self.handle.pending.len() == 0 && self.handle.active.len() == 0
    }

    /// Forgets the progress of a job that has left the queue.
    pub fn forget(&mut self, id: u64)
        requires
            sound(old(self)@),
        ensures
            sound(final(self)@),
            final(self)@ == (if in_queue(old(self)@, id) {
                old(self)@
            } else {
                QueueView { progress: old(self)@.progress.remove(id), ..old(self)@ }
            }),
    {
        let ghost before = self@;
        let mut i: usize = 0;
        while i < self.handle.pending.len()
            invariant
                self@ == before,
                before == old(self)@,
                sound(before),
                i <= self.handle.pending@.len(),
                forall|j: int| 0 <= j < i ==> #[trigger] before.pending[j].id != id,
            decreases self.handle.pending@.len() - i,
        {
            assert(before.pending[i as int] == self.handle.pending@[i as int].seen());
            if self.handle.pending[i].id == id {
                assert(before.pending[i as int].id == id);
                assert(in_queue(before, id));
                return;
            }
            i = i + 1;
        }
        if let Some(at) = self.find_running(id) {
            proof {
                lemma_first_set(running_flags(before, id), 0);
                assert(before.active[at as int].id == id);
            }
            return;
        }
        proof {
            lemma_first_set(running_flags(before, id), 0);
            assert forall|j: int| 0 <= j < before.active.len() implies #[trigger] before.active[j].id
                != id by {
                assert(!running_flags(before, id)[j]);
            }
            assert(!in_queue(before, id));
        }
        self.handle.progress.remove(&id);
        proof {
            assert(self@.progress =~= before.progress.remove(id));
            assert(self@ =~= QueueView { progress: before.progress.remove(id), ..before });
            assert(sound(self@));
        }
    }
}

/// How the worker of a job came to its end.
pub enum WorkerEnd {
    Ended(DownloadOutcome),
    Crashed { error: String },
    TimedOut,
}

/// What becomes of a job whose worker has come to its end, and the failure to
/// report before, if there is one.
pub fn worker_outcome(end: WorkerEnd, limits: &DownloadLimits) -> (result: (
    DownloadOutcome,
    Option<String>,
))
    ensures
        match end {
            WorkerEnd::Ended(outcome) => result.0 == outcome && result.1 is None,
            WorkerEnd::Crashed { error } => result.0 == DownloadOutcome::Failed && text_of(
                result.1,
            ) == Some("job task crashed: "@ + error@),
            WorkerEnd::TimedOut => result.0 == DownloadOutcome::Failed && text_of(result.1) == Some(
                "job timed out after "@ + decimal(limits.job_timeout.whole_seconds())
                    + " seconds"@,
            ),
        },
{
    match end {
        WorkerEnd::Ended(outcome) => (outcome, None),
        WorkerEnd::Crashed { error } => (DownloadOutcome::Failed, Some(crash_reason(&error))),
        WorkerEnd::TimedOut => (DownloadOutcome::Failed, Some(timeout_reason(limits))),
    }
}

/// What the runner of the queue does next.
pub enum RunnerStep {
    /// Run this job.
    Start(StartedJob),
    /// Everything is done.
    Exit,
    /// Wait until a job ends or the queue changes.
    Wait,
}

impl DownloadQueue {
    /// What the runner does next while `tasks` of its tasks are unfinished.
    pub fn advance(&mut self, tasks: usize) -> (step: RunnerStep)
        requires
            sound(old(self)@),
        ensures
            sound(final(self)@),
            match step {
                RunnerStep::Start(job) => {
                    let at = next_start(old(self)@)->0;
                    let chosen = old(self)@.pending[at];
                    &&& tasks < old(self)@.concurrency
                    &&& next_start(old(self)@) is Some
                    &&& final(self)@ == started(old(self)@, at)
                    &&& job.id == chosen.id
                    &&& job.owner_id == chosen.owner
                    &&& job.request@ == chosen.request
                    &&& job.limits == job_limits(old(self)@.limits, chosen.limits)
                },
                RunnerStep::Exit => final(self)@ == old(self)@ && tasks == 0 && drained(
                    old(self)@,
                ),
                RunnerStep::Wait => final(self)@ == old(self)@ && (tasks >= old(
                    self,
                )@.concurrency || next_start(old(self)@) is None) && !(tasks == 0 && drained(
                    old(self)@,
                )),
            },
    {
        if tasks < self.handle.concurrency {
            if let Some(job) = self.start_next() {
                return RunnerStep::Start(job);
            }
        }
        if tasks == 0 && self.is_drained() {
            RunnerStep::Exit
        } else {
            RunnerStep::Wait
        }
    }
}

// ---------------------------------------------------------------------------
// Laws
// ---------------------------------------------------------------------------

/// The next job is that of a user without an active job, if one waits; among
/// such users the one who came first goes first.
pub proof fn law_idle_users_go_first(pending: Seq<i64>, active: Seq<i64>, i: int)
    requires
        0 <= i < pending.len(),
        !active.contains(pending[i]),
    ensures
        next_position(pending, active) matches Some(at) && 0 <= at <= i && !active.contains(
            pending[at],
        ),
{
    let flags = idle_flags(pending, active);
    lemma_first_set(flags, 0);
    assert(flags[i]);
}

/// While anything waits, something is next: workers are never kept idle for
/// fairness.
pub proof fn law_workers_stay_busy(pending: Seq<i64>, active: Seq<i64>)
    ensures
        next_position(pending, active) is None <==> pending.len() == 0,
        next_position(pending, active) matches Some(at) ==> 0 <= at < pending.len(),
{
    lemma_first_set(idle_flags(pending, active), 0);
}

/// Where no job carries limits of its own, the job that starts is the one that
/// `next_position` names.
pub proof fn law_start_order_is_fair(q: QueueView)
    requires
        q.active.len() < q.concurrency,
        forall|i: int| 0 <= i < q.pending.len() ==> (#[trigger] q.pending[i]).limits is None,
    ensures
        next_start(q) == next_position(pending_owners(q), active_owners(q)),
{
    let idle = idle_start_flags(q);
    let all = start_flags(q);
    assert(idle =~= idle_flags(pending_owners(q), active_owners(q))) by {
        assert forall|i: int| 0 <= i < idle.len() implies idle[i] == idle_flags(
            pending_owners(q),
            active_owners(q),
        )[i] by {
            assert(q.pending[i].limits is None);
        }
    }
    if q.pending.len() > 0 {
        assert(q.pending[0].limits is None);
        assert(all[0]);
    }
}

/// A started job keeps its owner within the limit on active jobs.
pub proof fn law_active_limit_is_kept(q: QueueView, at: int)
    requires
        next_start(q) == Some(at),
        q.pending[at].limits is Some,
    ensures
        count_of(active_owners(started(q, at)), q.pending[at].owner)
            <= q.pending[at].limits->0.max_active_jobs,
{
    lemma_first_set(idle_start_flags(q), 0);
    lemma_first_set(start_flags(q), 0);
    assert(may_start(q, at)) by {
        if first_set(idle_start_flags(q), 0) is Some {
            assert(idle_start_flags(q)[at]);
        } else {
            assert(start_flags(q)[at]);
        }
    }
    let after = active_owners(started(q, at));
    assert(after.drop_last() =~= active_owners(q));
}

/// An accepted job keeps its owner within the limit on queued jobs.
pub proof fn law_queued_limit_is_kept(
    q: QueueView,
    owner: i64,
    request: RequestView,
    limits: EffectiveUserLimits,
    now: Duration,
)
    requires
        owner_refusal(q, owner, limits) is None,
    ensures
        count_of(pending_owners(enqueued(q, owner, request, Some(limits), now)), owner)
            <= limits.max_queued_jobs,
{
    let after = pending_owners(enqueued(q, owner, request, Some(limits), now));
    assert(after.drop_last() =~= pending_owners(q));
}

/// Starting a job moves it from the waiting to the running, and touches no
/// other.
pub proof fn law_starting_loses_no_job(q: QueueView, at: int, id: u64)
    requires
        sound(q),
        0 <= at < q.pending.len(),
    ensures
        in_queue(started(q, at), id) == in_queue(q, id),
        started(q, at).pending.len() + started(q, at).active.len() == q.pending.len()
            + q.active.len(),
{
    let after = started(q, at);
    if in_queue(q, id) {
        if exists|i: int| 0 <= i < q.pending.len() && #[trigger] q.pending[i].id == id {
            let i = choose|i: int| 0 <= i < q.pending.len() && #[trigger] q.pending[i].id == id;
            if i < at {
                assert(after.pending[i].id == id);
            } else if i > at {
                assert(after.pending[i - 1].id == id);
            } else {
                assert(after.active[q.active.len() as int].id == id);
            }
        } else {
            let i = choose|i: int| 0 <= i < q.active.len() && #[trigger] q.active[i].id == id;
            assert(after.active[i].id == id);
        }
    }
    if in_queue(after, id) {
        if exists|i: int| 0 <= i < after.pending.len() && #[trigger] after.pending[i].id == id {
            let i = choose|i: int|
                0 <= i < after.pending.len() && #[trigger] after.pending[i].id == id;
            if i < at {
                assert(q.pending[i].id == id);
            } else {
                assert(q.pending[i + 1].id == id);
            }
        } else {
            let i = choose|i: int| 0 <= i < after.active.len() && #[trigger] after.active[i].id == id;
            if i < q.active.len() {
                assert(q.active[i].id == id);
            } else {
                assert(q.pending[at].id == id);
            }
        }
    }
}

/// Cancellation is scoped to the owner: who does not own a job can neither
/// change it nor learn that it is there.
pub proof fn law_cancellation_is_owner_scoped(q: QueueView, owner: i64, id: u64, now: Duration)
    requires
        forall|i: int| 0 <= i < q.pending.len() && #[trigger] q.pending[i].id == id
            ==> q.pending[i].owner != owner,
        forall|i: int| 0 <= i < q.active.len() && #[trigger] q.active[i].id == id
            ==> q.active[i].owner != owner,
    ensures
        cancelled(q, owner, id, now) == q,
        cancel_reply(q, owner, id) == ReplyView::Message(
            "No cancellable job #"@ + decimal(id as nat) + " was found for your account."@,
        ),
        !cancel_flushes(q, owner, id),
{
    lemma_first_set(pending_flags(q, owner, id), 0);
    lemma_first_set(active_flags(q, owner, id), 0);
    if let Some(at) = first_set(pending_flags(q, owner, id), 0) {
        assert(q.pending[at].id == id && q.pending[at].owner == owner);
    }
    if let Some(at) = first_set(active_flags(q, owner, id), 0) {
        assert(q.active[at].id == id && q.active[at].owner == owner);
    }
}

/// Whoever owns a waiting job can cancel it: it leaves the queue, frees its
/// place, and is counted as cancelled.
pub proof fn law_waiting_jobs_can_be_cancelled(q: QueueView, i: int, now: Duration)
    requires
        sound(q),
        0 <= i < q.pending.len(),
    ensures
        ({
            let job = q.pending[i];
            let after = cancelled(q, job.owner, job.id, now);
            &&& cancel_reply(q, job.owner, job.id) == ReplyView::Silent
            &&& after.pending == q.pending.remove(i)
            &&& after.progress[job.id].phase == JobPhase::Cancelled
            &&& counted_in(after.progress[job.id].phase) == Some(DownloadStatOutcome::Cancelled)
            &&& after.outcomes == q.outcomes.push((job.owner, DownloadStatOutcome::Cancelled))
            &&& !in_queue(after, job.id)
        }),
{
    let job = q.pending[i];
    let flags = pending_flags(q, job.owner, job.id);
    lemma_first_set(flags, 0);
    assert(flags[i]);
    let at = first_set(flags, 0)->0;
    assert(flags[at]);
    assert(q.pending[at].id == q.pending[i].id);
    assert(at == i);
    assert(known(q, q.pending[i].id));
    let after = cancelled(q, job.owner, job.id, now);
    assert forall|j: int| 0 <= j < after.pending.len() implies #[trigger] after.pending[j].id
        != job.id by {
        if j < i {
            assert(after.pending[j] == q.pending[j]);
        } else {
            assert(after.pending[j] == q.pending[j + 1]);
        }
    }
    assert forall|j: int| 0 <= j < after.active.len() implies #[trigger] after.active[j].id
        != job.id by {
        assert(q.active[j].id != q.pending[i].id);
    }
}

/// Whoever owns a running job can tell it to stop: it is marked, keeps running
/// until it ends, and never goes back to work.
pub proof fn law_running_jobs_are_told_to_stop(q: QueueView, i: int, now: Duration)
    requires
        sound(q),
        0 <= i < q.active.len(),
    ensures
        ({
            let job = q.active[i];
            let after = cancelled(q, job.owner, job.id, now);
            &&& cancel_reply(q, job.owner, job.id) == ReplyView::Silent
            &&& after.active == q.active.update(i, ActiveView { cancelled: true, ..job })
            &&& after.pending == q.pending
            &&& after.progress[job.id].phase is Cancelling
                || after.progress[job.id].phase.is_final()
        }),
{
    let job = q.active[i];
    lemma_first_set(pending_flags(q, job.owner, job.id), 0);
    lemma_first_set(active_flags(q, job.owner, job.id), 0);
    if let Some(at) = first_set(pending_flags(q, job.owner, job.id), 0) {
        assert(pending_flags(q, job.owner, job.id)[at]);
        assert(q.pending[at].id == q.active[i].id);
    }
    assert(active_flags(q, job.owner, job.id)[i]);
    let at = first_set(active_flags(q, job.owner, job.id), 0)->0;
    assert(active_flags(q, job.owner, job.id)[at]);
    assert(q.active[at].id == q.active[i].id);
    assert(at == i);
    assert(known(q, q.active[i].id));
}

/// A status message that has just been sent is known, and replying to it
/// retries exactly what it stands for; other users cannot use it.
pub proof fn law_status_messages_are_remembered(
    q: QueueView,
    entry: StatusView,
    owner: i64,
    message: i32,
)
    requires
        sound(q),
    ensures
        ({
            let after = QueueView { statuses: remembered(q.statuses, entry), ..q };
            &&& status_of(after, entry.owner, entry.message) == Some(entry)
            &&& status_of(q, owner, message) is None && owner != entry.owner ==> status_of(
                after,
                owner,
                message,
            ) is None
        }),
{
    let flags = status_flags(q.statuses, entry.owner, entry.message);
    lemma_first_set(flags, 0);
    let statuses = remembered(q.statuses, entry);
    let after = QueueView { statuses, ..q };
    let place: int = match first_set(flags, 0) {
        Some(at) => at,
        None => statuses.len() - 1,
    };
    assert(statuses[place] == entry);
    let found = status_flags(statuses, entry.owner, entry.message);
    lemma_first_set(found, 0);
    assert(found[place]);
    let at = first_set(found, 0)->0;
    assert(found[at]);
    assert(at == place) by {
        if at != place {
            if first_set(flags, 0) is Some {
                assert(statuses[at] == q.statuses[at]);
                assert(flags[place]);
                assert(same_status(q.statuses[at], q.statuses[place]));
            } else {
                let earlier = if q.statuses.len() < STATUS_HISTORY_LIMIT {
                    at
                } else {
                    at + q.statuses.len() - STATUS_HISTORY_LIMIT + 1
                };
                assert(statuses[at] == q.statuses[earlier]);
                assert(!flags[earlier]);
            }
        }
    }
    if status_of(q, owner, message) is None && owner != entry.owner {
        let absent = status_flags(q.statuses, owner, message);
        lemma_first_set(absent, 0);
        let now_flags = status_flags(statuses, owner, message);
        lemma_first_set(now_flags, 0);
        assert forall|i: int| 0 <= i < now_flags.len() implies !now_flags[i] by {
            if i != place {
                if first_set(flags, 0) is Some {
                    assert(!absent[i]);
                } else if q.statuses.len() < STATUS_HISTORY_LIMIT {
                    assert(!absent[i]);
                } else {
                    assert(!absent[i + q.statuses.len() - STATUS_HISTORY_LIMIT + 1]);
                }
            }
        }
    }
}

/// Retrying hands in again what the status message stands for, whatever has
/// become of its job: the answer does not depend on where jobs stand, the new
/// job has a number of its own, and no other job is touched. Without a status
/// message of the user's own nothing happens.
pub proof fn law_retrying_is_handing_in_again(
    q: QueueView,
    owner: i64,
    message: i32,
    now: Duration,
    progress: Map<u64, ProgressView>,
)
    requires
        sound(q),
    ensures
        status_of(q, owner, message) matches Some(entry) ==> {
            &&& entry.owner == owner
            &&& retried(q, owner, message, now) == handed_in(q, owner, entry.request, None, now)
            &&& retry_reply(q, owner, message) == hand_in_reply(q, owner, entry.request, None)
            &&& refusal(q) is None ==> retry_reply(q, owner, message) == (ReplyView::Accepted {
                id: q.next_id,
                owner,
                request: entry.request,
            })
        },
        status_of(q, owner, message) is None ==> retried(q, owner, message, now) == q
            && retry_reply(q, owner, message) == ReplyView::Message(
            unknown_status_text("/retry"@),
        ),
        (forall|i: int|
            0 <= i < q.statuses.len() && (#[trigger] q.statuses[i]).message == message
                ==> q.statuses[i].owner != owner) ==> status_of(q, owner, message) is None,
        retry_reply(QueueView { progress, ..q }, owner, message) == retry_reply(q, owner, message),
        retried(QueueView { progress, ..q }, owner, message, now).pending == retried(
            q,
            owner,
            message,
            now,
        ).pending,
        !in_queue(q, q.next_id),
        retried(q, owner, message, now).active == q.active,
        q.pending.is_prefix_of(retried(q, owner, message, now).pending),
        forall|id: u64|
            id != q.next_id ==> (#[trigger] retried(q, owner, message, now).progress.contains_key(
                id,
            ) == q.progress.contains_key(id)) && retried(q, owner, message, now).progress[id]
                == q.progress[id],
{
    let flags = status_flags(q.statuses, owner, message);
    lemma_first_set(flags, 0);
    if let Some(at) = first_set(flags, 0) {
        assert(flags[at]);
        assert(q.statuses[at].message == message && q.statuses[at].owner == owner);
    }
    assert(q.pending =~= retried(q, owner, message, now).pending.subrange(
        0,
        q.pending.len() as int,
    ));
}

/// Shutting down rejects new work, and leaves accepted jobs to be run: the
/// queue is drained only when every one of them has ended.
pub proof fn law_shutdown_drains(q: QueueView)
    ensures
        ({
            let closed_queue = QueueView { accepting: false, ..q };
            &&& refusal(closed_queue) == Some(
                "The downloader is shutting down. Please try again after it restarts."@,
            )
            &&& closed_queue.pending == q.pending
            &&& closed_queue.active == q.active
            &&& drained(closed_queue) <==> forall|id: u64| !in_queue(q, id)
        }),
{
    let closed_queue = QueueView { accepting: false, ..q };
    if forall|id: u64| !in_queue(q, id) {
        if q.pending.len() > 0 {
            assert(in_queue(q, q.pending[0].id));
        }
        if q.active.len() > 0 {
            assert(in_queue(q, q.active[0].id));
        }
    }
}

/// A job is counted if and only if it has ended, and then under the outcome
/// that its phase shows.
pub proof fn law_ended_jobs_are_counted(phase: JobPhase, outcome: DownloadOutcome)
    ensures
        counted_in(phase) is Some <==> phase.is_final(),
        counted_in(final_phase(outcome)) == Some(counted(outcome)),
{
}

/// A job that has ended has left the queue, whatever became of it, frees its
/// worker, and is counted for its owner. Where nothing final had been reported
/// of it before, it is counted as its phase shows.
pub proof fn law_finished_jobs_leave(
    q: QueueView,
    i: int,
    outcome: DownloadOutcome,
    now: Duration,
)
    requires
        sound(q),
        0 <= i < q.active.len(),
    ensures
        ({
            let id = q.active[i].id;
            let after = finished(q, id, outcome, now);
            &&& !in_queue(after, id)
            &&& after.active.len() == q.active.len() - 1
            &&& after.pending == q.pending
            &&& after.progress[id].phase.is_final()
            &&& after.outcomes == q.outcomes.push((q.active[i].owner, counted(outcome)))
            &&& !q.progress[id].phase.is_final() ==> counted_in(after.progress[id].phase) == Some(
                counted(outcome),
            )
        }),
{
    let id = q.active[i].id;
    let flags = running_flags(q, id);
    lemma_first_set(flags, 0);
    assert(flags[i]);
    let at = first_set(flags, 0)->0;
    assert(flags[at]);
    assert(q.active[at].id == q.active[i].id);
    assert(at == i);
    assert(known(q, q.active[i].id));
    let after = finished(q, id, outcome, now);
    assert forall|j: int| 0 <= j < after.active.len() implies #[trigger] after.active[j].id
        != id by {
        if j < i {
            assert(after.active[j] == q.active[j]);
        } else {
            assert(after.active[j] == q.active[j + 1]);
        }
    }
    assert forall|j: int| 0 <= j < after.pending.len() implies #[trigger] after.pending[j].id
        != id by {
        assert(q.pending[j].id != q.active[i].id);
    }
}

/// Whether `line` is about a running job of `owner`.
pub open spec fn tells_of_running(
    active: Seq<ActiveView>,
    progress: Map<u64, ProgressView>,
    owner: i64,
    now: Duration,
    line: Seq<char>,
) -> bool {
    exists|i: int|
        0 <= i < active.len() && (#[trigger] active[i]).owner == owner && line == summary_text(
            progress[active[i].id],
            now,
        )
}

/// Whether `line` is about a waiting job of `owner`.
pub open spec fn tells_of_waiting(pending: Seq<JobView>, owner: i64, line: Seq<char>) -> bool {
    exists|i: int|
        0 <= i < pending.len() && (#[trigger] pending[i]).owner == owner && line == "#"@ + decimal(
            pending[i].id as nat,
        ) + " queued"@
}

proof fn lemma_active_lines(
    active: Seq<ActiveView>,
    progress: Map<u64, ProgressView>,
    owner: i64,
    now: Duration,
)
    ensures
        active_lines(active, progress, owner, now).len() == count_of(
            active.map_values(|job: ActiveView| job.owner),
            owner,
        ),
        forall|k: int|
            0 <= k < active_lines(active, progress, owner, now).len() ==> tells_of_running(
                active,
                progress,
                owner,
                now,
                #[trigger] active_lines(active, progress, owner, now)[k],
            ),
    decreases active.len(),
{
    if active.len() > 0 {
        let fewer = active.drop_last();
        let before = active_lines(fewer, progress, owner, now);
        let lines = active_lines(active, progress, owner, now);
        lemma_active_lines(fewer, progress, owner, now);
        assert(active.map_values(|job: ActiveView| job.owner).drop_last() =~= fewer.map_values(
            |job: ActiveView| job.owner,
        ));
        assert forall|k: int| 0 <= k < lines.len() implies tells_of_running(
            active,
            progress,
            owner,
            now,
            #[trigger] lines[k],
        ) by {
            if k < before.len() {
                assert(tells_of_running(fewer, progress, owner, now, before[k]));
                let i = choose|i: int|
                    0 <= i < fewer.len() && (#[trigger] fewer[i]).owner == owner && before[k]
                        == summary_text(progress[fewer[i].id], now);
                assert(active[i] == fewer[i]);
            } else {
                assert(active[active.len() - 1].owner == owner);
            }
        }
    }
}

proof fn lemma_queued_lines(pending: Seq<JobView>, owner: i64)
    ensures
        queued_lines(pending, owner).len() == count_of(
            pending.map_values(|job: JobView| job.owner),
            owner,
        ),
        forall|k: int|
            0 <= k < queued_lines(pending, owner).len() ==> tells_of_waiting(
                pending,
                owner,
                #[trigger] queued_lines(pending, owner)[k],
            ),
    decreases pending.len(),
{
    if pending.len() > 0 {
        let fewer = pending.drop_last();
        let before = queued_lines(fewer, owner);
        let lines = queued_lines(pending, owner);
        lemma_queued_lines(fewer, owner);
        assert(pending.map_values(|job: JobView| job.owner).drop_last() =~= fewer.map_values(
            |job: JobView| job.owner,
        ));
        assert forall|k: int| 0 <= k < lines.len() implies tells_of_waiting(
            pending,
            owner,
            #[trigger] lines[k],
        ) by {
            if k < before.len() {
                assert(tells_of_waiting(fewer, owner, before[k]));
                let i = choose|i: int|
                    0 <= i < fewer.len() && (#[trigger] fewer[i]).owner == owner && before[k]
                        == "#"@ + decimal(fewer[i].id as nat) + " queued"@;
                assert(pending[i] == fewer[i]);
            } else {
                assert(pending[pending.len() - 1].owner == owner);
            }
        }
    }
}

/// Users read about their own jobs only, and about all of them: a report has a
/// line for each job of its reader, and each line is about one of them.
pub proof fn law_reports_are_about_own_jobs(q: QueueView, owner: i64, now: Duration)
    ensures
        active_lines(q.active, q.progress, owner, now).len() == count_of(active_owners(q), owner),
        queued_lines(q.pending, owner).len() == count_of(pending_owners(q), owner),
        forall|k: int|
            0 <= k < active_lines(q.active, q.progress, owner, now).len() ==> tells_of_running(
                q.active,
                q.progress,
                owner,
                now,
                #[trigger] active_lines(q.active, q.progress, owner, now)[k],
            ),
        forall|k: int|
            0 <= k < queued_lines(q.pending, owner).len() ==> tells_of_waiting(
                q.pending,
                owner,
                #[trigger] queued_lines(q.pending, owner)[k],
            ),
{
    lemma_active_lines(q.active, q.progress, owner, now);
    lemma_queued_lines(q.pending, owner);
}

} // verus!
