//! A plain queue of downloads: first come, first served, with a status message
//! for each job.

use vstd::prelude::*;

use crate::download::{DownloadRequest, RequestView};
use crate::jobs::progress::{AttachStep, FlushStep, StatusWait, shortened, truncate_failure};
use crate::media::request::DownloadOutcome;
use crate::number::{decimal, write_u64, write_usize};
use crate::policy::{mebibytes, mebibytes_in_bytes};
use crate::text::{copied, same_text, text_of};

verus! {

// ---------------------------------------------------------------------------
// Phases
// ---------------------------------------------------------------------------

/// What a job is doing.
#[derive(Clone, Copy, Debug, PartialEq, Eq, Structural)]
pub enum JobPhase {
    Queued,
    Downloading,
    Processing,
    Uploading { current: usize, total: usize },
    Cancelling,
    Cancelled,
    Completed,
    Failed,
}

impl JobPhase {
    /// Whether a job has ended.
    pub open spec fn is_final(self) -> bool {
        self is Cancelled || self is Completed || self is Failed
    }

    /// Whether a job may go from this phase to `next`. An ended job goes
    /// nowhere, and one that is being cancelled does not go back to work.
    pub open spec fn leads_to(self, next: JobPhase) -> bool {
        &&& !self.is_final()
        &&& self != next
        &&& self is Cancelling ==> next.is_final()
    }

    pub fn is_terminal(&self) -> (result: bool)
        ensures
            result == self.is_final(),
    {
        match self {
            JobPhase::Cancelled | JobPhase::Completed | JobPhase::Failed => true,
            _ => false,
        }
    }

    pub fn can_transition_to(&self, next: &JobPhase) -> (result: bool)
        ensures
            result == self.leads_to(*next),
    {
        if self.is_terminal() || *self == *next {
            return false;
        }
        match self {
            JobPhase::Cancelling => next.is_terminal(),
            _ => true,
        }
    }
}

// ---------------------------------------------------------------------------
// The progress of one job
// ---------------------------------------------------------------------------

/// The progress of one job and the state of its status message. Whatever
/// changes it says whether the message has to be brought up to date.
pub struct JobProgress {
    id: u64,
    status: Option<i32>,
    phase: JobPhase,
    last_render: Option<String>,
    flushing: bool,
    attachment_done: bool,
    final_media: bool,
    delete_when_attached: bool,
    failure: Option<String>,
}

/// What a `JobProgress` holds.
#[verifier::ext_equal]
pub ghost struct ProgressView {
    pub id: u64,
    /// The status message, once it is sent.
    pub status: Option<i32>,
    pub phase: JobPhase,
    /// What the status message says.
    pub last_render: Option<Seq<char>>,
    /// Whether a flush is running.
    pub flushing: bool,
    /// Whether the status message has been sent, or never will be.
    pub attachment_done: bool,
    /// Whether the status message gives way to the media.
    pub final_media: bool,
    /// Whether the status message is to be deleted as soon as it is sent.
    pub delete_when_attached: bool,
    pub failure: Option<Seq<char>>,
}

/// The progress of a job that has just been queued.
pub open spec fn fresh(id: u64) -> ProgressView {
    ProgressView {
        id,
        status: None,
        phase: JobPhase::Queued,
        last_render: None,
        flushing: false,
        attachment_done: false,
        final_media: false,
        delete_when_attached: false,
        failure: None,
    }
}

/// The line that stands for the job now.
pub open spec fn rendered(p: ProgressView) -> Seq<char> {
    let job = "Job #"@ + decimal(p.id as nat);
    match p.phase {
        JobPhase::Queued => job + " queued."@,
        JobPhase::Downloading => job + " is downloading."@,
        JobPhase::Processing => job + " is preparing compatible media."@,
        JobPhase::Uploading { current, total } => job + " is uploading item "@ + decimal(
            current as nat,
        ) + "/"@ + decimal(total as nat) + "."@,
        JobPhase::Cancelling => job + " is cancelling…"@,
        JobPhase::Cancelled => job + " was cancelled."@,
        JobPhase::Completed => match p.failure {
            Some(reason) => job + " completed with warnings: "@ + reason,
            None => job + " completed."@,
        },
        JobPhase::Failed => match p.failure {
            Some(reason) => job + " failed: "@ + reason,
            None => job + " failed."@,
        },
    }
}

/// Whether a flush has to be started.
pub open spec fn needs_flush(p: ProgressView) -> bool {
    !p.final_media && p.status is Some && !p.flushing
}

/// The progress after a flush is asked for.
pub open spec fn scheduled(p: ProgressView) -> ProgressView {
    if needs_flush(p) {
        ProgressView { flushing: true, ..p }
    } else {
        p
    }
}

/// The progress after a phase is reported.
pub open spec fn moved(p: ProgressView, phase: JobPhase) -> ProgressView {
    if p.phase.leads_to(phase) {
        scheduled(ProgressView { phase, ..p })
    } else {
        p
    }
}

/// Whether reporting a phase starts a flush.
pub open spec fn move_flushes(p: ProgressView, phase: JobPhase) -> bool {
    p.phase.leads_to(phase) && needs_flush(p)
}

/// The status message shows text again.
pub open spec fn text_again(p: ProgressView) -> ProgressView {
    ProgressView { final_media: false, delete_when_attached: false, ..p }
}

/// What is known of the status message.
pub open spec fn waiting(p: ProgressView) -> StatusWait {
    match p.status {
        Some(status) => StatusWait::Ready(status),
        None => if p.attachment_done {
            StatusWait::Missing
        } else {
            StatusWait::Pending
        },
    }
}

impl View for JobProgress {
    type V = ProgressView;

    closed spec fn view(&self) -> ProgressView {
        ProgressView {
            id: self.id,
            status: self.status,
            phase: self.phase,
            last_render: text_of(self.last_render),
            flushing: self.flushing,
            attachment_done: self.attachment_done,
            final_media: self.final_media,
            delete_when_attached: self.delete_when_attached,
            failure: text_of(self.failure),
        }
    }
}

impl JobProgress {
    /// The progress as it stands. What becomes of the job later does not show in
    /// it.
    pub fn snapshot(&self) -> (result: JobProgress)
        ensures
            result@ == self@,
    {
        JobProgress {
            id: self.id,
            status: self.status,
            phase: self.phase,
            last_render: copied(&self.last_render),
            flushing: self.flushing,
            attachment_done: self.attachment_done,
            final_media: self.final_media,
            delete_when_attached: self.delete_when_attached,
            failure: copied(&self.failure),
        }
    }
}

impl JobProgress {
    pub fn new(id: u64) -> (result: JobProgress)
        ensures
            result@ == fresh(id),
    {
        JobProgress {
            id,
            status: None,
            phase: JobPhase::Queued,
            last_render: None,
            flushing: false,
            attachment_done: false,
            final_media: false,
            delete_when_attached: false,
            failure: None,
        }
    }

    /// Asks for a flush; whether one has to be started.
    pub fn schedule_flush(&mut self) -> (start: bool)
        ensures
            final(self)@ == scheduled(old(self)@),
            start == needs_flush(old(self)@),
    {
        if self.final_media || self.status.is_none() || self.flushing {
            return false;
        }
        self.flushing = true;
        true
    }

    /// Reports a phase; whether a flush has to be started.
    pub fn set_phase(&mut self, new_phase: JobPhase) -> (start: bool)
        ensures
            final(self)@ == moved(old(self)@, new_phase),
            start == move_flushes(old(self)@, new_phase),
    {
        if !self.phase.can_transition_to(&new_phase) {
            return false;
        }
        self.phase = new_phase;
        self.schedule_flush()
    }

    pub fn downloading(&mut self) -> (start: bool)
        ensures
            final(self)@ == moved(old(self)@, JobPhase::Downloading),
            start == move_flushes(old(self)@, JobPhase::Downloading),
    {
        self.set_phase(JobPhase::Downloading)
    }

    pub fn uploading(&mut self, current: usize, total: usize) -> (start: bool)
        ensures
            final(self)@ == moved(old(self)@, (JobPhase::Uploading { current, total })),
            start == move_flushes(old(self)@, (JobPhase::Uploading { current, total })),
    {
        self.set_phase(JobPhase::Uploading { current, total })
    }

    pub fn processing(&mut self) -> (start: bool)
        ensures
            final(self)@ == moved(old(self)@, JobPhase::Processing),
            start == move_flushes(old(self)@, JobPhase::Processing),
    {
        self.set_phase(JobPhase::Processing)
    }

    /// Ends the job as failed.
    pub fn fail(&mut self, reason: String) -> (start: bool)
        ensures
            final(self)@ == moved(
                (ProgressView { failure: Some(shortened(reason@)), ..old(self)@ }),
                JobPhase::Failed,
            ),
            start == move_flushes(old(self)@, JobPhase::Failed),
    {
        self.failure = Some(truncate_failure(reason));
        self.set_phase(JobPhase::Failed)
    }

    /// Ends the job as completed, with something to say.
    pub fn complete_with_warning(&mut self, reason: String) -> (start: bool)
        ensures
            final(self)@ == moved(
                (ProgressView { failure: Some(shortened(reason@)), ..old(self)@ }),
                JobPhase::Completed,
            ),
            start == move_flushes(old(self)@, JobPhase::Completed),
    {
        self.failure = Some(truncate_failure(reason));
        self.set_phase(JobPhase::Completed)
    }

    /// What is known of the status message.
    pub fn wait_for_status(&self) -> (result: StatusWait)
        ensures
            result == waiting(self@),
    {
        match self.status {
            Some(status) => StatusWait::Ready(status),
            None => if self.attachment_done {
                StatusWait::Missing
            } else {
                StatusWait::Pending
            },
        }
    }

    /// Gives the status message over to the media that replaces it.
    pub fn replace_with_media(&mut self) -> (result: StatusWait)
        ensures
            final(self)@ == (ProgressView { final_media: true, ..old(self)@ }),
            result == waiting(old(self)@),
    {
        self.final_media = true;
        self.wait_for_status()
    }

    /// Gives the status message up, now or as soon as it is sent.
    pub fn delete_status(&mut self) -> (result: StatusWait)
        ensures
            final(self)@ == (ProgressView {
                final_media: true,
                delete_when_attached: true,
                ..old(self)@
            }),
            result == waiting(old(self)@),
    {
        self.final_media = true;
        self.delete_when_attached = true;
        self.wait_for_status()
    }

    /// Takes note of how the deletion of the status message went. A message that
    /// stays says that the job is done.
    pub fn status_deleted(&mut self, deleted: bool) -> (start: bool)
        ensures
            deleted ==> !start && final(self)@ == (ProgressView { status: None, ..old(self)@ }),
            !deleted ==> start == needs_flush(text_again(old(self)@)) && final(self)@ == scheduled(
                moved(text_again(old(self)@), JobPhase::Completed),
            ),
    {
        if deleted {
            self.status = None;
            return false;
        }
        self.final_media = false;
        self.delete_when_attached = false;
        let reported = self.set_phase(JobPhase::Completed);
        let asked = self.schedule_flush();
        reported || asked
    }

    /// Lets the status message show text again.
    pub fn resume_text_status(&mut self) -> (start: bool)
        ensures
            final(self)@ == scheduled(text_again(old(self)@)),
            start == needs_flush(text_again(old(self)@)),
    {
        self.final_media = false;
        self.delete_when_attached = false;
        self.schedule_flush()
    }

    /// Takes note that the status message is sent, and says `text`.
    pub fn attach(&mut self, status: i32, text: String) -> (step: AttachStep)
        ensures
            ({
                let sent = ProgressView {
                    status: Some(status),
                    last_render: Some(text@),
                    attachment_done: true,
                    ..old(self)@
                };
                if sent.delete_when_attached {
                    final(self)@ == sent && step == AttachStep::Delete
                } else {
                    final(self)@ == scheduled(sent) && step == (if needs_flush(sent) {
                        AttachStep::StartFlush
                    } else {
                        AttachStep::Rest
                    })
                }
            }),
    {
        self.status = Some(status);
        self.last_render = Some(text);
        self.attachment_done = true;
        if self.delete_when_attached {
            AttachStep::Delete
        } else if self.schedule_flush() {
            AttachStep::StartFlush
        } else {
            AttachStep::Rest
        }
    }

    /// Takes note that the status message could not be sent.
    pub fn not_attached(&mut self)
        ensures
            final(self)@ == (ProgressView { attachment_done: true, ..old(self)@ }),
    {
        self.attachment_done = true;
    }

    /// The line that stands for the job now.
    pub fn render(&self) -> (result: String)
        ensures
            result@ == rendered(self@),
    {
        let job = "Job #".to_owned().concat(write_u64(self.id).as_str());
        match self.phase {
            JobPhase::Queued => job.concat(" queued."),
            JobPhase::Downloading => job.concat(" is downloading."),
            JobPhase::Processing => job.concat(" is preparing compatible media."),
            JobPhase::Uploading { current, total } => job.concat(" is uploading item ").concat(
                write_usize(current).as_str(),
            ).concat("/").concat(write_usize(total).as_str()).concat("."),
            JobPhase::Cancelling => job.concat(" is cancelling…"),
            JobPhase::Cancelled => job.concat(" was cancelled."),
            JobPhase::Completed => match copied(&self.failure) {
                Some(reason) => job.concat(" completed with warnings: ").concat(reason.as_str()),
                None => job.concat(" completed."),
            },
            JobPhase::Failed => match copied(&self.failure) {
                Some(reason) => job.concat(" failed: ").concat(reason.as_str()),
                None => job.concat(" failed."),
            },
        }
    }

    /// Goes on with a flush that may now edit the status message.
    pub fn flush(&mut self) -> (step: FlushStep)
        ensures
            old(self)@.final_media ==> step is Stop && final(self)@ == (ProgressView {
                flushing: false,
                ..old(self)@
            }),
            !old(self)@.final_media ==> final(self)@ == old(self)@ && match step {
                FlushStep::Stop => false,
                FlushStep::Edit { status, text } => old(self)@.status == Some(status) && text@
                    == rendered(old(self)@) && old(self)@.last_render != Some(text@),
                FlushStep::Settled { text } => text@ == rendered(old(self)@) && (
                old(self)@.status is None || old(self)@.last_render == Some(text@)),
            },
    {
        if self.final_media {
            self.flushing = false;
            return FlushStep::Stop;
        }
        let text = self.render();
        let shown = match &self.last_render {
            Some(last) => same_text(last.as_str(), text.as_str()),
            None => false,
        };
        match self.status {
            Some(status) => if shown {
                FlushStep::Settled { text }
            } else {
                FlushStep::Edit { status, text }
            },
            None => FlushStep::Settled { text },
        }
    }

    /// Takes note that the status message has been edited to say `text`.
    pub fn edited(&mut self, text: &str)
        ensures
            final(self)@ == (ProgressView { last_render: Some(text@), ..old(self)@ }),
    {
        self.last_render = Some(text.to_owned());
    }

    /// Ends a round of a flush in which the message was to say `text`; whether
    /// there is another, because the job has moved meanwhile.
    pub fn settle(&mut self, text: &str) -> (again: bool)
        ensures
            again == (rendered(old(self)@) != text@),
            final(self)@ == (ProgressView { flushing: again, ..old(self)@ }),
    {
        let now = self.render();
        self.flushing = !same_text(now.as_str(), text);
        self.flushing
    }
}

// ---------------------------------------------------------------------------
// The queue
// ---------------------------------------------------------------------------

/// A job in the queue.
pub struct DownloadJob {
    pub id: u64,
    pub owner_id: i64,
    pub request: DownloadRequest,
    pub cancelled: bool,
    pub progress: JobProgress,
}

pub ghost struct JobView {
    pub id: u64,
    pub owner: i64,
    pub request: RequestView,
    pub cancelled: bool,
    pub progress: ProgressView,
}

impl View for DownloadJob {
    type V = JobView;

    open spec fn view(&self) -> JobView {
        JobView {
            id: self.id,
            owner: self.owner_id,
            request: self.request@,
            cancelled: self.cancelled,
            progress: self.progress@,
        }
    }
}

/// What jobs hold.
pub open spec fn jobs_seen(jobs: Seq<DownloadJob>) -> Seq<JobView> {
    jobs.map_values(|job: DownloadJob| job@)
}

/// Jobs that wait, in the order in which they came, and jobs that run.
pub struct DownloadQueue {
    accepting: bool,
    pending: Vec<DownloadJob>,
    active: Vec<DownloadJob>,
    concurrency: usize,
    capacity: usize,
    max_upload_bytes: u64,
    next_id: u64,
}

#[verifier::ext_equal]
pub ghost struct QueueView {
    pub accepting: bool,
    pub pending: Seq<JobView>,
    pub active: Seq<JobView>,
    pub concurrency: usize,
    pub capacity: usize,
    pub max_upload_bytes: u64,
    pub next_id: u64,
}

impl View for DownloadQueue {
    type V = QueueView;

    closed spec fn view(&self) -> QueueView {
        QueueView {
            accepting: self.accepting,
            pending: jobs_seen(self.pending@),
            active: jobs_seen(self.active@),
            concurrency: self.concurrency,
            capacity: self.capacity,
            max_upload_bytes: self.max_upload_bytes,
            next_id: self.next_id,
        }
    }
}

/// What a request is answered.
#[derive(Debug, PartialEq, Eq)]
pub enum QueueReply {
    /// The job of that number has been accepted.
    Accepted(u64),
    Silent,
    Message(String),
}

impl QueueReply {
    pub fn is_accepted(&self) -> (result: bool)
        ensures
            result == (self is Accepted),
    {
        match self {
            QueueReply::Accepted(_) => true,
            _ => false,
        }
    }
}

/// A job that is new.
pub open spec fn new_job(id: u64, owner: i64, request: RequestView) -> JobView {
    JobView { id, owner, request, cancelled: false, progress: fresh(id) }
}

/// Why no job is accepted now, if none is.
pub open spec fn refusal(q: QueueView) -> Option<Seq<char>> {
    if !q.accepting {
        Some("The downloader is shutting down. Please try again after it restarts."@)
    } else if q.pending.len() >= q.capacity {
        Some(
            "The download queue is full ("@ + decimal(q.pending.len()) + " waiting, "@ + decimal(
                q.active.len(),
            ) + "/"@ + decimal(q.concurrency as nat) + " active). Please try again later."@,
        )
    } else {
        None
    }
}

/// Where a job of that number and owner stands, if it is there.
pub open spec fn position(jobs: Seq<JobView>, id: u64, owner: i64) -> Option<nat>
    decreases jobs.len(),
{
    if jobs.len() == 0 {
        None
    } else {
        match position(jobs.drop_last(), id, owner) {
            Some(at) => Some(at),
            None => if jobs.last().id == id && jobs.last().owner == owner {
                Some((jobs.len() - 1) as nat)
            } else {
                None
            },
        }
    }
}

/// A job that has been told to stop.
pub open spec fn stopped(job: JobView, phase: JobPhase) -> JobView {
    JobView { cancelled: true, progress: moved(job.progress, phase), ..job }
}

/// What comes of cancelling a job.
pub enum Cancellation {
    /// The job was waiting, and has left the queue.
    Dropped { job: DownloadJob, start: bool },
    /// The job is running, and has been told to stop.
    Stopping { start: bool },
    /// There is no such job.
    Unknown { text: String },
}

/// The jobs after a phase was reported of the one at `at`.
pub open spec fn told_to_stop(jobs: Seq<JobView>, at: int) -> Seq<JobView> {
    jobs.update(at, stopped(jobs[at], JobPhase::Cancelling))
}

/// A job to be run.
pub struct StartedJob {
    pub id: u64,
    pub owner_id: i64,
    pub request: DownloadRequest,
    /// Whether the job is cancelled already, and is not run.
    pub cancelled: bool,
    pub max_upload_bytes: u64,
    /// Whether a flush of its status message has to be started.
    pub start: bool,
}

/// The phase in which a job ends.
pub open spec fn final_phase(outcome: DownloadOutcome) -> JobPhase {
    match outcome {
        DownloadOutcome::Completed => JobPhase::Completed,
        DownloadOutcome::Failed => JobPhase::Failed,
        DownloadOutcome::Cancelled => JobPhase::Cancelled,
    }
}

fn outcome_phase(outcome: DownloadOutcome) -> (result: JobPhase)
    ensures
        result == final_phase(outcome),
{
    match outcome {
        DownloadOutcome::Completed => JobPhase::Completed,
        DownloadOutcome::Failed => JobPhase::Failed,
        DownloadOutcome::Cancelled => JobPhase::Cancelled,
    }
}

fn find_job(jobs: &Vec<DownloadJob>, id: u64, owner_id: i64) -> (result: Option<usize>)
    ensures
        match (result, position(jobs_seen(jobs@), id, owner_id)) {
            (Some(at), Some(expected)) => at == expected && at < jobs@.len(),
            (None, None) => true,
            _ => false,
        },
{
    let ghost all = jobs_seen(jobs@);
    let mut i: usize = 0;
    assert(all.take(0) =~= Seq::empty());
    while i < jobs.len()
        invariant
            i <= jobs@.len(),
            all == jobs_seen(jobs@),
            position(all.take(i as int), id, owner_id) is None,
        decreases jobs@.len() - i,
    {
        assert(all.take(i + 1).drop_last() =~= all.take(i as int));
        assert(all.take(i + 1).last() == jobs@[i as int]@);
        if jobs[i].id == id && jobs[i].owner_id == owner_id {
            proof {
                lemma_position(all, id, owner_id, i + 1);
            }
            return Some(i);
        }
        i = i + 1;
    }
    assert(all.take(i as int) =~= all);
    None
}

proof fn lemma_position(jobs: Seq<JobView>, id: u64, owner: i64, count: int)
    requires
        0 <= count <= jobs.len(),
        position(jobs.take(count), id, owner) is Some,
    ensures
        position(jobs, id, owner) == position(jobs.take(count), id, owner),
    decreases jobs.len() - count,
{
    if count < jobs.len() {
        assert(jobs.take(count + 1).drop_last() =~= jobs.take(count));
        lemma_position(jobs, id, owner, count + 1);
    } else {
        assert(jobs.take(count) =~= jobs);
    }
}

proof fn lemma_found(jobs: Seq<JobView>, id: u64, owner: i64)
    ensures
        match position(jobs, id, owner) {
            Some(at) => at < jobs.len() && jobs[at as int].id == id && jobs[at as int].owner
                == owner,
            None => forall|i: int|
                0 <= i < jobs.len() ==> !((#[trigger] jobs[i]).id == id && jobs[i].owner == owner),
        },
    decreases jobs.len(),
{
    if jobs.len() > 0 {
        lemma_found(jobs.drop_last(), id, owner);
        assert(jobs.last() == jobs[jobs.len() - 1]);
        if position(jobs, id, owner) is None {
            assert forall|i: int| 0 <= i < jobs.len() implies !((#[trigger] jobs[i]).id == id
                && jobs[i].owner == owner) by {
                if i < jobs.len() - 1 {
                    assert(jobs.drop_last()[i] == jobs[i]);
                }
            }
        }
    }
}

impl DownloadQueue {
    pub fn new(concurrency: usize, capacity: usize, max_upload_size_mb: usize) -> (result:
        DownloadQueue)
        requires
            concurrency > 0,
            capacity > 0,
        ensures
            result@ == (QueueView {
                accepting: true,
                pending: Seq::empty(),
                active: Seq::empty(),
                concurrency,
                capacity,
                max_upload_bytes: mebibytes(max_upload_size_mb as u64),
                next_id: 1,
            }),
    {
        let result = DownloadQueue {
            accepting: true,
            pending: Vec::new(),
            active: Vec::new(),
            concurrency,
            capacity,
            max_upload_bytes: mebibytes_in_bytes(max_upload_size_mb as u64),
            next_id: 1,
        };
        assert(jobs_seen(result.pending@) =~= Seq::empty());
        assert(jobs_seen(result.active@) =~= Seq::empty());
        result
    }

    /// Accepts no more jobs; those accepted are still run.
    pub fn shutdown(&mut self)
        ensures
            final(self)@ == (QueueView { accepting: false, ..old(self)@ }),
    {
        self.accepting = false;
    }

    pub fn status_report(&self) -> (result: String)
        ensures
            result@ == "Downloads: "@ + decimal(self@.active.len()) + "/"@ + decimal(
                self@.concurrency as nat,
            ) + " active, "@ + decimal(self@.pending.len()) + "/"@ + decimal(self@.capacity as nat)
                + " queued."@,
    {
        "Downloads: ".to_owned().concat(write_usize(self.active.len()).as_str()).concat("/").concat(
            write_usize(self.concurrency).as_str(),
        ).concat(" active, ").concat(write_usize(self.pending.len()).as_str()).concat("/").concat(
            write_usize(self.capacity).as_str(),
        ).concat(" queued.")
    }

    /// Whether there is a number for one more job.
    pub fn has_numbers(&self) -> (result: bool)
        ensures
            result == (self@.next_id < u64::MAX),
    {
        self.next_id < u64::MAX
    }

    pub fn try_enqueue(&mut self, owner_id: i64, request: DownloadRequest) -> (reply: QueueReply)
        requires
            old(self)@.next_id < u64::MAX,
        ensures
            match (reply, refusal(old(self)@)) {
                (QueueReply::Message(text), Some(expected)) => text@ == expected && final(self)@
                    == old(self)@,
                (QueueReply::Accepted(id), None) => id == old(self)@.next_id && final(self)@ == (
                QueueView {
                    pending: old(self)@.pending.push(new_job(id, owner_id, request@)),
                    next_id: (id + 1) as u64,
                    ..old(self)@
                }),
                _ => false,
            },
    {
        if !self.accepting {
            return QueueReply::Message(
                "The downloader is shutting down. Please try again after it restarts.".to_owned(),
            );
        }
        if self.pending.len() >= self.capacity {
            return QueueReply::Message(
                "The download queue is full (".to_owned().concat(
                    write_usize(self.pending.len()).as_str(),
                ).concat(" waiting, ").concat(write_usize(self.active.len()).as_str()).concat(
                    "/",
                ).concat(write_usize(self.concurrency).as_str()).concat(
                    " active). Please try again later.",
                ),
            );
        }
        let id: u64 = self.next_id;
        self.next_id = id + 1;
        self.pending.push(
            DownloadJob { id, owner_id, request, cancelled: false, progress: JobProgress::new(id) },
        );
        assert(jobs_seen(self.pending@) =~= old(self)@.pending.push(
            new_job(id, owner_id, request@),
        ));
        QueueReply::Accepted(id)
    }

    pub fn try_cancel(&mut self, owner_id: i64, id: u64) -> (result: Cancellation)
        ensures
            match (
                position(old(self)@.pending, id, owner_id),
                position(old(self)@.active, id, owner_id),
            ) {
                (Some(at), _) => {
                    let waiting = old(self)@.pending[at as int];
                    &&& result matches Cancellation::Dropped { job, start } && job@ == stopped(
                        waiting,
                        JobPhase::Cancelled,
                    ) && start == move_flushes(waiting.progress, JobPhase::Cancelled)
                    &&& final(self)@ == (QueueView {
                        pending: old(self)@.pending.remove(at as int),
                        ..old(self)@
                    })
                },
                (None, Some(at)) => {
                    let running = old(self)@.active[at as int];
                    &&& result matches Cancellation::Stopping { start } && start == move_flushes(
                        running.progress,
                        JobPhase::Cancelling,
                    )
                    &&& final(self)@ == (QueueView {
                        active: told_to_stop(old(self)@.active, at as int),
                        ..old(self)@
                    })
                },
                (None, None) => {
                    &&& result matches Cancellation::Unknown { text } && text@
                        == "No cancellable job #"@ + decimal(id as nat)
                        + " was found for your account."@
                    &&& final(self)@ == old(self)@
                },
            },
    {
        if let Some(at) = find_job(&self.pending, id, owner_id) {
            let ghost before = jobs_seen(self.pending@);
            let mut job = self.pending.remove(at);
            job.cancelled = true;
            let start = job.progress.set_phase(JobPhase::Cancelled);
            assert(jobs_seen(self.pending@) =~= before.remove(at as int));
            return Cancellation::Dropped { job, start };
        }
        if let Some(at) = find_job(&self.active, id, owner_id) {
            let ghost before = jobs_seen(self.active@);
            let mut job = self.active.remove(at);
            job.cancelled = true;
            let start = job.progress.set_phase(JobPhase::Cancelling);
            self.active.insert(at, job);
            assert(jobs_seen(self.active@) =~= told_to_stop(before, at as int));
            return Cancellation::Stopping { start };
        }
        let text = "No cancellable job #".to_owned().concat(write_u64(id).as_str()).concat(
            " was found for your account.",
        );
        Cancellation::Unknown { text }
    }

    /// Starts the job that has waited longest, while fewer than the allowed
    /// number run.
    pub fn start_next(&mut self, tasks: usize) -> (result: Option<StartedJob>)
        ensures
            match result {
                None => (tasks >= old(self)@.concurrency || old(self)@.pending.len() == 0)
                    && final(self)@ == old(self)@,
                Some(started) => {
                    let first = old(self)@.pending[0];
                    &&& tasks < old(self)@.concurrency
                    &&& old(self)@.pending.len() > 0
                    &&& started.id == first.id
                    &&& started.owner_id == first.owner
                    &&& started.request@ == first.request
                    &&& started.cancelled == first.cancelled
                    &&& started.max_upload_bytes == old(self)@.max_upload_bytes
                    &&& started.start == move_flushes(first.progress, JobPhase::Downloading)
                    &&& final(self)@ == (QueueView {
                        pending: old(self)@.pending.remove(0),
                        active: old(self)@.active.push(
                            (JobView {
                                progress: moved(first.progress, JobPhase::Downloading),
                                ..first
                            }),
                        ),
                        ..old(self)@
                    })
                },
            },
    {
        if tasks >= self.concurrency || self.pending.len() == 0 {
            return None;
        }
        let ghost waiting = jobs_seen(self.pending@);
        let ghost running = jobs_seen(self.active@);
        let mut job = self.pending.remove(0);
        let start = job.progress.downloading();
        let started = StartedJob {
            id: job.id,
            owner_id: job.owner_id,
            request: job.request.clone(),
            cancelled: job.cancelled,
            max_upload_bytes: self.max_upload_bytes,
            start,
        };
        self.active.push(job);
        assert(jobs_seen(self.pending@) =~= waiting.remove(0));
        assert(jobs_seen(self.active@) =~= running.push(job@));
        Some(started)
    }

    /// The progress of a job that is running.
    pub fn progress(&self, id: u64, owner_id: i64) -> (result: Option<JobProgress>)
        ensures
            match (result, position(self@.active, id, owner_id)) {
                (Some(progress), Some(at)) => progress@ == self@.active[at as int].progress,
                (None, None) => true,
                _ => false,
            },
    {
        match find_job(&self.active, id, owner_id) {
            Some(at) => Some(self.active[at].progress.snapshot()),
            None => None,
        }
    }

    /// Puts back the progress of a job that is running.
    pub fn store_progress(&mut self, id: u64, owner_id: i64, progress: JobProgress)
        ensures
            final(self)@ == (match position(old(self)@.active, id, owner_id) {
                Some(at) => QueueView {
                    active: old(self)@.active.update(
                        at as int,
                        (JobView { progress: progress@, ..old(self)@.active[at as int] }),
                    ),
                    ..old(self)@
                },
                None => old(self)@,
            }),
    {
        if let Some(at) = find_job(&self.active, id, owner_id) {
            let ghost before = jobs_seen(self.active@);
            let mut job = self.active.remove(at);
            job.progress = progress;
            self.active.insert(at, job);
            assert(jobs_seen(self.active@) =~= before.update(
                at as int,
                (JobView { progress: progress@, ..before[at as int] }),
            ));
        }
    }

    /// Takes a job that has ended out of the queue and reports how it did.
    pub fn finish(&mut self, id: u64, owner_id: i64, outcome: DownloadOutcome) -> (result: Option<
        (DownloadJob, bool),
    >)
        ensures
            match (result, position(old(self)@.active, id, owner_id)) {
                (None, None) => final(self)@ == old(self)@,
                (Some((job, start)), Some(at)) => {
                    let running = old(self)@.active[at as int];
                    &&& job@ == (JobView {
                        progress: moved(running.progress, final_phase(outcome)),
                        ..running
                    })
                    &&& start == move_flushes(running.progress, final_phase(outcome))
                    &&& final(self)@ == (QueueView {
                        active: old(self)@.active.remove(at as int),
                        ..old(self)@
                    })
                },
                _ => false,
            },
    {
        let at: usize = match find_job(&self.active, id, owner_id) {
            Some(at) => at,
            None => {
                return None;
            },
        };
        let ghost before = jobs_seen(self.active@);
        let mut job = self.active.remove(at);
        assert(jobs_seen(self.active@) =~= before.remove(at as int));
        let start = job.progress.set_phase(outcome_phase(outcome));
        Some((job, start))
    }

    /// Whether nothing is left to do, and nothing will be.
    pub fn is_drained(&self) -> (result: bool)
        ensures
            result == (!self@.accepting && self@.pending.len() == 0 && self@.active.len() == 0),
    {
        !self.accepting && self.pending.len() == 0 && self.active.len() == 0
    }
}

// ---------------------------------------------------------------------------
// Laws
// ---------------------------------------------------------------------------

/// A job that has ended stays as it is.
pub proof fn law_final_phases_stay(p: ProgressView, phase: JobPhase)
    requires
        p.phase.is_final(),
    ensures
        moved(p, phase) == p,
{
}

/// A job that is being cancelled never goes back to work.
pub proof fn law_cancelling_never_regresses(p: ProgressView, phase: JobPhase)
    requires
        p.phase is Cancelling,
    ensures
        moved(p, phase).phase is Cancelling || moved(p, phase).phase.is_final(),
{
}

/// Nobody cancels the job of someone else.
pub proof fn law_cancellation_is_owner_scoped(jobs: Seq<JobView>, id: u64, owner: i64)
    ensures
        position(jobs, id, owner) matches Some(at) ==> jobs[at as int].owner == owner
            && jobs[at as int].id == id,
        position(jobs, id, owner) is None ==> forall|i: int|
            0 <= i < jobs.len() && (#[trigger] jobs[i]).id == id ==> jobs[i].owner != owner,
{
    lemma_found(jobs, id, owner);
}

/// The queue never holds more waiting jobs than its capacity.
pub proof fn law_capacity_is_kept(q: QueueView)
    requires
        q.pending.len() <= q.capacity,
        refusal(q) is None,
    ensures
        q.pending.len() + 1 <= q.capacity,
{
}

} // verus!
