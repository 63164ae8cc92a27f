//! Where a job stands, and when its status message has to change.

use vstd::prelude::*;

use crate::jobs::status::{duration_text, format_duration, phase_text, render};
use crate::number::{decimal, write_u64};
use crate::text::{chars_of, copied, text_between, text_of};
use crate::time::Duration;

verus! {

/// What a job is doing.
#[derive(Clone, Copy, Debug, PartialEq, Eq)]
pub enum JobPhase {
    Queued,
    Downloading { percent: Option<u8> },
    Inspecting,
    Transcoding { percent: Option<u8> },
    Thumbnailing,
    Uploading { current: usize, total: usize, bytes: Option<(u64, u64)> },
    Finalizing,
    Cancelling,
    Cancelled,
    Completed,
    Failed,
}

impl JobPhase {
    /// Whether a job has ended.
    pub open spec fn is_final(self) -> bool {
        self is Cancelled || self is Completed || self is Failed
    }

    /// Whether a job may go from this phase to `next`. An ended job goes
    /// nowhere, and one that is being cancelled does not go back to work.
    pub open spec fn leads_to(self, next: JobPhase) -> bool {
        &&& !self.is_final()
        &&& self != next
        &&& self is Cancelling ==> next.is_final()
    }

    /// What a phase is called in reports.
    pub open spec fn called(self) -> Seq<char> {
        match self {
            JobPhase::Queued => "queued"@,
            JobPhase::Downloading { .. } => "downloading"@,
            JobPhase::Inspecting => "inspecting media"@,
            JobPhase::Transcoding { .. } => "transcoding"@,
            JobPhase::Thumbnailing => "preparing thumbnail"@,
            JobPhase::Uploading { .. } => "uploading"@,
            JobPhase::Finalizing => "finalizing"@,
            JobPhase::Cancelling => "cancelling"@,
            JobPhase::Cancelled => "cancelled"@,
            JobPhase::Completed => "completed"@,
            JobPhase::Failed => "failed"@,
        }
    }

    pub fn is_terminal(&self) -> (result: bool)
        ensures
            result == self.is_final(),
    {
        match self {
            JobPhase::Cancelled | JobPhase::Completed | JobPhase::Failed => true,
            _ => false,
        }
    }

    /// Whether two phases are the same, progress and all.
    pub fn same_as(&self, other: &JobPhase) -> (result: bool)
        ensures
            result == (*self == *other),
    {
        match (self, other) {
            (JobPhase::Queued, JobPhase::Queued) => true,
            (JobPhase::Downloading { percent: one }, JobPhase::Downloading { percent: two }) =>
                *one == *two,
            (JobPhase::Inspecting, JobPhase::Inspecting) => true,
            (JobPhase::Transcoding { percent: one }, JobPhase::Transcoding { percent: two }) =>
                *one == *two,
            (JobPhase::Thumbnailing, JobPhase::Thumbnailing) => true,
            (
                JobPhase::Uploading { current, total, bytes },
                JobPhase::Uploading { current: other_current, total: other_total, bytes: other },
            ) => *current == *other_current && *total == *other_total && match (bytes, other) {
                (None, None) => true,
                (Some((sent, size)), Some((other_sent, other_size))) => *sent == *other_sent
                    && *size == *other_size,
                _ => false,
            },
            (JobPhase::Finalizing, JobPhase::Finalizing) => true,
            (JobPhase::Cancelling, JobPhase::Cancelling) => true,
            (JobPhase::Cancelled, JobPhase::Cancelled) => true,
            (JobPhase::Completed, JobPhase::Completed) => true,
            (JobPhase::Failed, JobPhase::Failed) => true,
            _ => false,
        }
    }

    pub fn can_transition_to(&self, next: &JobPhase) -> (result: bool)
        ensures
            result == self.leads_to(*next),
    {
        if self.is_terminal() || self.same_as(next) {
            return false;
        }
        match self {
            JobPhase::Cancelling => next.is_terminal(),
            _ => true,
        }
    }

    pub fn label(&self) -> (result: &'static str)
        ensures
            result@ == self.called(),
    {
        match self {
            JobPhase::Queued => "queued",
            JobPhase::Downloading { .. } => "downloading",
            JobPhase::Inspecting => "inspecting media",
            JobPhase::Transcoding { .. } => "transcoding",
            JobPhase::Thumbnailing => "preparing thumbnail",
            JobPhase::Uploading { .. } => "uploading",
            JobPhase::Finalizing => "finalizing",
            JobPhase::Cancelling => "cancelling",
            JobPhase::Cancelled => "cancelled",
            JobPhase::Completed => "completed",
            JobPhase::Failed => "failed",
        }
    }
}

// ---------------------------------------------------------------------------
// Failure texts
// ---------------------------------------------------------------------------

/// A reason cut to what fits a status message.
pub open spec fn shortened(reason: Seq<char>) -> Seq<char> {
    if reason.len() > 500 {
        reason.take(497) + "..."@
    } else {
        reason
    }
}

pub fn truncate_failure(reason: String) -> (result: String)
    ensures
        result@ == shortened(reason@),
{
    let chars = chars_of(reason.as_str());
    if chars.len() > 500 {
        let kept = text_between(&chars, 0, 497);
        assert(kept@ =~= reason@.take(497));
        kept.concat("...")
    } else {
        reason
    }
}

// ---------------------------------------------------------------------------
// The progress of one job
// ---------------------------------------------------------------------------

/// The progress of one job and the state of its status message. Whatever
/// changes it says whether the message has to be brought up to date; whoever
/// holds it then runs a flush.
pub struct JobProgress {
    id: u64,
    status: Option<i32>,
    phase: JobPhase,
    last_render: Option<String>,
    flushing: bool,
    attachment_done: bool,
    final_media: bool,
    delete_when_attached: bool,
    failure: Option<String>,
    phase_since: Duration,
    edit_failures: u8,
}

/// What a `JobProgress` holds.
#[verifier::ext_equal]
pub ghost struct ProgressView {
    /// The number of the job.
    pub id: u64,
    /// The status message, once it is sent.
    pub status: Option<i32>,
    pub phase: JobPhase,
    /// What the status message says.
    pub last_render: Option<Seq<char>>,
    /// Whether a flush is running.
    pub flushing: bool,
    /// Whether the status message has been sent, or never will be.
    pub attachment_done: bool,
    /// Whether the status message gives way to the media.
    pub final_media: bool,
    /// Whether the status message is to be deleted as soon as it is sent.
    pub delete_when_attached: bool,
    pub failure: Option<Seq<char>>,
    /// When the job entered its phase.
    pub phase_since: Duration,
    /// How many edits in a row have failed.
    pub edit_failures: u8,
}

/// What is known of the status message while something waits for it.
#[derive(Clone, Copy, Debug, PartialEq, Eq, Structural)]
pub enum StatusWait {
    Ready(i32),
    Missing,
    Pending,
}

/// What to do once the status message is sent.
#[derive(Clone, Copy, Debug, PartialEq, Eq, Structural)]
pub enum AttachStep {
    Delete,
    StartFlush,
    Rest,
}

/// How the deletion of the status message went.
#[derive(Clone, Copy, Debug, PartialEq, Eq, Structural)]
pub enum DeletionOutcome {
    LockTimedOut,
    TimedOut,
    Refused,
    Deleted,
}

/// What a flush does once it may edit the status message.
#[derive(Debug, PartialEq, Eq)]
pub enum FlushStep {
    /// The message no longer shows text.
    Stop,
    /// The message is to show this text.
    Edit { status: i32, text: String },
    /// The message shows this text already, or there is none.
    Settled { text: String },
}

/// How a flush goes on.
#[derive(Clone, Copy, Debug, PartialEq, Eq, Structural)]
pub enum FlushEnd {
    Stop,
    Again,
    RetryLater,
}

/// The line that stands for the job now.
pub open spec fn rendered(p: ProgressView) -> Seq<char> {
    phase_text(p.id as nat, p.phase, p.failure)
}

/// Whether a flush has to be started.
pub open spec fn needs_flush(p: ProgressView) -> bool {
    !p.final_media && p.status is Some && !p.flushing
}

/// The progress after a flush is asked for.
pub open spec fn scheduled(p: ProgressView) -> ProgressView {
    if needs_flush(p) {
        ProgressView { flushing: true, ..p }
    } else {
        p
    }
}

/// The progress in a new phase, before any flush.
pub open spec fn entered(p: ProgressView, phase: JobPhase, now: Duration) -> ProgressView {
    if p.phase.called() == phase.called() {
        ProgressView { phase, ..p }
    } else {
        ProgressView { phase, phase_since: now, edit_failures: 0, ..p }
    }
}

/// The progress after a phase is reported.
pub open spec fn moved(p: ProgressView, phase: JobPhase, now: Duration) -> ProgressView {
    if p.phase.leads_to(phase) {
        scheduled(entered(p, phase, now))
    } else {
        p
    }
}

/// Whether reporting a phase starts a flush.
pub open spec fn move_flushes(p: ProgressView, phase: JobPhase) -> bool {
    p.phase.leads_to(phase) && needs_flush(p)
}

/// The status message shows text again.
pub open spec fn text_again(p: ProgressView) -> ProgressView {
    ProgressView { final_media: false, delete_when_attached: false, ..p }
}

/// The status message stays: the job is done, and the message says so.
pub open spec fn kept(p: ProgressView, now: Duration) -> ProgressView {
    scheduled(moved(text_again(p), JobPhase::Completed, now))
}

/// The count of failed edits after one more.
pub open spec fn one_more_failure(failures: u8) -> u8 {
    if failures == 255 {
        0
    } else {
        (failures + 1) as u8
    }
}

/// The progress after an edit, in which the message was to say `text`.
pub open spec fn after_edit(p: ProgressView, text: Seq<char>, edited: bool) -> ProgressView {
    if edited {
        ProgressView { last_render: Some(text), edit_failures: 0, ..p }
    } else {
        ProgressView { edit_failures: one_more_failure(p.edit_failures), ..p }
    }
}

/// The progress after a flush has shown `text`: the flush goes on if the job
/// has moved meanwhile.
pub open spec fn settled(p: ProgressView, text: Seq<char>) -> ProgressView {
    ProgressView { flushing: rendered(p) != text, ..p }
}

impl View for JobProgress {
    type V = ProgressView;

    closed spec fn view(&self) -> ProgressView {
        ProgressView {
            id: self.id,
            status: self.status,
            phase: self.phase,
            last_render: text_of(self.last_render),
            flushing: self.flushing,
            attachment_done: self.attachment_done,
            final_media: self.final_media,
            delete_when_attached: self.delete_when_attached,
            failure: text_of(self.failure),
            phase_since: self.phase_since,
            edit_failures: self.edit_failures,
        }
    }
}

impl JobProgress {
    /// A job that has just been queued.
    pub fn new(id: u64, now: Duration) -> (result: JobProgress)
        ensures
            result@ == (ProgressView {
                id,
                status: None,
                phase: JobPhase::Queued,
                last_render: None,
                flushing: false,
                attachment_done: false,
                final_media: false,
                delete_when_attached: false,
                failure: None,
                phase_since: now,
                edit_failures: 0,
            }),
    {
        JobProgress {
            id,
            status: None,
            phase: JobPhase::Queued,
            last_render: None,
            flushing: false,
            attachment_done: false,
            final_media: false,
            delete_when_attached: false,
            failure: None,
            phase_since: now,
            edit_failures: 0,
        }
    }

    pub fn id(&self) -> (result: u64)
        ensures
            result == self@.id,
    {
        self.id
    }

    pub fn phase(&self) -> (result: JobPhase)
        ensures
            result == self@.phase,
    {
        self.phase
    }

    /// Asks for a flush; whether one has to be started.
    pub fn schedule_flush(&mut self) -> (start: bool)
        ensures
            final(self)@ == scheduled(old(self)@),
            start == needs_flush(old(self)@),
    {
        if self.final_media || self.status.is_none() || self.flushing {
            return false;
        }
        self.flushing = true;
        true
    }

    /// Reports a phase; whether a flush has to be started.
    pub fn set_phase(&mut self, new_phase: JobPhase, now: Duration) -> (start: bool)
        ensures
            final(self)@ == moved(old(self)@, new_phase, now),
            start == move_flushes(old(self)@, new_phase),
    {
        if !self.phase.can_transition_to(&new_phase) {
            return false;
        }
        let old_phase = self.phase;
        self.phase = new_phase;
        if !crate::text::same_text(old_phase.label(), new_phase.label()) {
            self.phase_since = now;
            self.edit_failures = 0;
        }
        self.schedule_flush()
    }

    pub fn downloading(&mut self, now: Duration) -> (start: bool)
        ensures
            final(self)@ == moved(
                old(self)@,
                (JobPhase::Downloading { percent: None }),
                now,
            ),
            start == move_flushes(old(self)@, (JobPhase::Downloading { percent: None })),
    {
        self.set_phase(JobPhase::Downloading { percent: None }, now)
    }

    pub fn download_progress(&mut self, percent: u8, now: Duration) -> (start: bool)
        ensures
            final(self)@ == moved(
                old(self)@,
                (JobPhase::Downloading { percent: Some(at_most_hundred(percent)) }),
                now,
            ),
            start == move_flushes(
                old(self)@,
                (JobPhase::Downloading { percent: Some(at_most_hundred(percent)) }),
            ),
    {
        let percent: u8 = if percent <= 100 {
            percent
        } else {
            100
        };
        self.set_phase(JobPhase::Downloading { percent: Some(percent) }, now)
    }

    pub fn inspecting(&mut self, now: Duration) -> (start: bool)
        ensures
            final(self)@ == moved(old(self)@, JobPhase::Inspecting, now),
            start == move_flushes(old(self)@, JobPhase::Inspecting),
    {
        self.set_phase(JobPhase::Inspecting, now)
    }

    pub fn transcoding(&mut self, percent: Option<u8>, now: Duration) -> (start: bool)
        ensures
            final(self)@ == moved(old(self)@, transcoding_at(percent), now),
            start == move_flushes(old(self)@, transcoding_at(percent)),
    {
        let percent = match percent {
            Some(percent) => if percent <= 100 {
                Some(percent)
            } else {
                Some(100)
            },
            None => None,
        };
        self.set_phase(JobPhase::Transcoding { percent }, now)
    }

    pub fn thumbnailing(&mut self, now: Duration) -> (start: bool)
        ensures
            final(self)@ == moved(old(self)@, JobPhase::Thumbnailing, now),
            start == move_flushes(old(self)@, JobPhase::Thumbnailing),
    {
        self.set_phase(JobPhase::Thumbnailing, now)
    }

    pub fn finalizing(&mut self, now: Duration) -> (start: bool)
        ensures
            final(self)@ == moved(old(self)@, JobPhase::Finalizing, now),
            start == move_flushes(old(self)@, JobPhase::Finalizing),
    {
        self.set_phase(JobPhase::Finalizing, now)
    }

    pub fn uploading(&mut self, current: usize, total: usize, now: Duration) -> (start: bool)
        ensures
            final(self)@ == moved(
                old(self)@,
                (JobPhase::Uploading { current, total, bytes: None }),
                now,
            ),
            start == move_flushes(
                old(self)@,
                (JobPhase::Uploading { current, total, bytes: None }),
            ),
    {
        self.set_phase(JobPhase::Uploading { current, total, bytes: None }, now)
    }

    pub fn upload_progress(
        &mut self,
        current: usize,
        total: usize,
        uploaded_bytes: u64,
        total_bytes: u64,
        now: Duration,
    ) -> (start: bool)
        ensures
            final(self)@ == moved(
                old(self)@,
                uploading_at(current, total, uploaded_bytes, total_bytes),
                now,
            ),
            start == move_flushes(
                old(self)@,
                uploading_at(current, total, uploaded_bytes, total_bytes),
            ),
    {
        let sent: u64 = if uploaded_bytes <= total_bytes {
            uploaded_bytes
        } else {
            total_bytes
        };
        self.set_phase(
            JobPhase::Uploading { current, total, bytes: Some((sent, total_bytes)) },
            now,
        )
    }

    /// Ends the job as failed.
    pub fn fail(&mut self, reason: String, now: Duration) -> (start: bool)
        ensures
            final(self)@ == moved(
                (ProgressView { failure: Some(shortened(reason@)), ..old(self)@ }),
                JobPhase::Failed,
                now,
            ),
            start == move_flushes(old(self)@, JobPhase::Failed),
    {
        self.failure = Some(truncate_failure(reason));
        self.set_phase(JobPhase::Failed, now)
    }

    /// Ends the job as completed, with something to say.
    pub fn complete_with_warning(&mut self, reason: String, now: Duration) -> (start: bool)
        ensures
            final(self)@ == moved(
                (ProgressView { failure: Some(shortened(reason@)), ..old(self)@ }),
                JobPhase::Completed,
                now,
            ),
            start == move_flushes(old(self)@, JobPhase::Completed),
    {
        self.failure = Some(truncate_failure(reason));
        self.set_phase(JobPhase::Completed, now)
    }

    /// What is known of the status message.
    pub fn status_wait(&self) -> (result: StatusWait)
        ensures
            result == waiting(self@),
    {
        match self.status {
            Some(status) => StatusWait::Ready(status),
            None => if self.attachment_done {
                StatusWait::Missing
            } else {
                StatusWait::Pending
            },
        }
    }

    /// Gives the status message over to the media that replaces it.
    pub fn replace_with_media(&mut self) -> (result: StatusWait)
        ensures
            final(self)@ == (ProgressView { final_media: true, ..old(self)@ }),
            result == waiting(old(self)@),
    {
        self.final_media = true;
        self.status_wait()
    }

    /// Gives the status message up, now or as soon as it is sent.
    pub fn delete_status(&mut self) -> (result: StatusWait)
        ensures
            final(self)@ == (ProgressView {
                final_media: true,
                delete_when_attached: true,
                ..old(self)@
            }),
            result == waiting(old(self)@),
    {
        self.final_media = true;
        self.delete_when_attached = true;
        self.status_wait()
    }

    /// Lets the status message show text again.
    pub fn resume_text_status(&mut self) -> (start: bool)
        ensures
            final(self)@ == scheduled(text_again(old(self)@)),
            start == needs_flush(text_again(old(self)@)),
    {
        self.final_media = false;
        self.delete_when_attached = false;
        self.schedule_flush()
    }

    fn keep_status(&mut self, now: Duration) -> (start: bool)
        ensures
            final(self)@ == kept(old(self)@, now),
            start == needs_flush(text_again(old(self)@)),
    {
        self.final_media = false;
        self.delete_when_attached = false;
        let moved = self.set_phase(JobPhase::Completed, now);
        let asked = self.schedule_flush();
        moved || asked
    }

    /// Takes note of how a deletion of the status message went.
    pub fn status_deleted(&mut self, outcome: DeletionOutcome, now: Duration) -> (start: bool)
        ensures
            final(self)@ == (match outcome {
                DeletionOutcome::Deleted => ProgressView { status: None, ..old(self)@ },
                DeletionOutcome::LockTimedOut => scheduled(text_again(old(self)@)),
                DeletionOutcome::TimedOut | DeletionOutcome::Refused => kept(old(self)@, now),
            }),
            start == (!(outcome is Deleted) && needs_flush(text_again(old(self)@))),
    {
        match outcome {
            DeletionOutcome::Deleted => {
                self.status = None;
                false
            },
            DeletionOutcome::LockTimedOut => self.resume_text_status(),
            DeletionOutcome::TimedOut | DeletionOutcome::Refused => self.keep_status(now),
        }
    }

    /// Takes note of how the deletion of a status message that came too late
    /// went.
    pub fn late_status_deleted(&mut self, outcome: DeletionOutcome, now: Duration) -> (start: bool)
        ensures
            final(self)@ == (match outcome {
                DeletionOutcome::Deleted => ProgressView { status: None, ..old(self)@ },
                DeletionOutcome::LockTimedOut | DeletionOutcome::TimedOut => scheduled(
                    text_again(old(self)@),
                ),
                DeletionOutcome::Refused => kept(old(self)@, now),
            }),
            start == (!(outcome is Deleted) && needs_flush(text_again(old(self)@))),
    {
        match outcome {
            DeletionOutcome::Deleted => {
                self.status = None;
                false
            },
            DeletionOutcome::LockTimedOut
            | DeletionOutcome::TimedOut => self.resume_text_status(),
            DeletionOutcome::Refused => self.keep_status(now),
        }
    }

    /// Takes note that the status message is sent, and says `text`.
    pub fn attached(&mut self, status: i32, text: String) -> (step: AttachStep)
        ensures
            ({
                let sent = ProgressView {
                    status: Some(status),
                    last_render: Some(text@),
                    attachment_done: true,
                    ..old(self)@
                };
                if sent.delete_when_attached {
                    final(self)@ == sent && step == AttachStep::Delete
                } else {
                    final(self)@ == scheduled(sent) && step == (if needs_flush(sent) {
                        AttachStep::StartFlush
                    } else {
                        AttachStep::Rest
                    })
                }
            }),
    {
        self.status = Some(status);
        self.last_render = Some(text);
        self.attachment_done = true;
        if self.delete_when_attached {
            AttachStep::Delete
        } else if self.schedule_flush() {
            AttachStep::StartFlush
        } else {
            AttachStep::Rest
        }
    }

    /// Takes note that there will be no status message.
    pub fn not_attached(&mut self)
        ensures
            final(self)@ == (ProgressView { attachment_done: true, ..old(self)@ }),
    {
        self.attachment_done = true;
    }

    fn count_failure(&mut self) -> (retry: bool)
        ensures
            final(self)@ == (ProgressView {
                edit_failures: one_more_failure(old(self)@.edit_failures),
                ..old(self)@
            }),
            retry == (old(self)@.edit_failures < 2),
    {
        let retry = self.edit_failures < 2;
        self.edit_failures = if self.edit_failures == 255 {
            0
        } else {
            self.edit_failures + 1
        };
        retry
    }

    /// A flush could not get hold of the status message; whether it is worth
    /// another try.
    pub fn flush_lock_timed_out(&mut self) -> (retry: bool)
        ensures
            final(self)@ == (ProgressView {
                flushing: false,
                edit_failures: one_more_failure(old(self)@.edit_failures),
                ..old(self)@
            }),
            retry == (old(self)@.edit_failures < 2),
    {
        let retry = self.count_failure();
        self.flushing = false;
        retry
    }

    /// A flush has got hold of the status message: what it is to do.
    pub fn flush_locked(&mut self) -> (step: FlushStep)
        ensures
            match step {
                FlushStep::Stop => old(self)@.final_media && final(self)@ == (ProgressView {
                    flushing: false,
                    ..old(self)@
                }),
                FlushStep::Edit { status, text } => !old(self)@.final_media && final(self)@ == old(
                    self,
                )@ && text@ == rendered(old(self)@) && old(self)@.status == Some(status) && old(
                    self,
                )@.last_render != Some(text@),
                FlushStep::Settled { text } => !old(self)@.final_media && final(self)@ == old(
                    self,
                )@ && text@ == rendered(old(self)@) && (old(self)@.status is None || old(
                    self,
                )@.last_render == Some(text@)),
            },
    {
        if self.final_media {
            self.flushing = false;
            return FlushStep::Stop;
        }
        let text = self.render();
        let shown = match &self.last_render {
            Some(shown) => crate::text::same_text(shown.as_str(), text.as_str()),
            None => false,
        };
        match self.status {
            Some(status) => if shown {
                FlushStep::Settled { text }
            } else {
                FlushStep::Edit { status, text }
            },
            None => FlushStep::Settled { text },
        }
    }

    /// A flush has tried to show `text`.
    pub fn flush_edited(&mut self, text: &String, edited: bool) -> (end: FlushEnd)
        ensures
            ({
                let tried = after_edit(old(self)@, text@, edited);
                if !edited && old(self)@.edit_failures < 2 {
                    end == FlushEnd::RetryLater && final(self)@ == (ProgressView {
                        flushing: false,
                        ..tried
                    })
                } else {
                    final(self)@ == settled(tried, text@) && end == (if rendered(tried) == text@ {
                        FlushEnd::Stop
                    } else {
                        FlushEnd::Again
                    })
                }
            }),
    {
        let retry = if edited {
            self.last_render = Some(text.clone());
            self.edit_failures = 0;
            false
        } else {
            self.count_failure()
        };
        if retry {
            self.flushing = false;
            return FlushEnd::RetryLater;
        }
        self.flush_settled(text)
    }

    /// A flush has nothing left to show but what has changed since it looked.
    pub fn flush_settled(&mut self, text: &String) -> (end: FlushEnd)
        ensures
            final(self)@ == settled(old(self)@, text@),
            end == (if rendered(old(self)@) == text@ {
                FlushEnd::Stop
            } else {
                FlushEnd::Again
            }),
    {
        if crate::text::same_text(self.render().as_str(), text.as_str()) {
            self.flushing = false;
            FlushEnd::Stop
        } else {
            self.flushing = true;
            FlushEnd::Again
        }
    }

    /// The line that stands for the job now.
    pub fn render(&self) -> (result: String)
        ensures
            result@ == rendered(self@),
    {
        match &self.failure {
            Some(reason) => render(self.id, &self.phase, Some(reason.as_str())),
            None => render(self.id, &self.phase, None),
        }
    }

    /// The job in a report on several.
    pub fn summary(&self, now: Duration) -> (result: String)
        ensures
            result@ == summary_text(self@, now),
    {
        let elapsed = now.saturating_sub(self.phase_since);
        "#".to_owned().concat(write_u64(self.id).as_str()).concat(" ").concat(
            self.phase.label(),
        ).concat(" for ").concat(format_duration(elapsed).as_str())
    }
}

impl JobProgress {
    /// The progress as it stands. What becomes of the job later does not show in
    /// it.
    pub fn snapshot(&self) -> (result: JobProgress)
        ensures
            result@ == self@,
    {
        JobProgress {
            id: self.id,
            status: self.status,
            phase: self.phase,
            last_render: copied(&self.last_render),
            flushing: self.flushing,
            attachment_done: self.attachment_done,
            final_media: self.final_media,
            delete_when_attached: self.delete_when_attached,
            failure: copied(&self.failure),
            phase_since: self.phase_since,
            edit_failures: self.edit_failures,
        }
    }
}

/// How many whole seconds have passed since `since`.
pub open spec fn seconds_since(since: Duration, now: Duration) -> nat {
    if since.total_nanos() <= now.total_nanos() {
        ((now.total_nanos() - since.total_nanos()) as nat) / 1_000_000_000
    } else {
        0
    }
}

/// The job in a report on several.
pub open spec fn summary_text(p: ProgressView, now: Duration) -> Seq<char> {
    "#"@ + decimal(p.id as nat) + " "@ + p.phase.called() + " for "@ + duration_text(
        seconds_since(p.phase_since, now),
    )
}

/// What is known of the status message.
pub open spec fn waiting(p: ProgressView) -> StatusWait {
    match p.status {
        Some(status) => StatusWait::Ready(status),
        None => if p.attachment_done {
            StatusWait::Missing
        } else {
            StatusWait::Pending
        },
    }
}

pub open spec fn at_most_hundred(percent: u8) -> u8 {
    if percent <= 100 {
        percent
    } else {
        100
    }
}

pub open spec fn transcoding_at(percent: Option<u8>) -> JobPhase {
    JobPhase::Transcoding {
        percent: match percent {
            Some(percent) => Some(at_most_hundred(percent)),
            None => None,
        },
    }
}

pub open spec fn uploading_at(current: usize, total: usize, sent: u64, size: u64) -> JobPhase {
    JobPhase::Uploading {
        current,
        total,
        bytes: Some(
            (
                if sent <= size {
                    sent
                } else {
                    size
                },
                size,
            ),
        ),
    }
}

// ---------------------------------------------------------------------------
// Laws
// ---------------------------------------------------------------------------

/// A job that has ended stays as it ended, whatever is reported of it later.
pub proof fn law_final_phases_stay(p: ProgressView, phase: JobPhase, now: Duration)
    requires
        p.phase.is_final(),
    ensures
        moved(p, phase, now) == p,
        !move_flushes(p, phase),
{
}

/// Whether the progress of a job follows what was known of it before.
pub open spec fn follows(p: ProgressView, next: ProgressView) -> bool {
    next.id == p.id && (next.phase == p.phase || p.phase.leads_to(next.phase))
}

/// Whatever is done to the progress of a job, it follows what was known before.
pub proof fn law_progress_follows_the_phases(
    p: ProgressView,
    phase: JobPhase,
    text: Seq<char>,
    edited: bool,
    now: Duration,
)
    ensures
        follows(p, moved(p, phase, now)),
        follows(p, scheduled(p)),
        follows(p, scheduled(text_again(p))),
        follows(p, kept(p, now)),
        follows(p, after_edit(p, text, edited)),
        follows(p, settled(p, text)),
{
}

/// A job that is being cancelled never shows active progress again: it stays so
/// until it ends.
pub proof fn law_cancelling_never_regresses(p: ProgressView, phase: JobPhase, now: Duration)
    requires
        p.phase is Cancelling,
    ensures
        moved(p, phase, now).phase is Cancelling || moved(p, phase, now).phase.is_final(),
{
}

/// Reporting the same phase twice is reporting it once.
pub proof fn law_repeated_reports_change_nothing(
    p: ProgressView,
    phase: JobPhase,
    now: Duration,
    later: Duration,
)
    ensures
        moved(moved(p, phase, now), phase, later) == moved(p, phase, now),
        !move_flushes(moved(p, phase, now), phase),
{
}

/// There is at most one flush at a time: while one runs none is started, and
/// one that is started is known to run.
pub proof fn law_one_flush_at_a_time(p: ProgressView)
    ensures
        p.flushing ==> !needs_flush(p),
        needs_flush(p) ==> scheduled(p).flushing,
        !needs_flush(scheduled(p)),
{
}

/// A status message that has given way to media is not edited: no flush starts
/// until text is resumed.
pub proof fn law_media_is_not_overwritten(p: ProgressView, phase: JobPhase, now: Duration)
    requires
        p.final_media,
    ensures
        !move_flushes(p, phase),
        moved(p, phase, now).final_media,
{
}

/// A flush ends only when the message says what the job does, or cannot be
/// edited.
pub proof fn law_flush_leaves_nothing_unsaid(p: ProgressView, text: Seq<char>)
    ensures
        !settled(after_edit(p, text, true), text).flushing ==> after_edit(p, text, true).last_render
            == Some(rendered(p)),
{
}

/// A failure text never grows past five hundred characters, and a short one is
/// kept as it is.
pub proof fn law_failure_texts_are_bounded(reason: Seq<char>)
    ensures
        shortened(reason).len() <= 500,
        reason.len() <= 500 ==> shortened(reason) == reason,
        shortened(shortened(reason)) == shortened(reason),
{
    reveal_strlit("...");
}

} // verus!
