//! What becomes of a message: who is heard, whose downloads are admitted, and
//! what is answered to those that are not.

use vstd::prelude::*;

use crate::config::Config;
use crate::jobs::queue::QueueReply;
use crate::media::request::DownloadLimits;
use crate::number::{decimal, write_u64};
use crate::policy::{
    EffectiveUserLimits, UserPolicies, effective_limits, mebibytes, mebibytes_in_bytes,
    superuser_limits_of,
};
use crate::store::{ReserveUsageOutcome, UsageReservation, UserRecord, UserView};
use crate::time::Duration;
use crate::users::user_read;

verus! {

/// Where the session with Telegram is kept.
pub const SESSION_FILE: &'static str = "userbot.session";

/// How many answers may be on their way at once.
pub const MAX_HANDLER_TASKS: usize = 64;

/// How long an answer may take, in seconds.
pub const HANDLER_TIMEOUT: u64 = 15;

pub const REMOVED_ACCOUNT_TEXT: &'static str = "Your account is no longer authorized to download.";

pub const DATABASE_FAILURE_TEXT: &'static str =
    "The user database is unavailable. Please try again.";

pub const UNKNOWN_PACKAGE_TEXT: &'static str =
    "Your assigned package is not configured. Please contact an administrator.";

pub const CANCEL_USAGE_TEXT: &'static str =
    "Usage: /cancel <job-id>, or reply to a download status with /cancel.";

pub const RETRY_USAGE_TEXT: &'static str = "Reply to a download status with /retry.";

pub const UNKNOWN_STATUS_TEXT: &'static str =
    "The replied message is not a known download status. Reply to a download status with /retry.";

// ---------------------------------------------------------------------------
// Who is heard
// ---------------------------------------------------------------------------

/// Whose message it is, if it came in and belongs to a conversation with a
/// user.
pub fn sender_of(outgoing: bool, with_user: bool, peer_id: Option<i64>) -> (result: Option<i64>)
    ensures
        result == (if outgoing || !with_user {
            None
        } else {
            peer_id
        }),
{
    if outgoing || !with_user {
        None
    } else {
        peer_id
    }
}

/// Whether a user is heard: a superuser always, others while they are enabled.
pub fn is_heard(is_superuser: bool, enabled: &Result<bool, String>) -> (result: bool)
    ensures
        result == (is_superuser || (enabled matches Ok(enabled) && *enabled)),
{
    if is_superuser {
        return true;
    }
    match enabled {
        Ok(enabled) => *enabled,
        Err(_) => false,
    }
}

/// Whether one more answer may be on its way.
pub fn has_handler_slot(tasks: usize) -> (result: bool)
    ensures
        result == (tasks < MAX_HANDLER_TASKS),
{
    tasks < MAX_HANDLER_TASKS
}

/// The limits of a download that the configuration sets.
pub fn download_limits(config: &Config) -> (result: DownloadLimits)
    ensures
        result.max_upload_bytes == mebibytes(config.max_upload_size_mb as u64),
        result.command_timeout == Duration::of(config.command_timeout_secs as u64, 0),
        result.upload_timeout == Duration::of(config.upload_timeout_secs as u64, 0),
        result.job_timeout == Duration::of(config.job_timeout_secs as u64, 0),
{
    DownloadLimits {
        max_upload_bytes: mebibytes_in_bytes(config.max_upload_size_mb as u64),
        command_timeout: Duration::from_secs(config.command_timeout_secs as u64),
        upload_timeout: Duration::from_secs(config.upload_timeout_secs as u64),
        job_timeout: Duration::from_secs(config.job_timeout_secs as u64),
    }
}

// ---------------------------------------------------------------------------
// Admission
// ---------------------------------------------------------------------------

/// What to do about a download that is asked for.
#[derive(Debug)]
pub enum AdmissionStep {
    /// Look the user up.
    ReadUser,
    /// Count the job in advance, within these limits.
    Reserve(EffectiveUserLimits),
    Reply(&'static str),
}

pub ghost enum AdmissionView {
    ReadUser,
    Reserve(EffectiveUserLimits),
    Reply(Seq<char>),
}

impl View for AdmissionStep {
    type V = AdmissionView;

    open spec fn view(&self) -> AdmissionView {
        match self {
            AdmissionStep::ReadUser => AdmissionView::ReadUser,
            AdmissionStep::Reserve(limits) => AdmissionView::Reserve(*limits),
            AdmissionStep::Reply(text) => AdmissionView::Reply(text@),
        }
    }
}

/// The first step: superusers are held to the global caps alone.
pub open spec fn first_step(is_superuser: bool, policies: UserPolicies) -> AdmissionView {
    if is_superuser {
        AdmissionView::Reserve(superuser_limits_of(policies.caps()))
    } else {
        AdmissionView::ReadUser
    }
}

pub fn admit_download(is_superuser: bool, policies: &UserPolicies) -> (result: AdmissionStep)
    ensures
        result@ == first_step(is_superuser, *policies),
{
    if is_superuser {
        AdmissionStep::Reserve(policies.superuser_limits())
    } else {
        AdmissionStep::ReadUser
    }
}

/// The step after a user has been looked up.
pub open spec fn user_step(
    found: Result<Option<UserView>, Seq<char>>,
    policies: UserPolicies,
) -> AdmissionView {
    match found {
        Err(_) => AdmissionView::Reply(DATABASE_FAILURE_TEXT@),
        Ok(None) => AdmissionView::Reply(REMOVED_ACCOUNT_TEXT@),
        Ok(Some(user)) => if !user.enabled {
            AdmissionView::Reply(REMOVED_ACCOUNT_TEXT@)
        } else if !policies.table().contains_key(user.package) {
            AdmissionView::Reply(UNKNOWN_PACKAGE_TEXT@)
        } else {
            AdmissionView::Reserve(
                effective_limits(policies.table()[user.package], user.limits, policies.caps()),
            )
        },
    }
}

pub fn admission_user_found(found: &Result<Option<UserRecord>, String>, policies: &UserPolicies) -> (result:
    AdmissionStep)
    ensures
        result@ == user_step(user_read(*found), *policies),
{
    match found {
        Err(_) => AdmissionStep::Reply(DATABASE_FAILURE_TEXT),
        Ok(None) => AdmissionStep::Reply(REMOVED_ACCOUNT_TEXT),
        Ok(Some(user)) => {
            if !user.enabled {
                return AdmissionStep::Reply(REMOVED_ACCOUNT_TEXT);
            }
            match policies.resolve(&user.package, user.limits) {
                Ok(limits) => AdmissionStep::Reserve(limits),
                Err(_) => AdmissionStep::Reply(UNKNOWN_PACKAGE_TEXT),
            }
        },
    }
}

/// What is answered when the daily limit is used up.
pub open spec fn daily_limit_text(limit: u64) -> Seq<char> {
    "You have reached your daily download limit of "@ + decimal(limit as nat)
        + ". Try again tomorrow (UTC)."@
}

/// The step after a job has been counted in advance, or could not be: enqueue
/// it, or answer. Only a limit that there is can be reached.
pub fn admission_reserved(
    outcome: &Result<ReserveUsageOutcome, String>,
    limits: EffectiveUserLimits,
) -> (result: Result<UsageReservation, String>)
    requires
        *outcome matches Ok(ReserveUsageOutcome::LimitReached) ==> limits.daily_job_limit is Some,
    ensures
        match (*outcome, result) {
            (Ok(ReserveUsageOutcome::Reserved(reservation)), Ok(held)) => held == reservation,
            (Ok(ReserveUsageOutcome::LimitReached), Err(reply)) => reply@ == daily_limit_text(
                limits.daily_job_limit->0,
            ),
            (Err(_), Err(reply)) => reply@ == DATABASE_FAILURE_TEXT@,
            _ => false,
        },
{
    match outcome {
        Ok(ReserveUsageOutcome::Reserved(reservation)) => Ok(*reservation),
        Ok(ReserveUsageOutcome::LimitReached) => {
            let limit: u64 = limits.daily_job_limit.unwrap();
            Err(
                "You have reached your daily download limit of ".to_owned().concat(
                    write_u64(limit).as_str(),
                ).concat(". Try again tomorrow (UTC)."),
            )
        },
        Err(_) => Err(DATABASE_FAILURE_TEXT.to_owned()),
    }
}

/// Whether a job that was counted in advance is to be released: unless it has
/// been accepted.
pub fn needs_release(reply: &QueueReply) -> (result: bool)
    ensures
        result == !(reply@ is Accepted),
{
    !reply.is_accepted()
}

// ---------------------------------------------------------------------------
// Answers to a status message
// ---------------------------------------------------------------------------

/// What `/cancel` is about.
#[derive(Clone, Copy, Debug)]
pub enum CancelStep {
    Job(u64),
    /// The job of the status message that was answered.
    Replied(i32),
    Reply(&'static str),
}

pub fn cancel_step(job: Option<u64>, replied: Option<i32>) -> (result: CancelStep)
    ensures
        match (job, replied) {
            (Some(job), _) => result == CancelStep::Job(job),
            (None, Some(message)) => result == CancelStep::Replied(message),
            (None, None) => result matches CancelStep::Reply(text) && text@ == CANCEL_USAGE_TEXT@,
        },
{
    match job {
        Some(job) => CancelStep::Job(job),
        None => match replied {
            Some(message) => CancelStep::Replied(message),
            None => CancelStep::Reply(CANCEL_USAGE_TEXT),
        },
    }
}

/// What `/retry` is about.
#[derive(Clone, Copy, Debug)]
pub enum RetryStep {
    /// Nothing can be answered now.
    Skip,
    /// The job of the status message that was answered.
    Replied(i32),
    Reply(&'static str),
}

pub fn retry_step(tasks: usize, replied: Option<i32>) -> (result: RetryStep)
    ensures
        tasks >= MAX_HANDLER_TASKS ==> result == RetryStep::Skip,
        tasks < MAX_HANDLER_TASKS ==> match replied {
            Some(message) => result == RetryStep::Replied(message),
            None => result matches RetryStep::Reply(text) && text@ == RETRY_USAGE_TEXT@,
        },
{
    if !has_handler_slot(tasks) {
        return RetryStep::Skip;
    }
    match replied {
        Some(message) => RetryStep::Replied(message),
        None => RetryStep::Reply(RETRY_USAGE_TEXT),
    }
}

// ---------------------------------------------------------------------------
// Laws
// ---------------------------------------------------------------------------

/// Only enabled users of a configured package download, and only within the
/// global caps.
pub proof fn law_only_enabled_users_download(
    found: Result<Option<UserView>, Seq<char>>,
    policies: UserPolicies,
    limits: EffectiveUserLimits,
)
    requires
        user_step(found, policies) == AdmissionView::Reserve(limits),
    ensures
        found matches Ok(Some(user)) && user.enabled && policies.table().contains_key(user.package),
        limits.max_active_jobs <= policies.caps().active_jobs,
        limits.max_queued_jobs <= policies.caps().queued_jobs,
        limits.max_upload_bytes <= mebibytes(policies.caps().upload_size_mb),
{
}

/// Superusers have no daily limit.
pub proof fn law_superusers_have_no_daily_limit(policies: UserPolicies)
    ensures
        first_step(true, policies) matches AdmissionView::Reserve(limits)
            && limits.daily_job_limit is None,
{
}

} // verus!
