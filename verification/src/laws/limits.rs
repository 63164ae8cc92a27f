//! Which limits hold for a user, and who may download within them.

use vstd::prelude::*;

use crate::admission::{AdmissionView, daily_limit_text, first_step, user_step};
use crate::number::{decimal, law_decimal_reads_back, u64_in};
use crate::policy::{
    EffectiveUserLimits, HardCaps, PackageLimitDefaults, UserLimitName, UserLimitOverrides,
    UserLimitValue, UserPolicies, effective_limits, hard_limit, limit_name_in, limit_value_in,
    mebibytes, package_in, superuser_limits_of, zero_limit,
};
use crate::store::{
    StoredUser, Tables, UserView, WriteView, applied, limit_reached, stored_limit, user_at,
    with_limit,
};
use crate::text::{ascii_lower, ascii_lowered, equal_ignoring_ascii_case};

verus! {

/// The bytes in so many mebibytes, as far as 64 bits can tell.
pub open spec fn is_mebibytes(bytes: u64, amount: u64) -> bool {
    if amount * 1_048_576 <= u64::MAX {
        bytes == amount * 1_048_576
    } else {
        bytes == u64::MAX
    }
}

// ---------------------------------------------------------------------------
// The limits that hold
// ---------------------------------------------------------------------------

/// An override takes effect exactly, whatever the package says, up to the global
/// cap; beyond it the cap holds. A daily limit has no cap.
pub proof fn law_overrides_take_effect(
    defaults: PackageLimitDefaults,
    overrides: UserLimitOverrides,
    caps: HardCaps,
)
    ensures
        ({
            let limits = effective_limits(defaults, overrides, caps);
            &&& overrides.max_active_jobs matches Some(own) ==> (own <= caps.active_jobs
                ==> limits.max_active_jobs == own) && (own > caps.active_jobs
                ==> limits.max_active_jobs == caps.active_jobs)
            &&& overrides.max_queued_jobs matches Some(own) ==> (own <= caps.queued_jobs
                ==> limits.max_queued_jobs == own) && (own > caps.queued_jobs
                ==> limits.max_queued_jobs == caps.queued_jobs)
            &&& overrides.max_upload_size_mb matches Some(own) ==> (own <= caps.upload_size_mb
                ==> is_mebibytes(limits.max_upload_bytes, own)) && (own > caps.upload_size_mb
                ==> is_mebibytes(limits.max_upload_bytes, caps.upload_size_mb))
            &&& overrides.daily_job_limit matches Some(own) ==> limits.daily_job_limit == Some(own)
        }),
{
}

/// Where a user has no override, the limit of their package takes effect, up to
/// the global cap.
pub proof fn law_packages_take_effect(
    defaults: PackageLimitDefaults,
    overrides: UserLimitOverrides,
    caps: HardCaps,
)
    ensures
        ({
            let limits = effective_limits(defaults, overrides, caps);
            &&& overrides.max_active_jobs is None && defaults.max_active_jobs is Some ==> {
                let own = defaults.max_active_jobs->0;
                limits.max_active_jobs == (if own <= caps.active_jobs {
                    own
                } else {
                    caps.active_jobs
                })
            }
            &&& overrides.max_queued_jobs is None && defaults.max_queued_jobs is Some ==> {
                let own = defaults.max_queued_jobs->0;
                limits.max_queued_jobs == (if own <= caps.queued_jobs {
                    own
                } else {
                    caps.queued_jobs
                })
            }
            &&& overrides.max_upload_size_mb is None && defaults.max_upload_size_mb is Some ==> {
                let own = defaults.max_upload_size_mb->0;
                is_mebibytes(
                    limits.max_upload_bytes,
                    if own <= caps.upload_size_mb {
                        own
                    } else {
                        caps.upload_size_mb
                    },
                )
            }
            &&& overrides.daily_job_limit is None ==> limits.daily_job_limit
                == defaults.daily_job_limit
        }),
{
}

/// A limit that neither the user nor their package sets is the global cap; a
/// daily limit that neither sets is none.
pub proof fn law_caps_hold_where_nothing_is_set(
    defaults: PackageLimitDefaults,
    overrides: UserLimitOverrides,
    caps: HardCaps,
)
    ensures
        ({
            let limits = effective_limits(defaults, overrides, caps);
            &&& overrides.max_active_jobs is None && defaults.max_active_jobs is None
                ==> limits.max_active_jobs == caps.active_jobs
            &&& overrides.max_queued_jobs is None && defaults.max_queued_jobs is None
                ==> limits.max_queued_jobs == caps.queued_jobs
            &&& overrides.max_upload_size_mb is None && defaults.max_upload_size_mb is None
                ==> is_mebibytes(limits.max_upload_bytes, caps.upload_size_mb)
            &&& overrides.daily_job_limit is None && defaults.daily_job_limit is None
                ==> limits.daily_job_limit is None
        }),
{
}

/// A superuser is held to the global caps alone, and to no daily limit.
pub proof fn law_superusers_are_held_to_the_caps(caps: HardCaps)
    ensures
        superuser_limits_of(caps).max_active_jobs == caps.active_jobs,
        superuser_limits_of(caps).max_queued_jobs == caps.queued_jobs,
        is_mebibytes(superuser_limits_of(caps).max_upload_bytes, caps.upload_size_mb),
        superuser_limits_of(caps).daily_job_limit is None,
{
}

/// What a limit says of a user, in its own unit.
pub open spec fn says(limits: EffectiveUserLimits, name: UserLimitName, number: u64) -> bool {
    match name {
        UserLimitName::MaxActiveJobs => limits.max_active_jobs == number,
        UserLimitName::MaxQueuedJobs => limits.max_queued_jobs == number,
        UserLimitName::DailyJobLimit => limits.daily_job_limit == Some(number),
        UserLimitName::MaxUploadSizeMb => is_mebibytes(limits.max_upload_bytes, number),
    }
}

/// A limit that is set for a user, and keeps to its cap, is the limit that then
/// holds for them in every package; nothing else of them changes.
pub proof fn law_set_limits_hold(
    user: StoredUser,
    name: UserLimitName,
    number: u64,
    defaults: PackageLimitDefaults,
    caps: HardCaps,
)
    requires
        0 < number <= i64::MAX,
        hard_limit(name, caps) matches Some(maximum) ==> number <= maximum,
    ensures
        stored_limit(UserLimitValue::Value(number)) == Some(Some(number as i64)),
        ({
            let after = with_limit(user, name, Some(number as i64));
            &&& says(effective_limits(defaults, after.limits, caps), name, number)
            &&& after.enabled == user.enabled
            &&& after.package == user.package
            &&& name != UserLimitName::MaxActiveJobs ==> after.limits.max_active_jobs
                == user.limits.max_active_jobs
            &&& name != UserLimitName::MaxQueuedJobs ==> after.limits.max_queued_jobs
                == user.limits.max_queued_jobs
            &&& name != UserLimitName::DailyJobLimit ==> after.limits.daily_job_limit
                == user.limits.daily_job_limit
            &&& name != UserLimitName::MaxUploadSizeMb ==> after.limits.max_upload_size_mb
                == user.limits.max_upload_size_mb
        }),
{
    law_overrides_take_effect(defaults, with_limit(user, name, Some(number as i64)).limits, caps);
}

/// A limit that is taken back leaves the user to their package: the limits that
/// hold are those of a user who never had it.
pub proof fn law_limits_that_are_taken_back_are_gone(
    user: StoredUser,
    name: UserLimitName,
    number: i64,
)
    ensures
        stored_limit(UserLimitValue::Default) == Some(None::<i64>),
        with_limit(with_limit(user, name, Some(number)), name, None) == with_limit(
            user,
            name,
            None,
        ),
        ({
            let after = with_limit(user, name, None).limits;
            match name {
                UserLimitName::MaxActiveJobs => after == (UserLimitOverrides {
                    max_active_jobs: None,
                    ..user.limits
                }),
                UserLimitName::MaxQueuedJobs => after == (UserLimitOverrides {
                    max_queued_jobs: None,
                    ..user.limits
                }),
                UserLimitName::DailyJobLimit => after == (UserLimitOverrides {
                    daily_job_limit: None,
                    ..user.limits
                }),
                UserLimitName::MaxUploadSizeMb => after == (UserLimitOverrides {
                    max_upload_size_mb: None,
                    ..user.limits
                }),
            }
        }),
{
}

/// Each override has the cap of what it limits; a daily one has none.
pub proof fn law_overrides_have_the_caps_of_what_they_limit(caps: HardCaps)
    ensures
        hard_limit(UserLimitName::MaxActiveJobs, caps) matches Some(maximum) && maximum
            == caps.active_jobs,
        hard_limit(UserLimitName::MaxQueuedJobs, caps) matches Some(maximum) && maximum
            == caps.queued_jobs,
        hard_limit(UserLimitName::MaxUploadSizeMb, caps) == Some(caps.upload_size_mb),
        hard_limit(UserLimitName::DailyJobLimit, caps) is None,
{
}

/// Mebibytes are counted in bytes, as far as 64 bits can tell.
pub proof fn law_mebibytes_are_bytes(amount: u64)
    ensures
        is_mebibytes(mebibytes(amount), amount),
{
}

/// The limits of a package are proper if and only if none of them is zero, and
/// what is found is a limit that is.
pub proof fn law_zero_limits_are_found(limits: PackageLimitDefaults)
    ensures
        zero_limit(limits) is None <==> limits.max_active_jobs != Some(0usize)
            && limits.max_queued_jobs != Some(0usize) && limits.daily_job_limit != Some(0u64)
            && limits.max_upload_size_mb != Some(0u64),
        zero_limit(limits) == Some(UserLimitName::MaxActiveJobs) ==> limits.max_active_jobs == Some(
            0usize,
        ),
        zero_limit(limits) == Some(UserLimitName::MaxQueuedJobs) ==> limits.max_queued_jobs == Some(
            0usize,
        ),
        zero_limit(limits) == Some(UserLimitName::DailyJobLimit) ==> limits.daily_job_limit == Some(
            0u64,
        ),
        zero_limit(limits) == Some(UserLimitName::MaxUploadSizeMb) ==> limits.max_upload_size_mb
            == Some(0u64),
{
}

// ---------------------------------------------------------------------------
// Reading limits
// ---------------------------------------------------------------------------

/// Every number above zero that 64 bits hold is a limit; zero is none.
pub proof fn law_numbers_are_limits(number: u64)
    ensures
        number > 0 ==> limit_value_in(decimal(number as nat)) == Some(
            UserLimitValue::Value(number),
        ),
        limit_value_in(decimal(0)) is None,
{
    lemma_number_is_read(number);
    lemma_number_is_read(0);
    lemma_number_is_no_word(number as nat);
    lemma_number_is_no_word(0);
}

proof fn lemma_number_is_read(number: u64)
    ensures
        u64_in(decimal(number as nat)) == Some(number),
{
    let text = decimal(number as nat);
    law_decimal_reads_back(number as nat);
    assert(crate::text::is_digit(text[0]));
}

proof fn lemma_number_is_no_word(number: nat)
    ensures
        !equal_ignoring_ascii_case(decimal(number), "default"@),
{
    reveal_strlit("default");
    law_decimal_reads_back(number);
    let text = decimal(number);
    assert(crate::text::is_digit(text[0]));
    assert(ascii_lowered(text)[0] == ascii_lower(text[0]));
    assert(ascii_lowered("default"@)[0] == 'd');
}

/// `default`, in any letter case, takes a limit back.
pub proof fn law_default_takes_a_limit_back(text: Seq<char>)
    requires
        equal_ignoring_ascii_case(text, "default"@),
    ensures
        limit_value_in(text) == Some(UserLimitValue::Default),
{
}

/// Nothing else is a limit.
pub proof fn law_other_texts_are_no_limits(text: Seq<char>)
    requires
        !equal_ignoring_ascii_case(text, "default"@),
    ensures
        limit_value_in(text) matches Some(value) ==> value is Value && value->Value_0 > 0
            && u64_in(text) == Some(value->Value_0),
        u64_in(text) is None ==> limit_value_in(text) is None,
{
}

/// A limit goes by its short names and by its full one, in any letter case.
pub proof fn law_limits_have_names(text: Seq<char>)
    ensures
        equal_ignoring_ascii_case(text, "active"@) || equal_ignoring_ascii_case(
            text,
            "max_active_jobs"@,
        ) ==> limit_name_in(text) == Some(UserLimitName::MaxActiveJobs),
        equal_ignoring_ascii_case(text, "queued"@) || equal_ignoring_ascii_case(text, "queue"@)
            || equal_ignoring_ascii_case(text, "max_queued_jobs"@) ==> limit_name_in(text) == Some(
            UserLimitName::MaxQueuedJobs,
        ),
        equal_ignoring_ascii_case(text, "daily"@) || equal_ignoring_ascii_case(
            text,
            "daily_job_limit"@,
        ) ==> limit_name_in(text) == Some(UserLimitName::DailyJobLimit),
        equal_ignoring_ascii_case(text, "upload"@) || equal_ignoring_ascii_case(text, "upload_mb"@)
            || equal_ignoring_ascii_case(text, "max_upload_size_mb"@) ==> limit_name_in(text)
            == Some(UserLimitName::MaxUploadSizeMb),
        limit_name_in(text) is Some ==> {
            ||| equal_ignoring_ascii_case(text, "active"@)
            ||| equal_ignoring_ascii_case(text, "max_active_jobs"@)
            ||| equal_ignoring_ascii_case(text, "queued"@)
            ||| equal_ignoring_ascii_case(text, "queue"@)
            ||| equal_ignoring_ascii_case(text, "max_queued_jobs"@)
            ||| equal_ignoring_ascii_case(text, "daily"@)
            ||| equal_ignoring_ascii_case(text, "daily_job_limit"@)
            ||| equal_ignoring_ascii_case(text, "upload"@)
            ||| equal_ignoring_ascii_case(text, "upload_mb"@)
            ||| equal_ignoring_ascii_case(text, "max_upload_size_mb"@)
        },
{
    reveal_strlit("active");
    reveal_strlit("max_active_jobs");
    reveal_strlit("queued");
    reveal_strlit("queue");
    reveal_strlit("max_queued_jobs");
    reveal_strlit("daily");
    reveal_strlit("daily_job_limit");
    reveal_strlit("upload");
    reveal_strlit("upload_mb");
    reveal_strlit("max_upload_size_mb");
    assert(ascii_lowered("active"@) =~= "active"@);
    assert(ascii_lowered("max_active_jobs"@) =~= "max_active_jobs"@);
    assert(ascii_lowered("queued"@) =~= "queued"@);
    assert(ascii_lowered("queue"@) =~= "queue"@);
    assert(ascii_lowered("max_queued_jobs"@) =~= "max_queued_jobs"@);
    assert(ascii_lowered("daily"@) =~= "daily"@);
    assert(ascii_lowered("daily_job_limit"@) =~= "daily_job_limit"@);
    assert(ascii_lowered("upload"@) =~= "upload"@);
    assert(ascii_lowered("upload_mb"@) =~= "upload_mb"@);
    assert(ascii_lowered("max_upload_size_mb"@) =~= "max_upload_size_mb"@);
    assert("active"@[0] != "queued"@[0]);
    assert("upload"@[0] != "queued"@[0] && "upload"@[0] != "active"@[0]);
    assert("daily"@[0] != "queue"@[0]);
    assert("max_active_jobs"@[4] != "max_queued_jobs"@[4]);
    assert("max_active_jobs"@[0] != "daily_job_limit"@[0]);
}

/// Whether `text` is one to 32 ASCII letters, digits, `_` or `-`, and starts with
/// a letter or digit.
pub open spec fn is_package_text(text: Seq<char>) -> bool {
    &&& 1 <= text.len() <= 32
    &&& 'a' <= text[0] <= 'z' || 'A' <= text[0] <= 'Z' || '0' <= text[0] <= '9'
    &&& forall|i: int|
        0 <= i < text.len() ==> 'a' <= #[trigger] text[i] <= 'z' || 'A' <= text[i] <= 'Z' || '0'
            <= text[i] <= '9' || text[i] == '_' || text[i] == '-'
}

/// A package goes by a name if and only if it is one to 32 ASCII letters, digits,
/// `_` or `-`, and starts with a letter or digit. The name is then kept in lower
/// case, and every character stays in its place.
pub proof fn law_packages_have_names(text: Seq<char>)
    ensures
        package_in(text) is Some <==> is_package_text(text),
        package_in(text) matches Some(name) ==> name.len() == text.len() && forall|i: int|
            0 <= i < text.len() ==> !('A' <= #[trigger] name[i] <= 'Z') && (if 'A' <= text[i]
                <= 'Z' {
                name[i] as int == text[i] as int + 32
            } else {
                name[i] == text[i]
            }),
{
    if is_package_text(text) {
        assert forall|i: int| 0 <= i < text.len() implies crate::policy::is_name_char(
            #[trigger] text[i],
        ) by {}
        assert(crate::policy::names_package(text));
    }
    if package_in(text) is Some {
        assert forall|i: int| 0 <= i < text.len() implies 'a' <= #[trigger] text[i] <= 'z' || 'A'
            <= text[i] <= 'Z' || '0' <= text[i] <= '9' || text[i] == '_' || text[i] == '-' by {
            assert(crate::policy::is_name_char(text[i]));
        }
    }
}

// ---------------------------------------------------------------------------
// Admission
// ---------------------------------------------------------------------------

/// An enabled user of a configured package downloads, within the limits that
/// hold for them, and nobody else does. Who is not there or not enabled is told
/// so.
pub proof fn law_enabled_users_download(
    found: Result<Option<UserView>, Seq<char>>,
    policies: UserPolicies,
)
    ensures
        user_step(found, policies) is Reserve <==> found is Ok && found->Ok_0 is Some
            && found->Ok_0->0.enabled && policies.table().contains_key(found->Ok_0->0.package),
        user_step(found, policies) matches AdmissionView::Reserve(limits) ==> limits
            == effective_limits(
            policies.table()[found->Ok_0->0.package],
            found->Ok_0->0.limits,
            policies.caps(),
        ),
        found matches Ok(None) ==> user_step(found, policies) == AdmissionView::Reply(
            "Your account is no longer authorized to download."@,
        ),
        found matches Ok(Some(user)) && !user.enabled ==> user_step(found, policies)
            == AdmissionView::Reply("Your account is no longer authorized to download."@),
        found matches Ok(Some(user)) && user.enabled && !policies.table().contains_key(user.package)
            ==> user_step(found, policies) == AdmissionView::Reply(
            "Your assigned package is not configured. Please contact an administrator."@,
        ),
        found is Err ==> user_step(found, policies) == AdmissionView::Reply(
            "The user database is unavailable. Please try again."@,
        ),
{
}

/// A superuser downloads without being looked up; everyone else is.
pub proof fn law_superusers_are_not_looked_up(policies: UserPolicies)
    ensures
        first_step(true, policies) == AdmissionView::Reserve(superuser_limits_of(policies.caps())),
        first_step(false, policies) is ReadUser,
{
}

/// A job is counted if and only if fewer jobs than the daily limit were accepted
/// on that day; without a limit it always is.
pub proof fn law_jobs_are_counted_up_to_the_daily_limit(limit: Option<u64>, current: i64)
    requires
        current >= 0,
    ensures
        limit is None ==> !limit_reached(limit, current),
        limit matches Some(most) ==> (limit_reached(limit, current) <==> current >= most),
{
}

/// Who has used up the daily limit is told what it is.
pub proof fn law_the_daily_limit_is_told(limit: u64)
    ensures
        daily_limit_text(limit) == "You have reached your daily download limit of "@ + decimal(
            limit as nat,
        ) + ". Try again tomorrow (UTC)."@,
{
}

/// A user who is enabled, moved to a package or given a limit is admitted as
/// they then stand in the database.
pub proof fn law_changes_are_heeded(
    tables: Tables,
    user_id: i64,
    package: Seq<char>,
    name: UserLimitName,
    number: u64,
    now: i64,
    policies: UserPolicies,
)
    requires
        tables.users.contains_key(user_id),
        tables.users[user_id].enabled,
        policies.table().contains_key(package),
        0 < number <= i64::MAX,
        hard_limit(name, policies.caps()) matches Some(maximum) ==> number <= maximum,
    ensures
        ({
            let moved = applied(tables, WriteView::SetPackage { user_id, package, now });
            let limited = applied(
                moved,
                WriteView::SetLimit { user_id, name, value: Some(number as i64), now },
            );
            let gone = applied(limited, WriteView::SetEnabled { user_id, enabled: false, now });
            &&& user_step(Ok(user_at(limited, user_id)), policies) is Reserve
            &&& says(
                user_step(Ok(user_at(limited, user_id)), policies)->Reserve_0,
                name,
                number,
            )
            &&& user_step(Ok(user_at(gone, user_id)), policies) is Reply
        }),
{
    let moved = applied(tables, WriteView::SetPackage { user_id, package, now });
    law_set_limits_hold(
        moved.users[user_id],
        name,
        number,
        policies.table()[package],
        policies.caps(),
    );
}

} // verus!
