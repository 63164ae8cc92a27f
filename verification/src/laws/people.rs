//! What the commands of superusers do, and what is answered.

use vstd::prelude::*;
use vstd::utf8::encode_utf8;

use crate::commands::StatsTarget;
use crate::double::{DOUBLE_LIMIT, double_quotient, half_even, quotient_scale};
use crate::laws::status::{law_rounding_finds_the_nearest, lemma_small_doubles};
use crate::number::{decimal, padded_decimal, signed_decimal};
use crate::policy::{
    EffectiveUserLimits, HardCaps, MEBIBYTE, PackageLimitDefaults, PackageName, UserLimitName,
    UserLimitValue, UserPolicies, effective_limits, hard_limit, limit_column, no_overrides,
};
use crate::store::{
    AddUserOutcome, DownloadStats, GlobalStats, RemoveUserOutcome, UserRecord, UserView, unresolved,
};
use crate::text::joined;
use crate::users::{
    LimitChange, ProfileView, StatsStepView, UserProfile, add_request, added_text, byte_count,
    daily_text, decided_jobs, found_profile, global_stats_text, is_stored, limit_request,
    limit_set_text, lemma_byte_count_adds, limits_request, package_line, package_lines,
    package_request, package_set_text, pages_so_far, paginated, remove_request, removed_text,
    stats_request, stats_user_step, stored_user, success_text, unknown_package_text,
    user_limits_text, user_line, user_lines,
};

verus! {

// ---------------------------------------------------------------------------
// Who may do what
// ---------------------------------------------------------------------------

/// Superusers add whomever they name, also one another.
pub proof fn law_superusers_add_users(sender_id: i64, user_id: i64, super_users: Seq<i64>)
    requires
        super_users.contains(sender_id),
    ensures
        add_request(sender_id, Some(user_id), super_users) == Ok::<i64, Seq<char>>(user_id),
        add_request(sender_id, None, super_users) == Err::<i64, Seq<char>>("Usage: /add <user-id>"@),
{
}

/// Superusers remove whomever they name, but not one another.
pub proof fn law_superusers_remove_users(sender_id: i64, user_id: i64, super_users: Seq<i64>)
    requires
        super_users.contains(sender_id),
    ensures
        !super_users.contains(user_id) ==> remove_request(sender_id, Some(user_id), super_users)
            == Ok::<i64, Seq<char>>(user_id),
        super_users.contains(user_id) ==> remove_request(sender_id, Some(user_id), super_users)
            == Err::<i64, Seq<char>>(
            "User "@ + signed_decimal(user_id as int)
                + " is a superuser. Remove them from the config and restart before disabling their regular account."@,
        ),
        remove_request(sender_id, None, super_users) == Err::<i64, Seq<char>>(
            "Usage: /remove <user-id>"@,
        ),
{
}

/// Superusers give users any package that there is.
pub proof fn law_superusers_give_packages(
    sender_id: i64,
    user_id: i64,
    package: Seq<char>,
    super_users: Seq<i64>,
    policies: UserPolicies,
)
    requires
        super_users.contains(sender_id),
        !super_users.contains(user_id),
    ensures
        policies.table().contains_key(package) ==> package_request(
            sender_id,
            Some(user_id),
            Some(package),
            super_users,
            policies,
        ) == Ok::<(i64, Seq<char>), Seq<char>>((user_id, package)),
        !policies.table().contains_key(package) ==> package_request(
            sender_id,
            Some(user_id),
            Some(package),
            super_users,
            policies,
        ) == Err::<(i64, Seq<char>), Seq<char>>(
            unknown_package_text(package, policies.entries()),
        ),
        package_request(sender_id, None, Some(package), super_users, policies) == Err::<
            (i64, Seq<char>),
            Seq<char>,
        >("Usage: /package <user-id> <package>"@),
        package_request(sender_id, Some(user_id), None, super_users, policies) == Err::<
            (i64, Seq<char>),
            Seq<char>,
        >("Usage: /package <user-id> <package>"@),
{
}

/// Superusers set a limit of a user to any number up to the cap on it, and take
/// it back; where there is no cap, any number will do.
pub proof fn law_superusers_set_limits(
    sender_id: i64,
    user_id: i64,
    name: UserLimitName,
    number: u64,
    super_users: Seq<i64>,
    caps: HardCaps,
)
    requires
        super_users.contains(sender_id),
        !super_users.contains(user_id),
    ensures
        ({
            let change = |value: UserLimitValue| LimitChange {
                user_id: Some(user_id),
                name: Some(name),
                value: Some(value),
            };
            let set = limit_request(
                sender_id,
                change(UserLimitValue::Value(number)),
                super_users,
                caps,
            );
            let taken_back = limit_request(
                sender_id,
                change(UserLimitValue::Default),
                super_users,
                caps,
            );
            &&& taken_back == Ok::<(i64, UserLimitName, UserLimitValue), Seq<char>>(
                (user_id, name, UserLimitValue::Default),
            )
            &&& set is Ok <==> hard_limit(name, caps) is None || number <= hard_limit(name, caps)->0
            &&& set is Ok ==> set->Ok_0 == (user_id, name, UserLimitValue::Value(number))
            &&& set is Err ==> set->Err_0 == limit_column(name)
                + " cannot exceed the global maximum of "@ + decimal(hard_limit(name, caps)->0 as nat)
        }),
{
}

/// A limit is set only if the command says whose it is, which one, and to what.
pub proof fn law_limits_are_set_by_whole_commands(
    sender_id: i64,
    change: LimitChange,
    super_users: Seq<i64>,
    caps: HardCaps,
)
    requires
        super_users.contains(sender_id),
        change.user_id is None || change.name is None || change.value is None,
    ensures
        limit_request(sender_id, change, super_users, caps) == Err::<
            (i64, UserLimitName, UserLimitValue),
            Seq<char>,
        >("Usage: /limit <user-id> <active|queued|daily|upload_mb> <value|default>"@),
{
}

/// Everyone may read their own limits and statistics; superusers may read
/// everyone's.
pub proof fn law_everyone_reads_their_own(
    sender_id: i64,
    other: i64,
    super_users: Seq<i64>,
    caps: HardCaps,
)
    requires
        !super_users.contains(other),
    ensures
        limits_request(other, None, super_users, caps) == Ok::<i64, Seq<char>>(other),
        limits_request(other, Some(other), super_users, caps) == Ok::<i64, Seq<char>>(other),
        stats_request(other, StatsTarget::Own, super_users) == StatsStepView::ReadUser(other),
        stats_request(other, StatsTarget::User(other), super_users) == StatsStepView::ReadUser(
            other,
        ),
        super_users.contains(sender_id) ==> {
            &&& limits_request(sender_id, Some(other), super_users, caps) == Ok::<i64, Seq<char>>(
                other,
            )
            &&& stats_request(sender_id, StatsTarget::User(other), super_users)
                == StatsStepView::ReadUser(other)
            &&& stats_request(sender_id, StatsTarget::All, super_users) == StatsStepView::ReadAll
            &&& stats_request(sender_id, StatsTarget::Own, super_users)
                == StatsStepView::ReadStats {
                user_id: sender_id,
                identity: "User "@ + signed_decimal(sender_id as int) + " — superuser"@,
            }
        },
{
}

// ---------------------------------------------------------------------------
// What is answered
// ---------------------------------------------------------------------------

/// The answers to `/add` and `/remove` name the user and say what came of it.
pub proof fn law_changes_are_confirmed(user_id: i64, package: Seq<char>, error: Seq<char>)
    ensures
        ({
            let user = "User "@ + signed_decimal(user_id as int);
            &&& added_text(user_id, Ok(AddUserOutcome::Added), package) == user
                + " added with package `"@ + package + "`."@
            &&& added_text(user_id, Ok(AddUserOutcome::Reenabled), package) == user
                + " re-enabled."@
            &&& added_text(user_id, Ok(AddUserOutcome::AlreadyEnabled), package) == user
                + " is already enabled."@
            &&& added_text(user_id, Err(error), package) == "Failed to add user "@ + signed_decimal(
                user_id as int,
            ) + ": "@ + error
            &&& removed_text(user_id, Ok(RemoveUserOutcome::Disabled)) == user + " disabled."@
            &&& removed_text(user_id, Ok(RemoveUserOutcome::AlreadyDisabled)) == user
                + " is already disabled."@
            &&& removed_text(user_id, Ok(RemoveUserOutcome::NotFound)) == user + " does not exist."@
            &&& removed_text(user_id, Err(error)) == "Failed to disable user "@ + signed_decimal(
                user_id as int,
            ) + ": "@ + error
        }),
{
}

/// The answers to `/package` and `/limit` name the user and what was set.
pub proof fn law_settings_are_confirmed(
    user_id: i64,
    package: Seq<char>,
    name: UserLimitName,
    value: u64,
    error: Seq<char>,
)
    ensures
        ({
            let user = "User "@ + signed_decimal(user_id as int);
            &&& package_set_text(user_id, package, Ok(true)) == user + " now uses package `"@
                + package + "`."@
            &&& package_set_text(user_id, package, Ok(false)) == user
                + " does not exist. Add them first."@
            &&& package_set_text(user_id, package, Err(error)) == "Failed to change user "@
                + signed_decimal(user_id as int) + ": "@ + error
            &&& limit_set_text(user_id, name, UserLimitValue::Value(value), Ok(true))
                == limit_column(name) + " for user "@ + signed_decimal(user_id as int) + " set to "@
                + decimal(value as nat) + "."@
            &&& limit_set_text(user_id, name, UserLimitValue::Default, Ok(true)) == limit_column(
                name,
            ) + " for user "@ + signed_decimal(user_id as int) + " now uses the package default."@
            &&& limit_set_text(user_id, name, UserLimitValue::Value(value), Ok(false)) == user
                + " does not exist. Add them first."@
            &&& limit_set_text(user_id, name, UserLimitValue::Value(value), Err(error))
                == "Failed to change user limit: "@ + error
        }),
{
}

/// Packages are listed with their limits, one to a line, and the default one is
/// marked. Uploads are given in whole mebibytes.
pub proof fn law_packages_are_listed(
    package: Seq<char>,
    limits: EffectiveUserLimits,
    mebibytes: u64,
    daily: u64,
)
    requires
        limits.max_upload_bytes == mebibytes * 1_048_576,
        limits.daily_job_limit is None || limits.daily_job_limit == Some(daily),
    ensures
        ({
            let head = "- `"@ + package + "`"@;
            let body = ": active "@ + decimal(limits.max_active_jobs as nat) + ", queued "@ + decimal(
                limits.max_queued_jobs as nat,
            ) + ", daily "@ + (if limits.daily_job_limit is None {
                "unlimited"@
            } else {
                decimal(daily as nat)
            }) + ", upload "@ + decimal(mebibytes as nat) + " MiB"@;
            &&& package_line(package, limits, true) == head + " [default]"@ + body
            &&& package_line(package, limits, false) == head + body
        }),
{
    reveal_strlit("");
    assert(limits.max_upload_bytes / MEBIBYTE == mebibytes);
    let head = "- `"@ + package + "`"@;
    assert(head + ""@ =~= head);
    let body = ": active "@ + decimal(limits.max_active_jobs as nat) + ", queued "@ + decimal(
        limits.max_queued_jobs as nat,
    ) + ", daily "@ + daily_text(limits.daily_job_limit) + ", upload "@ + decimal(mebibytes as nat)
        + " MiB"@;
    assert(package_line(package, limits, true) =~= head + " [default]"@ + body);
    assert(package_line(package, limits, false) =~= head + body);
}

/// The list of packages has a line for each, in order, under a heading.
pub proof fn law_every_package_is_listed(
    entries: Seq<(PackageName, PackageLimitDefaults)>,
    default_name: Seq<char>,
    caps: HardCaps,
    i: int,
)
    requires
        0 <= i < entries.len(),
    ensures
        package_lines(entries, default_name, caps).len() == entries.len() + 1,
        package_lines(entries, default_name, caps)[0] == "Configured packages (default: `"@
            + default_name + "`):"@,
        package_lines(entries, default_name, caps)[i + 1] == package_line(
            entries[i].0@,
            effective_limits(entries[i].1, no_overrides(), caps),
            entries[i].0@ == default_name,
        ),
{
}

/// What `/limits` answers says who it is about and each limit.
pub proof fn law_limits_are_told(user: UserView, policies: UserPolicies)
    requires
        policies.table().contains_key(user.package),
    ensures
        ({
            let limits = effective_limits(
                policies.table()[user.package],
                user.limits,
                policies.caps(),
            );
            user_limits_text(user.telegram_id, Ok(Some(user)), policies) == "User "@
                + signed_decimal(user.telegram_id as int) + " — package `"@ + user.package + "` — "@
                + (if user.enabled {
                "enabled"@
            } else {
                "disabled"@
            }) + "\nEffective limits:\n- active jobs: "@ + decimal(limits.max_active_jobs as nat)
                + "\n- queued jobs: "@ + decimal(limits.max_queued_jobs as nat)
                + "\n- daily jobs: "@ + (match limits.daily_job_limit {
                Some(limit) => decimal(limit as nat),
                None => "unlimited"@,
            }) + "\n- upload size: "@ + decimal((limits.max_upload_bytes / 1_048_576) as nat)
                + " MiB"@
        }),
{
}

/// Where there is nothing to tell, the answer says why.
pub proof fn law_missing_limits_are_explained(
    user: UserView,
    policies: UserPolicies,
    error: Seq<char>,
)
    requires
        !policies.table().contains_key(user.package),
    ensures
        ({
            let id = signed_decimal(user.telegram_id as int);
            &&& user_limits_text(user.telegram_id, Ok(Some(user)), policies)
                == "Could not resolve limits for user "@ + id + ": "@ + ("package `"@
                + user.package + "` is not configured"@)
            &&& user_limits_text(user.telegram_id, Ok(None), policies) == "User "@ + id
                + " does not exist."@
            &&& user_limits_text(user.telegram_id, Err(error), policies)
                == "Failed to read limits: "@ + error
            &&& stats_user_step(user.telegram_id, Ok(None)) == StatsStepView::Reply(
                "User "@ + id + " does not exist."@,
            )
            &&& stats_user_step(user.telegram_id, Err(error)) == StatsStepView::Reply(
                "Failed to read download statistics."@,
            )
            &&& stats_user_step(user.telegram_id, Ok(Some(user))) == (StatsStepView::ReadStats {
                user_id: user.telegram_id,
                identity: "User "@ + id + " — package `"@ + user.package + "` — "@
                    + (if user.enabled {
                    "enabled"@
                } else {
                    "disabled"@
                }),
            })
        }),
{
}

// ---------------------------------------------------------------------------
// Statistics
// ---------------------------------------------------------------------------

/// What is neither done, failed, cancelled nor interrupted is open: the numbers
/// of jobs add up.
pub proof fn law_jobs_add_up(stats: DownloadStats)
    requires
        stats.completed_jobs + stats.failed_jobs + stats.cancelled_jobs + stats.interrupted_jobs
            <= stats.accepted_jobs,
    ensures
        unresolved(stats) + stats.completed_jobs + stats.failed_jobs + stats.cancelled_jobs
            + stats.interrupted_jobs == stats.accepted_jobs,
        stats.completed_jobs + stats.failed_jobs <= stats.accepted_jobs,
        decided_jobs(stats) == stats.completed_jobs + stats.failed_jobs,
{
}

proof fn lemma_quotient_scale(over: nat, under: nat)
    requires
        0 < over < under * DOUBLE_LIMIT,
    ensures
        quotient_scale(over, under) >= 1,
        2 * over * quotient_scale(over, under) >= under * DOUBLE_LIMIT,
    decreases under * DOUBLE_LIMIT - over,
{
    if 2 * over < under * DOUBLE_LIMIT {
        lemma_quotient_scale(2 * over, under);
        let rest = quotient_scale(2 * over, under);
        assert(2 * over * (2 * rest) == 2 * (2 * over) * rest) by (nonlinear_arith);
    } else {
        assert(2 * over * 1 == 2 * over);
    }
}

/// The success rate is the share of completed jobs among the decided ones, in
/// percent to the nearest tenth. Without decided jobs there is none.
pub proof fn law_success_is_the_share_of_completed_jobs(completed: nat, decided: nat) -> (tenths:
    nat)
    requires
        completed <= decided,
        0 < decided < 0x100_0000_0000,
    ensures
        success_text(completed, decided) == decimal(tenths / 10) + "."@ + padded_decimal(
            tenths % 10,
            1,
        ) + "%"@,
        2 * tenths * decided <= 2_000 * completed + decided,
        2_000 * completed <= 2 * tenths * decided + decided,
        success_text(0, 0) == "n/a"@,
{
    let over = completed * 100;
    lemma_small_doubles(completed);
    lemma_small_doubles(over);
    lemma_small_doubles(decided);
    let (parts, scale) = double_quotient(over, decided);
    let tenths = half_even(parts * 10, scale);
    if over == 0 {
        assert(scale == 1);
        law_rounding_finds_the_nearest(0, decided);
        assert(0nat * 1 == 0);
        assert(parts == 0) by {
            assert(0nat / decided == 0 && 0nat % decided == 0) by {
                vstd::arithmetic::div_mod::lemma_fundamental_div_mod_converse(
                    0,
                    decided as int,
                    0,
                    0,
                );
            }
        }
        assert(tenths == 0);
        assert(0nat * decided == 0) by (nonlinear_arith);
    } else {
        assert(over < decided * DOUBLE_LIMIT) by (nonlinear_arith)
            requires
                over <= 100 * decided,
                decided > 0,
        ;
        lemma_quotient_scale(over, decided);
        law_rounding_finds_the_nearest(over * scale, decided);
        law_rounding_finds_the_nearest(parts * 10, scale);
        assert(scale >= 0x1000_0000_0000) by (nonlinear_arith)
            requires
                2 * over * scale >= decided * 0x20_0000_0000_0000,
                over <= 100 * decided,
                decided > 0,
        ;
        assert(2 * tenths * decided <= 20 * over + decided) by (nonlinear_arith)
            requires
                2 * parts * decided <= 2 * (over * scale) + decided,
                2 * tenths * scale <= 2 * (parts * 10) + scale,
                scale >= 0x1000_0000_0000,
                decided < 0x100_0000_0000,
        {
            assert(2 * tenths * scale * decided <= 20 * parts * decided + scale * decided);
            assert(2 * tenths * scale * decided <= 20 * (over * scale) + 10 * decided + scale
                * decided);
            assert(scale * (2 * tenths * decided - 20 * over - decided) <= 10 * decided);
            assert(10 * decided < scale);
        }
        assert(20 * over <= 2 * tenths * decided + decided) by (nonlinear_arith)
            requires
                2 * (over * scale) <= 2 * parts * decided + decided,
                2 * (parts * 10) <= 2 * tenths * scale + scale,
                scale >= 0x1000_0000_0000,
                decided < 0x100_0000_0000,
        {
            assert(20 * parts * decided <= 2 * tenths * scale * decided + scale * decided);
            assert(20 * (over * scale) <= 2 * tenths * scale * decided + scale * decided + 10
                * decided);
            assert(scale * (20 * over - 2 * tenths * decided - decided) <= 10 * decided);
            assert(10 * decided < scale);
        }
    }
    tenths
}

/// The statistics tell every number under its own name.
pub proof fn law_statistics_are_told(stats: GlobalStats)
    ensures
        global_stats_text(stats) == "Application download stats\nUsers: "@ + decimal(
            stats.enabled_users as nat,
        ) + " enabled / "@ + decimal(stats.users as nat) + " stored\n"@ + (({
            let jobs = stats.downloads;
            "Accepted: "@ + decimal(jobs.accepted_jobs as nat) + " ("@ + decimal(
                jobs.accepted_today as nat,
            ) + " today)\nCompleted: "@ + decimal(jobs.completed_jobs as nat) + "\nFailed: "@
                + decimal(jobs.failed_jobs as nat) + "\nCancelled: "@ + decimal(
                jobs.cancelled_jobs as nat,
            ) + "\nInterrupted/unknown: "@ + decimal(jobs.interrupted_jobs as nat)
                + "\nOpen/unresolved: "@ + decimal(unresolved(jobs))
                + "\nSuccess rate (completed vs failed): "@ + success_text(
                jobs.completed_jobs as nat,
                decided_jobs(jobs),
            )
        })),
{
}

// ---------------------------------------------------------------------------
// Lists
// ---------------------------------------------------------------------------

/// The record shown for a user is that user's own, and there is one just where
/// the user is stored.
pub proof fn law_records_are_the_users_own(stored: Seq<UserRecord>, user_id: i64)
    ensures
        stored_user(stored, user_id) is Some <==> is_stored(stored, user_id),
        stored_user(stored, user_id) matches Some(user) ==> exists|i: int|
            0 <= i < stored.len() && #[trigger] stored[i].telegram_id == user_id && stored[i]@
                == user,
    decreases stored.len(),
{
    if stored.len() > 0 {
        let fewer = stored.drop_last();
        law_records_are_the_users_own(fewer, user_id);
        if stored.last().telegram_id == user_id {
            assert(stored[stored.len() - 1].telegram_id == user_id);
        } else {
            if is_stored(fewer, user_id) {
                let i = choose|i: int|
                    0 <= i < fewer.len() && #[trigger] fewer[i].telegram_id == user_id && Some(
                        fewer[i]@,
                    ) == stored_user(fewer, user_id);
                assert(stored[i].telegram_id == user_id);
            }
            if is_stored(stored, user_id) {
                let i = choose|i: int|
                    0 <= i < stored.len() && #[trigger] stored[i].telegram_id == user_id;
                assert(fewer[i].telegram_id == user_id);
            }
        }
    }
}

/// The profile shown for a user is that user's own, and there is one just where
/// it was looked up.
pub proof fn law_profiles_are_the_users_own(profiles: Seq<(i64, UserProfile)>, user_id: i64)
    ensures
        found_profile(profiles, user_id) is Some <==> exists|i: int|
            0 <= i < profiles.len() && #[trigger] profiles[i].0 == user_id,
        found_profile(profiles, user_id) matches Some(profile) ==> exists|i: int|
            0 <= i < profiles.len() && #[trigger] profiles[i].0 == user_id && profiles[i].1@
                == profile,
    decreases profiles.len(),
{
    if profiles.len() > 0 {
        let fewer = profiles.drop_last();
        law_profiles_are_the_users_own(fewer, user_id);
        if profiles.last().0 == user_id {
            assert(profiles[profiles.len() - 1].0 == user_id);
        } else {
            if found_profile(fewer, user_id) is Some {
                let i = choose|i: int|
                    0 <= i < fewer.len() && #[trigger] fewer[i].0 == user_id && Some(fewer[i].1@)
                        == found_profile(fewer, user_id);
                assert(profiles[i].0 == user_id);
            }
            if exists|i: int| 0 <= i < profiles.len() && #[trigger] profiles[i].0 == user_id {
                let i = choose|i: int| 0 <= i < profiles.len() && #[trigger] profiles[i].0 == user_id;
                assert(fewer[i].0 == user_id);
            }
        }
    }
}

/// A user is listed by number, by name as far as one is known, and by standing.
pub proof fn law_users_are_listed_by_name(
    user_id: i64,
    username: Seq<char>,
    full_name: Seq<char>,
    user: UserView,
)
    requires
        user.enabled,
    ensures
        ({
            let id = signed_decimal(user_id as int);
            let badge = " ["@ + user.package + "]"@;
            let profile = |one: Option<Seq<char>>, other: Option<Seq<char>>| Some(
                ProfileView { username: one, full_name: other },
            );
            &&& user_line(user_id, None, false, Some(user)) == id + badge
            &&& user_line(user_id, profile(None, None), false, Some(user)) == id + badge
            &&& user_line(user_id, profile(Some(username), None), false, Some(user)) == id + " — "@
                + ("@"@ + username) + badge
            &&& user_line(user_id, profile(None, Some(full_name)), false, Some(user)) == id
                + " — "@ + full_name + badge
            &&& user_line(user_id, profile(Some(username), Some(full_name)), false, Some(user))
                == id + " — "@ + ("@"@ + username) + " — "@ + full_name + badge
            &&& user_line(user_id, None, true, Some(user)) == id + " [superuser]"@
            &&& user_line(user_id, None, true, None) == id + " [superuser]"@
            &&& user_line(user_id, None, false, None) == id
            &&& user_line(user_id, None, false, Some(UserView { enabled: false, ..user })) == id
                + (badge + " [disabled]"@)
        }),
{
    reveal_strlit("");
    reveal_with_fuel(joined, 4);
    let id = signed_decimal(user_id as int);
    let badge = " ["@ + user.package + "]"@;
    assert(badge + ""@ =~= badge);
    assert(id + ""@ =~= id);
    let first = seq![id];
    assert(first.push("@"@ + username).drop_last() =~= first);
    assert(first.push(full_name).drop_last() =~= first);
    let second = first.push("@"@ + username);
    assert(second.push(full_name).drop_last() =~= second);
}

/// The list of users has a line for each, in order, under a heading with their
/// number.
pub proof fn law_every_user_is_listed(
    ids: Seq<i64>,
    stored: Seq<UserRecord>,
    super_users: Seq<i64>,
    profiles: Seq<(i64, UserProfile)>,
    i: int,
)
    requires
        0 <= i < ids.len(),
    ensures
        user_lines(ids, stored, super_users, profiles).len() == ids.len() + 1,
        user_lines(ids, stored, super_users, profiles)[0] == "Configured users ("@ + decimal(
            ids.len(),
        ) + "):"@,
        user_lines(ids, stored, super_users, profiles)[i + 1] == user_line(
            ids[i],
            found_profile(profiles, ids[i]),
            super_users.contains(ids[i]),
            stored_user(stored, ids[i]),
        ),
{
}

/// Lines that fit together share a page.
pub proof fn law_lines_that_fit_share_a_page(lines: Seq<Seq<char>>, limit: nat)
    requires
        lines.len() > 0,
        forall|i: int| 0 <= i < lines.len() ==> #[trigger] lines[i].len() > 0,
        byte_count(joined(lines, "\n"@)) <= limit,
    ensures
        paginated(lines, limit) == seq![joined(lines, "\n"@)],
{
    lemma_one_page(lines, limit);
    assert(Seq::<Seq<char>>::empty().push(joined(lines, "\n"@)) =~= seq![
        joined(lines, "\n"@),
    ]);
}

proof fn lemma_one_page(lines: Seq<Seq<char>>, limit: nat)
    requires
        lines.len() > 0,
        forall|i: int| 0 <= i < lines.len() ==> #[trigger] lines[i].len() > 0,
        byte_count(joined(lines, "\n"@)) <= limit,
    ensures
        pages_so_far(lines, limit) == (
            Seq::<Seq<char>>::empty(),
            joined(lines, "\n"@),
        ),
        joined(lines, "\n"@).len() > 0,
    decreases lines.len(),
{
    let fewer = lines.drop_last();
    assert(lines.last() == lines[lines.len() - 1]);
    if lines.len() == 1 {
        assert(fewer.len() == 0);
        assert(pages_so_far(fewer, limit) == (Seq::<Seq<char>>::empty(), Seq::<char>::empty()));
    } else {
        let front = joined(fewer, "\n"@);
        assert forall|i: int| 0 <= i < fewer.len() implies #[trigger] fewer[i].len() > 0 by {
            assert(fewer[i] == lines[i]);
        }
        lemma_bytes_of_line(front, lines.last());
        lemma_one_page(fewer, limit);
    }
}

proof fn lemma_bytes_of_line(page: Seq<char>, line: Seq<char>)
    ensures
        byte_count(page + "\n"@ + line) == byte_count(page) + 1 + byte_count(line),
{
    reveal_strlit("\n");
    lemma_byte_count_adds(page, "\n"@);
    lemma_byte_count_adds(page + "\n"@, line);
    assert(byte_count("\n"@) == 1) by {
        reveal_with_fuel(encode_utf8, 2);
        assert("\n"@ =~= seq!['\n']);
        assert("\n"@.drop_first() =~= Seq::empty());
    }
}

} // verus!
